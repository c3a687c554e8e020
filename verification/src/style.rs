//! Terminal styling through the `colorful` crate. The trusted wrappers state
//! the exact escape sequences that colorful writes for a simple
//! (256-palette) color, as its `CString` `Display` impl shows them.

use vstd::prelude::*;

use colorful::Colorful;

verus! {

/// `s` wrapped in colorful's bold cyan foreground styling: the escape
/// `ESC[38;5;6;1m` (256-palette foreground 6, style 1), the text, a reset.
pub open spec fn spec_cyan_bold(s: Seq<char>) -> Seq<char> {
    "\u{1b}[38;5;6;1m"@ + s + "\u{1b}[0m"@
}

/// `s` on the 256-palette background color `code`: the escape
/// `ESC[48;5;<code>m`, the text, a reset.
pub open spec fn spec_bg(code: Seq<char>, s: Seq<char>) -> Seq<char> {
    "\u{1b}[48;5;"@ + code + "m"@ + s + "\u{1b}[0m"@
}

/// Relies on colorful's `Colorful::cyan` and `Colorful::bold`, and on the
/// `Display` impl of its `CString`: a simple foreground color with one style
/// renders as `ESC[38;5;` + color code + `;` + style code + `m`, the
/// unchanged text, then the reset `ESC[0m`; cyan is color 6, bold style 1.
#[verifier::external_body]
pub(crate) fn cyan_bold(s: &str) -> (r: String)
    ensures
        r@ == spec_cyan_bold(s@),
{
    format!("{}", s.cyan().bold())
}

/// Relies on colorful's `Colorful::bg_black` (background color 0) and the
/// `Display` impl of its `CString`: a simple background color renders as
/// `ESC[48;5;` + color code + `m`, the unchanged text, then `ESC[0m`.
#[verifier::external_body]
fn bg_black(s: &str) -> (r: String)
    ensures
        r@ == spec_bg("0"@, s@),
{
    format!("{}", s.bg_black())
}

/// Relies on colorful's `Colorful::bg_red` (background color 1), as
/// `bg_black` above.
#[verifier::external_body]
fn bg_red(s: &str) -> (r: String)
    ensures
        r@ == spec_bg("1"@, s@),
{
    format!("{}", s.bg_red())
}

/// Relies on colorful's `Colorful::bg_green` (background color 2), as
/// `bg_black` above.
#[verifier::external_body]
fn bg_green(s: &str) -> (r: String)
    ensures
        r@ == spec_bg("2"@, s@),
{
    format!("{}", s.bg_green())
}

/// Relies on colorful's `Colorful::bg_yellow` (background color 3), as
/// `bg_black` above.
#[verifier::external_body]
fn bg_yellow(s: &str) -> (r: String)
    ensures
        r@ == spec_bg("3"@, s@),
{
    format!("{}", s.bg_yellow())
}

/// Relies on colorful's `Colorful::bg_blue` (background color 4), as
/// `bg_black` above.
#[verifier::external_body]
fn bg_blue(s: &str) -> (r: String)
    ensures
        r@ == spec_bg("4"@, s@),
{
    format!("{}", s.bg_blue())
}

/// Relies on colorful's `Colorful::bg_magenta` (background color 5), as
/// `bg_black` above.
#[verifier::external_body]
fn bg_magenta(s: &str) -> (r: String)
    ensures
        r@ == spec_bg("5"@, s@),
{
    format!("{}", s.bg_magenta())
}

/// Relies on colorful's `Colorful::bg_cyan` (background color 6), as
/// `bg_black` above.
#[verifier::external_body]
fn bg_cyan(s: &str) -> (r: String)
    ensures
        r@ == spec_bg("6"@, s@),
{
    format!("{}", s.bg_cyan())
}

/// Relies on colorful's `Colorful::bg_light_gray` (background color 7), as
/// `bg_black` above.
#[verifier::external_body]
fn bg_light_gray(s: &str) -> (r: String)
    ensures
        r@ == spec_bg("7"@, s@),
{
    format!("{}", s.bg_light_gray())
}

/// Relies on colorful's `Colorful::bg_dark_gray` (background color 8), as
/// `bg_black` above.
#[verifier::external_body]
fn bg_dark_gray(s: &str) -> (r: String)
    ensures
        r@ == spec_bg("8"@, s@),
{
    format!("{}", s.bg_dark_gray())
}

/// Relies on colorful's `Colorful::bg_light_red` (background color 9), as
/// `bg_black` above.
#[verifier::external_body]
fn bg_light_red(s: &str) -> (r: String)
    ensures
        r@ == spec_bg("9"@, s@),
{
    format!("{}", s.bg_light_red())
}

/// Relies on colorful's `Colorful::bg_light_green` (background color 10), as
/// `bg_black` above.
#[verifier::external_body]
fn bg_light_green(s: &str) -> (r: String)
    ensures
        r@ == spec_bg("10"@, s@),
{
    format!("{}", s.bg_light_green())
}

/// Relies on colorful's `Colorful::bg_light_yellow` (background color 11), as
/// `bg_black` above.
#[verifier::external_body]
fn bg_light_yellow(s: &str) -> (r: String)
    ensures
        r@ == spec_bg("11"@, s@),
{
    format!("{}", s.bg_light_yellow())
}

/// Relies on colorful's `Colorful::bg_light_blue` (background color 12), as
/// `bg_black` above.
#[verifier::external_body]
fn bg_light_blue(s: &str) -> (r: String)
    ensures
        r@ == spec_bg("12"@, s@),
{
    format!("{}", s.bg_light_blue())
}

/// Relies on colorful's `Colorful::bg_light_magenta` (background color 13),
/// as `bg_black` above.
#[verifier::external_body]
fn bg_light_magenta(s: &str) -> (r: String)
    ensures
        r@ == spec_bg("13"@, s@),
{
    format!("{}", s.bg_light_magenta())
}

/// Relies on colorful's `Colorful::bg_light_cyan` (background color 14), as
/// `bg_black` above.
#[verifier::external_body]
fn bg_light_cyan(s: &str) -> (r: String)
    ensures
        r@ == spec_bg("14"@, s@),
{
    format!("{}", s.bg_light_cyan())
}

/// Relies on colorful's `Colorful::bg_white` (background color 15, the same
/// rendering as `bg_color(Color::White)`), as `bg_black` above.
#[verifier::external_body]
fn bg_white(s: &str) -> (r: String)
    ensures
        r@ == spec_bg("15"@, s@),
{
    format!("{}", s.bg_white())
}

/// The first swatch row: the eight base palette colors, each a
/// three-character block.
pub open spec fn spec_swatch_row_base() -> Seq<char> {
    spec_bg("0"@, "   "@) + spec_bg("1"@, "   "@) + spec_bg("2"@, "   "@) + spec_bg("3"@, "   "@)
        + spec_bg("4"@, "   "@) + spec_bg("5"@, "   "@) + spec_bg("6"@, "   "@) + spec_bg(
        "7"@,
        "   "@,
    )
}

/// The second swatch row: the eight bright palette colors, each a
/// three-character block.
pub open spec fn spec_swatch_row_light() -> Seq<char> {
    spec_bg("8"@, "   "@) + spec_bg("9"@, "   "@) + spec_bg("10"@, "   "@) + spec_bg(
        "11"@,
        "   "@,
    ) + spec_bg("12"@, "   "@) + spec_bg("13"@, "   "@) + spec_bg("14"@, "   "@) + spec_bg(
        "15"@,
        "   "@,
    )
}

/// The eight base palette colors as three-character background blocks.
pub fn swatch_row_base() -> (r: String)
    ensures
        r@ == spec_swatch_row_base(),
{
    let mut r = bg_black("   ");
    let s1 = bg_red("   ");
    r.append(s1.as_str());
    let s2 = bg_green("   ");
    r.append(s2.as_str());
    let s3 = bg_yellow("   ");
    r.append(s3.as_str());
    let s4 = bg_blue("   ");
    r.append(s4.as_str());
    let s5 = bg_magenta("   ");
    r.append(s5.as_str());
    let s6 = bg_cyan("   ");
    r.append(s6.as_str());
    let s7 = bg_light_gray("   ");
    r.append(s7.as_str());
    proof {
        assert(r@ =~= spec_swatch_row_base());
    }
    r
}

/// The eight bright palette colors as three-character background blocks.
pub fn swatch_row_light() -> (r: String)
    ensures
        r@ == spec_swatch_row_light(),
{
    let mut r = bg_dark_gray("   ");
    let s1 = bg_light_red("   ");
    r.append(s1.as_str());
    let s2 = bg_light_green("   ");
    r.append(s2.as_str());
    let s3 = bg_light_yellow("   ");
    r.append(s3.as_str());
    let s4 = bg_light_blue("   ");
    r.append(s4.as_str());
    let s5 = bg_light_magenta("   ");
    r.append(s5.as_str());
    let s6 = bg_light_cyan("   ");
    r.append(s6.as_str());
    let s7 = bg_white("   ");
    r.append(s7.as_str());
    proof {
        assert(r@ =~= spec_swatch_row_light());
    }
    r
}

} // verus!
