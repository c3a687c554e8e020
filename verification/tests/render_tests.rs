use colorful::Colorful;
use sysfetch::render::{label_width, render_report, swatch_pads, ArtFeed, Readout};
use sysfetch::style::{swatch_row_base, swatch_row_light};

fn styled(label: &str) -> String {
    format!("{}", label.cyan().bold())
}

fn base_row() -> String {
    format!(
        "{}{}{}{}{}{}{}{}",
        "   ".bg_black(),
        "   ".bg_red(),
        "   ".bg_green(),
        "   ".bg_yellow(),
        "   ".bg_blue(),
        "   ".bg_magenta(),
        "   ".bg_cyan(),
        "   ".bg_light_gray(),
    )
}

fn light_row() -> String {
    format!(
        "{}{}{}{}{}{}{}{}",
        "   ".bg_dark_gray(),
        "   ".bg_light_red(),
        "   ".bg_light_green(),
        "   ".bg_light_yellow(),
        "   ".bg_light_blue(),
        "   ".bg_light_magenta(),
        "   ".bg_light_cyan(),
        "   ".bg_color(colorful::Color::White),
    )
}

#[test]
fn swatch_rows_match_colorful_exactly() {
    assert_eq!(swatch_row_base(), base_row());
    assert_eq!(swatch_row_light(), light_row());
}

#[test]
fn swatch_pads_table() {
    assert_eq!(swatch_pads(Some(5), Some(3)), (0, 2));
    assert_eq!(swatch_pads(Some(3), Some(5)), (2, 0));
    assert_eq!(swatch_pads(Some(4), Some(4)), (0, 0));
    assert_eq!(swatch_pads(Some(4), None), (4, 4));
    assert_eq!(swatch_pads(None, None), (0, 0));
}

#[test]
fn label_width_ignores_absent_rows() {
    let rows = vec![
        Readout::new("OS", Some(String::from("Linux"))),
        Readout::new("Resolution", None),
        Readout::new("CPU", Some(String::from("x"))),
    ];
    assert_eq!(label_width(&rows), 3);
}

#[test]
fn label_width_empty() {
    let rows: Vec<Readout> = vec![];
    assert_eq!(label_width(&rows), 0);
}

#[test]
fn art_feed_substitutes_last_line_width() {
    let art = vec![String::from("##"), String::from("####")];
    let mut feed = ArtFeed::new(art);
    assert_eq!(feed.next_prefix(), "##     ");
    assert_eq!(feed.next_prefix(), "####     ");
    // exhausted: four spaces for the last line's width, then the gap
    assert_eq!(feed.next_prefix(), "         ");
}

#[test]
fn three_rows_two_art_lines() {
    // Three rows against two art lines: the absent middle row consumes the
    // second art line silently, so the third row meets exhausted art and pads
    // with the last line's visible width.
    let rows = vec![
        Readout::new("OS", Some(String::from("Linux"))),
        Readout::new("Kernel", None),
        Readout::new("Uptime", Some(String::from("1 Hours, 1 Minutes"))),
    ];
    let art = vec![String::from("AA"), String::from("BB")];
    let out = render_report(&None, &None, &rows, art);

    let pad7 = " ".repeat(7); // exhausted prefix: last width 2 + gap 5
    assert_eq!(out.len(), 6);
    assert_eq!(out[0], format!("AA     {}: {}Linux", styled("OS"), " ".repeat(4)));
    assert_eq!(
        out[1],
        format!("{}{}: 1 Hours, 1 Minutes", pad7, styled("Uptime"))
    );
    assert_eq!(out[2], pad7); // swatch spacing line
    assert_eq!(out[3], format!("{}{}", pad7, base_row()));
    assert_eq!(out[4], format!("{}{}", pad7, light_row()));
    assert_eq!(out[5], pad7); // closing padding line
    // "BB" was consumed by the absent row and never printed
    assert!(out.iter().all(|l| !l.contains("BB")));
}

#[test]
fn greeting_and_drain_with_long_art() {
    let rows = vec![Readout::new("K", Some(String::from("v\n")))];
    let art = vec![
        String::from("a"),
        String::from("bb"),
        String::from("ccc"),
        String::from("dddd"),
        String::from("eeeee"),
        String::from("ffffff"),
        String::from("ggggggg"),
    ];
    let user = Some(String::from("u"));
    let host = Some(String::from("hh"));
    let out = render_report(&user, &host, &rows, art);

    assert_eq!(out.len(), 8);
    // greeting: user@host in bold cyan, dashes as wide as the unstyled text
    assert_eq!(
        out[0],
        format!("a     {}@{}", styled("u"), styled("hh"))
    );
    assert_eq!(out[1], format!("bb     {}", "-".repeat(4)));
    // the one row: trailing newline of the value stripped
    assert_eq!(out[2], format!("ccc     {}: v", styled("K")));
    // swatch block: spacing line, then next=5 ("eeeee") vs peek=6 ("ffffff"):
    // the first row pads by the one-column difference, the second not at all
    assert_eq!(out[3], "dddd     ");
    assert_eq!(out[4], format!("eeeee      {}", base_row()));
    assert_eq!(out[5], format!("ffffff     {}", light_row()));
    // drain: the untouched last art line, then the closing padding line
    assert_eq!(out[6], "ggggggg     ");
    assert_eq!(out[7], format!("{}", " ".repeat(12)));
}

#[test]
fn greeting_needs_both_names() {
    let rows: Vec<Readout> = vec![];
    let art = vec![String::from("x")];
    let user = Some(String::from("u"));
    let out = render_report(&user, &None, &rows, art);
    // no greeting: straight to the swatch block
    assert_eq!(out[0], "x     ");
    assert!(out.iter().all(|l| !l.contains('@')));
}

#[test]
fn readout_new_keeps_key_and_value() {
    let r = Readout::new("Shell", Some(String::from("zsh")));
    assert_eq!(r.key, "Shell");
    assert_eq!(r.value, Some(String::from("zsh")));
}
