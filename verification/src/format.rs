//! Display formatting of typed facts: durations, byte pairs, and lists.

use vstd::prelude::*;

use crate::numfmt::{dec_digit, dec_rep, digit_str, u64_to_string};

verus! {

/// `d` seconds shown as whole hours and leftover whole minutes, rounded down.
pub open spec fn spec_format_duration(d: u64) -> Seq<char> {
    dec_rep((d as nat) / 3600) + " Hours, "@ + dec_rep(((d as nat) % 3600) / 60) + " Minutes"@
}

/// Formats an uptime of `d` seconds as `"H Hours, M Minutes"`, where H is the
/// number of whole hours in `d` and M the number of whole minutes left over
/// (floor in both places, so 3661 seconds give `"1 Hours, 1 Minutes"`).
/// The minute part is always below 60.
pub fn format_duration(d: u64) -> (r: String)
    ensures
        r@ == spec_format_duration(d),
        ((d as nat) % 3600) / 60 < 60,
{
    let h = d / 3600;
    let m = (d % 3600) / 60;
    let mut r = u64_to_string(h);
    r.append(" Hours, ");
    let ms = u64_to_string(m);
    r.append(ms.as_str());
    r.append(" Minutes");
    proof {
        assert(r@ =~= spec_format_duration(d));
    }
    r
}

/// The byte count in hundredths of a GiB, rounded to the nearest hundredth,
/// a tie rounding up.
pub open spec fn gib_total_cents(bytes: u64) -> nat {
    ((bytes as nat) * 100 + 0x20000000) / 0x40000000
}

/// The whole GiB shown before the decimal point (rounding carries into it:
/// one byte short of 2 GiB still shows as 2.00).
pub open spec fn gib_whole(bytes: u64) -> nat {
    gib_total_cents(bytes) / 100
}

/// The two digits shown after the decimal point.
pub open spec fn gib_cents(bytes: u64) -> nat {
    gib_total_cents(bytes) % 100
}

/// A byte count written as GiB with exactly two decimals, the hundredths
/// rounded to nearest.
pub open spec fn spec_gib(bytes: u64) -> Seq<char> {
    dec_rep(gib_whole(bytes)) + seq![
        '.',
        dec_digit(gib_cents(bytes) / 10),
        dec_digit(gib_cents(bytes) % 10),
    ]
}

/// A used/total pair of byte counts as `"<used>GiB / <total>GiB"`.
pub open spec fn spec_format_memory(used: u64, total: u64) -> Seq<char> {
    spec_gib(used) + "GiB / "@ + spec_gib(total) + "GiB"@
}

/// `bytes` written as GiB with two decimals (nearest hundredth, ties up).
fn gib_string(bytes: u64) -> (r: String)
    ensures
        r@ == spec_gib(bytes),
{
    let t: u128 = (bytes as u128) * 100 + 0x20000000;
    proof {
        assert(t < 0x40000000 * 0x20000000000) by (nonlinear_arith)
            requires
                t == (bytes as nat) * 100 + 0x20000000 && bytes <= 0xffffffffffffffffu64,
        ;
        assert(t / 0x40000000 < 0x20000000000) by (nonlinear_arith)
            requires
                t < 0x40000000 * 0x20000000000,
        ;
    }
    let total: u128 = t / 0x40000000;
    let whole: u64 = (total / 100) as u64;
    let cents: u64 = (total % 100) as u64;
    let mut r = u64_to_string(whole);
    r.append(".");
    r.append(digit_str(cents / 10));
    r.append(digit_str(cents % 10));
    proof {
        reveal_strlit(".");
        assert(r@ =~= spec_gib(bytes));
    }
    r
}

/// Formats a (used, total) pair of byte counts as
/// `"<used/1024^3:.2>GiB / <total/1024^3:.2>GiB"`, each amount rounded to the
/// nearest hundredth of a GiB, a tie rounding up.
pub fn format_memory(used: u64, total: u64) -> (r: String)
    ensures
        r@ == spec_format_memory(used, total),
{
    let mut r = gib_string(used);
    r.append("GiB / ");
    let t = gib_string(total);
    r.append(t.as_str());
    r.append("GiB");
    proof {
        assert(r@ =~= spec_format_memory(used, total));
    }
    r
}

/// One package entry: `"<count> (<manager>)"`.
pub open spec fn spec_package_entry(p: (String, u64)) -> Seq<char> {
    dec_rep(p.1 as nat) + " ("@ + p.0@ + ")"@
}

/// Package entries joined with `", "`.
pub open spec fn spec_packages_joined(s: Seq<(String, u64)>) -> Seq<char>
    decreases s.len(),
{
    if s.len() == 0 {
        Seq::empty()
    } else if s.len() == 1 {
        spec_package_entry(s[0])
    } else {
        spec_packages_joined(s.drop_last()) + ", "@ + spec_package_entry(s.last())
    }
}

/// Formats package counts per manager as `"<count> (<manager>)"` joined with
/// `", "`. An empty list counts as unavailable, never as an empty string.
pub fn format_packages(pkgs: &Vec<(String, u64)>) -> (r: Option<String>)
    ensures
        r is None <==> pkgs@.len() == 0,
        r matches Some(s) ==> s@ == spec_packages_joined(pkgs@),
{
    if pkgs.len() == 0 {
        return None;
    }
    let mut acc = String::new();
    let mut i: usize = 0;
    while i < pkgs.len()
        invariant
            i <= pkgs@.len(),
            acc@ == spec_packages_joined(pkgs@.take(i as int)),
        decreases pkgs@.len() - i,
    {
        if i > 0 {
            acc.append(", ");
        }
        let cnt = u64_to_string(pkgs[i].1);
        acc.append(cnt.as_str());
        acc.append(" (");
        acc.append(pkgs[i].0.as_str());
        acc.append(")");
        proof {
            assert(pkgs@.take(i as int + 1).drop_last() =~= pkgs@.take(i as int));
            assert(pkgs@.take(i as int + 1).last() == pkgs@[i as int]);
            assert(acc@ =~= spec_packages_joined(pkgs@.take(i as int + 1)));
        }
        i = i + 1;
    }
    proof {
        assert(pkgs@.take(pkgs@.len() as int) =~= pkgs@);
    }
    Some(acc)
}

/// Text entries joined with `", "`; empty input gives the empty string.
pub open spec fn spec_list_joined(s: Seq<String>) -> Seq<char>
    decreases s.len(),
{
    if s.len() == 0 {
        Seq::empty()
    } else if s.len() == 1 {
        s[0]@
    } else {
        spec_list_joined(s.drop_last()) + ", "@ + s.last()@
    }
}

/// Joins a list of GPU names with `", "`; an empty list gives an empty string.
pub fn format_gpu(gpus: &Vec<String>) -> (r: String)
    ensures
        r@ == spec_list_joined(gpus@),
{
    let mut acc = String::new();
    let mut i: usize = 0;
    while i < gpus.len()
        invariant
            i <= gpus@.len(),
            acc@ == spec_list_joined(gpus@.take(i as int)),
        decreases gpus@.len() - i,
    {
        if i > 0 {
            acc.append(", ");
        }
        acc.append(gpus[i].as_str());
        proof {
            assert(gpus@.take(i as int + 1).drop_last() =~= gpus@.take(i as int));
            assert(gpus@.take(i as int + 1).last() == gpus@[i as int]);
            assert(acc@ =~= spec_list_joined(gpus@.take(i as int + 1)));
        }
        i = i + 1;
    }
    proof {
        assert(gpus@.take(gpus@.len() as int) =~= gpus@);
    }
    acc
}

} // verus!
