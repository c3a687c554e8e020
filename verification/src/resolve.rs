//! Ordered fallback among alternative fact sources, and the line-scanning
//! fallback that reads a `key=value` entry out of a settings file's lines.

use vstd::prelude::*;

use crate::text::{spec_trim, trim_str};

verus! {

/// First success wins: the first present value among the outcomes, in order.
pub open spec fn spec_first_present(s: Seq<Option<String>>) -> Option<String>
    decreases s.len(),
{
    if s.len() == 0 {
        None
    } else if s[0] is Some {
        s[0]
    } else {
        spec_first_present(s.drop_first())
    }
}

proof fn lemma_first_present_at(s: Seq<Option<String>>, i: int)
    requires
        0 <= i < s.len(),
        forall|j: int| 0 <= j < i ==> s[j] is None,
        s[i] is Some,
    ensures
        spec_first_present(s) == s[i],
    decreases i,
{
    if i > 0 {
        lemma_first_present_at(s.drop_first(), i - 1);
    }
}

proof fn lemma_first_present_none(s: Seq<Option<String>>)
    requires
        forall|j: int| 0 <= j < s.len() ==> s[j] is None,
    ensures
        spec_first_present(s) is None,
    decreases s.len(),
{
    if s.len() > 0 {
        lemma_first_present_none(s.drop_first());
    }
}

/// Tries the outcomes of an ordered list of sources and keeps the first
/// success; absent when every source failed. Failures are not errors: each
/// source was attempted exactly once and a missing value is only "unavailable".
pub fn resolve(outcomes: &Vec<Option<String>>) -> (r: Option<String>)
    ensures
        r == spec_first_present(outcomes@),
{
    let mut i: usize = 0;
    while i < outcomes.len()
        invariant
            i <= outcomes@.len(),
            forall|j: int| 0 <= j < i ==> outcomes@[j] is None,
        decreases outcomes@.len() - i,
    {
        if let Some(v) = &outcomes[i] {
            let r = Some(v.clone());
            proof {
                lemma_first_present_at(outcomes@, i as int);
            }
            return r;
        }
        i = i + 1;
    }
    proof {
        lemma_first_present_none(outcomes@);
    }
    None
}

/// `needle` occurs in `hay` starting at position `i`.
pub open spec fn occurs_at(hay: Seq<char>, needle: Seq<char>, i: int) -> bool {
    0 <= i && i + needle.len() <= hay.len() && hay.subrange(i, i + needle.len()) == needle
}

/// `needle` occurs somewhere in `hay`.
pub open spec fn contains_seq(hay: Seq<char>, needle: Seq<char>) -> bool {
    exists|i: int| occurs_at(hay, needle, i)
}

/// Whether `hay` and `needle` agree over the length of `needle` from `i` on.
fn match_at(hay: &str, needle: &str, i: usize) -> (r: bool)
    requires
        i + needle@.len() <= hay@.len(),
    ensures
        r == occurs_at(hay@, needle@, i as int),
{
    let hlen = hay.unicode_len();
    let nlen = needle.unicode_len();
    let mut j: usize = 0;
    while j < nlen
        invariant
            j <= nlen,
            nlen == needle@.len(),
            hlen == hay@.len(),
            i + nlen <= hlen,
            forall|k: int| 0 <= k < j ==> hay@[i + k] == needle@[k],
        decreases nlen - j,
    {
        if hay.get_char(i + j) != needle.get_char(j) {
            proof {
                assert(hay@.subrange(i as int, i as int + nlen as int)[j as int] == hay@[
                    i as int + j as int
                ]);
            }
            return false;
        }
        j = j + 1;
    }
    proof {
        assert(hay@.subrange(i as int, i as int + nlen as int) =~= needle@);
    }
    true
}

/// Whether `needle` occurs anywhere in `hay`.
pub fn contains_str(hay: &str, needle: &str) -> (r: bool)
    ensures
        r == contains_seq(hay@, needle@),
{
    let hlen = hay.unicode_len();
    let nlen = needle.unicode_len();
    if nlen > hlen {
        return false;
    }
    if nlen == 0 {
        proof {
            assert(hay@.subrange(0, 0) =~= needle@);
            assert(occurs_at(hay@, needle@, 0));
        }
        return true;
    }
    let mut i: usize = 0;
    while i <= hlen - nlen
        invariant
            0 < nlen <= hlen,
            hlen == hay@.len(),
            nlen == needle@.len(),
            i <= hlen - nlen + 1,
            forall|j: int| 0 <= j < i ==> !occurs_at(hay@, needle@, j),
        decreases hlen - nlen - i + 1,
    {
        if match_at(hay, needle, i) {
            return true;
        }
        i = i + 1;
    }
    false
}

/// The value part of a line: what follows the first `=`, trimmed of leading
/// and trailing whitespace; absent when the line holds no `=` at all.
pub open spec fn spec_line_value(line: Seq<char>) -> Option<Seq<char>>
    decreases line.len(),
{
    if line.len() == 0 {
        None
    } else if line[0] == '=' {
        Some(spec_trim(line.drop_first()))
    } else {
        spec_line_value(line.drop_first())
    }
}

proof fn lemma_line_value_at(line: Seq<char>, e: int)
    requires
        0 <= e < line.len(),
        line[e] == '=',
        forall|j: int| 0 <= j < e ==> line[j] != '=',
    ensures
        spec_line_value(line) == Some(spec_trim(line.subrange(e + 1, line.len() as int))),
    decreases e,
{
    if e == 0 {
        assert(line.drop_first() =~= line.subrange(1, line.len() as int));
    } else {
        lemma_line_value_at(line.drop_first(), e - 1);
        assert(line.drop_first().subrange(e, line.len() as int - 1) =~= line.subrange(
            e + 1,
            line.len() as int,
        ));
    }
}

proof fn lemma_line_value_none(line: Seq<char>)
    requires
        forall|j: int| 0 <= j < line.len() ==> line[j] != '=',
    ensures
        spec_line_value(line) is None,
    decreases line.len(),
{
    if line.len() > 0 {
        lemma_line_value_none(line.drop_first());
    }
}

/// What follows the first `=` of `line`, trimmed, or absent when it has none.
fn line_value(line: &str) -> (r: Option<String>)
    ensures
        r is Some <==> spec_line_value(line@) is Some,
        r matches Some(v) ==> spec_line_value(line@) == Some(v@),
{
    let len = line.unicode_len();
    let mut i: usize = 0;
    while i < len
        invariant
            i <= len,
            len == line@.len(),
            forall|j: int| 0 <= j < i ==> line@[j] != '=',
        decreases len - i,
    {
        if line.get_char(i) == '=' {
            let v = trim_str(line.substring_char(i + 1, len));
            proof {
                lemma_line_value_at(line@, i as int);
            }
            return Some(v);
        }
        i = i + 1;
    }
    proof {
        lemma_line_value_none(line@);
    }
    None
}

/// The first line containing `key` decides the result: the trimmed text
/// after that line's first `=`. Absent when no line matches, or the matching
/// line has no `=`.
pub open spec fn spec_scan_key(lines: Seq<String>, key: Seq<char>) -> Option<Seq<char>>
    decreases lines.len(),
{
    if lines.len() == 0 {
        None
    } else if contains_seq(lines[0]@, key) {
        spec_line_value(lines[0]@)
    } else {
        spec_scan_key(lines.drop_first(), key)
    }
}

proof fn lemma_scan_key_skip(lines: Seq<String>, key: Seq<char>, i: int)
    requires
        0 <= i <= lines.len(),
        forall|j: int| 0 <= j < i ==> !contains_seq(lines[j]@, key),
    ensures
        spec_scan_key(lines, key) == spec_scan_key(lines.skip(i), key),
    decreases i,
{
    if i > 0 {
        lemma_scan_key_skip(lines.drop_first(), key, i - 1);
        assert(lines.drop_first().skip(i - 1) =~= lines.skip(i));
    } else {
        assert(lines.skip(0) =~= lines);
    }
}

/// Scans the lines of a configuration file for the first one containing
/// `key`, and returns what follows that line's first `=`, trimmed of
/// surrounding whitespace. Fails as absent, never panics: no matching line,
/// or a matching line without `=`, give `None`.
pub fn scan_key(lines: &Vec<String>, key: &str) -> (r: Option<String>)
    ensures
        r is Some <==> spec_scan_key(lines@, key@) is Some,
        r matches Some(v) ==> spec_scan_key(lines@, key@) == Some(v@),
{
    let mut i: usize = 0;
    while i < lines.len()
        invariant
            i <= lines@.len(),
            forall|j: int| 0 <= j < i ==> !contains_seq(lines@[j]@, key@),
        decreases lines@.len() - i,
    {
        if contains_str(lines[i].as_str(), key) {
            proof {
                lemma_scan_key_skip(lines@, key@, i as int);
                assert(lines@.skip(i as int)[0] == lines@[i as int]);
            }
            return line_value(lines[i].as_str());
        }
        i = i + 1;
    }
    proof {
        lemma_scan_key_skip(lines@, key@, lines@.len() as int);
    }
    None
}

} // verus!
