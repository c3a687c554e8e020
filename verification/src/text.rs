//! Plain-text measures: visible width of a line and trailing-newline removal.

use vstd::prelude::*;

verus! {

/// A control character: the C0 range, DEL, and the C1 range.
pub open spec fn is_control_char(c: char) -> bool {
    (c as u32) < 0x20 || (0x7f <= (c as u32) && (c as u32) <= 0x9f)
}

/// The visible width of a line: how many of its characters are not control
/// characters. Control characters (the escape character among them) render
/// zero-width; the printable bytes of an escape sequence still count.
pub open spec fn visible_width(s: Seq<char>) -> nat
    decreases s.len(),
{
    if s.len() == 0 {
        0
    } else {
        visible_width(s.drop_last()) + if is_control_char(s.last()) {
            0nat
        } else {
            1nat
        }
    }
}

/// Count of non-control characters in `s`.
pub fn line_length(s: &str) -> (n: usize)
    ensures
        n == visible_width(s@),
{
    let len = s.unicode_len();
    let mut n: usize = 0;
    let mut i: usize = 0;
    while i < len
        invariant
            i <= len,
            len == s@.len(),
            n == visible_width(s@.take(i as int)),
            n <= i,
        decreases len - i,
    {
        let c = s.get_char(i);
        let u = c as u32;
        if !(u < 0x20 || (0x7f <= u && u <= 0x9f)) {
            n = n + 1;
        }
        proof {
            assert(s@.take(i as int + 1).drop_last() =~= s@.take(i as int));
            assert(s@.take(i as int + 1).last() == c);
        }
        i = i + 1;
    }
    proof {
        assert(s@.take(len as int) =~= s@);
    }
    n
}

/// What remains of `s` once one trailing line terminator (`\n` or `\r\n`)
/// is removed; `s` itself when it ends in neither.
pub open spec fn spec_strip_newline(s: Seq<char>) -> Seq<char> {
    if s.len() > 0 && s.last() == '\n' {
        let t = s.drop_last();
        if t.len() > 0 && t.last() == '\r' {
            t.drop_last()
        } else {
            t
        }
    } else {
        s
    }
}

/// Removes exactly one trailing line terminator (`\n` or `\r\n`), if present.
pub fn strip_newline(s: &str) -> (r: String)
    ensures
        r@ == spec_strip_newline(s@),
{
    let len = s.unicode_len();
    if len > 0 && s.get_char(len - 1) == '\n' {
        if len > 1 && s.get_char(len - 2) == '\r' {
            let t = s.substring_char(0, len - 2);
            proof {
                assert(s@.subrange(0, len - 2) =~= s@.drop_last().drop_last());
            }
            t.to_owned()
        } else {
            let t = s.substring_char(0, len - 1);
            proof {
                assert(s@.subrange(0, len - 1) =~= s@.drop_last());
            }
            t.to_owned()
        }
    } else {
        s.to_owned()
    }
}

/// A whitespace character: Unicode's White_Space set.
pub open spec fn is_space_char(c: char) -> bool {
    (c as u32) == 0x20 || (c as u32) == 0x9 || (c as u32) == 0xa || (c as u32) == 0xb || (
    c as u32) == 0xc || (c as u32) == 0xd || (c as u32) == 0x85 || (c as u32) == 0xa0 || (
    c as u32) == 0x1680 || (0x2000 <= (c as u32) && (c as u32) <= 0x200a) || (c as u32) == 0x2028
        || (c as u32) == 0x2029 || (c as u32) == 0x202f || (c as u32) == 0x205f || (c as u32)
        == 0x3000
}

/// `s` without its leading and trailing whitespace.
pub open spec fn spec_trim(s: Seq<char>) -> Seq<char>
    decreases s.len(),
{
    if s.len() > 0 && is_space_char(s[0]) {
        spec_trim(s.drop_first())
    } else if s.len() > 0 && is_space_char(s.last()) {
        spec_trim(s.drop_last())
    } else {
        s
    }
}

/// Whether `c` is whitespace.
fn is_space(c: char) -> (r: bool)
    ensures
        r == is_space_char(c),
{
    let u = c as u32;
    u == 0x20 || u == 0x9 || u == 0xa || u == 0xb || u == 0xc || u == 0xd || u == 0x85 || u == 0xa0
        || u == 0x1680 || (0x2000 <= u && u <= 0x200a) || u == 0x2028 || u == 0x2029 || u == 0x202f
        || u == 0x205f || u == 0x3000
}

proof fn lemma_trim_all_space(s: Seq<char>)
    requires
        forall|j: int| 0 <= j < s.len() ==> is_space_char(s[j]),
    ensures
        spec_trim(s) == Seq::<char>::empty(),
    decreases s.len(),
{
    if s.len() > 0 {
        lemma_trim_all_space(s.drop_first());
    }
}

proof fn lemma_trim_range(s: Seq<char>, lo: int, hi: int)
    requires
        0 <= lo <= hi <= s.len(),
        forall|j: int| 0 <= j < lo ==> is_space_char(s[j]),
        forall|j: int| hi <= j < s.len() ==> is_space_char(s[j]),
        lo < hi ==> !is_space_char(s[lo]) && !is_space_char(s[hi - 1]),
    ensures
        spec_trim(s) == s.subrange(lo, hi),
    decreases s.len(),
{
    if lo == hi {
        lemma_trim_all_space(s);
        assert(s.subrange(lo, hi) =~= Seq::<char>::empty());
    } else if lo > 0 {
        lemma_trim_range(s.drop_first(), lo - 1, hi - 1);
        assert(s.drop_first().subrange(lo - 1, hi - 1) =~= s.subrange(lo, hi));
    } else if hi < s.len() {
        lemma_trim_range(s.drop_last(), lo, hi);
        assert(s.drop_last().subrange(lo, hi) =~= s.subrange(lo, hi));
    } else {
        assert(s.subrange(0, s.len() as int) =~= s);
    }
}

/// Removes leading and trailing whitespace.
pub fn trim_str(s: &str) -> (r: String)
    ensures
        r@ == spec_trim(s@),
{
    let len = s.unicode_len();
    let mut lo: usize = 0;
    let mut hi: usize = len;
    while lo < hi && is_space(s.get_char(lo))
        invariant
            lo <= hi <= len,
            len == s@.len(),
            forall|j: int| 0 <= j < lo ==> is_space_char(s@[j]),
        decreases hi - lo,
    {
        lo = lo + 1;
    }
    while hi > lo && is_space(s.get_char(hi - 1))
        invariant
            lo <= hi <= len,
            len == s@.len(),
            forall|j: int| 0 <= j < lo ==> is_space_char(s@[j]),
            forall|j: int| hi <= j < len ==> is_space_char(s@[j]),
            lo < hi ==> !is_space_char(s@[lo as int]),
        decreases hi,
    {
        hi = hi - 1;
    }
    proof {
        lemma_trim_range(s@, lo as int, hi as int);
    }
    let t = s.substring_char(lo, hi);
    t.to_owned()
}

/// Visible width distributes over concatenation.
pub proof fn lemma_visible_width_add(a: Seq<char>, b: Seq<char>)
    ensures
        visible_width(a + b) == visible_width(a) + visible_width(b),
    decreases b.len(),
{
    if b.len() == 0 {
        assert(a + b =~= a);
    } else {
        lemma_visible_width_add(a, b.drop_last());
        assert((a + b).drop_last() =~= a + b.drop_last());
        assert((a + b).last() == b.last());
    }
}

/// A run made only of control characters has visible width zero.
pub proof fn lemma_visible_width_all_controls(c: Seq<char>)
    requires
        forall|i: int| 0 <= i < c.len() ==> is_control_char(c[i]),
    ensures
        visible_width(c) == 0,
    decreases c.len(),
{
    if c.len() > 0 {
        lemma_visible_width_all_controls(c.drop_last());
    }
}

/// The visible width of a line does not depend on how many control or escape
/// characters are embedded in it: a run of control characters inserted at any
/// point leaves the width unchanged.
pub proof fn lemma_visible_width_ignores_controls(a: Seq<char>, c: Seq<char>, b: Seq<char>)
    requires
        forall|i: int| 0 <= i < c.len() ==> is_control_char(c[i]),
    ensures
        visible_width(a + c + b) == visible_width(a + b),
{
    lemma_visible_width_add(a + c, b);
    lemma_visible_width_add(a, c);
    lemma_visible_width_add(a, b);
    lemma_visible_width_all_controls(c);
}

/// `strip_newline` is idempotent on its own output, as long as that output
/// does not itself still end in a line feed (stripping `"a\n\n"` leaves
/// `"a\n"`, which a second pass would shorten further).
pub proof fn lemma_strip_newline_idempotent(s: Seq<char>)
    requires
        spec_strip_newline(s).len() == 0 || spec_strip_newline(s).last() != '\n',
    ensures
        spec_strip_newline(spec_strip_newline(s)) == spec_strip_newline(s),
{
}

} // verus!
