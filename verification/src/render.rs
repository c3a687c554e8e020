//! The art-paired renderer: report rows and art lines share one cursor, one
//! physical output line per advance, so text and art stay vertically synced.

use vstd::prelude::*;

use crate::style::{
    cyan_bold, spec_cyan_bold, spec_swatch_row_base, spec_swatch_row_light, swatch_row_base,
    swatch_row_light,
};
use crate::text::{line_length, spec_strip_newline, strip_newline, visible_width};

verus! {

/// Width of the gap between an art line and the text beside it.
pub const SPACING: usize = 5;

/// `n` spaces.
pub open spec fn spaces(n: nat) -> Seq<char> {
    Seq::new(n, |i: int| ' ')
}

/// `n` dashes.
pub open spec fn dashes(n: nat) -> Seq<char> {
    Seq::new(n, |i: int| '-')
}

/// A string of `n` spaces.
fn make_spaces(n: usize) -> (r: String)
    ensures
        r@ == spaces(n as nat),
{
    let mut r = String::new();
    let mut i: usize = 0;
    while i < n
        invariant
            i <= n,
            r@ == spaces(i as nat),
        decreases n - i,
    {
        r.append(" ");
        proof {
            reveal_strlit(" ");
            assert(r@ =~= spaces(i as nat + 1));
        }
        i = i + 1;
    }
    r
}

/// A string of `n` dashes.
fn make_dashes(n: usize) -> (r: String)
    ensures
        r@ == dashes(n as nat),
{
    let mut r = String::new();
    let mut i: usize = 0;
    while i < n
        invariant
            i <= n,
            r@ == dashes(i as nat),
        decreases n - i,
    {
        r.append("-");
        proof {
            reveal_strlit("-");
            assert(r@ =~= dashes(i as nat + 1));
        }
        i = i + 1;
    }
    r
}

/// The views of a sequence of strings: its lines as character sequences.
pub open spec fn views_of(s: Seq<String>) -> Seq<Seq<char>> {
    s.map_values(|x: String| x@)
}

/// One labelled report row: the label, and the display-ready value, absent
/// when the fact was unavailable on this host.
pub struct Readout {
    pub key: String,
    pub value: Option<String>,
}

impl Readout {
    /// A row labelled `key` holding the given optional value.
    pub fn new(key: &str, value: Option<String>) -> (r: Self)
        ensures
            r.key@ == key@,
            r.value == value,
    {
        Readout { key: key.to_owned(), value: value }
    }
}

/// The art line sequence and its render cursor: the one piece of mutable
/// state of a render. Exactly one advance happens per output row, whether or
/// not the row printed; once the art is exhausted, a prefix of spaces as wide
/// as the art's last line takes each line's place.
pub struct ArtFeed {
    pub art: Vec<String>,
    pub cursor: usize,
    pub last_len: usize,
}

impl ArtFeed {
    /// The visible width of the art's last line; zero when the art is empty.
    pub open spec fn spec_last_len(art: Seq<String>) -> nat {
        if art.len() == 0 {
            0
        } else {
            visible_width(art.last()@)
        }
    }

    /// The recorded substitute width is the last art line's visible width.
    pub open spec fn wf(self) -> bool {
        self.last_len == Self::spec_last_len(self.art@)
    }

    /// A fresh feed over `art`, the cursor on its first line.
    pub fn new(art: Vec<String>) -> (r: Self)
        ensures
            r.wf(),
            r.art == art,
            r.cursor == 0,
    {
        let last_len = if art.len() == 0 {
            0
        } else {
            line_length(art[art.len() - 1].as_str())
        };
        ArtFeed { art, cursor: 0, last_len }
    }

    /// The prefix an advance at `cursor` emits: the art line there and the
    /// fixed gap, or all spaces once the art is exhausted.
    pub open spec fn spec_prefix_at(art: Seq<String>, cursor: int, last: nat) -> Seq<char> {
        if 0 <= cursor < art.len() {
            art[cursor]@ + spaces(5)
        } else {
            spaces(last) + spaces(5)
        }
    }

    /// The prefix the next advance of this feed will emit.
    pub open spec fn prefix(self) -> Seq<char> {
        Self::spec_prefix_at(self.art@, self.cursor as int, self.last_len as nat)
    }

    /// Advances the cursor by one and hands back the prefix it passed over.
    pub fn next_prefix(&mut self) -> (r: String)
        requires
            old(self).cursor < usize::MAX,
        ensures
            final(self).art == old(self).art,
            final(self).last_len == old(self).last_len,
            final(self).cursor == old(self).cursor + 1,
            r@ == old(self).prefix(),
    {
        let r = if self.cursor < self.art.len() {
            let mut line = self.art[self.cursor].clone();
            let gap = make_spaces(SPACING);
            line.append(gap.as_str());
            line
        } else {
            let mut line = make_spaces(self.last_len);
            let gap = make_spaces(SPACING);
            line.append(gap.as_str());
            proof {
                assert(line@ =~= spaces(self.last_len as nat) + spaces(5));
            }
            line
        };
        self.cursor = self.cursor + 1;
        r
    }

    /// Advances the cursor without emitting anything: an absent row still
    /// consumes its art-alignment budget.
    pub fn advance(&mut self)
        requires
            old(self).cursor < usize::MAX,
        ensures
            final(self).art == old(self).art,
            final(self).last_len == old(self).last_len,
            final(self).cursor == old(self).cursor + 1,
    {
        self.cursor = self.cursor + 1;
    }

    /// The visible width of the art line under the cursor; absent once the
    /// art is exhausted.
    pub fn peek_width(&self) -> (r: Option<usize>)
        ensures
            r is Some <==> self.cursor < self.art@.len(),
            r matches Some(w) ==> w == visible_width(self.art@[self.cursor as int]@),
    {
        if self.cursor < self.art.len() {
            Some(line_length(self.art[self.cursor].as_str()))
        } else {
            None
        }
    }
}

/// The label-column width: the longest label among the rows with a present
/// value; zero when no value is present.
pub open spec fn spec_label_width(rows: Seq<Readout>) -> nat
    decreases rows.len(),
{
    if rows.len() == 0 {
        0
    } else {
        let rest = spec_label_width(rows.drop_last());
        let lastw: nat = if rows.last().value is Some {
            rows.last().key@.len()
        } else {
            0
        };
        if lastw > rest {
            lastw
        } else {
            rest
        }
    }
}

/// Computes the label-column width of `rows`.
pub fn label_width(rows: &Vec<Readout>) -> (w: usize)
    ensures
        w == spec_label_width(rows@),
{
    let mut w: usize = 0;
    let mut i: usize = 0;
    while i < rows.len()
        invariant
            i <= rows@.len(),
            w == spec_label_width(rows@.take(i as int)),
        decreases rows@.len() - i,
    {
        if rows[i].value.is_some() {
            let kl = rows[i].key.as_str().unicode_len();
            if kl > w {
                w = kl;
            }
        }
        proof {
            assert(rows@.take(i as int + 1).drop_last() =~= rows@.take(i as int));
            assert(rows@.take(i as int + 1).last() == rows@[i as int]);
        }
        i = i + 1;
    }
    proof {
        assert(rows@.take(rows@.len() as int) =~= rows@);
    }
    w
}

proof fn lemma_label_width_bound(rows: Seq<Readout>, i: int)
    requires
        0 <= i < rows.len(),
        rows[i].value is Some,
    ensures
        rows[i].key@.len() <= spec_label_width(rows),
    decreases rows.len(),
{
    if i < rows.len() - 1 {
        lemma_label_width_bound(rows.drop_last(), i);
    }
}

/// The physical line a present row prints: the art prefix, the label in bold
/// cyan, `": "`, padding up to the label-column width, and the value with one
/// trailing line terminator stripped.
pub open spec fn spec_row_line(
    row: Readout,
    width: nat,
    art: Seq<String>,
    cursor: int,
    last: nat,
) -> Seq<char>
    recommends
        row.value is Some,
        row.key@.len() <= width,
{
    ArtFeed::spec_prefix_at(art, cursor, last) + spec_cyan_bold(row.key@) + ": "@ + spaces(
        (width - row.key@.len()) as nat,
    ) + spec_strip_newline(row.value->0@)
}

/// The lines the row phase prints, the cursor starting at `cursor`: one line
/// per present row, nothing for an absent row, every row moving the cursor by
/// one place either way.
pub open spec fn spec_row_lines(
    rows: Seq<Readout>,
    width: nat,
    art: Seq<String>,
    cursor: int,
    last: nat,
) -> Seq<Seq<char>>
    decreases rows.len(),
{
    if rows.len() == 0 {
        Seq::empty()
    } else {
        spec_row_lines(rows.drop_last(), width, art, cursor, last) + if rows.last().value
            is Some {
            seq![spec_row_line(rows.last(), width, art, cursor + rows.len() - 1, last)]
        } else {
            Seq::empty()
        }
    }
}

/// Renders the report rows beside the art, appending one physical line per
/// present row to `out`. Every row advances the art cursor exactly once,
/// present or absent: an absent row prints nothing but still consumes its
/// art-alignment budget, so later rows stay vertically synced. Rows reached
/// after the art is exhausted pad with the last art line's visible width and
/// print no art text.
pub fn render_rows(rows: &Vec<Readout>, width: usize, feed: &mut ArtFeed, out: &mut Vec<String>)
    requires
        old(feed).cursor + rows@.len() <= usize::MAX,
        spec_label_width(rows@) <= width,
    ensures
        final(feed).art == old(feed).art,
        final(feed).last_len == old(feed).last_len,
        final(feed).cursor == old(feed).cursor + rows@.len(),
        views_of(final(out)@) == views_of(old(out)@) + spec_row_lines(
            rows@,
            width as nat,
            old(feed).art@,
            old(feed).cursor as int,
            old(feed).last_len as nat,
        ),
{
    let ghost artv = feed.art;
    let ghost art0 = feed.art@;
    let ghost c0 = feed.cursor as int;
    let ghost last0 = feed.last_len as nat;
    let ghost out0 = out@;
    let mut i: usize = 0;
    while i < rows.len()
        invariant
            i <= rows@.len(),
            c0 + rows@.len() <= usize::MAX,
            spec_label_width(rows@) <= width,
            feed.art == artv,
            feed.art@ == art0,
            feed.last_len as nat == last0,
            feed.cursor as int == c0 + i,
            views_of(out@) == views_of(out0) + spec_row_lines(
                rows@.take(i as int),
                width as nat,
                art0,
                c0,
                last0,
            ),
        decreases rows@.len() - i,
    {
        let row = &rows[i];
        match &row.value {
            Some(v) => {
                proof {
                    lemma_label_width_bound(rows@, i as int);
                }
                let mut line = feed.next_prefix();
                let styled = cyan_bold(row.key.as_str());
                line.append(styled.as_str());
                line.append(": ");
                let kl = row.key.as_str().unicode_len();
                let pad = make_spaces(width - kl);
                line.append(pad.as_str());
                let sv = strip_newline(v.as_str());
                line.append(sv.as_str());
                let ghost linev = line@;
                proof {
                    assert(linev =~= spec_row_line(
                        rows@[i as int],
                        width as nat,
                        art0,
                        c0 + i,
                        last0,
                    ));
                }
                let ghost prev = out@;
                out.push(line);
                proof {
                    assert(out@ == prev.push(line));
                    assert(views_of(out@) =~~= views_of(prev) + seq![linev]);
                }
            },
            None => {
                feed.advance();
            },
        }
        proof {
            assert(rows@.take(i as int + 1).drop_last() =~= rows@.take(i as int));
            assert(rows@.take(i as int + 1).last() == rows@[i as int]);
            let tail: Seq<Seq<char>> = if rows@[i as int].value is Some {
                seq![spec_row_line(rows@[i as int], width as nat, art0, c0 + i, last0)]
            } else {
                Seq::empty()
            };
            assert(spec_row_lines(rows@.take(i as int + 1), width as nat, art0, c0, last0)
                == spec_row_lines(rows@.take(i as int), width as nat, art0, c0, last0) + tail);
            assert(views_of(out@) =~~= views_of(out0) + spec_row_lines(
                rows@.take(i as int + 1),
                width as nat,
                art0,
                c0,
                last0,
            ));
        }
        i = i + 1;
    }
    proof {
        assert(rows@.take(rows@.len() as int) =~= rows@);
    }
}

/// A machine width as its mathematical value.
pub open spec fn opt_width(o: Option<usize>) -> Option<int> {
    match o {
        Some(w) => Some(w as int),
        None => None,
    }
}

/// The left paddings of the two swatch rows, from the visible widths of the
/// art lines they sit beside: `next` beside the first row, `peek` beside the
/// second. The narrower side is padded by the difference so the block keeps a
/// straight left edge; when `peek` is unavailable both rows pad by `next`;
/// with no art left at all, neither pads.
pub open spec fn spec_swatch_pads(next: Option<int>, peek: Option<int>) -> (int, int) {
    match (next, peek) {
        (Some(n), Some(p)) => if n > p {
            (0int, n - p)
        } else if n < p {
            (p - n, 0int)
        } else {
            (0int, 0int)
        },
        (Some(n), None) => (n, n),
        _ => (0int, 0int),
    }
}

/// Chooses the swatch rows' left paddings from the two candidate widths.
pub fn swatch_pads(next: Option<usize>, peek: Option<usize>) -> (r: (usize, usize))
    ensures
        r.0 as int == spec_swatch_pads(opt_width(next), opt_width(peek)).0,
        r.1 as int == spec_swatch_pads(opt_width(next), opt_width(peek)).1,
{
    match (next, peek) {
        (Some(n), Some(p)) => {
            if n > p {
                (0, n - p)
            } else if n < p {
                (p - n, 0)
            } else {
                (0, 0)
            }
        },
        (Some(n), None) => (n, n),
        _ => (0, 0),
    }
}

/// The swatch block's three lines, the cursor starting at `cursor`: one
/// spacing line, then the two rows of eight three-character colored blocks,
/// each left-padded per `spec_swatch_pads`.
pub open spec fn spec_swatch_lines(art: Seq<String>, cursor: int, last: nat) -> Seq<Seq<char>> {
    let next = if 0 <= cursor + 1 < art.len() {
        Some(visible_width(art[cursor + 1]@) as int)
    } else {
        None
    };
    let peek = if 0 <= cursor + 2 < art.len() {
        Some(visible_width(art[cursor + 2]@) as int)
    } else {
        None
    };
    let pads = spec_swatch_pads(next, peek);
    seq![
        ArtFeed::spec_prefix_at(art, cursor, last),
        ArtFeed::spec_prefix_at(art, cursor + 1, last) + spaces(pads.0 as nat)
            + spec_swatch_row_base(),
        ArtFeed::spec_prefix_at(art, cursor + 2, last) + spaces(pads.1 as nat)
            + spec_swatch_row_light(),
    ]
}

/// Renders the color-swatch block: one spacing advance for breathing room,
/// then the two palette rows, each beside one more art line.
pub fn render_swatches(feed: &mut ArtFeed, out: &mut Vec<String>)
    requires
        old(feed).cursor + 3 <= usize::MAX,
    ensures
        final(feed).art == old(feed).art,
        final(feed).last_len == old(feed).last_len,
        final(feed).cursor == old(feed).cursor + 3,
        views_of(final(out)@) == views_of(old(out)@) + spec_swatch_lines(
            old(feed).art@,
            old(feed).cursor as int,
            old(feed).last_len as nat,
        ),
{
    let ghost art0 = feed.art@;
    let ghost c0 = feed.cursor as int;
    let ghost last0 = feed.last_len as nat;
    let ghost out0 = out@;
    let l0 = feed.next_prefix();
    let ghost l0v = l0@;
    out.push(l0);
    let next = feed.peek_width();
    let mut l1 = feed.next_prefix();
    let peek = feed.peek_width();
    let pads = swatch_pads(next, peek);
    let pad0 = make_spaces(pads.0);
    l1.append(pad0.as_str());
    let sw1 = swatch_row_base();
    l1.append(sw1.as_str());
    let ghost l1v = l1@;
    out.push(l1);
    let mut l2 = feed.next_prefix();
    let pad1 = make_spaces(pads.1);
    l2.append(pad1.as_str());
    let sw2 = swatch_row_light();
    l2.append(sw2.as_str());
    let ghost l2v = l2@;
    out.push(l2);
    proof {
        let lines = spec_swatch_lines(art0, c0, last0);
        assert(l0v =~= lines[0]);
        assert(l1v =~= lines[1]);
        assert(l2v =~= lines[2]);
        assert(views_of(out@) =~~= views_of(out0) + lines);
    }
}

/// The art lines left over after the swatch block, one per output line, and
/// the closing line of padding as wide as the art's last line.
pub open spec fn spec_drain_lines(art: Seq<String>, cursor: int, last: nat) -> Seq<Seq<char>> {
    let n: nat = if 0 <= cursor < art.len() {
        (art.len() - cursor) as nat
    } else {
        0
    };
    Seq::new(n, |k: int| art[cursor + k]@ + spaces(5)) + seq![spaces(last) + spaces(5)]
}

/// Drains whatever art remains, one line per output line with no text beside
/// it, then closes the report with one final padding line.
pub fn drain_art(feed: &mut ArtFeed, out: &mut Vec<String>)
    ensures
        final(feed).art == old(feed).art,
        final(feed).last_len == old(feed).last_len,
        views_of(final(out)@) == views_of(old(out)@) + spec_drain_lines(
            old(feed).art@,
            old(feed).cursor as int,
            old(feed).last_len as nat,
        ),
{
    let ghost artv = feed.art;
    let ghost art0 = feed.art@;
    let ghost c0 = feed.cursor as int;
    let ghost last0 = feed.last_len as nat;
    let ghost out0 = out@;
    while feed.cursor < feed.art.len()
        invariant
            feed.art == artv,
            feed.art@ == art0,
            feed.last_len as nat == last0,
            c0 <= feed.cursor as int,
            c0 < art0.len() ==> feed.cursor as int <= art0.len(),
            c0 >= art0.len() ==> feed.cursor as int == c0,
            views_of(out@) == views_of(out0) + Seq::new(
                (feed.cursor - c0) as nat,
                |k: int| art0[c0 + k]@ + spaces(5),
            ),
        decreases art0.len() - feed.cursor,
    {
        let ghost m = feed.cursor as int - c0;
        let l = feed.next_prefix();
        let ghost lv = l@;
        let ghost prev = out@;
        out.push(l);
        proof {
            assert(lv == art0[c0 + m]@ + spaces(5));
            assert(views_of(out@) =~~= views_of(prev) + seq![lv]);
            assert(views_of(out@) =~~= views_of(out0) + Seq::new(
                (m + 1) as nat,
                |k: int| art0[c0 + k]@ + spaces(5),
            ));
        }
    }
    let mut tail = make_spaces(feed.last_len);
    let gap = make_spaces(SPACING);
    tail.append(gap.as_str());
    let ghost tailv = tail@;
    let ghost prev = out@;
    out.push(tail);
    proof {
        assert(tailv == spaces(last0) + spaces(5));
        assert(views_of(out@) =~~= views_of(prev) + seq![tailv]);
        assert(views_of(out@) =~~= views_of(out0) + spec_drain_lines(art0, c0, last0));
    }
}

/// The greeting's two lines, present only when both identity facts are:
/// `user@host` in bold cyan beside one art line, and a dash underline as
/// wide as the unstyled text beside the next.
pub open spec fn spec_greeting_lines(
    user: Option<String>,
    host: Option<String>,
    art: Seq<String>,
    cursor: int,
    last: nat,
) -> Seq<Seq<char>> {
    if user is Some && host is Some {
        seq![
            ArtFeed::spec_prefix_at(art, cursor, last) + spec_cyan_bold(user->0@) + "@"@
                + spec_cyan_bold(host->0@),
            ArtFeed::spec_prefix_at(art, cursor + 1, last) + dashes(
                user->0@.len() + host->0@.len() + 1,
            ),
        ]
    } else {
        Seq::empty()
    }
}

/// Renders the greeting header: `user@host` in bold cyan above a dash
/// underline as wide as the unstyled text. It prints only when both the
/// username and the hostname resolved; otherwise nothing is printed and no
/// art is consumed.
pub fn render_greeting(
    user: &Option<String>,
    host: &Option<String>,
    feed: &mut ArtFeed,
    out: &mut Vec<String>,
)
    requires
        old(feed).cursor + 2 <= usize::MAX,
        user is Some && host is Some ==> user->0@.len() + host->0@.len() + 1 <= usize::MAX,
    ensures
        final(feed).art == old(feed).art,
        final(feed).last_len == old(feed).last_len,
        final(feed).cursor == old(feed).cursor + (if user is Some && host is Some {
            2int
        } else {
            0int
        }),
        views_of(final(out)@) == views_of(old(out)@) + spec_greeting_lines(
            *user,
            *host,
            old(feed).art@,
            old(feed).cursor as int,
            old(feed).last_len as nat,
        ),
{
    let ghost art0 = feed.art@;
    let ghost c0 = feed.cursor as int;
    let ghost last0 = feed.last_len as nat;
    let ghost out0 = out@;
    match (user, host) {
        (Some(u), Some(h)) => {
            let mut l0 = feed.next_prefix();
            let su = cyan_bold(u.as_str());
            l0.append(su.as_str());
            l0.append("@");
            let sh = cyan_bold(h.as_str());
            l0.append(sh.as_str());
            let ghost l0v = l0@;
            out.push(l0);
            let mut l1 = feed.next_prefix();
            let ul = u.as_str().unicode_len();
            let hl = h.as_str().unicode_len();
            let d = make_dashes(ul + hl + 1);
            l1.append(d.as_str());
            let ghost l1v = l1@;
            out.push(l1);
            proof {
                let lines = spec_greeting_lines(*user, *host, art0, c0, last0);
                assert(l0v =~= lines[0]);
                assert(l1v =~= lines[1]);
                assert(views_of(out@) =~~= views_of(out0) + lines);
            }
        },
        _ => {
            proof {
                assert(views_of(out@) =~~= views_of(out0) + spec_greeting_lines(
                    *user,
                    *host,
                    art0,
                    c0,
                    last0,
                ));
            }
        },
    }
}

/// Every physical line of one full report, in order: the greeting when both
/// identity facts are present; one line per present row, absent rows
/// consuming art silently; the three swatch-block lines; the remaining art;
/// and the closing padding line.
pub open spec fn spec_report_lines(
    user: Option<String>,
    host: Option<String>,
    rows: Seq<Readout>,
    art: Seq<String>,
) -> Seq<Seq<char>> {
    let last = ArtFeed::spec_last_len(art);
    let width = spec_label_width(rows);
    let c0: int = if user is Some && host is Some {
        2
    } else {
        0
    };
    spec_greeting_lines(user, host, art, 0, last) + spec_row_lines(rows, width, art, c0, last)
        + spec_swatch_lines(art, c0 + rows.len(), last) + spec_drain_lines(
        art,
        c0 + rows.len() + 3,
        last,
    )
}

/// Renders one full report beside `art` and hands back its physical output
/// lines, greeting through closing padding line, exactly as
/// `spec_report_lines` lays them out.
pub fn render_report(
    user: &Option<String>,
    host: &Option<String>,
    rows: &Vec<Readout>,
    art: Vec<String>,
) -> (out: Vec<String>)
    requires
        rows@.len() + 5 <= usize::MAX,
        user is Some && host is Some ==> user->0@.len() + host->0@.len() + 1 <= usize::MAX,
    ensures
        views_of(out@) == spec_report_lines(*user, *host, rows@, art@),
{
    let ghost artseq = art@;
    let mut out: Vec<String> = Vec::new();
    let mut feed = ArtFeed::new(art);
    let width = label_width(rows);
    render_greeting(user, host, &mut feed, &mut out);
    render_rows(rows, width, &mut feed, &mut out);
    render_swatches(&mut feed, &mut out);
    drain_art(&mut feed, &mut out);
    proof {
        assert(views_of(out@) =~~= spec_report_lines(*user, *host, rows@, artseq));
    }
    out
}

} // verus!
