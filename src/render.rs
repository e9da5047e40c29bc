//! Turning the ordered list of segments into the prompt string.

use vstd::prelude::*;
use crate::Shell;
use crate::format::fg_code;
use crate::segment::{body_text, join_text, print_text, print_text_rtl, view_of, Segment, SegmentView};
use crate::theme::Theme;

verus! {

/// The views of a list of segments.
pub open spec fn views(segs: Seq<Segment>) -> Seq<SegmentView> {
    segs.map_values(|s: Segment| s@)
}

/// The segment after position `i`, if any.
pub open spec fn next_of(segs: Seq<SegmentView>, i: int) -> Option<SegmentView> {
    if 0 <= i + 1 < segs.len() {
        Some(segs[i + 1])
    } else {
        None
    }
}

/// The segment before position `i`, if any.
pub open spec fn prev_of(segs: Seq<SegmentView>, i: int) -> Option<SegmentView> {
    if 0 <= i - 1 < segs.len() {
        Some(segs[i - 1])
    } else {
        None
    }
}

/// The first `k` segments written left to right, each joined to the one after it.
pub open spec fn render_prefix(segs: Seq<SegmentView>, k: int, shell: Shell, separator_fg: u8) -> Seq<char>
    decreases k,
{
    if k <= 0 {
        Seq::empty()
    } else {
        render_prefix(segs, k - 1, shell, separator_fg) + print_text(
            segs[k - 1],
            next_of(segs, k - 1),
            shell,
            separator_fg,
        )
    }
}

/// All segments written left to right.
pub open spec fn render_text(segs: Seq<SegmentView>, shell: Shell, separator_fg: u8) -> Seq<char> {
    render_prefix(segs, segs.len() as int, shell, separator_fg)
}

/// The last `k` segments written in right-to-left order, the rightmost first, each joined
/// to the one on its left.
pub open spec fn render_suffix_rtl(segs: Seq<SegmentView>, k: int, shell: Shell, separator_fg: u8) -> Seq<char>
    decreases k,
{
    if k <= 0 {
        Seq::empty()
    } else {
        let i = segs.len() - k;
        render_suffix_rtl(segs, k - 1, shell, separator_fg) + print_text_rtl(
            segs[i],
            prev_of(segs, i),
            shell,
            separator_fg,
        )
    }
}

/// What ends the prompt: a newline, or a space that sets the cursor apart.
pub open spec fn trailer(newline: bool) -> Seq<char> {
    if newline {
        seq!['\n']
    } else {
        seq![' ']
    }
}

/// The rendered width of a list of segments: each text's length plus one space.
pub open spec fn width(segs: Seq<SegmentView>) -> int
    decreases segs.len(),
{
    if segs.len() == 0 {
        0
    } else {
        segs[0].text.len() + 1 + width(segs.drop_first())
    }
}

/// How many segments the shrink pass takes off the front of `segs` so that the rest fits
/// in `budget` columns: none if they fit already, else one more than for the rest.
pub open spec fn drop_count(segs: Seq<SegmentView>, budget: int) -> int
    decreases segs.len(),
{
    if segs.len() == 0 || width(segs) <= budget {
        0
    } else {
        1 + drop_count(segs.drop_first(), budget)
    }
}

/// Dropping segments from the front never widens the list.
pub proof fn lemma_width_suffix_monotone(segs: Seq<SegmentView>, i: int, j: int)
    requires
        0 <= i <= j <= segs.len(),
    ensures
        width(segs.subrange(j, segs.len() as int)) <= width(segs.subrange(i, segs.len() as int)),
    decreases j - i,
{
    if i < j {
        lemma_width_suffix_monotone(segs, i + 1, j);
        assert(segs.subrange(i, segs.len() as int).drop_first() =~= segs.subrange(
            i + 1,
            segs.len() as int,
        ));
    }
}

/// The shrink pass keeps the longest suffix of the list that fits in the budget: it is the
/// list with its first `drop_count` segments taken off, it fits (or is empty), and every
/// longer suffix is too wide.
pub proof fn lemma_shrink_keeps_longest_fitting_suffix(segs: Seq<SegmentView>, budget: int)
    requires
        budget >= 0,
    ensures
        0 <= drop_count(segs, budget) <= segs.len(),
        width(segs.subrange(drop_count(segs, budget), segs.len() as int)) <= budget,
        forall|j: int|
            0 <= j < drop_count(segs, budget) ==> width(#[trigger] segs.subrange(j, segs.len() as int))
                > budget,
    decreases segs.len(),
{
    assert(segs.subrange(0, segs.len() as int) =~= segs);
    if segs.len() == 0 || width(segs) <= budget {
    } else {
        let rest = segs.drop_first();
        lemma_shrink_keeps_longest_fitting_suffix(rest, budget);
        let k = drop_count(segs, budget);
        assert(segs.subrange(k, segs.len() as int) =~= rest.subrange(k - 1, rest.len() as int));
        assert forall|j: int| 0 <= j < k implies width(#[trigger] segs.subrange(j, segs.len() as int))
            > budget by {
            if j > 0 {
                assert(segs.subrange(j, segs.len() as int) =~= rest.subrange(j - 1, rest.len() as int));
            }
        }
    }
}

fn fits(segments: &Vec<Segment>, budget: usize) -> (r: bool)
    ensures
        r == (width(views(segments@)) <= budget),
{
    let ghost segs = views(segments@);
    let n = segments.len();
    let mut sum: usize = 0;
    let mut i: usize = n;
    while i > 0
        invariant
            n == segments@.len(),
            segs == views(segments@),
            i <= n,
            sum <= budget,
            sum == width(segs.subrange(i as int, n as int)),
        decreases i,
    {
        let len = segments[i - 1].text_len();
        proof {
            assert(segs.subrange(i - 1, n as int).drop_first() =~= segs.subrange(i as int, n as int));
        }
        if len >= budget - sum {
            proof {
                lemma_width_suffix_monotone(segs, 0, i - 1);
                assert(segs.subrange(0, n as int) =~= segs);
            }
            return false;
        }
        sum = sum + len + 1;
        i = i - 1;
    }
    assert(segs.subrange(0, n as int) =~= segs);
    true
}

/// Drops segments from the front of the list, one at a time, until the rest fits in
/// `budget` columns or nothing is left.
pub fn shrink(segments: &mut Vec<Segment>, budget: usize)
    ensures
        final(segments)@ == old(segments)@.subrange(
            drop_count(views(old(segments)@), budget as int),
            old(segments)@.len() as int,
        ),
{
    let ghost segs = views(segments@);
    let ghost n = segments@.len();
    let ghost mut k: int = 0;
    proof {
        assert(old(segments)@.subrange(0, n as int) =~= old(segments)@);
    }
    while segments.len() > 0 && !fits(segments, budget)
        invariant
            segs == views(old(segments)@),
            n == old(segments)@.len(),
            0 <= k <= n,
            segments@ == old(segments)@.subrange(k, n as int),
            drop_count(segs, budget as int) == k + drop_count(views(segments@), budget as int),
        decreases segments@.len(),
    {
        proof {
            assert(views(segments@).drop_first() =~= views(segments@.remove(0)));
        }
        segments.remove(0);
        proof {
            k = k + 1;
            assert(segments@ =~= old(segments)@.subrange(k, n as int));
        }
    }
}

/// Two adjacent segments with the same background, the second not conditional, are joined
/// by the separator's foreground alone: no new background is set between them.
pub proof fn lemma_equal_background_join(segs: Seq<SegmentView>, i: int, shell: Shell, separator_fg: u8)
    requires
        0 <= i,
        i + 1 < segs.len(),
        segs[i].bg == segs[i + 1].bg,
        !segs[i + 1].conditional,
    ensures
        join_text(segs[i], next_of(segs, i), shell, separator_fg) == fg_code(shell, separator_fg),
        render_prefix(segs, i + 1, shell, separator_fg) == render_prefix(segs, i, shell, separator_fg)
            + segs[i].before + body_text(segs[i], shell) + fg_code(shell, separator_fg) + segs[i].after,
{
}

/// Escapes every segment for `shell`; a segment already escaped is left alone.
pub fn escape_all(segments: &mut Vec<Segment>, shell: Shell)
    ensures
        final(segments)@.len() == old(segments)@.len(),
        forall|i: int|
            0 <= i < old(segments)@.len() ==> #[trigger] final(segments)@[i]@ == old(
                segments,
            )@[i]@.escaped_for(shell),
{
    let n = segments.len();
    let mut i: usize = 0;
    while i < n
        invariant
            n == old(segments)@.len(),
            segments@.len() == n,
            i <= n,
            forall|j: int| 0 <= j < i ==> #[trigger] segments@[j]@ == old(segments)@[j]@.escaped_for(shell),
            forall|j: int| i <= j < n ==> #[trigger] segments@[j] == old(segments)@[j],
        decreases n - i,
    {
        segments[i].escape(shell);
        i = i + 1;
    }
}

fn push_string(s: &mut String, t: String)
    ensures
        final(s)@ == old(s)@ + t@,
{
    s.append(t.as_str());
}

/// Writes the segments left to right, each joined to the one after it.
pub fn print_all(segments: &Vec<Segment>, shell: Shell, theme: &Theme) -> (r: String)
    ensures
        r@ == render_text(views(segments@), shell, theme.separator_fg),
{
    let ghost segs = views(segments@);
    let mut out = String::new();
    let n = segments.len();
    let mut i: usize = 0;
    while i < n
        invariant
            n == segments@.len(),
            segs == views(segments@),
            i <= n,
            out@ == render_prefix(segs, i as int, shell, theme.separator_fg),
        decreases n - i,
    {
        let next = if i + 1 < n {
            Some(&segments[i + 1])
        } else {
            None
        };
        let piece = segments[i].print(next, shell, theme);
        proof {
            assert(view_of(next) == next_of(segs, i as int));
        }
        push_string(&mut out, piece);
        i = i + 1;
    }
    out
}

/// Writes the segments in right-to-left order: the last segment first, each joined to the
/// one on its left.
pub fn print_all_rtl(segments: &Vec<Segment>, shell: Shell, theme: &Theme) -> (r: String)
    ensures
        r@ == render_suffix_rtl(views(segments@), segments@.len() as int, shell, theme.separator_fg),
{
    let ghost segs = views(segments@);
    let mut out = String::new();
    let n = segments.len();
    let mut k: usize = 0;
    while k < n
        invariant
            n == segments@.len(),
            segs == views(segments@),
            k <= n,
            out@ == render_suffix_rtl(segs, k as int, shell, theme.separator_fg),
        decreases n - k,
    {
        let i = n - 1 - k;
        let prev = if i > 0 {
            Some(&segments[i - 1])
        } else {
            None
        };
        let piece = segments[i].print_rtl(prev, shell, theme);
        proof {
            assert(view_of(prev) == prev_of(segs, i as int));
        }
        push_string(&mut out, piece);
        k = k + 1;
    }
    out
}

/// The whole prompt: every segment escaped, then written left to right, then the trailer.
pub fn render(segments: &mut Vec<Segment>, shell: Shell, theme: &Theme, newline: bool) -> (r: String)
    ensures
        final(segments)@.len() == old(segments)@.len(),
        forall|i: int|
            0 <= i < old(segments)@.len() ==> #[trigger] final(segments)@[i]@ == old(
                segments,
            )@[i]@.escaped_for(shell),
        r@ == render_text(views(final(segments)@), shell, theme.separator_fg) + trailer(newline),
{
    escape_all(segments, shell);
    let mut out = print_all(segments, shell, theme);
    if newline {
        crate::text::push_char(&mut out, '\n');
    } else {
        crate::text::push_char(&mut out, ' ');
    }
    out
}

/// The whole prompt within a width budget: every segment escaped, then segments dropped
/// from the front until the rest fits in `budget` columns, then the rest written left to
/// right, then the trailer.
pub fn render_within(segments: &mut Vec<Segment>, shell: Shell, theme: &Theme, newline: bool, budget: usize) -> (r: String)
    ensures
        ({
            let escaped = views(old(segments)@).map_values(|s: SegmentView| s.escaped_for(shell));
            let kept = escaped.subrange(drop_count(escaped, budget as int), escaped.len() as int);
            &&& views(final(segments)@) == kept
            &&& r@ == render_text(kept, shell, theme.separator_fg) + trailer(newline)
        }),
{
    escape_all(segments, shell);
    let ghost escaped = views(segments@);
    let ghost mid = segments@;
    proof {
        assert(escaped =~= views(old(segments)@).map_values(|s: SegmentView| s.escaped_for(shell)));
        lemma_shrink_keeps_longest_fitting_suffix(escaped, budget as int);
    }
    shrink(segments, budget);
    proof {
        let k = drop_count(escaped, budget as int);
        assert(segments@ == mid.subrange(k, mid.len() as int));
        assert(views(segments@) =~= escaped.subrange(k, escaped.len() as int));
    }
    let mut out = print_all(segments, shell, theme);
    if newline {
        crate::text::push_char(&mut out, '\n');
    } else {
        crate::text::push_char(&mut out, ' ');
    }
    out
}

} // verus!
