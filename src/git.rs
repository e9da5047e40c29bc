//! Repository status: classifying per-path status flags into counts, and the segments that
//! show the branch and those counts.

use vstd::prelude::*;
use crate::powerline::Powerline;
use crate::segment::{Segment, SegmentView};
use crate::text::{decimal, push_char, push_decimal};
use crate::theme::Theme;

verus! {

/// The status flags of one path, as the repository reports them.
#[derive(Clone, Copy, PartialEq, Eq, Debug, Structural)]
pub struct StatusFlags {
    pub index_new: bool,
    pub index_modified: bool,
    pub index_deleted: bool,
    pub index_renamed: bool,
    pub index_typechange: bool,
    pub wt_new: bool,
    pub wt_modified: bool,
    pub wt_deleted: bool,
    pub wt_typechange: bool,
    pub wt_renamed: bool,
    pub conflicted: bool,
}

/// The path has a change recorded in the index.
pub open spec fn is_staged(f: StatusFlags) -> bool {
    f.index_new || f.index_modified || f.index_typechange || f.index_renamed || f.index_deleted
}

/// The path has a change in the working tree that the index does not hold.
pub open spec fn is_unstaged(f: StatusFlags) -> bool {
    f.wt_modified || f.wt_typechange || f.wt_deleted
}

/// The path is new in the working tree and not yet indexed.
pub open spec fn is_untracked(f: StatusFlags) -> bool {
    f.wt_new
}

/// The path is in a merge conflict.
pub open spec fn is_conflicted(f: StatusFlags) -> bool {
    f.conflicted
}

/// How many entries of `s` satisfy `p`.
pub open spec fn count_where(s: Seq<StatusFlags>, p: spec_fn(StatusFlags) -> bool) -> nat
    decreases s.len(),
{
    if s.len() == 0 {
        0
    } else {
        count_where(s.drop_last(), p) + if p(s.last()) {
            1nat
        } else {
            0nat
        }
    }
}

proof fn lemma_count_bounded(s: Seq<StatusFlags>, p: spec_fn(StatusFlags) -> bool)
    ensures
        count_where(s, p) <= s.len(),
    decreases s.len(),
{
    if s.len() > 0 {
        lemma_count_bounded(s.drop_last(), p);
    }
}

/// The number of staged, unstaged, untracked and conflicted paths.
#[derive(Clone, Copy, PartialEq, Eq, Debug, Structural)]
pub struct StatusCounts {
    pub staged: usize,
    pub notstaged: usize,
    pub untracked: usize,
    pub conflicted: usize,
}

impl StatusCounts {
    /// The counts of a status listing.
    pub open spec fn of(s: Seq<StatusFlags>) -> StatusCounts {
        StatusCounts {
            staged: count_where(s, |f: StatusFlags| is_staged(f)) as usize,
            notstaged: count_where(s, |f: StatusFlags| is_unstaged(f)) as usize,
            untracked: count_where(s, |f: StatusFlags| is_untracked(f)) as usize,
            conflicted: count_where(s, |f: StatusFlags| is_conflicted(f)) as usize,
        }
    }

    /// Nothing is staged, unstaged, untracked or conflicted.
    pub open spec fn spec_is_clean(&self) -> bool {
        self.staged == 0 && self.notstaged == 0 && self.untracked == 0 && self.conflicted == 0
    }

    /// Whether nothing is staged, unstaged, untracked or conflicted.
    #[verifier::when_used_as_spec(spec_is_clean)]
    pub fn is_clean(&self) -> (r: bool)
        ensures
            r == self.spec_is_clean(),
    {
        self.staged == 0 && self.notstaged == 0 && self.untracked == 0 && self.conflicted == 0
    }
}

/// Counts the entries of a status listing by kind; an entry may count under several kinds.
pub fn classify(statuses: &Vec<StatusFlags>) -> (r: StatusCounts)
    ensures
        r == StatusCounts::of(statuses@),
{
    let n = statuses.len();
    let mut r = StatusCounts { staged: 0, notstaged: 0, untracked: 0, conflicted: 0 };
    let mut i: usize = 0;
    while i < n
        invariant
            n == statuses@.len(),
            i <= n,
            r == StatusCounts::of(statuses@.subrange(0, i as int)),
        decreases n - i,
    {
        let f = statuses[i];
        let ghost pre = statuses@.subrange(0, i as int);
        let ghost next = statuses@.subrange(0, i + 1);
        proof {
            assert(next.drop_last() =~= pre);
            lemma_count_bounded(pre, |f: StatusFlags| is_staged(f));
            lemma_count_bounded(pre, |f: StatusFlags| is_unstaged(f));
            lemma_count_bounded(pre, |f: StatusFlags| is_untracked(f));
            lemma_count_bounded(pre, |f: StatusFlags| is_conflicted(f));
        }
        if f.index_new || f.index_modified || f.index_typechange || f.index_renamed
            || f.index_deleted {
            r.staged = r.staged + 1;
        }
        if f.wt_modified || f.wt_typechange || f.wt_deleted {
            r.notstaged = r.notstaged + 1;
        }
        if f.wt_new {
            r.untracked = r.untracked + 1;
        }
        if f.conflicted {
            r.conflicted = r.conflicted + 1;
        }
        i = i + 1;
    }
    assert(statuses@.subrange(0, n as int) =~= statuses@);
    r
}

/// The text of a count segment: the count followed by its glyph.
pub open spec fn count_text(n: nat, glyph: char) -> Seq<char> {
    decimal(n).push(glyph)
}

/// Builds the text of a count segment.
pub fn count_string(n: usize, glyph: char) -> (r: String)
    ensures
        r@ == count_text(n as nat, glyph),
{
    let mut s = String::new();
    push_decimal(&mut s, n as u64);
    push_char(&mut s, glyph);
    proof {
        assert(s@ =~= count_text(n as nat, glyph));
    }
    s
}

/// The text of a staged-count segment: the count followed by its glyph, the count left
/// out when it is one.
pub open spec fn stage_text(n: nat, glyph: char) -> Seq<char> {
    if n == 1 {
        seq![glyph]
    } else {
        count_text(n, glyph)
    }
}

/// Builds the text of a staged-count segment.
pub fn stage_string(n: usize, glyph: char) -> (r: String)
    ensures
        r@ == stage_text(n as nat, glyph),
{
    if n == 1 {
        let mut s = String::new();
        push_char(&mut s, glyph);
        assert(s@ =~= stage_text(n as nat, glyph));
        s
    } else {
        count_string(n, glyph)
    }
}

/// A segment with the given text when `n` is nonzero, else nothing.
pub open spec fn count_views(n: usize, bg: u8, fg: u8, text: Seq<char>) -> Seq<SegmentView> {
    if n > 0 {
        seq![SegmentView::plain(bg, fg, text)]
    } else {
        Seq::empty()
    }
}

fn push_count(p: &mut Powerline, n: usize, bg: u8, fg: u8, glyph: char)
    ensures
        final(p).appended(old(p), count_views(n, bg, fg, count_text(n as nat, glyph))),
{
    if n > 0 {
        let text = count_string(n, glyph);
        let s = Segment::new(bg, fg, text.as_str());
        p.push(s);
    } else {
        assert(p.segment_views() =~= p.segment_views() + Seq::<SegmentView>::empty());
    }
}

fn push_stage(p: &mut Powerline, n: usize, bg: u8, fg: u8, glyph: char)
    ensures
        final(p).appended(old(p), count_views(n, bg, fg, stage_text(n as nat, glyph))),
{
    if n > 0 {
        let text = stage_string(n, glyph);
        let s = Segment::new(bg, fg, text.as_str());
        p.push(s);
    } else {
        assert(p.segment_views() =~= p.segment_views() + Seq::<SegmentView>::empty());
    }
}

/// The segments of the staged-counts module: one per nonzero count, in the order staged,
/// unstaged, untracked, conflicted.
pub open spec fn stage_views(t: Theme, c: StatusCounts) -> Seq<SegmentView> {
    count_views(c.staged, t.git_staged_bg, t.git_staged_fg, stage_text(c.staged as nat, t.git_staged_char))
        + count_views(
        c.notstaged,
        t.git_notstaged_bg,
        t.git_notstaged_fg,
        stage_text(c.notstaged as nat, t.git_notstaged_char),
    ) + count_views(
        c.untracked,
        t.git_untracked_bg,
        t.git_untracked_fg,
        stage_text(c.untracked as nat, t.git_untracked_char),
    ) + count_views(
        c.conflicted,
        t.git_conflicted_bg,
        t.git_conflicted_fg,
        stage_text(c.conflicted as nat, t.git_conflicted_char),
    )
}

/// Staged-counts module: how many paths are staged, unstaged, untracked and conflicted.
pub fn segment_gitstage(p: &mut Powerline, statuses: &Vec<StatusFlags>)
    ensures
        final(p).appended(old(p), stage_views(old(p).theme, StatusCounts::of(statuses@))),
{
    let c = classify(statuses);
    let t = p.theme;
    push_stage(p, c.staged, t.git_staged_bg, t.git_staged_fg, t.git_staged_char);
    push_stage(p, c.notstaged, t.git_notstaged_bg, t.git_notstaged_fg, t.git_notstaged_char);
    push_stage(p, c.untracked, t.git_untracked_bg, t.git_untracked_fg, t.git_untracked_char);
    push_stage(p, c.conflicted, t.git_conflicted_bg, t.git_conflicted_fg, t.git_conflicted_char);
    proof {
        assert(p.segment_views() =~= old(p).segment_views() + stage_views(t, c));
    }
}

/// Where HEAD points.
pub enum GitHead {
    /// A local branch, by name.
    Branch(String),
    /// A commit outside any branch, by its short id.
    Detached(String),
    /// A repository without any commit yet.
    NoHistory,
    /// HEAD resolves, but to nothing that has a name to show.
    Unnamed,
}

/// The text shown for a repository without history.
pub open spec fn no_history_text() -> Seq<char> {
    "Big Bang"@
}

/// The ahead and behind segments, for the commit counts against the upstream.
pub open spec fn ahead_behind_views(t: Theme, ahead_behind: Option<(usize, usize)>) -> Seq<SegmentView> {
    match ahead_behind {
        Some((a, b)) => count_views(a, t.git_ahead_bg, t.git_ahead_fg, count_text(a as nat, t.git_ahead_char))
            + count_views(b, t.git_behind_bg, t.git_behind_fg, count_text(b as nat, t.git_behind_char)),
        None => Seq::empty(),
    }
}

/// The segments of the branch module. The branch (or detached commit) shows in the clean
/// colors when no path is staged, unstaged, untracked or conflicted, else in the dirty ones;
/// a repository without history always shows as dirty. Without a status listing, or with
/// nothing to name, nothing shows.
pub open spec fn git_views(
    t: Theme,
    head: GitHead,
    statuses: Option<Seq<StatusFlags>>,
    ahead_behind: Option<(usize, usize)>,
) -> Seq<SegmentView> {
    match head {
        GitHead::NoHistory => seq![SegmentView::plain(t.git_dirty_bg, t.git_dirty_fg, no_history_text())],
        GitHead::Unnamed => Seq::empty(),
        GitHead::Branch(name) => head_views(t, name@, statuses, ahead_behind),
        GitHead::Detached(name) => head_views(t, name@, statuses, None),
    }
}

/// The segment of a named HEAD in the clean or dirty colors, then the ahead and behind
/// segments; nothing without a status listing.
pub open spec fn head_views(
    t: Theme,
    name: Seq<char>,
    statuses: Option<Seq<StatusFlags>>,
    ahead_behind: Option<(usize, usize)>,
) -> Seq<SegmentView> {
    match statuses {
        None => Seq::empty(),
        Some(s) => {
            let clean = StatusCounts::of(s).spec_is_clean();
            let bg = if clean { t.git_clean_bg } else { t.git_dirty_bg };
            let fg = if clean { t.git_clean_fg } else { t.git_dirty_fg };
            seq![SegmentView::plain(bg, fg, name)] + ahead_behind_views(t, ahead_behind)
        },
    }
}

/// The status listing, if there is one, as a sequence.
pub open spec fn statuses_view(statuses: Option<&Vec<StatusFlags>>) -> Option<Seq<StatusFlags>> {
    match statuses {
        Some(s) => Some(s@),
        None => None,
    }
}

/// Branch module: the branch or detached commit in the clean or dirty colors, then, for a
/// branch, how many commits it is ahead of and behind its upstream (`ahead_behind`, when it
/// has one). A detached commit has no upstream, so `ahead_behind` is not shown for it.
pub fn segment_git(
    p: &mut Powerline,
    head: &GitHead,
    statuses: Option<&Vec<StatusFlags>>,
    ahead_behind: Option<(usize, usize)>,
)
    ensures
        final(p).appended(
            old(p),
            git_views(old(p).theme, *head, statuses_view(statuses), ahead_behind),
        ),
{
    let t = p.theme;
    let (name, counts): (&str, Option<(usize, usize)>) = match head {
        GitHead::NoHistory => {
            let s = Segment::new(t.git_dirty_bg, t.git_dirty_fg, "Big Bang");
            p.push(s);
            return;
        },
        GitHead::Unnamed => {
            assert(p.segment_views() =~= p.segment_views() + Seq::<SegmentView>::empty());
            return;
        },
        GitHead::Branch(n) => (n.as_str(), ahead_behind),
        GitHead::Detached(n) => (n.as_str(), None),
    };
    let statuses = match statuses {
        Some(s) => s,
        None => {
            assert(p.segment_views() =~= p.segment_views() + Seq::<SegmentView>::empty());
            return;
        },
    };
    let c = classify(statuses);
    let (mut bg, mut fg) = (t.git_dirty_bg, t.git_dirty_fg);
    if c.is_clean() {
        bg = t.git_clean_bg;
        fg = t.git_clean_fg;
    }
    let s = Segment::new(bg, fg, name);
    p.push(s);
    let ghost mid = p.segment_views();
    match counts {
        Some((a, b)) => {
            push_count(p, a, t.git_ahead_bg, t.git_ahead_fg, t.git_ahead_char);
            push_count(p, b, t.git_behind_bg, t.git_behind_fg, t.git_behind_char);
        },
        None => {},
    }
    proof {
        assert(p.segment_views() =~= mid + ahead_behind_views(t, counts));
        assert(p.segment_views() =~= old(p).segment_views() + git_views(
            t,
            *head,
            statuses_view(Some(statuses)),
            ahead_behind,
        ));
    }
}

} // verus!
