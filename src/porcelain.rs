//! Reading the machine-readable short status that the version-control tool prints: a
//! branch header, then one two-character status code per path, all separated by NULs.

use vstd::prelude::*;
use crate::text::{
    chars_of, find, first_index, lemma_split_step, parse_unsigned, split_on, starts_with, starts_with_at,
    string_of, unsigned_of,
};

verus! {

/// What the short status says about the repository.
pub struct GitOutput {
    /// The local branch.
    pub local: String,
    pub ahead: u32,
    pub behind: u32,
    pub staged: u32,
    pub notstaged: u32,
    pub untracked: u32,
    pub conflict: u32,
}

/// A short status as plain values.
pub struct GitOutputView {
    pub local: Seq<char>,
    pub ahead: u32,
    pub behind: u32,
    pub staged: nat,
    pub notstaged: nat,
    pub untracked: nat,
    pub conflict: nat,
}

impl View for GitOutput {
    type V = GitOutputView;

    open spec fn view(&self) -> GitOutputView {
        GitOutputView {
            local: self.local@,
            ahead: self.ahead,
            behind: self.behind,
            staged: self.staged as nat,
            notstaged: self.notstaged as nat,
            untracked: self.untracked as nat,
            conflict: self.conflict as nat,
        }
    }
}

/// The NUL-separated records of `s`; there is always at least one.
pub open spec fn records(s: Seq<char>) -> Seq<Seq<char>> {
    split_on(s, '\0')
}

/// The code of an untracked path.
pub open spec fn is_untracked_code(e: Seq<char>) -> bool {
    e.len() >= 2 && e[0] == '?' && e[1] == '?'
}

/// The code of a path in a merge conflict.
pub open spec fn is_conflict_code(e: Seq<char>) -> bool {
    e.len() >= 2 && e[0] == 'U' && e[1] == 'U'
}

/// A code with a change in the index: its first character is not blank.
pub open spec fn is_staged_code(e: Seq<char>) -> bool {
    !is_untracked_code(e) && !is_conflict_code(e) && e.len() >= 1 && e[0] != ' '
}

/// A code with a change in the working tree: its second character is not blank.
pub open spec fn is_notstaged_code(e: Seq<char>) -> bool {
    !is_untracked_code(e) && !is_conflict_code(e) && e.len() >= 2 && e[1] != ' '
}

/// How many records satisfy `p`.
pub open spec fn count_codes(recs: Seq<Seq<char>>, p: spec_fn(Seq<char>) -> bool) -> nat
    decreases recs.len(),
{
    if recs.len() == 0 {
        0
    } else {
        (if p(recs[0]) {
            1nat
        } else {
            0nat
        }) + count_codes(recs.drop_first(), p)
    }
}

/// How many records hold a staged change.
pub open spec fn count_staged(recs: Seq<Seq<char>>) -> nat {
    count_codes(recs, |e: Seq<char>| is_staged_code(e))
}

/// How many records hold a change in the working tree.
pub open spec fn count_notstaged(recs: Seq<Seq<char>>) -> nat {
    count_codes(recs, |e: Seq<char>| is_notstaged_code(e))
}

/// How many records are untracked paths.
pub open spec fn count_untracked(recs: Seq<Seq<char>>) -> nat {
    count_codes(recs, |e: Seq<char>| is_untracked_code(e))
}

/// How many records are conflicted paths.
pub open spec fn count_conflict(recs: Seq<Seq<char>>) -> nat {
    count_codes(recs, |e: Seq<char>| is_conflict_code(e))
}

proof fn lemma_count_first(recs: Seq<Seq<char>>)
    requires
        recs.len() > 0,
    ensures
        count_staged(recs) == (if is_staged_code(recs[0]) { 1nat } else { 0nat }) + count_staged(recs.drop_first()),
        count_notstaged(recs) == (if is_notstaged_code(recs[0]) { 1nat } else { 0nat }) + count_notstaged(recs.drop_first()),
        count_untracked(recs) == (if is_untracked_code(recs[0]) { 1nat } else { 0nat }) + count_untracked(recs.drop_first()),
        count_conflict(recs) == (if is_conflict_code(recs[0]) { 1nat } else { 0nat }) + count_conflict(recs.drop_first()),
{
}

proof fn lemma_count_empty(recs: Seq<Seq<char>>)
    requires
        recs.len() == 0,
    ensures
        count_staged(recs) == 0,
        count_notstaged(recs) == 0,
        count_untracked(recs) == 0,
        count_conflict(recs) == 0,
{
}

/// The commit counts inside the brackets of the header: `ahead N`, `behind M`, or
/// `ahead N, behind M`.
pub open spec fn marks_spec(m: Seq<char>) -> Option<(u32, u32)> {
    let ahead = seq!['a', 'h', 'e', 'a', 'd', ' '];
    let behind = seq!['b', 'e', 'h', 'i', 'n', 'd', ' '];
    let comma_behind = seq![',', ' ', 'b', 'e', 'h', 'i', 'n', 'd', ' '];
    if starts_with(m, ahead) {
        let x = m.subrange(6, m.len() as int);
        let c = first_index(x, ',');
        if c >= x.len() {
            match unsigned_of(x, 10, u32::MAX as nat) {
                Some(a) => Some((a as u32, 0u32)),
                None => None,
            }
        } else if starts_with(x.subrange(c, x.len() as int), comma_behind) {
            match (
                unsigned_of(x.subrange(0, c), 10, u32::MAX as nat),
                unsigned_of(x.subrange(c + 9, x.len() as int), 10, u32::MAX as nat),
            ) {
                (Some(a), Some(b)) => Some((a as u32, b as u32)),
                _ => None,
            }
        } else {
            None
        }
    } else if starts_with(m, behind) {
        match unsigned_of(m.subrange(7, m.len() as int), 10, u32::MAX as nat) {
            Some(b) => Some((0u32, b as u32)),
            None => None,
        }
    } else {
        None
    }
}

/// The header record: `## ` and the branch, which ends at the first `.`; after it, an
/// optional bracket with the commit counts against the upstream.
pub open spec fn header_spec(h: Seq<char>) -> Option<(Seq<char>, u32, u32)> {
    if !starts_with(h, seq!['#', '#', ' ']) {
        None
    } else {
        let rest = h.subrange(3, h.len() as int);
        let d = first_index(rest, '.');
        if d >= rest.len() {
            Some((rest, 0u32, 0u32))
        } else {
            let tail = rest.subrange(d, rest.len() as int);
            let b = first_index(tail, '[');
            if b >= tail.len() {
                Some((rest.subrange(0, d), 0u32, 0u32))
            } else {
                let after = tail.subrange(b + 1, tail.len() as int);
                let e = first_index(after, ']');
                if e >= after.len() {
                    None
                } else {
                    match marks_spec(after.subrange(0, e)) {
                        Some((a, bh)) => Some((rest.subrange(0, d), a, bh)),
                        None => None,
                    }
                }
            }
        }
    }
}

/// What a whole short status says, when its header is well formed.
pub open spec fn parse_spec(s: Seq<char>) -> Option<GitOutputView> {
    let recs = records(s);
    match header_spec(recs[0]) {
        None => None,
        Some((local, ahead, behind)) => {
            let entries = recs.drop_first();
            Some(
                GitOutputView {
                    local,
                    ahead,
                    behind,
                    staged: count_staged(entries),
                    notstaged: count_notstaged(entries),
                    untracked: count_untracked(entries),
                    conflict: count_conflict(entries),
                },
            )
        },
    }
}

#[verifier::rlimit(40)]
fn parse_marks(v: &Vec<char>, lo: usize, hi: usize) -> (r: Option<(u32, u32)>)
    requires
        lo <= hi <= v@.len(),
    ensures
        r == marks_spec(v@.subrange(lo as int, hi as int)),
{
    let ghost m = v@.subrange(lo as int, hi as int);
    if starts_with_at(v, lo, hi, &['a', 'h', 'e', 'a', 'd', ' ']) {
        let x = lo + 6;
        let ghost xs = m.subrange(6, m.len() as int);
        assert(xs =~= v@.subrange(x as int, hi as int));
        let c = find(v, ',', x, hi);
        if c == hi {
            match parse_unsigned(v, x, hi, 10, u32::MAX as u64) {
                Some(a) => Some((a as u32, 0)),
                None => None,
            }
        } else if starts_with_at(v, c, hi, &[',', ' ', 'b', 'e', 'h', 'i', 'n', 'd', ' ']) {
            assert(xs.subrange(c - x, xs.len() as int) =~= v@.subrange(c as int, hi as int));
            assert(xs.subrange(0, c - x) =~= v@.subrange(x as int, c as int));
            assert(xs.subrange(c - x + 9, xs.len() as int) =~= v@.subrange(c + 9, hi as int));
            let a = parse_unsigned(v, x, c, 10, u32::MAX as u64);
            let b = parse_unsigned(v, c + 9, hi, 10, u32::MAX as u64);
            match (a, b) {
                (Some(a), Some(b)) => Some((a as u32, b as u32)),
                _ => None,
            }
        } else {
            assert(xs.subrange(c - x, xs.len() as int) =~= v@.subrange(c as int, hi as int));
            None
        }
    } else if starts_with_at(v, lo, hi, &['b', 'e', 'h', 'i', 'n', 'd', ' ']) {
        assert(m.subrange(7, m.len() as int) =~= v@.subrange(lo + 7, hi as int));
        match parse_unsigned(v, lo + 7, hi, 10, u32::MAX as u64) {
            Some(b) => Some((0, b as u32)),
            None => None,
        }
    } else {
        None
    }
}

/// The header's view, if the parsed header is there.
pub open spec fn header_view(r: Option<(String, u32, u32)>) -> Option<(Seq<char>, u32, u32)> {
    match r {
        Some((l, a, b)) => Some((l@, a, b)),
        None => None,
    }
}

fn parse_header(v: &Vec<char>, lo: usize, hi: usize) -> (r: Option<(String, u32, u32)>)
    requires
        lo <= hi <= v@.len(),
    ensures
        header_view(r) == header_spec(v@.subrange(lo as int, hi as int)),
{
    let ghost h = v@.subrange(lo as int, hi as int);
    if !starts_with_at(v, lo, hi, &['#', '#', ' ']) {
        return None;
    }
    let rs = lo + 3;
    let ghost rest = h.subrange(3, h.len() as int);
    assert(rest =~= v@.subrange(rs as int, hi as int));
    let d = find(v, '.', rs, hi);
    if d == hi {
        return Some((string_of(v, rs, hi), 0, 0));
    }
    let ghost tail = rest.subrange(d - rs, rest.len() as int);
    assert(tail =~= v@.subrange(d as int, hi as int));
    assert(rest.subrange(0, d - rs) =~= v@.subrange(rs as int, d as int));
    let b = find(v, '[', d, hi);
    if b == hi {
        return Some((string_of(v, rs, d), 0, 0));
    }
    let ghost after = tail.subrange(b - d + 1, tail.len() as int);
    assert(after =~= v@.subrange(b + 1, hi as int));
    let e = find(v, ']', b + 1, hi);
    if e == hi {
        return None;
    }
    assert(after.subrange(0, e - b - 1) =~= v@.subrange(b + 1, e as int));
    match parse_marks(v, b + 1, e) {
        Some((x, y)) => Some((string_of(v, rs, d), x, y)),
        None => None,
    }
}

/// Reads the short status: `None` when the header is malformed.
pub fn parse_output(stdout: &str) -> (r: Option<GitOutput>)
    requires
        stdout@.len() < u32::MAX,
    ensures
        r matches Some(o) ==> parse_spec(stdout@) == Some(o@),
        r is None ==> parse_spec(stdout@) is None,
{
    let v = chars_of(stdout);
    let n = v.len();
    let ghost s = v@;
    let h = find(&v, '\0', 0, n);
    assert(s.subrange(0, n as int) =~= s);
    proof {
        lemma_split_step(s, '\0', h as int);
    }
    let (local, ahead, behind) = match parse_header(&v, 0, h) {
        Some(x) => x,
        None => {
            return None;
        },
    };
    let ghost entries = records(s).drop_first();
    let mut staged: u32 = 0;
    let mut notstaged: u32 = 0;
    let mut untracked: u32 = 0;
    let mut conflict: u32 = 0;
    if h < n {
        let mut pos: usize = h + 1;
        assert(entries =~= records(s.subrange(pos as int, n as int)));
        loop
            invariant_except_break
                staged <= pos - h - 1,
                notstaged <= pos - h - 1,
                untracked <= pos - h - 1,
                conflict <= pos - h - 1,
                staged + count_staged(records(s.subrange(pos as int, n as int)))
                    == count_staged(entries),
                notstaged + count_notstaged(records(s.subrange(pos as int, n as int)))
                    == count_notstaged(entries),
                untracked + count_untracked(records(s.subrange(pos as int, n as int)))
                    == count_untracked(entries),
                conflict + count_conflict(records(s.subrange(pos as int, n as int)))
                    == count_conflict(entries),
            invariant
                n == s.len(),
                s == v@,
                n < u32::MAX,
                h < pos <= n,
            ensures
                staged == count_staged(entries),
                notstaged == count_notstaged(entries),
                untracked == count_untracked(entries),
                conflict == count_conflict(entries),
            decreases n - pos,
        {
            let e = find(&v, '\0', pos, n);
            let ghost sub = s.subrange(pos as int, n as int);
            let ghost rec = s.subrange(pos as int, e as int);
            proof {
                lemma_split_step(sub, '\0', e - pos);
                assert(sub.subrange(0, e - pos) =~= rec);
                let recs = records(sub);
                if e < n {
                    assert(sub.subrange(e - pos + 1, sub.len() as int) =~= s.subrange(e + 1, n as int));
                } else {
                    assert(rec =~= sub);
                }
                assert(recs[0] == rec);
                lemma_count_first(recs);
                if e < n {
                    assert(recs.drop_first() =~= records(s.subrange(e + 1, n as int)));
                } else {
                    assert(recs.drop_first() =~= Seq::<Seq<char>>::empty());
                    lemma_count_empty(recs.drop_first());
                }
            }
            let ghost (s0, n0, u0, k0) = (staged, notstaged, untracked, conflict);
            let len = e - pos;
            let c0 = if len >= 1 { Some(v[pos]) } else { None };
            let c1 = if len >= 2 { Some(v[pos + 1]) } else { None };
            if c0 == Some('?') && c1 == Some('?') {
                untracked = untracked + 1;
            } else if c0 == Some('U') && c1 == Some('U') {
                conflict = conflict + 1;
            } else {
                if len >= 1 && v[pos] != ' ' {
                    staged = staged + 1;
                }
                if len >= 2 && v[pos + 1] != ' ' {
                    notstaged = notstaged + 1;
                }
            }
            proof {
                assert(rec.len() == len);
                if len >= 1 {
                    assert(rec[0] == v@[pos as int]);
                }
                if len >= 2 {
                    assert(rec[1] == v@[pos + 1]);
                }
                assert(staged == s0 + if is_staged_code(rec) { 1int } else { 0int });
                assert(notstaged == n0 + if is_notstaged_code(rec) { 1int } else { 0int });
                assert(untracked == u0 + if is_untracked_code(rec) { 1int } else { 0int });
                assert(conflict == k0 + if is_conflict_code(rec) { 1int } else { 0int });
            }
            if e == n {
                break;
            }
            pos = e + 1;
        }
    }
    else {
        assert(entries =~= Seq::<Seq<char>>::empty());
        proof {
            lemma_count_empty(entries);
        }
    }
    Some(GitOutput { local, ahead, behind, staged, notstaged, untracked, conflict })
}

} // verus!
