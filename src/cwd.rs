//! The working-directory module: the path as segments, shortened to fit.

use vstd::prelude::*;
use crate::powerline::Powerline;
use crate::segment::{Segment, SegmentView};
use crate::text::push_char;
use crate::theme::Theme;

verus! {

/// The ellipsis that stands for what was left out.
pub open spec fn ellipsis() -> char {
    '\u{2026}'
}

/// The components of a path, as character sequences.
pub open spec fn comps_of(v: Seq<String>) -> Seq<Seq<char>> {
    v.map_values(|s: String| s@)
}

/// What is left of `cwd` below `home`, when `home` is a prefix of it.
pub open spec fn strip_home(cwd: Seq<Seq<char>>, home: Option<Seq<Seq<char>>>) -> Option<Seq<Seq<char>>> {
    match home {
        Some(h) => if h.len() <= cwd.len() && cwd.subrange(0, h.len() as int) == h {
            Some(cwd.subrange(h.len() as int, cwd.len() as int))
        } else {
            None
        },
        None => None,
    }
}

/// A directory name cut to `max` characters (none when `max` is zero), with an ellipsis
/// where it was cut.
pub open spec fn dir_text(name: Seq<char>, max: u8) -> Seq<char> {
    if max > 0 && name.len() > max {
        name.subrange(0, max as int).push(ellipsis())
    } else {
        name
    }
}

/// The segment of one directory; the last one, the working directory itself, has its own
/// foreground.
pub open spec fn dir_view(t: Theme, name: Seq<char>, last: bool, max: u8) -> SegmentView {
    SegmentView::plain(t.path_bg, if last { t.cwd_fg } else { t.path_fg }, dir_text(name, max))
}

/// The segments of a run of directories, the last one marked as such.
pub open spec fn dirs_views(t: Theme, comps: Seq<Seq<char>>, max: u8) -> Seq<SegmentView> {
    Seq::new(comps.len(), |i: int| dir_view(t, comps[i], i == comps.len() - 1, max))
}

/// The segments of a path: all its directories, or, when there are more than `max_depth`
/// (and it is not zero), an ellipsis and the last `max_depth` of them.
pub open spec fn path_views(t: Theme, comps: Seq<Seq<char>>, max_depth: u8, max_size: u8) -> Seq<SegmentView> {
    if max_depth > 0 && comps.len() > max_depth {
        seq![SegmentView::plain(t.path_bg, t.path_fg, seq![ellipsis()])] + dirs_views(
            t,
            comps.subrange(comps.len() - max_depth, comps.len() as int),
            max_size,
        )
    } else {
        dirs_views(t, comps, max_size)
    }
}

/// The segments of the working-directory module: a home segment when the path lies under
/// `home`, then the rest of the path.
pub open spec fn cwd_views(
    t: Theme,
    cwd: Seq<Seq<char>>,
    home: Option<Seq<Seq<char>>>,
    max_depth: u8,
    max_size: u8,
) -> Seq<SegmentView> {
    match strip_home(cwd, home) {
        Some(rest) => seq![SegmentView::plain(t.home_bg, t.home_fg, seq!['~'])] + path_views(
            t,
            rest,
            max_depth,
            max_size,
        ),
        None => path_views(t, cwd, max_depth, max_size),
    }
}

/// The home directory's components, if known, as character sequences.
pub open spec fn home_of(home: Option<&Vec<String>>) -> Option<Seq<Seq<char>>> {
    match home {
        Some(h) => Some(comps_of(h@)),
        None => None,
    }
}

/// Appends the segment of one directory, cut to `cwd_max_dir_size` characters.
pub fn segment(p: &mut Powerline, name: &str, last: bool, cwd_max_dir_size: u8)
    ensures
        final(p).appended(old(p), seq![dir_view(old(p).theme, name@, last, cwd_max_dir_size)]),
{
    let max = cwd_max_dir_size as usize;
    let mut text;
    if max > 0 && name.unicode_len() > max {
        text = String::from_str(name.substring_char(0, max));
        push_char(&mut text, '\u{2026}');
    } else {
        text = String::from_str(name);
    }
    let fg = if last { p.theme.cwd_fg } else { p.theme.path_fg };
    let s = Segment::new(p.theme.path_bg, fg, text.as_str());
    p.push(s);
}

fn is_prefix(home: &Vec<String>, cwd: &Vec<String>) -> (r: bool)
    ensures
        r == (home@.len() <= cwd@.len() && comps_of(cwd@).subrange(0, home@.len() as int)
            == comps_of(home@)),
{
    if home.len() > cwd.len() {
        return false;
    }
    let mut i: usize = 0;
    while i < home.len()
        invariant
            home@.len() <= cwd@.len(),
            i <= home@.len(),
            forall|j: int| 0 <= j < i ==> home@[j]@ == cwd@[j]@,
        decreases home@.len() - i,
    {
        if home[i] != cwd[i] {
            assert(comps_of(cwd@).subrange(0, home@.len() as int)[i as int] != comps_of(home@)[i as int]);
            return false;
        }
        i = i + 1;
    }
    assert(comps_of(cwd@).subrange(0, home@.len() as int) =~= comps_of(home@));
    true
}

/// Working-directory module: `cwd` and `home` are the components of the working directory
/// and of the home directory. The part under home shows as a home segment; more than
/// `cwd_max_depth` directories (unless zero) show as an ellipsis and the last
/// `cwd_max_depth`; each name is cut to `cwd_max_dir_size` characters (unless zero).
pub fn segment_cwd(
    p: &mut Powerline,
    cwd: &Vec<String>,
    home: Option<&Vec<String>>,
    cwd_max_depth: u8,
    cwd_max_dir_size: u8,
)
    ensures
        final(p).appended(
            old(p),
            cwd_views(old(p).theme, comps_of(cwd@), home_of(home), cwd_max_depth, cwd_max_dir_size),
        ),
{
    let ghost comps = comps_of(cwd@);
    let ghost t = p.theme;
    let len = cwd.len();
    let mut start: usize = 0;
    match home {
        Some(h) => {
            if is_prefix(h, cwd) {
                let s = Segment::new(p.theme.home_bg, p.theme.home_fg, "~");
                proof {
                    reveal_strlit("~");
                    assert("~"@ =~= seq!['~']);
                }
                p.push(s);
                start = h.len();
            }
        },
        None => {},
    }
    let ghost rest = comps.subrange(start as int, len as int);
    let ghost head = p.segment_views();
    proof {
        match strip_home(comps, home_of(home)) {
            Some(r) => {
                assert(r =~= rest);
                assert(head =~= old(p).segment_views() + seq![SegmentView::plain(t.home_bg, t.home_fg, seq!['~'])]);
            },
            None => {
                assert(rest =~= comps);
                assert(head =~= old(p).segment_views());
            },
        }
    }
    let depth = cwd_max_depth as usize;
    let mut from = start;
    if depth > 0 && len - start > depth {
        let s = Segment::new(p.theme.path_bg, p.theme.path_fg, "\u{2026}");
        proof {
            reveal_strlit("\u{2026}");
            assert("\u{2026}"@ =~= seq![ellipsis()]);
        }
        p.push(s);
        from = len - depth;
    }
    let ghost sub = comps.subrange(from as int, len as int);
    let ghost mid = p.segment_views();
    let mut j: usize = from;
    while j < len
        invariant
            len == cwd@.len(),
            comps == comps_of(cwd@),
            from <= j <= len,
            sub == comps.subrange(from as int, len as int),
            p.theme == t,
            p.shell == old(p).shell,
            p.segment_views() == mid + dirs_views(t, sub, cwd_max_dir_size).subrange(0, j - from),
        decreases len - j,
    {
        segment(p, cwd[j].as_str(), j + 1 == len, cwd_max_dir_size);
        proof {
            assert(dirs_views(t, sub, cwd_max_dir_size).subrange(0, j + 1 - from) =~= dirs_views(
                t,
                sub,
                cwd_max_dir_size,
            ).subrange(0, j - from).push(dir_view(t, comps[j as int], j + 1 == len, cwd_max_dir_size)));
        }
        j = j + 1;
    }
    proof {
        assert(dirs_views(t, sub, cwd_max_dir_size).subrange(0, len - from) =~= dirs_views(
            t,
            sub,
            cwd_max_dir_size,
        ));
        if depth > 0 && rest.len() > depth {
            assert(sub =~= rest.subrange(rest.len() - depth, rest.len() as int));
        } else {
            assert(sub =~= rest);
        }
        assert(p.segment_views() =~= old(p).segment_views() + cwd_views(
            t,
            comps,
            home_of(home),
            cwd_max_depth,
            cwd_max_dir_size,
        ));
    }
}

} // verus!
