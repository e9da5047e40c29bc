//! The run's segment list and the modules that fill it.

use vstd::prelude::*;
use crate::Shell;
use crate::format::{root, root_symbol};
use crate::render::views;
use crate::segment::{Segment, SegmentView};
use crate::text::{chars_of, decimal, parse_unsigned, push_decimal, str_eq, unsigned_of, word_spans, words};
use crate::theme::Theme;

verus! {

/// The state of one prompt run: the segments so far, the theme and the dialect.
pub struct Powerline {
    pub segments: Vec<Segment>,
    pub theme: Theme,
    pub shell: Shell,
}

impl Powerline {
    /// A run with no segments yet.
    pub fn new(theme: Theme, shell: Shell) -> (r: Powerline)
        ensures
            r.segments@.len() == 0,
            r.theme == theme,
            r.shell == shell,
    {
        Powerline { segments: Vec::new(), theme, shell }
    }

    /// The views of the segments so far.
    pub open spec fn segment_views(&self) -> Seq<SegmentView> {
        views(self.segments@)
    }

    /// `self` is `old` with the segments `added` appended, theme and dialect unchanged.
    pub open spec fn appended(&self, old: &Powerline, added: Seq<SegmentView>) -> bool {
        &&& self.theme == old.theme
        &&& self.shell == old.shell
        &&& self.segment_views() == old.segment_views() + added
    }

    /// Appends one segment.
    pub fn push(&mut self, s: Segment)
        ensures
            final(self).appended(old(self), seq![s@]),
    {
        self.segments.push(s);
        proof {
            assert(views(self.segments@) =~= views(old(self).segments@) + seq![s@]);
        }
    }
}

/// The segment of the exit-status module.
pub open spec fn root_view(t: Theme, shell: Shell, error: u8) -> SegmentView {
    if error != 0 {
        SegmentView::plain(t.cmd_failed_bg, t.cmd_failed_fg, root_symbol(shell)).safe()
    } else {
        SegmentView::plain(t.cmd_passed_bg, t.cmd_passed_fg, root_symbol(shell)).safe()
    }
}

/// Exit-status module: the prompt glyph, in the failure colors when `error` is nonzero.
pub fn segment_root(p: &mut Powerline, error: u8)
    ensures
        final(p).appended(old(p), seq![root_view(old(p).theme, old(p).shell, error)]),
{
    let (mut bg, mut fg) = (p.theme.cmd_passed_bg, p.theme.cmd_passed_fg);
    if error != 0 {
        bg = p.theme.cmd_failed_bg;
        fg = p.theme.cmd_failed_fg;
    }
    let s = Segment::new(bg, fg, root(p.shell)).dont_escape();
    p.push(s);
}

/// The segment of the line-break module.
pub open spec fn linebreak_view() -> SegmentView {
    SegmentView { no_space_after: true, ..SegmentView::plain(0, 7, seq!['\n']).safe() }
}

/// Line-break module: a newline with no colors and no trailing space.
pub fn segment_linebreak(p: &mut Powerline)
    ensures
        final(p).appended(old(p), seq![linebreak_view()]),
{
    let nl: &str = "\n";
    proof {
        reveal_strlit("\n");
        assert(nl@ =~= seq!['\n']);
    }
    let s = Segment::new(0, 7, nl).dont_escape().with_no_space_after();
    p.push(s);
}

/// Jobs module, for dialects that can count jobs: the job count, shown by the shell only
/// when there are jobs.
pub open spec fn jobs_views(t: Theme, shell: Shell) -> Seq<SegmentView> {
    match shell {
        Shell::Bare => Seq::empty(),
        Shell::Bash => seq![
            SegmentView {
                before: "$(test -n \"$(jobs -p)\" && echo -n \""@,
                after: "\")"@,
                conditional: true,
                ..SegmentView::plain(t.jobs_bg, t.jobs_fg, "\\j"@).safe()
            },
        ],
        Shell::Zsh => seq![
            SegmentView {
                before: "%(1j."@,
                after: ".)"@,
                conditional: true,
                ..SegmentView::plain(t.jobs_bg, t.jobs_fg, "%j"@).safe()
            },
        ],
    }
}

/// Jobs module: the shell's own job count, wrapped in its own conditional so that the
/// shell hides the segment when there are no jobs.
pub fn segment_jobs(p: &mut Powerline)
    ensures
        final(p).appended(old(p), jobs_views(old(p).theme, old(p).shell)),
{
    match p.shell {
        Shell::Bare => {
            proof {
                assert(views(p.segments@) =~= views(p.segments@) + Seq::<SegmentView>::empty());
            }
        },
        Shell::Bash => {
            let s = Segment::new(p.theme.jobs_bg, p.theme.jobs_fg, "\\j").with_before(
                "$(test -n \"$(jobs -p)\" && echo -n \"",
            ).with_after("\")").into_conditional().dont_escape();
            p.push(s);
        },
        Shell::Zsh => {
            let s = Segment::new(p.theme.jobs_bg, p.theme.jobs_fg, "%j").with_before(
                "%(1j.",
            ).with_after(".)").into_conditional().dont_escape();
            p.push(s);
        },
    }
}

/// The text of a looked-up name, or `error` when the lookup failed.
pub open spec fn name_or_error(name: Option<&str>) -> Seq<char> {
    match name {
        Some(n) => n@,
        None => "error"@,
    }
}

fn name_or_error_str(name: Option<&str>) -> (r: &str)
    ensures
        r@ == name_or_error(name),
{
    match name {
        Some(n) => n,
        None => "error",
    }
}

/// The segment of the host module; `hostname` is the machine's name, where it could be had.
pub open spec fn host_view(t: Theme, shell: Shell, hostname: Option<&str>) -> SegmentView {
    match shell {
        Shell::Bare => SegmentView::plain(t.hostname_bg, t.hostname_fg, name_or_error(hostname)),
        Shell::Bash => SegmentView::plain(t.hostname_bg, t.hostname_fg, "\\h"@).safe(),
        Shell::Zsh => SegmentView::plain(t.hostname_bg, t.hostname_fg, "%m"@).safe(),
    }
}

/// Host module: the shell's own host-name escape, or for a bare terminal the name itself.
pub fn segment_host(p: &mut Powerline, hostname: Option<&str>)
    ensures
        final(p).appended(old(p), seq![host_view(old(p).theme, old(p).shell, hostname)]),
{
    let (bg, fg) = (p.theme.hostname_bg, p.theme.hostname_fg);
    let s = match p.shell {
        Shell::Bare => Segment::new(bg, fg, name_or_error_str(hostname)),
        Shell::Bash => Segment::new(bg, fg, "\\h").dont_escape(),
        Shell::Zsh => Segment::new(bg, fg, "%m").dont_escape(),
    };
    p.push(s);
}

/// The segment of the user module; `is_root` tells whether the user is the superuser and
/// `name` is the user's name, where it could be had.
pub open spec fn user_view(t: Theme, shell: Shell, is_root: bool, name: Option<&str>) -> SegmentView {
    let bg = if is_root { t.username_root_bg } else { t.username_bg };
    let fg = if is_root { t.username_root_fg } else { t.username_fg };
    match shell {
        Shell::Bare => SegmentView::plain(bg, fg, name_or_error(name)),
        Shell::Bash => SegmentView::plain(bg, fg, "\\u"@).safe(),
        Shell::Zsh => SegmentView::plain(bg, fg, "%n"@).safe(),
    }
}

/// User module: the shell's own user-name escape, or for a bare terminal the name itself,
/// in the superuser's colors for root.
pub fn segment_user(p: &mut Powerline, is_root: bool, name: Option<&str>)
    ensures
        final(p).appended(old(p), seq![user_view(old(p).theme, old(p).shell, is_root, name)]),
{
    let (mut bg, mut fg) = (p.theme.username_bg, p.theme.username_fg);
    if is_root {
        bg = p.theme.username_root_bg;
        fg = p.theme.username_root_fg;
    }
    let s = match p.shell {
        Shell::Bare => Segment::new(bg, fg, name_or_error_str(name)),
        Shell::Bash => Segment::new(bg, fg, "\\u").dont_escape(),
        Shell::Zsh => Segment::new(bg, fg, "%n").dont_escape(),
    };
    p.push(s);
}

/// A single-glyph segment when `shown`, else nothing.
pub open spec fn glyph_views(shown: bool, bg: u8, fg: u8, glyph: char) -> Seq<SegmentView> {
    if shown {
        seq![SegmentView::plain(bg, fg, seq![glyph])]
    } else {
        Seq::empty()
    }
}

fn push_glyph(p: &mut Powerline, bg: u8, fg: u8, glyph: char)
    ensures
        final(p).appended(old(p), seq![SegmentView::plain(bg, fg, seq![glyph])]),
{
    let mut text = String::new();
    crate::text::push_char(&mut text, glyph);
    let s = Segment::new(bg, fg, text.as_str());
    p.push(s);
}

fn keep(p: &Powerline)
    ensures
        p.appended(p, Seq::empty()),
{
    assert(p.segment_views() =~= p.segment_views() + Seq::<SegmentView>::empty());
}

/// SSH module: the SSH glyph, when the session runs over SSH.
pub fn segment_ssh(p: &mut Powerline, in_ssh: bool)
    ensures
        final(p).appended(
            old(p),
            glyph_views(in_ssh, old(p).theme.ssh_bg, old(p).theme.ssh_fg, old(p).theme.ssh_char),
        ),
{
    if in_ssh {
        let (bg, fg, c) = (p.theme.ssh_bg, p.theme.ssh_fg, p.theme.ssh_char);
        push_glyph(p, bg, fg, c);
    } else {
        keep(p);
    }
}

/// Permissions module: the read-only glyph, when the working directory is not writable.
pub fn segment_perms(p: &mut Powerline, writable: bool)
    ensures
        final(p).appended(
            old(p),
            glyph_views(!writable, old(p).theme.ro_bg, old(p).theme.ro_fg, old(p).theme.ro_char),
        ),
{
    if !writable {
        let (bg, fg, c) = (p.theme.ro_bg, p.theme.ro_fg, p.theme.ro_char);
        push_glyph(p, bg, fg, c);
    } else {
        keep(p);
    }
}

/// A segment with the given text when there is one, else nothing.
pub open spec fn text_views(text: Option<&str>, bg: u8, fg: u8) -> Seq<SegmentView> {
    match text {
        Some(v) => seq![SegmentView::plain(bg, fg, v@)],
        None => Seq::empty(),
    }
}

/// Nix-shell module: the value of the nix-shell marker, when it is set.
pub fn segment_nix(p: &mut Powerline, value: Option<&str>)
    ensures
        final(p).appended(old(p), text_views(value, old(p).theme.nixshell_bg, old(p).theme.nixshell_fg)),
{
    match value {
        Some(v) => {
            let s = Segment::new(p.theme.nixshell_bg, p.theme.nixshell_fg, v);
            p.push(s);
        },
        None => keep(p),
    }
}

/// Virtual-environment module: the name of the active environment, when there is one.
pub fn segment_virtualenv(p: &mut Powerline, name: Option<&str>)
    ensures
        final(p).appended(
            old(p),
            text_views(name, old(p).theme.virtual_env_bg, old(p).theme.virtual_env_fg),
        ),
{
    match name {
        Some(v) => {
            let s = Segment::new(p.theme.virtual_env_bg, p.theme.virtual_env_fg, v);
            p.push(s);
        },
        None => keep(p),
    }
}

/// The time format that the shells' own time escapes show: hours on a 12-hour clock,
/// minutes, and am or pm.
pub const TIME_FORMAT_DEFAULT: &'static str = "%I:%M %p";

/// The segment of the time module: the shell's own time escape for the default format, or
/// else (and always for a bare terminal) the time already formatted.
pub open spec fn time_view(t: Theme, shell: Shell, strftime: Seq<char>, formatted: Seq<char>) -> SegmentView {
    if shell == Shell::Bare || strftime != TIME_FORMAT_DEFAULT@ {
        SegmentView::plain(t.time_bg, t.time_fg, formatted)
    } else if shell == Shell::Bash {
        SegmentView::plain(t.time_bg, t.time_fg, "\\@"@).safe()
    } else {
        SegmentView::plain(t.time_bg, t.time_fg, "%@"@).safe()
    }
}

/// Time module; `formatted` is the current time written in the format `strftime`.
pub fn segment_time(p: &mut Powerline, strftime: &str, formatted: &str)
    ensures
        final(p).appended(old(p), seq![time_view(old(p).theme, old(p).shell, strftime@, formatted@)]),
{
    let (bg, fg) = (p.theme.time_bg, p.theme.time_fg);
    let s = if p.shell == Shell::Bare || !str_eq(strftime, TIME_FORMAT_DEFAULT) {
        Segment::new(bg, fg, formatted)
    } else if p.shell == Shell::Bash {
        Segment::new(bg, fg, "\\@").dont_escape()
    } else {
        Segment::new(bg, fg, "%@").dont_escape()
    };
    p.push(s);
}

/// The terminal number in a process's status line (`/proc/<pid>/stat`): its seventh word,
/// read as a decimal.
pub open spec fn stat_tty_spec(stat: Seq<char>) -> Option<usize> {
    if words(stat).len() > 6 {
        match unsigned_of(words(stat)[6], 10, usize::MAX as nat) {
            Some(n) => Some(n as usize),
            None => None,
        }
    } else {
        None
    }
}

/// Reads the terminal number from a process's status line.
pub fn stat_tty(stat: &str) -> (r: Option<usize>)
    ensures
        r == stat_tty_spec(stat@),
{
    let v = chars_of(stat);
    let spans = word_spans(&v);
    if spans.len() <= 6 {
        return None;
    }
    let (a, b) = spans[6];
    match parse_unsigned(&v, a, b, 10, usize::MAX as u64) {
        Some(n) => Some(n as usize),
        None => None,
    }
}

/// How many entries of `ttys` are the terminal `tty`.
pub open spec fn tty_count(ttys: Seq<Option<usize>>, tty: usize) -> nat
    decreases ttys.len(),
{
    if ttys.len() == 0 {
        0
    } else {
        tty_count(ttys.drop_last(), tty) + if ttys.last() == Some(tty) {
            1nat
        } else {
            0nat
        }
    }
}

/// The segments of the process module: the number of other processes on the prompt's
/// terminal besides the shell itself, when there are any. `ttys` holds the terminal of
/// every other process, where it could be read.
pub open spec fn ps_views(t: Theme, ttys: Seq<Option<usize>>, tty: usize) -> Seq<SegmentView> {
    if tty_count(ttys, tty) > 1 {
        seq![SegmentView::plain(t.ps_bg, t.ps_fg, decimal((tty_count(ttys, tty) - 1) as nat))]
    } else {
        Seq::empty()
    }
}

/// Process module: counts the processes that share the terminal `tty`, less the shell.
pub fn segment_ps(p: &mut Powerline, tty: usize, ttys: &Vec<Option<usize>>)
    ensures
        final(p).appended(old(p), ps_views(old(p).theme, ttys@, tty)),
{
    let n = ttys.len();
    let mut count: usize = 0;
    let mut i: usize = 0;
    while i < n
        invariant
            n == ttys@.len(),
            i <= n,
            count == tty_count(ttys@.subrange(0, i as int), tty),
            count <= i,
        decreases n - i,
    {
        proof {
            assert(ttys@.subrange(0, i + 1).drop_last() =~= ttys@.subrange(0, i as int));
        }
        match ttys[i] {
            Some(t) => {
                if t == tty {
                    count = count + 1;
                }
            },
            None => {},
        }
        i = i + 1;
    }
    assert(ttys@.subrange(0, n as int) =~= ttys@);
    if count > 1 {
        let mut text = String::new();
        push_decimal(&mut text, (count - 1) as u64);
        let s = Segment::new(p.theme.ps_bg, p.theme.ps_fg, text.as_str());
        p.push(s);
    } else {
        keep(p);
    }
}

} // verus!
