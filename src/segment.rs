//! The segment: one colored unit of prompt text, and how it is written out.

use vstd::prelude::*;
use crate::Shell;
use crate::format::{bg_code, escape, escape_text, fg_code, push_bg, push_fg, push_reset, reset_code};
use crate::text::push_char;
use crate::theme::Theme;

verus! {

/// One colored unit of prompt text.
pub struct Segment {
    bg: u8,
    fg: u8,
    before: &'static str,
    after: &'static str,
    conditional: bool,
    no_space_after: bool,
    escaped: bool,
    text: String,
}

/// What a segment holds, as plain values.
pub struct SegmentView {
    pub bg: u8,
    pub fg: u8,
    /// Written verbatim before the segment (a shell conditional's opening).
    pub before: Seq<char>,
    /// Written verbatim after the segment.
    pub after: Seq<char>,
    /// The shell decides at expansion time whether the segment shows.
    pub conditional: bool,
    /// No space follows the text.
    pub no_space_after: bool,
    /// The text is safe to hand to the shell as it is.
    pub escaped: bool,
    pub text: Seq<char>,
}

impl View for Segment {
    type V = SegmentView;

    closed spec fn view(&self) -> SegmentView {
        SegmentView {
            bg: self.bg,
            fg: self.fg,
            before: self.before@,
            after: self.after@,
            conditional: self.conditional,
            no_space_after: self.no_space_after,
            escaped: self.escaped,
            text: self.text@,
        }
    }
}

impl SegmentView {
    /// A segment as `Segment::new` makes it.
    pub open spec fn plain(bg: u8, fg: u8, text: Seq<char>) -> SegmentView {
        SegmentView {
            bg,
            fg,
            before: Seq::empty(),
            after: Seq::empty(),
            conditional: false,
            no_space_after: false,
            escaped: false,
            text,
        }
    }

    /// The same segment with its text marked as already safe.
    pub open spec fn safe(self) -> SegmentView {
        SegmentView { escaped: true, ..self }
    }

    /// The segment once its text has been escaped for `shell`: text that is already safe
    /// is left alone.
    pub open spec fn escaped_for(self, shell: Shell) -> SegmentView {
        if self.escaped {
            self
        } else {
            SegmentView { text: escape_text(shell, self.text), escaped: true, ..self }
        }
    }
}

/// Escaping a segment a second time changes nothing: its text is escaped exactly once.
pub proof fn lemma_escape_segment_once(s: SegmentView, shell: Shell)
    ensures
        s.escaped_for(shell).escaped_for(shell) == s.escaped_for(shell),
        s.escaped_for(shell).escaped,
{
}

/// The space that follows a segment's text, unless it asks for none.
pub open spec fn space_after(s: SegmentView) -> Seq<char> {
    if s.no_space_after {
        Seq::empty()
    } else {
        seq![' ']
    }
}

/// The colors of a segment and its text, with the padding round it.
pub open spec fn body_text(s: SegmentView, shell: Shell) -> Seq<char> {
    fg_code(shell, s.fg) + bg_code(shell, s.bg) + seq![' '] + s.text + space_after(s)
}

/// What is written between a segment and the one after it, or after the last one.
pub open spec fn join_text(s: SegmentView, next: Option<SegmentView>, shell: Shell, separator_fg: u8) -> Seq<char> {
    match next {
        Some(n) => if n.conditional {
            Seq::empty()
        } else if n.bg == s.bg {
            fg_code(shell, separator_fg)
        } else {
            fg_code(shell, s.bg) + bg_code(shell, n.bg)
        },
        None => fg_code(shell, s.bg) + reset_code(shell, true) + reset_code(shell, false),
    }
}

/// A segment written left to right, followed by the join towards `next`.
pub open spec fn print_text(s: SegmentView, next: Option<SegmentView>, shell: Shell, separator_fg: u8) -> Seq<char> {
    s.before + body_text(s, shell) + join_text(s, next, shell, separator_fg) + s.after
}

/// What is written before a segment in right-to-left order, from the join with the segment
/// on its left (`prev`).
pub open spec fn join_text_rtl(s: SegmentView, prev: Option<SegmentView>, shell: Shell, separator_fg: u8) -> Seq<char> {
    match prev {
        Some(p) => if p.conditional {
            Seq::empty()
        } else if p.bg == s.bg {
            fg_code(shell, separator_fg) + bg_code(shell, s.bg)
        } else {
            fg_code(shell, s.bg) + bg_code(shell, p.bg)
        },
        None => fg_code(shell, s.bg),
    }
}

/// A segment written in right-to-left order.
pub open spec fn print_text_rtl(s: SegmentView, prev: Option<SegmentView>, shell: Shell, separator_fg: u8) -> Seq<char> {
    s.after + join_text_rtl(s, prev, shell, separator_fg) + body_text(s, shell) + reset_code(
        shell,
        false,
    ) + reset_code(shell, true) + s.before
}

/// The view of an optional segment.
pub open spec fn view_of(next: Option<&Segment>) -> Option<SegmentView> {
    match next {
        Some(n) => Some(n@),
        None => None,
    }
}

fn push_str(s: &mut String, t: &str)
    ensures
        final(s)@ == old(s)@ + t@,
{
    s.append(t);
}

impl Segment {
    /// A plain segment with the given colors and text, not yet escaped.
    pub fn new(bg: u8, fg: u8, text: &str) -> (r: Segment)
        ensures
            r@ == (SegmentView {
                bg,
                fg,
                before: Seq::empty(),
                after: Seq::empty(),
                conditional: false,
                no_space_after: false,
                escaped: false,
                text: text@,
            }),
    {
        let none: &'static str = "";
        proof {
            reveal_strlit("");
            assert(none@ =~= Seq::<char>::empty());
        }
        Segment {
            bg,
            fg,
            before: none,
            after: none,
            conditional: false,
            no_space_after: false,
            escaped: false,
            text: String::from_str(text),
        }
    }

    /// Marks the text as already safe for the shell, so that it is never escaped.
    pub fn dont_escape(self) -> (r: Segment)
        ensures
            r@ == (SegmentView { escaped: true, ..self@ }),
    {
        let mut s = self;
        s.escaped = true;
        s
    }

    /// Sets what is written verbatim before the segment.
    pub fn with_before(self, before: &'static str) -> (r: Segment)
        ensures
            r@ == (SegmentView { before: before@, ..self@ }),
    {
        let mut s = self;
        s.before = before;
        s
    }

    /// Sets what is written verbatim after the segment.
    pub fn with_after(self, after: &'static str) -> (r: Segment)
        ensures
            r@ == (SegmentView { after: after@, ..self@ }),
    {
        let mut s = self;
        s.after = after;
        s
    }

    /// Marks the segment as shown or hidden by the shell itself.
    pub fn into_conditional(self) -> (r: Segment)
        ensures
            r@ == (SegmentView { conditional: true, ..self@ }),
    {
        let mut s = self;
        s.conditional = true;
        s
    }

    /// Marks the segment as shown or hidden by the shell itself; the same as
    /// `into_conditional`.
    pub fn as_conditional(self) -> (r: Segment)
        ensures
            r@ == (SegmentView { conditional: true, ..self@ }),
    {
        self.into_conditional()
    }

    /// Whether the shell decides if the segment shows.
    pub fn is_conditional(&self) -> (r: bool)
        ensures
            r == self@.conditional,
    {
        self.conditional
    }

    /// Drops the space that otherwise follows the text.
    pub fn with_no_space_after(self) -> (r: Segment)
        ensures
            r@ == (SegmentView { no_space_after: true, ..self@ }),
    {
        let mut s = self;
        s.no_space_after = true;
        s
    }

    /// Escapes the text for `shell`, unless it is already safe; afterwards it is.
    pub fn escape(&mut self, shell: Shell)
        ensures
            final(self)@ == old(self)@.escaped_for(shell),
    {
        if self.escaped {
            return;
        }
        escape(shell, &mut self.text);
        self.escaped = true;
    }

    /// The segment written left to right: its colors and text, then the join towards
    /// `next`, the segment that follows it.
    pub fn print(&self, next: Option<&Segment>, shell: Shell, theme: &Theme) -> (r: String)
        ensures
            r@ == print_text(self@, view_of(next), shell, theme.separator_fg),
    {
        let mut out = String::new();
        push_str(&mut out, self.before);
        self.push_body(&mut out, shell);
        match next {
            Some(n) => {
                if n.conditional {
                } else if n.bg == self.bg {
                    push_fg(&mut out, shell, theme.separator_fg);
                } else {
                    push_fg(&mut out, shell, self.bg);
                    push_bg(&mut out, shell, n.bg);
                }
            },
            None => {
                push_fg(&mut out, shell, self.bg);
                push_reset(&mut out, shell, true);
                push_reset(&mut out, shell, false);
            },
        }
        push_str(&mut out, self.after);
        proof {
            assert(out@ =~= print_text(self@, view_of(next), shell, theme.separator_fg));
        }
        out
    }

    /// The segment written in right-to-left order; `prev` is the segment on its left.
    pub fn print_rtl(&self, prev: Option<&Segment>, shell: Shell, theme: &Theme) -> (r: String)
        ensures
            r@ == print_text_rtl(self@, view_of(prev), shell, theme.separator_fg),
    {
        let mut out = String::new();
        push_str(&mut out, self.after);
        match prev {
            Some(p) => {
                if p.conditional {
                } else if p.bg == self.bg {
                    push_fg(&mut out, shell, theme.separator_fg);
                    push_bg(&mut out, shell, self.bg);
                } else {
                    push_fg(&mut out, shell, self.bg);
                    push_bg(&mut out, shell, p.bg);
                }
            },
            None => {
                push_fg(&mut out, shell, self.bg);
            },
        }
        self.push_body(&mut out, shell);
        push_reset(&mut out, shell, false);
        push_reset(&mut out, shell, true);
        push_str(&mut out, self.before);
        proof {
            assert(out@ =~= print_text_rtl(self@, view_of(prev), shell, theme.separator_fg));
        }
        out
    }

    /// The background color.
    pub fn bg(&self) -> (r: u8)
        ensures
            r == self@.bg,
    {
        self.bg
    }

    /// The foreground color.
    pub fn fg(&self) -> (r: u8)
        ensures
            r == self@.fg,
    {
        self.fg
    }

    /// The text shown.
    pub fn text(&self) -> (r: &str)
        ensures
            r@ == self@.text,
    {
        self.text.as_str()
    }

    /// The number of characters in the text.
    pub fn text_len(&self) -> (r: usize)
        ensures
            r == self@.text.len(),
    {
        self.text.as_str().unicode_len()
    }

    fn push_body(&self, out: &mut String, shell: Shell)
        ensures
            final(out)@ == old(out)@ + body_text(self@, shell),
    {
        push_fg(out, shell, self.fg);
        push_bg(out, shell, self.bg);
        push_char(out, ' ');
        push_str(out, self.text.as_str());
        if !self.no_space_after {
            push_char(out, ' ');
        }
        proof {
            assert(out@ =~= old(out)@ + body_text(self@, shell));
        }
    }
}

} // verus!
