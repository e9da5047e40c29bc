//! Control sequences and escaping for each shell dialect.

use vstd::prelude::*;
use crate::Shell;
use crate::text::{decimal, push_char, push_decimal};

verus! {

/// What opens a control sequence: the escape character alone for a bare terminal, wrapped
/// in the shell's markers for zero-width text otherwise.
pub open spec fn open_code(shell: Shell) -> Seq<char> {
    match shell {
        Shell::Bare => seq!['\x1b', '['],
        Shell::Bash => seq!['\\', '[', '\\', 'e', '['],
        Shell::Zsh => seq!['%', '{', '\x1b', '['],
    }
}

/// What closes a control sequence that `open_code` opened.
pub open spec fn close_code(shell: Shell) -> Seq<char> {
    match shell {
        Shell::Bare => seq!['m'],
        Shell::Bash => seq!['m', '\\', ']'],
        Shell::Zsh => seq!['m', '%', '}'],
    }
}

/// The sequence that sets the 256-color foreground to `color`.
pub open spec fn fg_code(shell: Shell, color: u8) -> Seq<char> {
    open_code(shell) + seq!['3', '8', ';', '5', ';'] + decimal(color as nat) + close_code(shell)
}

/// The sequence that sets the 256-color background to `color`.
pub open spec fn bg_code(shell: Shell, color: u8) -> Seq<char> {
    open_code(shell) + seq!['4', '8', ';', '5', ';'] + decimal(color as nat) + close_code(shell)
}

/// The sequence that resets the foreground (when `fg`) or the background to the default.
pub open spec fn reset_code(shell: Shell, fg: bool) -> Seq<char> {
    open_code(shell) + seq![if fg { '3' } else { '4' }, '9'] + close_code(shell)
}

fn push_seq(s: &mut String, chars: &[char])
    ensures
        final(s)@ == old(s)@ + chars@,
{
    let mut i: usize = 0;
    while i < chars.len()
        invariant
            i <= chars@.len(),
            s@ == old(s)@ + chars@.subrange(0, i as int),
        decreases chars@.len() - i,
    {
        push_char(s, chars[i]);
        i = i + 1;
        assert(chars@.subrange(0, i as int) =~= chars@.subrange(0, i - 1).push(chars@[i - 1]));
    }
    assert(chars@.subrange(0, i as int) =~= chars@);
}

fn push_open(s: &mut String, shell: Shell)
    ensures
        final(s)@ == old(s)@ + open_code(shell),
{
    match shell {
        Shell::Bare => push_seq(s, &['\x1b', '[']),
        Shell::Bash => push_seq(s, &['\\', '[', '\\', 'e', '[']),
        Shell::Zsh => push_seq(s, &['%', '{', '\x1b', '[']),
    }
    assert(s@ =~= old(s)@ + open_code(shell));
}

fn push_close(s: &mut String, shell: Shell)
    ensures
        final(s)@ == old(s)@ + close_code(shell),
{
    match shell {
        Shell::Bare => push_seq(s, &['m']),
        Shell::Bash => push_seq(s, &['m', '\\', ']']),
        Shell::Zsh => push_seq(s, &['m', '%', '}']),
    }
    assert(s@ =~= old(s)@ + close_code(shell));
}

/// Appends the foreground sequence for `color`.
pub fn push_fg(s: &mut String, shell: Shell, color: u8)
    ensures
        final(s)@ == old(s)@ + fg_code(shell, color),
{
    push_open(s, shell);
    push_seq(s, &['3', '8', ';', '5', ';']);
    push_decimal(s, color as u64);
    push_close(s, shell);
    assert(s@ =~= old(s)@ + fg_code(shell, color));
}

/// Appends the background sequence for `color`.
pub fn push_bg(s: &mut String, shell: Shell, color: u8)
    ensures
        final(s)@ == old(s)@ + bg_code(shell, color),
{
    push_open(s, shell);
    push_seq(s, &['4', '8', ';', '5', ';']);
    push_decimal(s, color as u64);
    push_close(s, shell);
    assert(s@ =~= old(s)@ + bg_code(shell, color));
}

/// Appends the reset sequence for the foreground (when `fg`) or the background.
pub fn push_reset(s: &mut String, shell: Shell, fg: bool)
    ensures
        final(s)@ == old(s)@ + reset_code(shell, fg),
{
    push_open(s, shell);
    if fg {
        push_seq(s, &['3', '9']);
    } else {
        push_seq(s, &['4', '9']);
    }
    push_close(s, shell);
    assert(s@ =~= old(s)@ + reset_code(shell, fg));
}

/// A foreground color in a given dialect.
pub struct Fg(pub Shell, pub u8);

impl Fg {
    /// The control sequence that sets this foreground.
    pub fn to_string(&self) -> (r: String)
        ensures
            r@ == fg_code(self.0, self.1),
    {
        let mut s = String::new();
        push_fg(&mut s, self.0, self.1);
        assert(s@ =~= fg_code(self.0, self.1));
        s
    }
}

/// A background color in a given dialect.
pub struct Bg(pub Shell, pub u8);

impl Bg {
    /// The control sequence that sets this background.
    pub fn to_string(&self) -> (r: String)
        ensures
            r@ == bg_code(self.0, self.1),
    {
        let mut s = String::new();
        push_bg(&mut s, self.0, self.1);
        assert(s@ =~= bg_code(self.0, self.1));
        s
    }
}

/// A reset of the foreground (`true`) or of the background (`false`) in a given dialect.
pub struct Reset(pub Shell, pub bool);

impl Reset {
    /// The control sequence that performs this reset.
    pub fn to_string(&self) -> (r: String)
        ensures
            r@ == reset_code(self.0, self.1),
    {
        let mut s = String::new();
        push_reset(&mut s, self.0, self.1);
        assert(s@ =~= reset_code(self.0, self.1));
        s
    }
}

/// The shell's own prompt-terminator glyph, which it shows differently for root.
pub open spec fn root_symbol(shell: Shell) -> Seq<char> {
    match shell {
        Shell::Bare => seq!['$'],
        Shell::Bash => seq!['\\', '$'],
        Shell::Zsh => seq!['%', '#'],
    }
}

/// The prompt-terminator glyph of `shell`.
pub fn root(shell: Shell) -> (r: &'static str)
    ensures
        r@ == root_symbol(shell),
{
    match shell {
        Shell::Bare => {
            proof {
                reveal_strlit("$");
            }
            "$"
        },
        Shell::Bash => {
            proof {
                reveal_strlit("\\$");
            }
            "\\$"
        },
        Shell::Zsh => {
            proof {
                reveal_strlit("%#");
            }
            "%#"
        },
    }
}

/// What one character becomes once escaped for `shell`.
pub open spec fn escape_char(shell: Shell, c: char) -> Seq<char> {
    match shell {
        Shell::Bare => seq![c],
        Shell::Bash => if c == '\\' || c == '$' || c == '"' {
            seq!['\\', c]
        } else {
            seq![c]
        },
        Shell::Zsh => if c == '%' || c == ')' {
            seq!['%', c]
        } else {
            seq![c]
        },
    }
}

/// `s` with every character escaped for `shell`.
pub open spec fn escape_text(shell: Shell, s: Seq<char>) -> Seq<char>
    decreases s.len(),
{
    if s.len() == 0 {
        Seq::empty()
    } else {
        escape_text(shell, s.drop_last()) + escape_char(shell, s.last())
    }
}

/// Escaping for the bare dialect leaves the text as it is.
pub proof fn lemma_escape_bare_is_identity(s: Seq<char>)
    ensures
        escape_text(Shell::Bare, s) == s,
    decreases s.len(),
{
    if s.len() > 0 {
        lemma_escape_bare_is_identity(s.drop_last());
        assert(s.drop_last().push(s.last()) =~= s);
    }
}

/// Escaping for the bare dialect is idempotent: escaping the escaped text changes nothing.
pub proof fn lemma_escape_bare_idempotent(s: Seq<char>)
    ensures
        escape_text(Shell::Bare, escape_text(Shell::Bare, s)) == escape_text(Shell::Bare, s),
{
    lemma_escape_bare_is_identity(s);
    lemma_escape_bare_is_identity(escape_text(Shell::Bare, s));
}

/// Replaces the shell's metacharacters in `string` with their escaped form, so that the
/// shell shows the text as it is when it expands the prompt.
pub fn escape(shell: Shell, string: &mut String)
    ensures
        final(string)@ == escape_text(shell, old(string)@),
{
    if shell == Shell::Bare {
        proof {
            lemma_escape_bare_is_identity(string@);
        }
        return;
    }
    let mut output = String::new();
    let src = string.as_str();
    let n = src.unicode_len();
    let mut i: usize = 0;
    while i < n
        invariant
            n == src@.len(),
            src@ == old(string)@,
            i <= n,
            output@ == escape_text(shell, src@.subrange(0, i as int)),
        decreases n - i,
    {
        let c = src.get_char(i);
        let special = match shell {
            Shell::Bash => c == '\\' || c == '$' || c == '"',
            Shell::Zsh => c == '%' || c == ')',
            Shell::Bare => false,
        };
        if special {
            if shell == Shell::Bash {
                push_char(&mut output, '\\');
            } else {
                push_char(&mut output, '%');
            }
        }
        push_char(&mut output, c);
        proof {
            let pre = src@.subrange(0, i as int);
            let next = src@.subrange(0, i + 1);
            assert(next.drop_last() =~= pre);
            assert(next.last() == c);
            assert(output@ =~= escape_text(shell, pre) + escape_char(shell, c));
        }
        i = i + 1;
    }
    assert(src@.subrange(0, n as int) =~= src@);
    *string = output;
}

} // verus!
