use powerline::format::{escape, root, Bg, Fg, Reset};
use powerline::Shell;

#[test]
fn fg_codes_per_dialect() {
    assert_eq!(Fg(Shell::Bare, 31).to_string(), "\x1b[38;5;31m");
    assert_eq!(Fg(Shell::Bash, 7).to_string(), "\\[\\e[38;5;7m\\]");
    assert_eq!(Fg(Shell::Zsh, 255).to_string(), "%{\x1b[38;5;255m%}");
}

#[test]
fn bg_codes_per_dialect() {
    assert_eq!(Bg(Shell::Bare, 0).to_string(), "\x1b[48;5;0m");
    assert_eq!(Bg(Shell::Bash, 148).to_string(), "\\[\\e[48;5;148m\\]");
    assert_eq!(Bg(Shell::Zsh, 10).to_string(), "%{\x1b[48;5;10m%}");
}

#[test]
fn reset_codes_per_dialect() {
    assert_eq!(Reset(Shell::Bare, true).to_string(), "\x1b[39m");
    assert_eq!(Reset(Shell::Bare, false).to_string(), "\x1b[49m");
    assert_eq!(Reset(Shell::Bash, false).to_string(), "\\[\\e[49m\\]");
    assert_eq!(Reset(Shell::Zsh, true).to_string(), "%{\x1b[39m%}");
}

#[test]
fn root_symbols() {
    assert_eq!(root(Shell::Bare), "$");
    assert_eq!(root(Shell::Bash), "\\$");
    assert_eq!(root(Shell::Zsh), "%#");
}

#[test]
fn escape_bash_metacharacters() {
    let mut s = String::from("a\\b$c\"d%e");
    escape(Shell::Bash, &mut s);
    assert_eq!(s, "a\\\\b\\$c\\\"d%e");
}

#[test]
fn escape_zsh_metacharacters() {
    let mut s = String::from("100% (x) $y");
    escape(Shell::Zsh, &mut s);
    assert_eq!(s, "100%% (x%) $y");
}

#[test]
fn escape_bare_is_identity_and_idempotent() {
    let mut s = String::from("a\\b$c%d");
    escape(Shell::Bare, &mut s);
    assert_eq!(s, "a\\b$c%d");
    escape(Shell::Bare, &mut s);
    assert_eq!(s, "a\\b$c%d");
}

#[test]
fn escape_twice_double_escapes_in_bash() {
    let mut s = String::from("$");
    escape(Shell::Bash, &mut s);
    escape(Shell::Bash, &mut s);
    assert_eq!(s, "\\\\\\$");
}

#[test]
fn escape_keeps_multibyte_text() {
    let mut s = String::from("día…$");
    escape(Shell::Bash, &mut s);
    assert_eq!(s, "día…\\$");
}
