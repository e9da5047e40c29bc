use powerline::segment::Segment;
use powerline::theme::Theme;
use powerline::Shell;

#[test]
fn escape_applies_once() {
    let mut s = Segment::new(1, 2, "$HOME");
    s.escape(Shell::Bash);
    assert_eq!(s.text(), "\\$HOME");
    s.escape(Shell::Bash);
    assert_eq!(s.text(), "\\$HOME");
}

#[test]
fn dont_escape_keeps_text() {
    let mut s = Segment::new(1, 2, "\\u").dont_escape();
    s.escape(Shell::Bash);
    assert_eq!(s.text(), "\\u");
}

#[test]
fn builders_set_fields() {
    let s = Segment::new(3, 4, "x").with_before("<").with_after(">").into_conditional();
    assert!(s.is_conditional());
    assert_eq!(s.bg(), 3);
    assert_eq!(s.fg(), 4);
    assert_eq!(s.text_len(), 1);
    assert!(Segment::new(0, 0, "").as_conditional().is_conditional());
    assert!(!Segment::new(0, 0, "").is_conditional());
}

#[test]
fn print_last_segment_resets() {
    let t = Theme::default();
    let s = Segment::new(1, 2, "hi");
    assert_eq!(
        s.print(None, Shell::Bare, &t),
        "\x1b[38;5;2m\x1b[48;5;1m hi \x1b[38;5;1m\x1b[39m\x1b[49m"
    );
}

#[test]
fn print_equal_background_uses_separator() {
    let t = Theme::default();
    let a = Segment::new(5, 2, "a");
    let b = Segment::new(5, 3, "b");
    assert_eq!(
        a.print(Some(&b), Shell::Bare, &t),
        "\x1b[38;5;2m\x1b[48;5;5m a \x1b[38;5;244m"
    );
}

#[test]
fn print_different_background_switches() {
    let t = Theme::default();
    let a = Segment::new(5, 2, "a");
    let b = Segment::new(6, 3, "b");
    assert_eq!(
        a.print(Some(&b), Shell::Bare, &t),
        "\x1b[38;5;2m\x1b[48;5;5m a \x1b[38;5;5m\x1b[48;5;6m"
    );
}

#[test]
fn print_before_conditional_adds_nothing() {
    let t = Theme::default();
    let a = Segment::new(5, 2, "a").with_before("[").with_after("]");
    let b = Segment::new(6, 3, "b").into_conditional();
    assert_eq!(a.print(Some(&b), Shell::Bare, &t), "[\x1b[38;5;2m\x1b[48;5;5m a ]");
}

#[test]
fn print_no_space_after() {
    let t = Theme::default();
    let a = Segment::new(0, 7, "\n").dont_escape().with_no_space_after();
    assert_eq!(
        a.print(None, Shell::Bare, &t),
        "\x1b[38;5;7m\x1b[48;5;0m \n\x1b[38;5;0m\x1b[39m\x1b[49m"
    );
}

#[test]
fn print_rtl_first_and_joined() {
    let t = Theme::default();
    let a = Segment::new(5, 2, "a");
    let b = Segment::new(5, 3, "b");
    assert_eq!(
        b.print_rtl(Some(&a), Shell::Bare, &t),
        "\x1b[38;5;244m\x1b[48;5;5m\x1b[38;5;3m\x1b[48;5;5m b \x1b[49m\x1b[39m"
    );
    assert_eq!(
        a.print_rtl(None, Shell::Bare, &t),
        "\x1b[38;5;5m\x1b[38;5;2m\x1b[48;5;5m a \x1b[49m\x1b[39m"
    );
}
