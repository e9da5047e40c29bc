use powerline::render::{escape_all, print_all, print_all_rtl, render, shrink};
use powerline::segment::Segment;
use powerline::theme::Theme;
use powerline::Shell;

fn texts(v: &Vec<Segment>) -> Vec<String> {
    v.iter().map(|s| s.text().to_string()).collect()
}

#[test]
fn render_joins_and_trails() {
    let t = Theme::default();
    let mut segs = vec![Segment::new(5, 1, "a"), Segment::new(5, 2, "b"), Segment::new(6, 3, "$")];
    let out = render(&mut segs, Shell::Bash, &t, false);
    let expected = String::new()
        + "\\[\\e[38;5;1m\\]\\[\\e[48;5;5m\\] a \\[\\e[38;5;244m\\]"
        + "\\[\\e[38;5;2m\\]\\[\\e[48;5;5m\\] b \\[\\e[38;5;5m\\]\\[\\e[48;5;6m\\]"
        + "\\[\\e[38;5;3m\\]\\[\\e[48;5;6m\\] \\$ \\[\\e[38;5;6m\\]\\[\\e[39m\\]\\[\\e[49m\\]"
        + " ";
    assert_eq!(out, expected);
}

#[test]
fn render_equal_backgrounds_put_separator_between() {
    let t = Theme::default();
    let mut segs = vec![Segment::new(9, 1, "x"), Segment::new(9, 2, "y")];
    let out = render(&mut segs, Shell::Bare, &t, true);
    let between = "\x1b[38;5;1m\x1b[48;5;9m x \x1b[38;5;244m\x1b[38;5;2m";
    assert!(out.starts_with(between));
    assert!(!out.contains("x \x1b[48;5;9m"));
    assert!(out.ends_with("\n"));
}

#[test]
fn render_empty_list() {
    let t = Theme::default();
    let mut segs: Vec<Segment> = Vec::new();
    assert_eq!(render(&mut segs, Shell::Zsh, &t, false), " ");
    assert_eq!(render(&mut segs, Shell::Zsh, &t, true), "\n");
}

#[test]
fn escape_all_twice_escapes_once() {
    let mut segs = vec![Segment::new(1, 1, "50%"), Segment::new(1, 1, "%j").dont_escape()];
    escape_all(&mut segs, Shell::Zsh);
    escape_all(&mut segs, Shell::Zsh);
    assert_eq!(texts(&segs), vec!["50%%", "%j"]);
}

#[test]
fn print_all_rtl_order() {
    let t = Theme::default();
    let segs = vec![Segment::new(1, 2, "a"), Segment::new(3, 4, "b")];
    let out = print_all_rtl(&segs, Shell::Bare, &t);
    let b = segs[1].print_rtl(Some(&segs[0]), Shell::Bare, &t);
    let a = segs[0].print_rtl(None, Shell::Bare, &t);
    assert_eq!(out, b + &a);
    assert_eq!(print_all(&segs, Shell::Bare, &t), segs[0].print(Some(&segs[1]), Shell::Bare, &t) + &segs[1].print(None, Shell::Bare, &t));
}

#[test]
fn shrink_drops_from_front_until_fits() {
    // widths: 4, 3, 2, 6 → total 15
    let mut segs = vec![
        Segment::new(1, 1, "abc"),
        Segment::new(1, 1, "de"),
        Segment::new(1, 1, "f"),
        Segment::new(1, 1, "ghijk"),
    ];
    shrink(&mut segs, 9);
    assert_eq!(texts(&segs), vec!["f", "ghijk"]);
}

#[test]
fn shrink_keeps_list_that_fits() {
    let mut segs = vec![Segment::new(1, 1, "abc"), Segment::new(1, 1, "de")];
    shrink(&mut segs, 7);
    assert_eq!(texts(&segs), vec!["abc", "de"]);
}

#[test]
fn shrink_to_zero_empties() {
    let mut segs = vec![Segment::new(1, 1, "abc"), Segment::new(1, 1, "")];
    shrink(&mut segs, 0);
    assert!(segs.is_empty());
}

#[test]
fn shrink_counts_characters_not_bytes() {
    let mut segs = vec![Segment::new(1, 1, "x"), Segment::new(1, 1, "ééé")];
    shrink(&mut segs, 4);
    assert_eq!(texts(&segs), vec!["ééé"]);
}

#[test]
fn render_within_escapes_then_shrinks() {
    let t = Theme::default();
    // escaped widths: "a$" → "a\$" (4), "bb" (3), "c" (2)
    let mut segs = vec![Segment::new(1, 2, "a$"), Segment::new(3, 4, "bb"), Segment::new(3, 5, "c")];
    let out = powerline::render::render_within(&mut segs, Shell::Bash, &t, false, 5);
    assert_eq!(texts(&segs), vec!["bb", "c"]);
    let expected = segs[0].print(Some(&segs[1]), Shell::Bash, &t) + &segs[1].print(None, Shell::Bash, &t) + " ";
    assert_eq!(out, expected);
}
