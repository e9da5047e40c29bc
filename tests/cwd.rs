use powerline::cwd::{segment, segment_cwd};
use powerline::powerline::Powerline;
use powerline::theme::Theme;
use powerline::Shell;

fn comps(s: &[&str]) -> Vec<String> {
    s.iter().map(|c| c.to_string()).collect()
}

fn texts(p: &Powerline) -> Vec<String> {
    p.segments.iter().map(|s| s.text().to_string()).collect()
}

#[test]
fn home_then_elided_path() {
    let mut p = Powerline::new(Theme::default(), Shell::Bash);
    let cwd = comps(&["/", "home", "u", "a", "b", "c", "d"]);
    let home = comps(&["/", "home", "u"]);
    segment_cwd(&mut p, &cwd, Some(&home), 2, 0);
    assert_eq!(texts(&p), vec!["~", "…", "c", "d"]);
}

#[test]
fn last_directory_has_cwd_color() {
    let t = Theme::default();
    let mut p = Powerline::new(t.clone(), Shell::Bash);
    segment_cwd(&mut p, &comps(&["/", "tmp", "x"]), None, 0, 0);
    assert_eq!(texts(&p), vec!["/", "tmp", "x"]);
    assert_eq!(p.segments[1].fg(), t.path_fg);
    assert_eq!(p.segments[2].fg(), t.cwd_fg);
    assert_eq!(p.segments[2].bg(), t.path_bg);
}

#[test]
fn outside_home_not_collapsed() {
    let mut p = Powerline::new(Theme::default(), Shell::Bash);
    segment_cwd(&mut p, &comps(&["/", "home", "v"]), Some(&comps(&["/", "home", "u"])), 5, 0);
    assert_eq!(texts(&p), vec!["/", "home", "v"]);
}

#[test]
fn home_itself() {
    let mut p = Powerline::new(Theme::default(), Shell::Bash);
    segment_cwd(&mut p, &comps(&["/", "home", "u"]), Some(&comps(&["/", "home", "u"])), 5, 0);
    assert_eq!(texts(&p), vec!["~"]);
}

#[test]
fn long_names_truncated_by_characters() {
    let mut p = Powerline::new(Theme::default(), Shell::Bash);
    segment_cwd(&mut p, &comps(&["/", "ñandúesgrande", "ok"]), None, 0, 4);
    assert_eq!(texts(&p), vec!["/", "ñand…", "ok"]);
}

#[test]
fn single_directory_segment() {
    let t = Theme::default();
    let mut p = Powerline::new(t.clone(), Shell::Bash);
    segment(&mut p, "abcdef", true, 3);
    assert_eq!(texts(&p), vec!["abc…"]);
    assert_eq!(p.segments[0].fg(), t.cwd_fg);
}
