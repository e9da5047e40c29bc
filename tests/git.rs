use powerline::git::{classify, count_string, stage_string, segment_git, segment_gitstage, GitHead, StatusCounts, StatusFlags};
use powerline::powerline::Powerline;
use powerline::theme::Theme;
use powerline::Shell;

fn flags() -> StatusFlags {
    StatusFlags {
        index_new: false,
        index_modified: false,
        index_deleted: false,
        index_renamed: false,
        index_typechange: false,
        wt_new: false,
        wt_modified: false,
        wt_deleted: false,
        wt_typechange: false,
        wt_renamed: false,
        conflicted: false,
    }
}

fn listing() -> Vec<StatusFlags> {
    vec![
        StatusFlags { index_new: true, ..flags() },
        StatusFlags { wt_modified: true, ..flags() },
        StatusFlags { wt_new: true, ..flags() },
        StatusFlags { conflicted: true, ..flags() },
    ]
}

fn texts(p: &Powerline) -> Vec<String> {
    p.segments.iter().map(|s| s.text().to_string()).collect()
}

#[test]
fn classify_one_of_each() {
    let c = classify(&listing());
    assert_eq!(c, StatusCounts { staged: 1, notstaged: 1, untracked: 1, conflicted: 1 });
    assert!(!c.is_clean());
}

#[test]
fn classify_entry_in_several_buckets() {
    let c = classify(&vec![StatusFlags { index_modified: true, wt_deleted: true, ..flags() }]);
    assert_eq!(c, StatusCounts { staged: 1, notstaged: 1, untracked: 0, conflicted: 0 });
}

#[test]
fn classify_empty_is_clean() {
    assert!(classify(&Vec::new()).is_clean());
    assert!(classify(&vec![StatusFlags { wt_renamed: true, ..flags() }]).is_clean());
}

#[test]
fn count_strings() {
    assert_eq!(count_string(2, '⬆'), "2⬆");
    assert_eq!(count_string(1, '⬇'), "1⬇");
    assert_eq!(count_string(120, '+'), "120+");
    assert_eq!(stage_string(1, '✔'), "✔");
    assert_eq!(stage_string(12, '✔'), "12✔");
}

#[test]
fn detached_head_ignores_counts() {
    let mut p = Powerline::new(Theme::default(), Shell::Bash);
    segment_git(&mut p, &GitHead::Detached(String::from("abc1234")), Some(&Vec::new()), Some((2, 1)));
    assert_eq!(texts(&p), vec!["abc1234"]);
}

#[test]
fn branch_with_ahead_and_behind() {
    let t = Theme::default();
    let mut p = Powerline::new(t.clone(), Shell::Bash);
    segment_git(&mut p, &GitHead::Branch(String::from("main")), Some(&Vec::new()), Some((2, 1)));
    assert_eq!(texts(&p), vec!["main", "2⬆", "1⬇"]);
    assert_eq!(p.segments[0].bg(), t.git_clean_bg);
    assert_eq!(p.segments[1].bg(), t.git_ahead_bg);
    assert_eq!(p.segments[2].bg(), t.git_behind_bg);
}

#[test]
fn branch_without_ahead() {
    let t = Theme::default();
    let mut p = Powerline::new(t.clone(), Shell::Bash);
    segment_git(&mut p, &GitHead::Branch(String::from("dev")), Some(&listing()), Some((0, 3)));
    assert_eq!(texts(&p), vec!["dev", "3⬇"]);
    assert_eq!(p.segments[0].bg(), t.git_dirty_bg);
    assert_eq!(p.segments[0].fg(), t.git_dirty_fg);
}

#[test]
fn detached_head_without_upstream() {
    let mut p = Powerline::new(Theme::default(), Shell::Zsh);
    segment_git(&mut p, &GitHead::Detached(String::from("1a2b3c4")), Some(&Vec::new()), None);
    assert_eq!(texts(&p), vec!["1a2b3c4"]);
}

#[test]
fn no_history_is_dirty() {
    let t = Theme::default();
    let mut p = Powerline::new(t.clone(), Shell::Bash);
    segment_git(&mut p, &GitHead::NoHistory, None, None);
    assert_eq!(texts(&p), vec!["Big Bang"]);
    assert_eq!(p.segments[0].bg(), t.git_dirty_bg);
}

#[test]
fn missing_status_or_name_shows_nothing() {
    let mut p = Powerline::new(Theme::default(), Shell::Bash);
    segment_git(&mut p, &GitHead::Branch(String::from("main")), None, Some((1, 1)));
    segment_git(&mut p, &GitHead::Unnamed, Some(&Vec::new()), None);
    assert!(p.segments.is_empty());
}

#[test]
fn stage_segments_in_order() {
    let t = Theme::default();
    let mut p = Powerline::new(t.clone(), Shell::Bash);
    let mut l = listing();
    l.push(StatusFlags { index_deleted: true, ..flags() });
    segment_gitstage(&mut p, &l);
    assert_eq!(texts(&p), vec!["2✔", "✎", "+", "*"]);
    assert_eq!(p.segments[3].bg(), t.git_conflicted_bg);
}

#[test]
fn stage_segments_skip_zero_counts() {
    let mut p = Powerline::new(Theme::default(), Shell::Bash);
    segment_gitstage(&mut p, &vec![StatusFlags { wt_new: true, ..flags() }, StatusFlags { wt_new: true, ..flags() }]);
    assert_eq!(texts(&p), vec!["2+"]);
}
