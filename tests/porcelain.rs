use powerline::porcelain::parse_output;

#[test]
fn header_with_ahead_and_behind() {
    let o = parse_output("## main...origin/main [ahead 2, behind 1]\0").unwrap();
    assert_eq!(o.local, "main");
    assert_eq!((o.ahead, o.behind), (2, 1));
}

#[test]
fn header_ahead_only_and_behind_only() {
    let o = parse_output("## main...origin/main [ahead 7]").unwrap();
    assert_eq!((o.ahead, o.behind), (7, 0));
    let o = parse_output("## dev...up/dev [behind 3]").unwrap();
    assert_eq!(o.local, "dev");
    assert_eq!((o.ahead, o.behind), (0, 3));
}

#[test]
fn header_without_upstream() {
    let o = parse_output("## feature\0").unwrap();
    assert_eq!(o.local, "feature");
    assert_eq!((o.ahead, o.behind), (0, 0));
    let o = parse_output("## main...origin/main\0").unwrap();
    assert_eq!(o.local, "main");
}

#[test]
fn status_codes_counted() {
    let o = parse_output("## main\0A  new.rs\0 M changed.rs\0?? loose.txt\0UU both.rs\0MM two.rs\0").unwrap();
    assert_eq!(o.staged, 2);
    assert_eq!(o.notstaged, 2);
    assert_eq!(o.untracked, 1);
    assert_eq!(o.conflict, 1);
}

#[test]
fn malformed_headers_fail() {
    assert!(parse_output("main\0").is_none());
    assert!(parse_output("").is_none());
    assert!(parse_output("## main...origin/main [ahead 2\0").is_none());
    assert!(parse_output("## main...origin/main [gone]\0").is_none());
    assert!(parse_output("## main...origin/main [ahead x]\0").is_none());
}

#[test]
fn one_path_of_each_kind() {
    let o = parse_output("## main\0A  added.rs\0 M edited.rs\0?? new.txt\0UU merge.rs\0").unwrap();
    assert_eq!((o.staged, o.notstaged, o.untracked, o.conflict), (1, 1, 1, 1));
}
