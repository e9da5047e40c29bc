use powerline::theme::{parse, theme_index_char, theme_index_u8, Theme};

#[test]
fn valid_file_changes_only_named_slots() {
    let text = "# my theme\n\nhome_bg = 12\n  cwd_fg=200  \ngit_ahead_char = ^\nssh_fg = +7\n";
    let t = parse(text).unwrap();
    let mut expected = Theme::default();
    expected.home_bg = 12;
    expected.cwd_fg = 200;
    expected.git_ahead_char = '^';
    expected.ssh_fg = 7;
    assert_eq!(t, expected);
}

#[test]
fn empty_file_is_default() {
    assert_eq!(parse("").unwrap(), Theme::default());
    assert_eq!(parse("\n   \n# only comments\n").unwrap(), Theme::default());
}

#[test]
fn later_line_wins() {
    let t = parse("path_bg = 1\npath_bg = 2").unwrap();
    assert_eq!(t.path_bg, 2);
}

#[test]
fn hex_glyph() {
    let t = parse("git_staged_char = 2714\ngit_conflicted_char=1F4A5").unwrap();
    assert_eq!(t.git_staged_char, '\u{2714}');
    assert_eq!(t.git_conflicted_char, '\u{1F4A5}');
}

#[test]
fn unknown_key_fails() {
    assert!(parse("home_bg = 1\nnot_a_key = 3\n").is_err());
    assert!(parse("bogus_char = x").is_err());
}

#[test]
fn non_numeric_color_fails() {
    assert!(parse("home_bg = blue").is_err());
    assert!(parse("home_bg = 256").is_err());
    assert!(parse("home_bg = -1").is_err());
    assert!(parse("home_bg =").is_err());
}

#[test]
fn bad_glyph_fails() {
    assert!(parse("ro_char = xyz").is_err());
    assert!(parse("ro_char = D800").is_err());
    assert!(parse("ro_char = 110000").is_err());
}

#[test]
fn line_without_equals_fails() {
    assert!(parse("home_bg 3").is_err());
}

#[test]
fn corrupt_error_description() {
    assert_eq!(parse("x").unwrap_err().description(), "Corrupt theme file");
}

#[test]
fn index_setters() {
    let mut t = Theme::default();
    assert!(theme_index_u8(&mut t, "nixshell_fg", 9));
    assert_eq!(t.nixshell_fg, 9);
    assert!(!theme_index_u8(&mut t, "ps_bg", 9));
    assert!(!theme_index_u8(&mut t, "ro_char", 9));
    assert!(!theme_index_char(&mut t, "ro_char", 'R'));
    assert!(theme_index_char(&mut t, "git_behind_char", 'v'));
    assert_eq!(t.git_behind_char, 'v');
    assert!(!theme_index_char(&mut t, "ro_bg", 'R'));
    let mut expected = Theme::default();
    expected.nixshell_fg = 9;
    expected.git_behind_char = 'v';
    assert_eq!(t, expected);
}

#[test]
fn default_values() {
    let t = Theme::default();
    assert_eq!(t.separator_fg, 244);
    assert_eq!(t.ssh_char, '\u{e0a2}');
    assert_eq!(t.git_ahead_char, '⬆');
}
