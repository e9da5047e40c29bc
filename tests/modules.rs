use powerline::module::Module;
use powerline::powerline::{
    segment_host, segment_jobs, segment_linebreak, segment_nix, segment_perms, segment_ps,
    segment_root, segment_ssh, stat_tty, segment_time, segment_user, segment_virtualenv, Powerline,
    TIME_FORMAT_DEFAULT,
};
use powerline::render::render;
use powerline::theme::Theme;
use powerline::Shell;

fn texts(p: &Powerline) -> Vec<String> {
    p.segments.iter().map(|s| s.text().to_string()).collect()
}

#[test]
fn module_names() {
    assert!(Module::from_name("cwd") == Some(Module::Cwd));
    assert!(Module::from_name("nix-shell") == Some(Module::NixShell));
    assert!(Module::from_name("linebreak") == Some(Module::LineBreak));
    assert!(Module::from_name("virtualenv") == Some(Module::VirtualEnv));
    assert!(Module::from_name("Cwd").is_none());
    assert!("gitstage".parse::<Module>() == Ok(Module::GitStage));
    assert!("nope".parse::<Module>().is_err());
}

#[test]
fn root_colors_follow_exit_code() {
    let t = Theme::default();
    let mut p = Powerline::new(t.clone(), Shell::Zsh);
    segment_root(&mut p, 0);
    segment_root(&mut p, 1);
    assert_eq!(texts(&p), vec!["%#", "%#"]);
    assert_eq!(p.segments[0].bg(), t.cmd_passed_bg);
    assert_eq!(p.segments[1].bg(), t.cmd_failed_bg);
    assert_eq!(p.segments[1].fg(), t.cmd_failed_fg);
}

#[test]
fn root_glyph_not_escaped() {
    let t = Theme::default();
    let mut p = Powerline::new(t.clone(), Shell::Bash);
    segment_root(&mut p, 0);
    let out = render(&mut p.segments, Shell::Bash, &t, false);
    assert!(out.contains(" \\$ "));
}

#[test]
fn jobs_wrapped_in_shell_conditional() {
    let t = Theme::default();
    let mut p = Powerline::new(t.clone(), Shell::Zsh);
    segment_jobs(&mut p);
    assert_eq!(texts(&p), vec!["%j"]);
    assert!(p.segments[0].is_conditional());
    let out = render(&mut p.segments, Shell::Zsh, &t, false);
    assert!(out.starts_with("%(1j.%{"));
    assert!(out.ends_with(".) "));
    let mut b = Powerline::new(t.clone(), Shell::Bare);
    segment_jobs(&mut b);
    assert!(b.segments.is_empty());
}

#[test]
fn bash_jobs_wrapper() {
    let t = Theme::default();
    let mut p = Powerline::new(t.clone(), Shell::Bash);
    segment_jobs(&mut p);
    let out = render(&mut p.segments, Shell::Bash, &t, false);
    assert!(out.starts_with("$(test -n \"$(jobs -p)\" && echo -n \""));
    assert!(out.contains(" \\j "));
}

#[test]
fn linebreak_segment() {
    let mut p = Powerline::new(Theme::default(), Shell::Bash);
    segment_linebreak(&mut p);
    assert_eq!(texts(&p), vec!["\n"]);
    assert_eq!(p.segments[0].bg(), 0);
    assert_eq!(p.segments[0].fg(), 7);
}

#[test]
fn host_and_user() {
    let t = Theme::default();
    let mut p = Powerline::new(t.clone(), Shell::Bare);
    segment_host(&mut p, Some("box"));
    segment_host(&mut p, None);
    segment_user(&mut p, true, Some("root"));
    segment_user(&mut p, false, None);
    assert_eq!(texts(&p), vec!["box", "error", "root", "error"]);
    assert_eq!(p.segments[2].bg(), t.username_root_bg);
    assert_eq!(p.segments[3].bg(), t.username_bg);
    let mut q = Powerline::new(t.clone(), Shell::Bash);
    segment_host(&mut q, Some("box"));
    segment_user(&mut q, false, Some("me"));
    assert_eq!(texts(&q), vec!["\\h", "\\u"]);
    let mut z = Powerline::new(t, Shell::Zsh);
    segment_host(&mut z, None);
    segment_user(&mut z, false, None);
    assert_eq!(texts(&z), vec!["%m", "%n"]);
}

#[test]
fn ssh_and_perms_glyphs() {
    let t = Theme::default();
    let mut p = Powerline::new(t.clone(), Shell::Bash);
    segment_ssh(&mut p, false);
    segment_perms(&mut p, true);
    assert!(p.segments.is_empty());
    segment_ssh(&mut p, true);
    segment_perms(&mut p, false);
    assert_eq!(texts(&p), vec!["\u{e0a2}", "\u{e0a2}"]);
    assert_eq!(p.segments[0].bg(), t.ssh_bg);
    assert_eq!(p.segments[1].bg(), t.ro_bg);
}

#[test]
fn environment_text_segments() {
    let t = Theme::default();
    let mut p = Powerline::new(t.clone(), Shell::Bash);
    segment_nix(&mut p, None);
    segment_virtualenv(&mut p, None);
    assert!(p.segments.is_empty());
    segment_nix(&mut p, Some("impure"));
    segment_virtualenv(&mut p, Some("venv"));
    assert_eq!(texts(&p), vec!["impure", "venv"]);
    assert_eq!(p.segments[0].fg(), t.nixshell_fg);
    assert_eq!(p.segments[1].bg(), t.virtual_env_bg);
}

#[test]
fn time_uses_shell_escape_for_default_format() {
    let mut p = Powerline::new(Theme::default(), Shell::Bash);
    segment_time(&mut p, TIME_FORMAT_DEFAULT, "12:00:00");
    segment_time(&mut p, "%H", "12");
    assert_eq!(texts(&p), vec!["\\@", "12"]);
    let mut b = Powerline::new(Theme::default(), Shell::Bare);
    segment_time(&mut b, TIME_FORMAT_DEFAULT, "12:00:00");
    assert_eq!(texts(&b), vec!["12:00:00"]);
}

#[test]
fn process_count_excludes_shell() {
    let t = Theme::default();
    let mut p = Powerline::new(t.clone(), Shell::Bash);
    segment_ps(&mut p, 5, &vec![Some(5), None, Some(4)]);
    assert!(p.segments.is_empty());
    segment_ps(&mut p, 5, &vec![Some(5), Some(5), Some(5), Some(1)]);
    assert_eq!(texts(&p), vec!["2"]);
    assert_eq!(p.segments[0].bg(), t.ps_bg);
}

#[test]
fn stat_terminal_field() {
    let line = "1234 (bash) S 1200 1234 1234 34816 5678 4194304 1 2 3";
    assert_eq!(stat_tty(line), Some(34816));
    assert_eq!(stat_tty("  1\t(x)  R 2 3 4   0 rest\n"), Some(0));
    assert_eq!(stat_tty("1 (x) R 2 3 4"), None);
    assert_eq!(stat_tty("1 (x) R 2 3 4 tty"), None);
}
