//! The color and glyph table that every segment draws from.

use vstd::prelude::*;
use crate::text::{
    chars_of, find, first_index, is_whitespace, is_ws, lemma_split_concat, lemma_split_step, parse_unsigned, split_on,
    str_eq, string_of, trim, trim_at, unsigned_of,
};

verus! {

/// Colors (256-color palette indices) and glyphs of each part of the prompt.
#[derive(Clone, Copy, PartialEq, Eq, Debug, Structural)]
pub struct Theme {
    pub separator_fg: u8,
    pub home_bg: u8,
    pub home_fg: u8,
    pub path_bg: u8,
    pub path_fg: u8,
    pub cwd_fg: u8,
    pub username_bg: u8,
    pub username_fg: u8,
    pub username_root_bg: u8,
    pub username_root_fg: u8,
    pub hostname_bg: u8,
    pub hostname_fg: u8,
    pub jobs_bg: u8,
    pub jobs_fg: u8,
    pub time_bg: u8,
    pub time_fg: u8,
    pub ssh_bg: u8,
    pub ssh_fg: u8,
    pub ssh_char: char,
    pub ro_bg: u8,
    pub ro_fg: u8,
    pub ro_char: char,
    pub git_clean_bg: u8,
    pub git_clean_fg: u8,
    pub git_dirty_bg: u8,
    pub git_dirty_fg: u8,
    pub git_ahead_bg: u8,
    pub git_ahead_fg: u8,
    pub git_behind_bg: u8,
    pub git_behind_fg: u8,
    pub git_conflicted_bg: u8,
    pub git_conflicted_fg: u8,
    pub git_notstaged_bg: u8,
    pub git_notstaged_fg: u8,
    pub git_staged_bg: u8,
    pub git_staged_fg: u8,
    pub git_untracked_bg: u8,
    pub git_untracked_fg: u8,
    pub git_ahead_char: char,
    pub git_behind_char: char,
    pub git_staged_char: char,
    pub git_notstaged_char: char,
    pub git_untracked_char: char,
    pub git_conflicted_char: char,
    pub cmd_passed_bg: u8,
    pub cmd_passed_fg: u8,
    pub cmd_failed_bg: u8,
    pub cmd_failed_fg: u8,
    pub ps_bg: u8,
    pub ps_fg: u8,
    pub virtual_env_bg: u8,
    pub virtual_env_fg: u8,
    pub nixshell_bg: u8,
    pub nixshell_fg: u8,
}

/// The built-in theme.
pub open spec fn default_theme() -> Theme {
    Theme {
        separator_fg: 244,
        home_bg: 31,
        home_fg: 15,
        path_bg: 237,
        path_fg: 250,
        cwd_fg: 254,
        username_bg: 240,
        username_fg: 250,
        username_root_bg: 124,
        username_root_fg: 15,
        hostname_bg: 238,
        hostname_fg: 250,
        jobs_bg: 238,
        jobs_fg: 39,
        time_bg: 238,
        time_fg: 250,
        ssh_bg: 166,
        ssh_fg: 254,
        ssh_char: '\u{e0a2}',
        ro_bg: 124,
        ro_fg: 254,
        ro_char: '\u{e0a2}',
        git_clean_bg: 148,
        git_clean_fg: 0,
        git_dirty_bg: 161,
        git_dirty_fg: 15,
        git_ahead_bg: 240,
        git_ahead_fg: 250,
        git_behind_bg: 240,
        git_behind_fg: 250,
        git_conflicted_bg: 9,
        git_conflicted_fg: 15,
        git_notstaged_bg: 130,
        git_notstaged_fg: 15,
        git_staged_bg: 22,
        git_staged_fg: 15,
        git_untracked_bg: 52,
        git_untracked_fg: 15,
        git_ahead_char: '\u{2b06}',
        git_behind_char: '\u{2b07}',
        git_staged_char: '\u{2714}',
        git_notstaged_char: '\u{270e}',
        git_untracked_char: '+',
        git_conflicted_char: '*',
        cmd_passed_bg: 236,
        cmd_passed_fg: 15,
        cmd_failed_bg: 161,
        cmd_failed_fg: 15,
        ps_bg: 238,
        ps_fg: 39,
        virtual_env_bg: 35,
        virtual_env_fg: 0,
        nixshell_bg: 237,
        nixshell_fg: 130,
    }
}

impl Default for Theme {
    /// The built-in theme.
    fn default() -> (t: Theme)
        ensures
            t == default_theme(),
    {
        Theme {
            separator_fg: 244,
            home_bg: 31,
            home_fg: 15,
            path_bg: 237,
            path_fg: 250,
            cwd_fg: 254,
            username_bg: 240,
            username_fg: 250,
            username_root_bg: 124,
            username_root_fg: 15,
            hostname_bg: 238,
            hostname_fg: 250,
            jobs_bg: 238,
            jobs_fg: 39,
            time_bg: 238,
            time_fg: 250,
            ssh_bg: 166,
            ssh_fg: 254,
            ssh_char: '\u{e0a2}',
            ro_bg: 124,
            ro_fg: 254,
            ro_char: '\u{e0a2}',
            git_clean_bg: 148,
            git_clean_fg: 0,
            git_dirty_bg: 161,
            git_dirty_fg: 15,
            git_ahead_bg: 240,
            git_ahead_fg: 250,
            git_behind_bg: 240,
            git_behind_fg: 250,
            git_conflicted_bg: 9,
            git_conflicted_fg: 15,
            git_notstaged_bg: 130,
            git_notstaged_fg: 15,
            git_staged_bg: 22,
            git_staged_fg: 15,
            git_untracked_bg: 52,
            git_untracked_fg: 15,
            git_ahead_char: '\u{2b06}',
            git_behind_char: '\u{2b07}',
            git_staged_char: '\u{2714}',
            git_notstaged_char: '\u{270e}',
            git_untracked_char: '+',
            git_conflicted_char: '*',
            cmd_passed_bg: 236,
            cmd_passed_fg: 15,
            cmd_failed_bg: 161,
            cmd_failed_fg: 15,
            ps_bg: 238,
            ps_fg: 39,
            virtual_env_bg: 35,
            virtual_env_fg: 0,
            nixshell_bg: 237,
            nixshell_fg: 130,
        }
    }
}

/// The theme with the color slot `key` set to `v`, if `key` names a color slot.
pub open spec fn with_color(t: Theme, key: Seq<char>, v: u8) -> Option<Theme> {
    if key == "separator_fg"@ {
        Some(Theme { separator_fg: v, ..t })
    } else if key == "home_bg"@ {
        Some(Theme { home_bg: v, ..t })
    } else if key == "home_fg"@ {
        Some(Theme { home_fg: v, ..t })
    } else if key == "path_bg"@ {
        Some(Theme { path_bg: v, ..t })
    } else if key == "path_fg"@ {
        Some(Theme { path_fg: v, ..t })
    } else if key == "cwd_fg"@ {
        Some(Theme { cwd_fg: v, ..t })
    } else if key == "username_bg"@ {
        Some(Theme { username_bg: v, ..t })
    } else if key == "username_fg"@ {
        Some(Theme { username_fg: v, ..t })
    } else if key == "username_root_bg"@ {
        Some(Theme { username_root_bg: v, ..t })
    } else if key == "username_root_fg"@ {
        Some(Theme { username_root_fg: v, ..t })
    } else if key == "hostname_bg"@ {
        Some(Theme { hostname_bg: v, ..t })
    } else if key == "hostname_fg"@ {
        Some(Theme { hostname_fg: v, ..t })
    } else if key == "jobs_bg"@ {
        Some(Theme { jobs_bg: v, ..t })
    } else if key == "jobs_fg"@ {
        Some(Theme { jobs_fg: v, ..t })
    } else if key == "time_bg"@ {
        Some(Theme { time_bg: v, ..t })
    } else if key == "time_fg"@ {
        Some(Theme { time_fg: v, ..t })
    } else if key == "ssh_bg"@ {
        Some(Theme { ssh_bg: v, ..t })
    } else if key == "ssh_fg"@ {
        Some(Theme { ssh_fg: v, ..t })
    } else if key == "ro_bg"@ {
        Some(Theme { ro_bg: v, ..t })
    } else if key == "ro_fg"@ {
        Some(Theme { ro_fg: v, ..t })
    } else if key == "git_clean_bg"@ {
        Some(Theme { git_clean_bg: v, ..t })
    } else if key == "git_clean_fg"@ {
        Some(Theme { git_clean_fg: v, ..t })
    } else if key == "git_dirty_bg"@ {
        Some(Theme { git_dirty_bg: v, ..t })
    } else if key == "git_dirty_fg"@ {
        Some(Theme { git_dirty_fg: v, ..t })
    } else if key == "git_ahead_bg"@ {
        Some(Theme { git_ahead_bg: v, ..t })
    } else if key == "git_ahead_fg"@ {
        Some(Theme { git_ahead_fg: v, ..t })
    } else if key == "git_behind_bg"@ {
        Some(Theme { git_behind_bg: v, ..t })
    } else if key == "git_behind_fg"@ {
        Some(Theme { git_behind_fg: v, ..t })
    } else if key == "git_conflicted_bg"@ {
        Some(Theme { git_conflicted_bg: v, ..t })
    } else if key == "git_conflicted_fg"@ {
        Some(Theme { git_conflicted_fg: v, ..t })
    } else if key == "git_notstaged_bg"@ {
        Some(Theme { git_notstaged_bg: v, ..t })
    } else if key == "git_notstaged_fg"@ {
        Some(Theme { git_notstaged_fg: v, ..t })
    } else if key == "git_staged_bg"@ {
        Some(Theme { git_staged_bg: v, ..t })
    } else if key == "git_staged_fg"@ {
        Some(Theme { git_staged_fg: v, ..t })
    } else if key == "git_untracked_bg"@ {
        Some(Theme { git_untracked_bg: v, ..t })
    } else if key == "git_untracked_fg"@ {
        Some(Theme { git_untracked_fg: v, ..t })
    } else if key == "cmd_passed_bg"@ {
        Some(Theme { cmd_passed_bg: v, ..t })
    } else if key == "cmd_passed_fg"@ {
        Some(Theme { cmd_passed_fg: v, ..t })
    } else if key == "cmd_failed_bg"@ {
        Some(Theme { cmd_failed_bg: v, ..t })
    } else if key == "cmd_failed_fg"@ {
        Some(Theme { cmd_failed_fg: v, ..t })
    } else if key == "virtual_env_bg"@ {
        Some(Theme { virtual_env_bg: v, ..t })
    } else if key == "virtual_env_fg"@ {
        Some(Theme { virtual_env_fg: v, ..t })
    } else if key == "nixshell_bg"@ {
        Some(Theme { nixshell_bg: v, ..t })
    } else if key == "nixshell_fg"@ {
        Some(Theme { nixshell_fg: v, ..t })
    } else {
        None
    }
}

/// The theme with the glyph slot `key` set to `v`, if `key` names a glyph slot.
pub open spec fn with_glyph(t: Theme, key: Seq<char>, v: char) -> Option<Theme> {
    if key == "git_ahead_char"@ {
        Some(Theme { git_ahead_char: v, ..t })
    } else if key == "git_behind_char"@ {
        Some(Theme { git_behind_char: v, ..t })
    } else if key == "git_staged_char"@ {
        Some(Theme { git_staged_char: v, ..t })
    } else if key == "git_notstaged_char"@ {
        Some(Theme { git_notstaged_char: v, ..t })
    } else if key == "git_untracked_char"@ {
        Some(Theme { git_untracked_char: v, ..t })
    } else if key == "git_conflicted_char"@ {
        Some(Theme { git_conflicted_char: v, ..t })
    } else {
        None
    }
}

/// The color in the slot `key`, if `key` names a color slot.
pub open spec fn color_of(t: Theme, key: Seq<char>) -> Option<u8> {
    if key == "separator_fg"@ {
        Some(t.separator_fg)
    } else if key == "home_bg"@ {
        Some(t.home_bg)
    } else if key == "home_fg"@ {
        Some(t.home_fg)
    } else if key == "path_bg"@ {
        Some(t.path_bg)
    } else if key == "path_fg"@ {
        Some(t.path_fg)
    } else if key == "cwd_fg"@ {
        Some(t.cwd_fg)
    } else if key == "username_bg"@ {
        Some(t.username_bg)
    } else if key == "username_fg"@ {
        Some(t.username_fg)
    } else if key == "username_root_bg"@ {
        Some(t.username_root_bg)
    } else if key == "username_root_fg"@ {
        Some(t.username_root_fg)
    } else if key == "hostname_bg"@ {
        Some(t.hostname_bg)
    } else if key == "hostname_fg"@ {
        Some(t.hostname_fg)
    } else if key == "jobs_bg"@ {
        Some(t.jobs_bg)
    } else if key == "jobs_fg"@ {
        Some(t.jobs_fg)
    } else if key == "time_bg"@ {
        Some(t.time_bg)
    } else if key == "time_fg"@ {
        Some(t.time_fg)
    } else if key == "ssh_bg"@ {
        Some(t.ssh_bg)
    } else if key == "ssh_fg"@ {
        Some(t.ssh_fg)
    } else if key == "ro_bg"@ {
        Some(t.ro_bg)
    } else if key == "ro_fg"@ {
        Some(t.ro_fg)
    } else if key == "git_clean_bg"@ {
        Some(t.git_clean_bg)
    } else if key == "git_clean_fg"@ {
        Some(t.git_clean_fg)
    } else if key == "git_dirty_bg"@ {
        Some(t.git_dirty_bg)
    } else if key == "git_dirty_fg"@ {
        Some(t.git_dirty_fg)
    } else if key == "git_ahead_bg"@ {
        Some(t.git_ahead_bg)
    } else if key == "git_ahead_fg"@ {
        Some(t.git_ahead_fg)
    } else if key == "git_behind_bg"@ {
        Some(t.git_behind_bg)
    } else if key == "git_behind_fg"@ {
        Some(t.git_behind_fg)
    } else if key == "git_conflicted_bg"@ {
        Some(t.git_conflicted_bg)
    } else if key == "git_conflicted_fg"@ {
        Some(t.git_conflicted_fg)
    } else if key == "git_notstaged_bg"@ {
        Some(t.git_notstaged_bg)
    } else if key == "git_notstaged_fg"@ {
        Some(t.git_notstaged_fg)
    } else if key == "git_staged_bg"@ {
        Some(t.git_staged_bg)
    } else if key == "git_staged_fg"@ {
        Some(t.git_staged_fg)
    } else if key == "git_untracked_bg"@ {
        Some(t.git_untracked_bg)
    } else if key == "git_untracked_fg"@ {
        Some(t.git_untracked_fg)
    } else if key == "cmd_passed_bg"@ {
        Some(t.cmd_passed_bg)
    } else if key == "cmd_passed_fg"@ {
        Some(t.cmd_passed_fg)
    } else if key == "cmd_failed_bg"@ {
        Some(t.cmd_failed_bg)
    } else if key == "cmd_failed_fg"@ {
        Some(t.cmd_failed_fg)
    } else if key == "virtual_env_bg"@ {
        Some(t.virtual_env_bg)
    } else if key == "virtual_env_fg"@ {
        Some(t.virtual_env_fg)
    } else if key == "nixshell_bg"@ {
        Some(t.nixshell_bg)
    } else if key == "nixshell_fg"@ {
        Some(t.nixshell_fg)
    } else {
        None
    }
}

/// The glyph in the slot `key`, if `key` names a glyph slot.
pub open spec fn glyph_of(t: Theme, key: Seq<char>) -> Option<char> {
    if key == "git_ahead_char"@ {
        Some(t.git_ahead_char)
    } else if key == "git_behind_char"@ {
        Some(t.git_behind_char)
    } else if key == "git_staged_char"@ {
        Some(t.git_staged_char)
    } else if key == "git_notstaged_char"@ {
        Some(t.git_notstaged_char)
    } else if key == "git_untracked_char"@ {
        Some(t.git_untracked_char)
    } else if key == "git_conflicted_char"@ {
        Some(t.git_conflicted_char)
    } else {
        None
    }
}

/// Sets the color slot called `name`; false, with the theme unchanged, when no color slot
/// has that name.
pub fn theme_index_u8(theme: &mut Theme, name: &str, value: u8) -> (r: bool)
    ensures
        r == with_color(*old(theme), name@, value) is Some,
        r ==> with_color(*old(theme), name@, value) == Some(*final(theme)),
        !r ==> *final(theme) == *old(theme),
{
    if str_eq(name, "separator_fg") {
        theme.separator_fg = value;
    } else if str_eq(name, "home_bg") {
        theme.home_bg = value;
    } else if str_eq(name, "home_fg") {
        theme.home_fg = value;
    } else if str_eq(name, "path_bg") {
        theme.path_bg = value;
    } else if str_eq(name, "path_fg") {
        theme.path_fg = value;
    } else if str_eq(name, "cwd_fg") {
        theme.cwd_fg = value;
    } else if str_eq(name, "username_bg") {
        theme.username_bg = value;
    } else if str_eq(name, "username_fg") {
        theme.username_fg = value;
    } else if str_eq(name, "username_root_bg") {
        theme.username_root_bg = value;
    } else if str_eq(name, "username_root_fg") {
        theme.username_root_fg = value;
    } else if str_eq(name, "hostname_bg") {
        theme.hostname_bg = value;
    } else if str_eq(name, "hostname_fg") {
        theme.hostname_fg = value;
    } else if str_eq(name, "jobs_bg") {
        theme.jobs_bg = value;
    } else if str_eq(name, "jobs_fg") {
        theme.jobs_fg = value;
    } else if str_eq(name, "time_bg") {
        theme.time_bg = value;
    } else if str_eq(name, "time_fg") {
        theme.time_fg = value;
    } else if str_eq(name, "ssh_bg") {
        theme.ssh_bg = value;
    } else if str_eq(name, "ssh_fg") {
        theme.ssh_fg = value;
    } else if str_eq(name, "ro_bg") {
        theme.ro_bg = value;
    } else if str_eq(name, "ro_fg") {
        theme.ro_fg = value;
    } else if str_eq(name, "git_clean_bg") {
        theme.git_clean_bg = value;
    } else if str_eq(name, "git_clean_fg") {
        theme.git_clean_fg = value;
    } else if str_eq(name, "git_dirty_bg") {
        theme.git_dirty_bg = value;
    } else if str_eq(name, "git_dirty_fg") {
        theme.git_dirty_fg = value;
    } else if str_eq(name, "git_ahead_bg") {
        theme.git_ahead_bg = value;
    } else if str_eq(name, "git_ahead_fg") {
        theme.git_ahead_fg = value;
    } else if str_eq(name, "git_behind_bg") {
        theme.git_behind_bg = value;
    } else if str_eq(name, "git_behind_fg") {
        theme.git_behind_fg = value;
    } else if str_eq(name, "git_conflicted_bg") {
        theme.git_conflicted_bg = value;
    } else if str_eq(name, "git_conflicted_fg") {
        theme.git_conflicted_fg = value;
    } else if str_eq(name, "git_notstaged_bg") {
        theme.git_notstaged_bg = value;
    } else if str_eq(name, "git_notstaged_fg") {
        theme.git_notstaged_fg = value;
    } else if str_eq(name, "git_staged_bg") {
        theme.git_staged_bg = value;
    } else if str_eq(name, "git_staged_fg") {
        theme.git_staged_fg = value;
    } else if str_eq(name, "git_untracked_bg") {
        theme.git_untracked_bg = value;
    } else if str_eq(name, "git_untracked_fg") {
        theme.git_untracked_fg = value;
    } else if str_eq(name, "cmd_passed_bg") {
        theme.cmd_passed_bg = value;
    } else if str_eq(name, "cmd_passed_fg") {
        theme.cmd_passed_fg = value;
    } else if str_eq(name, "cmd_failed_bg") {
        theme.cmd_failed_bg = value;
    } else if str_eq(name, "cmd_failed_fg") {
        theme.cmd_failed_fg = value;
    } else if str_eq(name, "virtual_env_bg") {
        theme.virtual_env_bg = value;
    } else if str_eq(name, "virtual_env_fg") {
        theme.virtual_env_fg = value;
    } else if str_eq(name, "nixshell_bg") {
        theme.nixshell_bg = value;
    } else if str_eq(name, "nixshell_fg") {
        theme.nixshell_fg = value;
    } else {
        return false;
    }
    true
}

/// Sets the glyph slot called `name`; false, with the theme unchanged, when no glyph slot
/// has that name.
pub fn theme_index_char(theme: &mut Theme, name: &str, value: char) -> (r: bool)
    ensures
        r == with_glyph(*old(theme), name@, value) is Some,
        r ==> with_glyph(*old(theme), name@, value) == Some(*final(theme)),
        !r ==> *final(theme) == *old(theme),
{
    if str_eq(name, "git_ahead_char") {
        theme.git_ahead_char = value;
    } else if str_eq(name, "git_behind_char") {
        theme.git_behind_char = value;
    } else if str_eq(name, "git_staged_char") {
        theme.git_staged_char = value;
    } else if str_eq(name, "git_notstaged_char") {
        theme.git_notstaged_char = value;
    } else if str_eq(name, "git_untracked_char") {
        theme.git_untracked_char = value;
    } else if str_eq(name, "git_conflicted_char") {
        theme.git_conflicted_char = value;
    } else {
        return false;
    }
    true
}

/// A Unicode scalar value: a code point that is not a surrogate.
pub open spec fn is_scalar(n: nat) -> bool {
    n < 0xD800 || (0xE000 <= n && n <= 0x10FFFF)
}

/// Relies on `char::from_u32`: the character with code point `n`, when `n` is a scalar
/// value.
#[verifier::external_body]
fn char_from_u32(n: u32) -> (r: Option<char>)
    ensures
        r matches Some(c) ==> c == n as char,
        r is Some <==> is_scalar(n as nat),
{
    char::from_u32(n)
}

/// The glyph a value writes: a single character as it is, else a hexadecimal code point.
pub open spec fn glyph_value(v: Seq<char>) -> Option<char> {
    if v.len() == 1 {
        Some(v[0])
    } else {
        match unsigned_of(v, 16, u32::MAX as nat) {
            Some(n) => if is_scalar(n) {
                Some(n as u32 as char)
            } else {
                None
            },
            None => None,
        }
    }
}

/// Whether `s` ends with `p`.
pub open spec fn ends_with(s: Seq<char>, p: Seq<char>) -> bool {
    p.len() <= s.len() && s.subrange(s.len() - p.len(), s.len() as int) == p
}

/// A line that says nothing: a comment, or only white space.
pub open spec fn is_skipped(l: Seq<char>) -> bool {
    (l.len() > 0 && l[0] == '#') || (forall|i: int| 0 <= i < l.len() ==> is_ws(#[trigger] l[i]))
}

/// The key of an assignment line `key = value`, without the white space round it.
pub open spec fn line_key(l: Seq<char>) -> Seq<char> {
    trim(l.subrange(0, first_index(l, '=')))
}

/// The value of an assignment line `key = value`, without the white space round it.
pub open spec fn line_value(l: Seq<char>) -> Seq<char> {
    trim(l.subrange(first_index(l, '=') + 1, l.len() as int))
}

/// What one line of a theme file does to the theme: nothing for a comment or a blank line;
/// for `key = value`, sets the glyph slot (a key ending in `char`) or the color slot (a
/// decimal from 0 to 255) named `key`. `None` when the line is corrupt.
pub open spec fn line_spec(t: Theme, l: Seq<char>) -> Option<Theme> {
    if is_skipped(l) {
        Some(t)
    } else if first_index(l, '=') >= l.len() {
        None
    } else {
        let key = line_key(l);
        let value = line_value(l);
        if ends_with(key, seq!['c', 'h', 'a', 'r']) {
            match glyph_value(value) {
                Some(c) => with_glyph(t, key, c),
                None => None,
            }
        } else {
            match unsigned_of(value, 10, 255) {
                Some(n) => with_color(t, key, n as u8),
                None => None,
            }
        }
    }
}

/// The theme after the lines, in order, or `None` at the first corrupt one.
pub open spec fn apply_lines(t: Theme, lines: Seq<Seq<char>>) -> Option<Theme>
    decreases lines.len(),
{
    if lines.len() == 0 {
        Some(t)
    } else {
        match line_spec(t, lines[0]) {
            Some(t2) => apply_lines(t2, lines.drop_first()),
            None => None,
        }
    }
}

/// The theme a theme file gives: the built-in theme with each line applied.
pub open spec fn theme_spec(text: Seq<char>) -> Option<Theme> {
    apply_lines(default_theme(), split_on(text, '\n'))
}

fn ends_with_char(v: &Vec<char>, lo: usize, hi: usize) -> (r: bool)
    requires
        lo <= hi <= v@.len(),
    ensures
        r == ends_with(v@.subrange(lo as int, hi as int), seq!['c', 'h', 'a', 'r']),
{
    let ghost k = v@.subrange(lo as int, hi as int);
    if hi - lo < 4 {
        return false;
    }
    let r = v[hi - 4] == 'c' && v[hi - 3] == 'h' && v[hi - 2] == 'a' && v[hi - 1] == 'r';
    assert(r == (k.subrange(k.len() - 4, k.len() as int) =~= seq!['c', 'h', 'a', 'r']));
    r
}

fn is_skipped_at(v: &Vec<char>, lo: usize, hi: usize) -> (r: bool)
    requires
        lo <= hi <= v@.len(),
    ensures
        r == is_skipped(v@.subrange(lo as int, hi as int)),
{
    let ghost l = v@.subrange(lo as int, hi as int);
    assert(lo < hi ==> l[0] == v@[lo as int]);
    if lo < hi && v[lo] == '#' {
        return true;
    }
    let mut i = lo;
    while i < hi
        invariant
            lo <= i <= hi <= v@.len(),
            l == v@.subrange(lo as int, hi as int),
            !(l.len() > 0 && l[0] == '#'),
            forall|j: int| 0 <= j < i - lo ==> is_ws(#[trigger] l[j]),
        decreases hi - i,
    {
        if !is_whitespace(v[i]) {
            assert(!is_ws(l[i - lo]));
            return false;
        }
        i = i + 1;
    }
    true
}

fn glyph_at(v: &Vec<char>, lo: usize, hi: usize) -> (r: Option<char>)
    requires
        lo <= hi <= v@.len(),
    ensures
        r == glyph_value(v@.subrange(lo as int, hi as int)),
{
    if hi - lo == 1 {
        return Some(v[lo]);
    }
    match parse_unsigned(v, lo, hi, 16, u32::MAX as u64) {
        Some(n) => {
            let c = char_from_u32(n as u32);
            proof {
                if let Some(c) = c {
                }
            }
            c
        },
        None => None,
    }
}

fn apply_line(t: &mut Theme, v: &Vec<char>, lo: usize, hi: usize) -> (r: bool)
    requires
        lo <= hi <= v@.len(),
    ensures
        r ==> line_spec(*old(t), v@.subrange(lo as int, hi as int)) == Some(*final(t)),
        !r ==> line_spec(*old(t), v@.subrange(lo as int, hi as int)) is None,
{
    let ghost l = v@.subrange(lo as int, hi as int);
    if is_skipped_at(v, lo, hi) {
        return true;
    }
    let eq = find(v, '=', lo, hi);
    if eq == hi {
        return false;
    }
    let (ka, kb) = trim_at(v, lo, eq);
    let (va, vb) = trim_at(v, eq + 1, hi);
    proof {
        assert(l.subrange(0, eq - lo) =~= v@.subrange(lo as int, eq as int));
        assert(l.subrange(eq - lo + 1, l.len() as int) =~= v@.subrange(eq + 1, hi as int));
    }
    let ghost key = v@.subrange(ka as int, kb as int);
    let name = string_of(v, ka, kb);
    if ends_with_char(v, ka, kb) {
        match glyph_at(v, va, vb) {
            Some(c) => theme_index_char(t, name.as_str(), c),
            None => false,
        }
    } else {
        match parse_unsigned(v, va, vb, 10, 255u64) {
            Some(n) => theme_index_u8(t, name.as_str(), n as u8),
            None => false,
        }
    }
}

/// A theme file is corrupt.
#[derive(Debug)]
pub struct ErrCorrupt;

impl ErrCorrupt {
    /// What went wrong.
    pub fn description(&self) -> (r: &'static str)
        ensures
            r@ == "Corrupt theme file"@,
    {
        "Corrupt theme file"
    }
}

/// Reads a theme file: the built-in theme with each line's assignment applied in order, or
/// `ErrCorrupt` for a line that is not a comment, blank or a valid assignment.
pub fn parse(text: &str) -> (r: Result<Theme, ErrCorrupt>)
    ensures
        r matches Ok(t) ==> theme_spec(text@) == Some(t),
        r is Err ==> theme_spec(text@) is None,
{
    let v = chars_of(text);
    let n = v.len();
    let mut t = Theme::default();
    let mut pos: usize = 0;
    assert(v@.subrange(0, n as int) =~= v@);
    loop
        invariant
            n == v@.len(),
            v@ == text@,
            pos <= n,
            apply_lines(t, split_on(v@.subrange(pos as int, n as int), '\n')) == theme_spec(text@),
        decreases n - pos,
    {
        let e = find(&v, '\n', pos, n);
        let ghost sub = v@.subrange(pos as int, n as int);
        let ghost t0 = t;
        proof {
            lemma_split_step(sub, '\n', e - pos);
            assert(sub.subrange(0, e - pos) =~= v@.subrange(pos as int, e as int));
            let lines = split_on(sub, '\n');
            assert(lines[0] == v@.subrange(pos as int, e as int));
            if e < n {
                assert(sub.subrange(e - pos + 1, sub.len() as int) =~= v@.subrange(e + 1, n as int));
                assert(lines.drop_first() =~= split_on(v@.subrange(e + 1, n as int), '\n'));
            } else {
                assert(lines.drop_first() =~= Seq::<Seq<char>>::empty());
            }
        }
        if !apply_line(&mut t, &v, pos, e) {
            return Err(ErrCorrupt);
        }
        if e == n {
            assert(apply_lines(t, Seq::<Seq<char>>::empty()) == Some(t));
            return Ok(t);
        }
        pos = e + 1;
    }
}

/// Setting one slot leaves every slot under another name as it was.
proof fn lemma_set_frames(t: Theme, t2: Theme, k1: Seq<char>, key: Seq<char>)
    requires
        k1 != key,
        (exists|v: u8| with_color(t, k1, v) == Some(t2)) || (exists|c: char| with_glyph(t, k1, c) == Some(t2)),
    ensures
        color_of(t2, key) == color_of(t, key),
        glyph_of(t2, key) == glyph_of(t, key),
{
    if k1 == "separator_fg"@ {
    } else if k1 == "home_bg"@ {
    } else if k1 == "home_fg"@ {
    } else if k1 == "path_bg"@ {
    } else if k1 == "path_fg"@ {
    } else if k1 == "cwd_fg"@ {
    } else if k1 == "username_bg"@ {
    } else if k1 == "username_fg"@ {
    } else if k1 == "username_root_bg"@ {
    } else if k1 == "username_root_fg"@ {
    } else if k1 == "hostname_bg"@ {
    } else if k1 == "hostname_fg"@ {
    } else if k1 == "jobs_bg"@ {
    } else if k1 == "jobs_fg"@ {
    } else if k1 == "time_bg"@ {
    } else if k1 == "time_fg"@ {
    } else if k1 == "ssh_bg"@ {
    } else if k1 == "ssh_fg"@ {
    } else if k1 == "ro_bg"@ {
    } else if k1 == "ro_fg"@ {
    } else if k1 == "git_clean_bg"@ {
    } else if k1 == "git_clean_fg"@ {
    } else if k1 == "git_dirty_bg"@ {
    } else if k1 == "git_dirty_fg"@ {
    } else if k1 == "git_ahead_bg"@ {
    } else if k1 == "git_ahead_fg"@ {
    } else if k1 == "git_behind_bg"@ {
    } else if k1 == "git_behind_fg"@ {
    } else if k1 == "git_conflicted_bg"@ {
    } else if k1 == "git_conflicted_fg"@ {
    } else if k1 == "git_notstaged_bg"@ {
    } else if k1 == "git_notstaged_fg"@ {
    } else if k1 == "git_staged_bg"@ {
    } else if k1 == "git_staged_fg"@ {
    } else if k1 == "git_untracked_bg"@ {
    } else if k1 == "git_untracked_fg"@ {
    } else if k1 == "cmd_passed_bg"@ {
    } else if k1 == "cmd_passed_fg"@ {
    } else if k1 == "cmd_failed_bg"@ {
    } else if k1 == "cmd_failed_fg"@ {
    } else if k1 == "virtual_env_bg"@ {
    } else if k1 == "virtual_env_fg"@ {
    } else if k1 == "nixshell_bg"@ {
    } else if k1 == "nixshell_fg"@ {
    } else if k1 == "git_ahead_char"@ {
    } else if k1 == "git_behind_char"@ {
    } else if k1 == "git_staged_char"@ {
    } else if k1 == "git_notstaged_char"@ {
    } else if k1 == "git_untracked_char"@ {
    } else if k1 == "git_conflicted_char"@ {
    }
}

/// An assignment line names `key`.
pub open spec fn assigns(l: Seq<char>, key: Seq<char>) -> bool {
    !is_skipped(l) && first_index(l, '=') < l.len() && line_key(l) == key
}

proof fn lemma_line_frames(t: Theme, l: Seq<char>, key: Seq<char>)
    requires
        line_spec(t, l) is Some,
        !assigns(l, key),
    ensures
        color_of(line_spec(t, l)->0, key) == color_of(t, key),
        glyph_of(line_spec(t, l)->0, key) == glyph_of(t, key),
{
    if !is_skipped(l) {
        let k1 = line_key(l);
        let value = line_value(l);
        let t2 = line_spec(t, l)->0;
        if ends_with(k1, seq!['c', 'h', 'a', 'r']) {
            let c = glyph_value(value)->0;
            assert(with_glyph(t, k1, c) == Some(t2));
        } else {
            let v = unsigned_of(value, 10, 255)->0 as u8;
            assert(with_color(t, k1, v) == Some(t2));
        }
        lemma_set_frames(t, t2, k1, key);
    }
}

proof fn lemma_lines_frame(t: Theme, lines: Seq<Seq<char>>, key: Seq<char>)
    requires
        apply_lines(t, lines) is Some,
        forall|i: int| 0 <= i < lines.len() ==> !assigns(#[trigger] lines[i], key),
    ensures
        color_of(apply_lines(t, lines)->0, key) == color_of(t, key),
        glyph_of(apply_lines(t, lines)->0, key) == glyph_of(t, key),
    decreases lines.len(),
{
    if lines.len() > 0 {
        assert(!assigns(lines[0], key));
        lemma_line_frames(t, lines[0], key);
        let rest = lines.drop_first();
        assert forall|i: int| 0 <= i < rest.len() implies !assigns(#[trigger] rest[i], key) by {
            assert(rest[i] == lines[i + 1]);
        }
        lemma_lines_frame(line_spec(t, lines[0])->0, rest, key);
    }
}

/// A theme file that reads without error gives the built-in theme except in the slots that
/// its lines assign: a slot that no line names keeps its built-in color or glyph.
pub proof fn lemma_unassigned_slots_keep_default(text: Seq<char>, key: Seq<char>)
    requires
        theme_spec(text) is Some,
        forall|i: int|
            0 <= i < split_on(text, '\n').len() ==> !assigns(#[trigger] split_on(text, '\n')[i], key),
    ensures
        color_of(theme_spec(text)->0, key) == color_of(default_theme(), key),
        glyph_of(theme_spec(text)->0, key) == glyph_of(default_theme(), key),
{
    lemma_lines_frame(default_theme(), split_on(text, '\n'), key);
}

/// A line that no theme can take: not a comment or blank, and without `=`, or with a key
/// that names no slot of its kind, or with a value that does not parse (a color that is not
/// a decimal up to 255, a glyph of several characters that is not a hexadecimal scalar).
pub open spec fn is_corrupt(l: Seq<char>) -> bool {
    !is_skipped(l) && (first_index(l, '=') >= l.len() || {
        let key = line_key(l);
        let value = line_value(l);
        if ends_with(key, seq!['c', 'h', 'a', 'r']) {
            glyph_of(default_theme(), key) is None || glyph_value(value) is None
        } else {
            color_of(default_theme(), key) is None || unsigned_of(value, 10, 255) is None
        }
    })
}

proof fn lemma_corrupt_line(t: Theme, l: Seq<char>)
    requires
        is_corrupt(l),
    ensures
        line_spec(t, l) is None,
{
}

proof fn lemma_corrupt_lines(t: Theme, lines: Seq<Seq<char>>, i: int)
    requires
        0 <= i < lines.len(),
        is_corrupt(lines[i]),
    ensures
        apply_lines(t, lines) is None,
    decreases lines.len(),
{
    if i == 0 {
        lemma_corrupt_line(t, lines[0]);
    } else {
        match line_spec(t, lines[0]) {
            Some(t2) => {
                assert(lines.drop_first()[i - 1] == lines[i]);
                lemma_corrupt_lines(t2, lines.drop_first(), i - 1);
            },
            None => {},
        }
    }
}

/// A theme file with a corrupt line fails to read, wherever that line stands, so the caller
/// falls back to the built-in theme.
pub proof fn lemma_corrupt_file_fails(text: Seq<char>, i: int)
    requires
        0 <= i < split_on(text, '\n').len(),
        is_corrupt(split_on(text, '\n')[i]),
    ensures
        theme_spec(text) is None,
{
    lemma_corrupt_lines(default_theme(), split_on(text, '\n'), i);
}

/// A theme file made of a valid part and a part after it that holds a corrupt line fails
/// to read as a whole: no theme with only the valid part's assignments comes back.
pub proof fn lemma_corrupt_tail_fails(valid: Seq<char>, tail: Seq<char>, i: int)
    requires
        valid.len() == 0 || valid.last() == '\n',
        0 <= i < split_on(tail, '\n').len(),
        is_corrupt(split_on(tail, '\n')[i]),
    ensures
        theme_spec(valid + tail) is None,
{
    if valid.len() == 0 {
        assert(valid + tail =~= tail);
        lemma_corrupt_file_fails(tail, i);
    } else {
        lemma_split_concat(valid, tail, '\n');
        let head = split_on(valid, '\n').drop_last();
        let all = split_on(valid + tail, '\n');
        assert(all[head.len() + i] == split_on(tail, '\n')[i]);
        lemma_corrupt_file_fails(valid + tail, head.len() + i);
    }
}

proof fn lemma_valid_line(t: Theme, l: Seq<char>)
    requires
        !is_corrupt(l),
    ensures
        line_spec(t, l) is Some,
{
}

proof fn lemma_set_color_same(t: Theme, key: Seq<char>, v: u8)
    requires
        with_color(t, key, v) is Some,
    ensures
        color_of(with_color(t, key, v)->0, key) == Some(v),
        glyph_of(with_color(t, key, v)->0, key) == glyph_of(t, key),
{
}

proof fn lemma_set_glyph_same(t: Theme, key: Seq<char>, c: char)
    requires
        with_glyph(t, key, c) is Some,
    ensures
        glyph_of(with_glyph(t, key, c)->0, key) == Some(c),
        color_of(with_glyph(t, key, c)->0, key) == color_of(t, key),
{
}

/// The color that line `l` assigns to the slot `key`, if it assigns it one.
pub open spec fn assigned_color(l: Seq<char>, key: Seq<char>) -> Option<u8> {
    if assigns(l, key) && !ends_with(key, seq!['c', 'h', 'a', 'r']) {
        match unsigned_of(line_value(l), 10, 255) {
            Some(n) => Some(n as u8),
            None => None,
        }
    } else {
        None
    }
}

/// The glyph that line `l` assigns to the slot `key`, if it assigns it one.
pub open spec fn assigned_glyph(l: Seq<char>, key: Seq<char>) -> Option<char> {
    if assigns(l, key) && ends_with(key, seq!['c', 'h', 'a', 'r']) {
        glyph_value(line_value(l))
    } else {
        None
    }
}

/// The color of slot `key` after the lines, from `v` on: the last assignment wins.
pub open spec fn last_color(lines: Seq<Seq<char>>, key: Seq<char>, v: Option<u8>) -> Option<u8>
    decreases lines.len(),
{
    if lines.len() == 0 {
        v
    } else {
        let next = match assigned_color(lines[0], key) {
            Some(c) => Some(c),
            None => v,
        };
        last_color(lines.drop_first(), key, next)
    }
}

/// The glyph of slot `key` after the lines, from `v` on: the last assignment wins.
pub open spec fn last_glyph(lines: Seq<Seq<char>>, key: Seq<char>, v: Option<char>) -> Option<char>
    decreases lines.len(),
{
    if lines.len() == 0 {
        v
    } else {
        let next = match assigned_glyph(lines[0], key) {
            Some(c) => Some(c),
            None => v,
        };
        last_glyph(lines.drop_first(), key, next)
    }
}

proof fn lemma_line_effect(t: Theme, l: Seq<char>, key: Seq<char>)
    requires
        !is_corrupt(l),
    ensures
        line_spec(t, l) is Some,
        color_of(line_spec(t, l)->0, key) == match assigned_color(l, key) {
            Some(c) => Some(c),
            None => color_of(t, key),
        },
        glyph_of(line_spec(t, l)->0, key) == match assigned_glyph(l, key) {
            Some(c) => Some(c),
            None => glyph_of(t, key),
        },
{
    lemma_valid_line(t, l);
    if assigns(l, key) {
        let value = line_value(l);
        if ends_with(key, seq!['c', 'h', 'a', 'r']) {
            lemma_set_glyph_same(t, key, glyph_value(value)->0);
        } else {
            lemma_set_color_same(t, key, unsigned_of(value, 10, 255)->0 as u8);
        }
    } else {
        lemma_line_frames(t, l, key);
    }
}

proof fn lemma_valid_lines(t: Theme, lines: Seq<Seq<char>>, key: Seq<char>)
    requires
        forall|i: int| 0 <= i < lines.len() ==> !is_corrupt(#[trigger] lines[i]),
    ensures
        apply_lines(t, lines) is Some,
        color_of(apply_lines(t, lines)->0, key) == last_color(lines, key, color_of(t, key)),
        glyph_of(apply_lines(t, lines)->0, key) == last_glyph(lines, key, glyph_of(t, key)),
    decreases lines.len(),
{
    if lines.len() > 0 {
        assert(!is_corrupt(lines[0]));
        lemma_line_effect(t, lines[0], key);
        let rest = lines.drop_first();
        assert forall|i: int| 0 <= i < rest.len() implies !is_corrupt(#[trigger] rest[i]) by {
            assert(rest[i] == lines[i + 1]);
        }
        lemma_valid_lines(line_spec(t, lines[0])->0, rest, key);
    }
}

/// A theme file whose lines are all comments, blank or valid assignments reads without
/// error, and each slot holds the value of the last line that assigns it, or else its
/// built-in value.
pub proof fn lemma_valid_file_reads(text: Seq<char>, key: Seq<char>)
    requires
        forall|i: int|
            0 <= i < split_on(text, '\n').len() ==> !is_corrupt(#[trigger] split_on(text, '\n')[i]),
    ensures
        theme_spec(text) is Some,
        color_of(theme_spec(text)->0, key) == last_color(
            split_on(text, '\n'),
            key,
            color_of(default_theme(), key),
        ),
        glyph_of(theme_spec(text)->0, key) == last_glyph(
            split_on(text, '\n'),
            key,
            glyph_of(default_theme(), key),
        ),
{
    lemma_valid_lines(default_theme(), split_on(text, '\n'), key);
}

} // verus!
