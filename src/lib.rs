//! Rendering of a colorized, shell-aware prompt line out of small status segments.

pub mod cwd;
pub mod format;
pub mod git;
pub mod module;
pub mod porcelain;
pub mod powerline;
pub mod render;
pub mod segment;
pub mod theme;
pub mod text;

use vstd::prelude::*;

verus! {

/// The shell dialect that the prompt is written for.
#[derive(Clone, Copy, PartialEq, Eq, Debug, Structural)]
pub enum Shell {
    /// Plain ANSI sequences, no prompt expansion.
    Bare,
    Bash,
    Zsh,
}

} // verus!
