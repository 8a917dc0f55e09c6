//! The PTY side of a tab: the output tap, what its events change, and
//! whether a command is running in the tab.

use vstd::prelude::*;

pub mod busy;
pub mod output_tap;
pub mod tap;
pub mod windows;

verus! {

/// A foreground command runs when the terminal's foreground process group
/// is a real group other than the shell's own (the shell leads its group).
pub fn foreground_command_running(foreground_pgid: i32, shell_pid: i32) -> (r: bool)
    ensures
        r == (foreground_pgid > 0 && foreground_pgid != shell_pid),
{
    foreground_pgid > 0 && foreground_pgid != shell_pid
}

} // verus!
