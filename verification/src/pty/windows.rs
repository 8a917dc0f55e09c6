//! Hooks of the Windows ConPTY backend.

use vstd::prelude::*;

verus! {

/// Called once the ConPTY instance has been created by the portable PTY
/// backend; the backend needs nothing more from this side.
pub fn on_pty_created() {
}

} // verus!
