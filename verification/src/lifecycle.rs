//! The terminal-lifecycle contract around launching a selection.
//!
//! The launcher owns one resource that must never stay engaged: the
//! terminal's raw, alternate-screen mode. Acting on a selection therefore
//! follows a fixed order — restore the terminal first, so the launched
//! program finds normal terminal semantics and no exit path leaves the
//! user's shell raw; then spawn; then exit with success, whatever became of
//! the child.

use vstd::prelude::*;

verus! {

/// One step of acting on a selection.
#[derive(PartialEq, Eq, Structural, Clone, Copy, Debug)]
pub enum LaunchStep {
    /// Put the terminal back into its original mode: leave raw mode and the
    /// alternate screen. Comes strictly before the spawn, and must happen on
    /// every exit path.
    RestoreTerminal,
    /// Spawn the selected entry's command through a shell, its standard
    /// input, output and error sent to a null sink. A spawn failure is
    /// reported, never escalated.
    SpawnCommand,
    /// End the launcher with a success status, regardless of the child's
    /// fate.
    ExitSuccess,
}

/// The ordered steps the event loop must perform after a selection: the
/// terminal is restored strictly before the command is spawned, and the
/// launcher exits afterwards.
pub fn selection_plan() -> (steps: Vec<LaunchStep>)
    ensures
        steps@ == seq![
            LaunchStep::RestoreTerminal,
            LaunchStep::SpawnCommand,
            LaunchStep::ExitSuccess,
        ],
{
    let mut steps: Vec<LaunchStep> = Vec::new();
    steps.push(LaunchStep::RestoreTerminal);
    steps.push(LaunchStep::SpawnCommand);
    steps.push(LaunchStep::ExitSuccess);
    proof {
        assert(steps@ =~= seq![
            LaunchStep::RestoreTerminal,
            LaunchStep::SpawnCommand,
            LaunchStep::ExitSuccess,
        ]);
    }
    steps
}

} // verus!
