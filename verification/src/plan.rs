//! Going through a list of actions, of which the first that fails ends the run.

use vstd::prelude::*;

verus! {

/// How a run through a list of actions goes on.
#[derive(Clone, Copy, Debug, PartialEq, Eq, Structural)]
pub enum Progress {
    /// Perform the action at the index.
    Perform(usize),
    /// All actions were performed; the run is a success.
    Finished,
    /// The last action failed; its error is that of the run.
    Stopped,
}

/// How a run through `len` actions goes on when `tried` of them were tried.
pub open spec fn progress(len: nat, tried: nat, last_failed: bool) -> Progress {
    if last_failed {
        Progress::Stopped
    } else if tried < len {
        Progress::Perform(tried as usize)
    } else {
        Progress::Finished
    }
}

/// A run through `len` actions comes to try the action at index `k`, where
/// `succeeds` says which actions succeed when they are tried.
pub open spec fn tries(len: nat, succeeds: spec_fn(nat) -> bool, k: nat) -> bool
    decreases k,
{
    if k == 0 {
        progress(len, 0, false) is Perform
    } else {
        &&& tries(len, succeeds, (k - 1) as nat)
        &&& progress(len, k, !succeeds((k - 1) as nat)) is Perform
    }
}

/// What comes after `tried` of the actions were tried, the last of them with
/// failure or not. Before the first nothing has failed.
pub fn next_action<A>(actions: &Vec<A>, tried: usize, last_failed: bool) -> (next: Progress)
    ensures
        next == progress(actions@.len(), tried as nat, last_failed),
        last_failed ==> next == Progress::Stopped,
        !last_failed && tried < actions@.len() ==> next == Progress::Perform(tried),
        !last_failed && tried >= actions@.len() ==> next == Progress::Finished,
{
    if last_failed {
        Progress::Stopped
    } else if tried < actions.len() {
        Progress::Perform(tried)
    } else {
        Progress::Finished
    }
}

/// An action is tried exactly if all before it were tried and succeeded.
pub proof fn law_first_failure_ends_the_run(len: nat, succeeds: spec_fn(nat) -> bool, k: nat)
    ensures
        tries(len, succeeds, k) <==> k < len && forall|j: nat| j < k ==> #[trigger] succeeds(j),
    decreases k,
{
    if k > 0 {
        law_first_failure_ends_the_run(len, succeeds, (k - 1) as nat);
        assert(succeeds((k - 1) as nat) || !succeeds((k - 1) as nat));
    }
}

/// After a failure the run stops. Without one the actions are performed in their
/// order, none left out and none twice, until there is none left.
pub proof fn law_actions_come_in_order(len: usize, tried: usize)
    ensures
        progress(len as nat, tried as nat, true) == Progress::Stopped,
        tried < len ==> progress(len as nat, tried as nat, false) == Progress::Perform(tried),
        tried >= len ==> progress(len as nat, tried as nat, false) == Progress::Finished,
{
}

} // verus!
