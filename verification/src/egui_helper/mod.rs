//! Whether the inspector is shown, and whether it wants the input.

use vstd::prelude::*;

verus! {

/// Whether the inspector is shown, and whether it wants the input that the
/// game would else take.
#[derive(Debug, Clone, Copy, PartialEq, Eq, Structural)]
pub struct EguiHelperState {
    pub enabled: bool,
    pub wants_input: bool,
}

/// The condition for the systems that run only while the inspector is
/// shown: where there is no state, they run.
pub fn run_if_egui_enabled(res: Option<&EguiHelperState>) -> (run: bool)
    ensures
        run == match res {
            Some(state) => state.enabled,
            None => true,
        },
{
    match res {
        Some(state) => state.enabled,
        None => true,
    }
}

/// The state after one frame. `wants` holds, for each context of the
/// inspector, whether it wants the pointer or the keyboard: the last one
/// counts, and without any the state keeps what it had. The key that shows
/// and hides the inspector turns `enabled` round.
pub fn update(state: EguiHelperState, wants: &Vec<bool>, toggle_pressed: bool) -> (r:
    EguiHelperState)
    ensures
        r.wants_input == (if wants@.len() == 0 {
            state.wants_input
        } else {
            wants@.last()
        }),
        r.enabled == (state.enabled != toggle_pressed),
{
    let wants_input = if wants.len() == 0 {
        state.wants_input
    } else {
        wants[wants.len() - 1]
    };
    let enabled = if toggle_pressed {
        !state.enabled
    } else {
        state.enabled
    };
    EguiHelperState { enabled, wants_input }
}

} // verus!
