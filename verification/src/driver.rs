//! The decision rule of the animation loop. Each tick the loop waits a
//! fixed interval for input and then consults `tick_action`: a keypress
//! ends the session, other input is ignored, and a quiet interval means
//! render the current generation and advance the board one step. The
//! rendering and the waiting themselves happen outside the library.

use vstd::prelude::*;

verus! {

/// What the wait for input produced during one tick of the loop.
#[derive(Copy, Clone, PartialEq, Eq, Structural, Debug)]
pub enum TickEvent {
    /// A key was pressed: the user asked to stop.
    KeyPressed,
    /// Some other input event arrived; it carries no meaning here.
    OtherInput,
    /// The interval elapsed with no input.
    TimedOut,
}

/// What the loop must do in response to one tick's event.
#[derive(Copy, Clone, PartialEq, Eq, Structural, Debug)]
pub enum TickAction {
    /// Leave the loop; the session is over.
    Stop,
    /// Do nothing and wait again.
    Wait,
    /// Render the current generation, then advance the board one step.
    RenderAndStep,
}

/// The loop's decision rule: only a keypress stops the session, and a
/// generation passes only when the full interval elapsed quietly.
pub open spec fn spec_tick_action(e: TickEvent) -> TickAction {
    match e {
        TickEvent::KeyPressed => TickAction::Stop,
        TickEvent::OtherInput => TickAction::Wait,
        TickEvent::TimedOut => TickAction::RenderAndStep,
    }
}

/// Decides what one tick of the animation loop does with its event.
pub fn tick_action(e: TickEvent) -> (a: TickAction)
    ensures
        a == spec_tick_action(e),
{
    match e {
        TickEvent::KeyPressed => TickAction::Stop,
        TickEvent::OtherInput => TickAction::Wait,
        TickEvent::TimedOut => TickAction::RenderAndStep,
    }
}

} // verus!
