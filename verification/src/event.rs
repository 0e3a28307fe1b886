//! The redraw loop as a state machine: what each event does to the display.

use vstd::prelude::*;

verus! {

/// The key that ends the display.
pub const QUIT_KEY: char = 'q';

/// Whether the display is still up.
#[derive(Clone, Copy, Debug, PartialEq, Eq, Structural)]
pub enum LoopState {
    Running,
    Terminated,
}

/// A key press, as far as the loop tells keys apart.
#[derive(Clone, Copy, Debug, PartialEq, Eq, Structural)]
pub enum Key {
    /// A character key.
    Char(char),
    /// Any other key.
    Other,
}

/// What arrives on the loop's channel.
#[derive(Clone, Copy, Debug, PartialEq, Eq, Structural)]
pub enum LoopEvent {
    /// A key was pressed.
    Key(Key),
    /// The periodic tick.
    Tick,
    /// The channel has no sender left.
    Closed,
}

/// Errors of a display session.
#[derive(Clone, Copy, Debug, PartialEq, Eq, Structural)]
pub enum SessionError {
    /// Raw mode or the alternate screen could not be set up.
    TerminalInit,
    /// The event channel disconnected.
    ChannelClosed,
}

/// What the caller of the loop does after an event.
#[derive(Clone, Copy, Debug, PartialEq, Eq, Structural)]
pub enum LoopAction {
    /// Draw the frame again from the layout computed at the start.
    Redraw,
    /// Put the terminal back into normal mode and end with success.
    Restore,
    /// Put the terminal back into normal mode, then report the error.
    RestoreAndFail(SessionError),
    /// Nothing: the display has ended.
    Nothing,
}

/// Whether an event is a press of the quit key.
pub open spec fn is_quit(event: LoopEvent) -> bool {
    event == LoopEvent::Key(Key::Char(QUIT_KEY))
}

/// State after `event` arrives in `state`.
pub open spec fn next_state(state: LoopState, event: LoopEvent) -> LoopState {
    match state {
        LoopState::Terminated => LoopState::Terminated,
        LoopState::Running => if is_quit(event) || event == LoopEvent::Closed {
            LoopState::Terminated
        } else {
            LoopState::Running
        },
    }
}

/// What is to be done when `event` arrives in `state`.
pub open spec fn action_for(state: LoopState, event: LoopEvent) -> LoopAction {
    match state {
        LoopState::Terminated => LoopAction::Nothing,
        LoopState::Running => if is_quit(event) {
            LoopAction::Restore
        } else if event == LoopEvent::Closed {
            LoopAction::RestoreAndFail(SessionError::ChannelClosed)
        } else {
            LoopAction::Redraw
        },
    }
}

/// State after all of `events` have arrived, one after the other.
pub open spec fn state_after(state: LoopState, events: Seq<LoopEvent>) -> LoopState
    decreases events.len(),
{
    if events.len() == 0 {
        state
    } else {
        next_state(state_after(state, events.drop_last()), events.last())
    }
}

/// State in which the display starts.
pub fn start() -> (state: LoopState)
    ensures
        state == LoopState::Running,
{
    LoopState::Running
}

/// One turn of the loop: the quit key ends a running display and has the
/// terminal restored, a closed channel ends it with an error after the
/// terminal is restored, and any other event has the frame drawn again.
pub fn step(state: LoopState, event: LoopEvent) -> (r: (LoopState, LoopAction))
    ensures
        r.0 == next_state(state, event),
        r.1 == action_for(state, event),
{
    match state {
        LoopState::Terminated => (LoopState::Terminated, LoopAction::Nothing),
        LoopState::Running => match event {
            LoopEvent::Key(Key::Char(c)) => {
                if c == QUIT_KEY {
                    (LoopState::Terminated, LoopAction::Restore)
                } else {
                    (LoopState::Running, LoopAction::Redraw)
                }
            },
            LoopEvent::Key(Key::Other) => (LoopState::Running, LoopAction::Redraw),
            LoopEvent::Tick => (LoopState::Running, LoopAction::Redraw),
            LoopEvent::Closed => (
                LoopState::Terminated,
                LoopAction::RestoreAndFail(SessionError::ChannelClosed),
            ),
        },
    }
}

/// Ticks and keys other than the quit key leave a running display running.
pub proof fn lemma_stays_running(events: Seq<LoopEvent>)
    requires
        forall|i: int|
            0 <= i < events.len() ==> !is_quit(#[trigger] events[i]) && events[i]
                != LoopEvent::Closed,
    ensures
        state_after(LoopState::Running, events) == LoopState::Running,
    decreases events.len(),
{
    if events.len() > 0 {
        let earlier = events.drop_last();
        assert forall|i: int| 0 <= i < earlier.len() implies !is_quit(#[trigger] earlier[i])
            && earlier[i] != LoopEvent::Closed by {
            assert(earlier[i] == events[i]);
        }
        lemma_stays_running(earlier);
    }
}

/// The quit key always ends the display, whatever came before it, and
/// while the display is still running it has the terminal restored.
pub proof fn lemma_quit_terminates(state: LoopState, earlier: Seq<LoopEvent>)
    ensures
        state_after(state, earlier.push(LoopEvent::Key(Key::Char(QUIT_KEY))))
            == LoopState::Terminated,
        state_after(state, earlier) == LoopState::Running ==> action_for(
            state_after(state, earlier),
            LoopEvent::Key(Key::Char(QUIT_KEY)),
        ) == LoopAction::Restore,
{
    assert(earlier.push(LoopEvent::Key(Key::Char(QUIT_KEY))).drop_last() =~= earlier);
}

/// After any number of ticks the display is still running, so the quit
/// key then ends it and has the terminal restored.
pub proof fn lemma_quit_after_ticks(ticks: Seq<LoopEvent>)
    requires
        forall|i: int| 0 <= i < ticks.len() ==> #[trigger] ticks[i] == LoopEvent::Tick,
    ensures
        state_after(LoopState::Running, ticks) == LoopState::Running,
        state_after(LoopState::Running, ticks.push(LoopEvent::Key(Key::Char(QUIT_KEY))))
            == LoopState::Terminated,
        action_for(
            state_after(LoopState::Running, ticks),
            LoopEvent::Key(Key::Char(QUIT_KEY)),
        ) == LoopAction::Restore,
{
    lemma_stays_running(ticks);
    lemma_quit_terminates(LoopState::Running, ticks);
}

/// Once ended, the display stays ended and nothing more is done.
pub proof fn lemma_terminated_is_final(events: Seq<LoopEvent>)
    ensures
        state_after(LoopState::Terminated, events) == LoopState::Terminated,
    decreases events.len(),
{
    if events.len() > 0 {
        lemma_terminated_is_final(events.drop_last());
    }
}

} // verus!
