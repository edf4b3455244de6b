//! The typing notices the composer sends: one when typing starts, one
//! when it stops, and a timer that stops it three seconds after the last
//! keystroke.

use vstd::prelude::*;

verus! {

/// What happens to the composer.
pub enum TypingEvent {
    /// A keystroke in the editor.
    Typed,
    /// The timer of the last keystroke ran out.
    TimerFired,
    /// The editor became empty.
    Emptied,
}

/// What the composer does in answer: the notice to send, if any (`true`
/// for "typing", `false` for "stopped"), and whether to start the timer
/// anew, dropping the one running.
pub struct TypingActions {
    pub notice: Option<bool>,
    pub restart_timer: bool,
}

/// The next state, whether the user counts as typing, and the actions.
/// Without an open room nothing happens. A keystroke sends "typing" only
/// when the user did not count as typing yet, and always restarts the
/// timer; the timer ends the typing with "stopped"; an emptied editor
/// sends "stopped" without ending the typing.
pub open spec fn typing_next(typing: bool, event: TypingEvent, in_room: bool) -> (bool, Option<bool>, bool) {
    match event {
        TypingEvent::Typed => if in_room {
            (true, if typing { None } else { Some(true) }, true)
        } else {
            (typing, None, false)
        },
        TypingEvent::TimerFired => (false, Some(false), false),
        TypingEvent::Emptied => (typing, if in_room { Some(false) } else { None }, false),
    }
}

/// Decides what an event does to the typing state.
pub fn typing_step(typing: bool, event: TypingEvent, in_room: bool) -> (r: (bool, TypingActions))
    ensures
        (r.0, r.1.notice, r.1.restart_timer) == typing_next(typing, event, in_room),
{
    match event {
        TypingEvent::Typed => {
            if !in_room {
                return (typing, TypingActions { notice: None, restart_timer: false });
            }
            let notice = if typing {
                None
            } else {
                Some(true)
            };
            (true, TypingActions { notice, restart_timer: true })
        },
        TypingEvent::TimerFired => (false, TypingActions { notice: Some(false), restart_timer: false }),
        TypingEvent::Emptied => {
            let notice = if in_room {
                Some(false)
            } else {
                None
            };
            (typing, TypingActions { notice, restart_timer: false })
        },
    }
}

/// Keystrokes in a row send "typing" once: after the first, the next one
/// in the same room sends nothing, only restarts the timer.
pub proof fn law_typing_sent_once(typing: bool)
    ensures
        ({
            let first = typing_next(typing, TypingEvent::Typed, true);
            let second = typing_next(first.0, TypingEvent::Typed, true);
            second.1 is None && second.2
        }),
{
}

/// Once the timer runs out the next keystroke sends "typing" again.
pub proof fn law_timer_ends_typing(typing: bool)
    ensures
        ({
            let stopped = typing_next(typing, TypingEvent::TimerFired, true);
            !stopped.0 && stopped.1 == Some(false) && typing_next(stopped.0, TypingEvent::Typed, true).1 == Some(true)
        }),
{
}

} // verus!
