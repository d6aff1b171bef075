//! The decision core of the interactive loop.
//!
//! The loop itself — waiting on terminal input, sampling, drawing — runs
//! in the unverified shell on one control thread. Every decision it
//! takes, though, is a function here: how long to wait, what a key
//! means, what a queue message does to the state, and when to redraw.
//! Termination is a latch: once the exit flag is set, nothing in this
//! module clears it, so the shell's teardown path is always reached.

use vstd::prelude::*;

use crate::screen::{ScreenState, StateMessage};

verus! {

/// A discrete input event, as the navigation vocabulary sees it:
/// a printable key, the escape key, or anything else.
#[derive(Debug, Clone, Copy, PartialEq, Eq, Structural)]
pub enum InputEvent {
    Char(char),
    Esc,
    Other,
}

/// The loop's own state: the selected view, the redraw hint, and the
/// exit latch.
#[derive(Debug, Clone, Copy, PartialEq, Eq, Structural)]
pub struct LoopCore {
    pub current_screen: ScreenState,
    pub should_exit: bool,
    pub screen_changed: bool,
    pub tick_rate_ms: u64,
}

/// The screen a digit key selects, by one-based index.
pub open spec fn screen_for_digit(c: char) -> Option<ScreenState> {
    if c == '1' {
        Some(ScreenState::All)
    } else if c == '2' {
        Some(ScreenState::Cpu)
    } else if c == '3' {
        Some(ScreenState::Gpu)
    } else if c == '4' {
        Some(ScreenState::Memory)
    } else if c == '5' {
        Some(ScreenState::Power)
    } else if c == '6' {
        Some(ScreenState::Temperature)
    } else if c == '7' {
        Some(ScreenState::Control)
    } else if c == '8' {
        Some(ScreenState::Info)
    } else {
        None
    }
}

/// Is this event the quit request?
pub open spec fn is_quit(e: InputEvent) -> bool {
    e == InputEvent::Char('q') || e == InputEvent::Char('Q') || e == InputEvent::Esc
}

impl LoopCore {
    /// A fresh loop: overview screen, nothing pending, running.
    pub fn new(tick_rate_ms: u64) -> (r: LoopCore)
        ensures
            r.current_screen == ScreenState::All,
            !r.should_exit,
            !r.screen_changed,
            r.tick_rate_ms == tick_rate_ms,
    {
        LoopCore {
            current_screen: ScreenState::All,
            should_exit: false,
            screen_changed: false,
            tick_rate_ms,
        }
    }

    /// Interpret one input event: the quit key latches exit, a digit
    /// key selects its screen and asks for a redraw, anything else is
    /// a no-op — never an error.
    pub fn handle_input(&mut self, e: InputEvent)
        ensures
            final(self).tick_rate_ms == old(self).tick_rate_ms,
            old(self).should_exit ==> final(self).should_exit,
            is_quit(e) ==> final(self).should_exit
                && final(self).current_screen == old(self).current_screen
                && final(self).screen_changed == old(self).screen_changed,
            !is_quit(e) && (e matches InputEvent::Char(c) && screen_for_digit(c) is Some)
                ==> final(self).current_screen == screen_for_digit(e->Char_0)->Some_0
                && final(self).screen_changed
                && final(self).should_exit == old(self).should_exit,
            !is_quit(e) && !(e matches InputEvent::Char(c) && screen_for_digit(c) is Some)
                ==> *final(self) == *old(self),
    {
        match e {
            InputEvent::Esc => {
                self.should_exit = true;
            }
            InputEvent::Char(c) => {
                if c == 'q' || c == 'Q' {
                    self.should_exit = true;
                } else {
                    let target = match c {
                        '1' => Some(ScreenState::All),
                        '2' => Some(ScreenState::Cpu),
                        '3' => Some(ScreenState::Gpu),
                        '4' => Some(ScreenState::Memory),
                        '5' => Some(ScreenState::Power),
                        '6' => Some(ScreenState::Temperature),
                        '7' => Some(ScreenState::Control),
                        '8' => Some(ScreenState::Info),
                        _ => None,
                    };
                    match target {
                        Some(s) => {
                            self.current_screen = s;
                            self.screen_changed = true;
                        }
                        None => {}
                    }
                }
            }
            InputEvent::Other => {}
        }
    }

    /// Select a screen by its one-based index, as the navigation
    /// vocabulary numbers them: an out-of-range index is a no-op.
    pub fn select_screen(&mut self, index: usize)
        ensures
            final(self).tick_rate_ms == old(self).tick_rate_ms,
            final(self).should_exit == old(self).should_exit,
            1 <= index <= 8 ==> final(self).current_screen.index_spec() == index
                && final(self).screen_changed,
            !(1 <= index <= 8) ==> *final(self) == *old(self),
    {
        if 1 <= index && index <= 8 {
            let s = match ScreenState::from_index(index - 1) {
                Some(s) => s,
                None => ScreenState::All,
            };
            self.current_screen = s;
            self.screen_changed = true;
        }
    }

    /// Dispatch one queue message. A terminate or error message latches
    /// exit; a screen selection switches the view; an update request
    /// changes no state here (the shell redraws on it).
    pub fn process_message(&mut self, msg: &StateMessage)
        ensures
            final(self).tick_rate_ms == old(self).tick_rate_ms,
            old(self).should_exit ==> final(self).should_exit,
            msg is Exit || msg is Error ==> final(self).should_exit,
            msg matches StateMessage::SetScreen(s) ==> final(self).current_screen == s
                && final(self).should_exit == old(self).should_exit,
            msg is Update ==> *final(self) == *old(self),
    {
        match msg {
            StateMessage::SetScreen(s) => {
                self.current_screen = *s;
            }
            StateMessage::Update => {}
            StateMessage::Exit => {
                self.should_exit = true;
            }
            StateMessage::Error(_) => {
                self.should_exit = true;
            }
        }
    }

    /// How long the loop may block on input: the remainder of the tick
    /// interval, floored at zero so it never waits past the deadline.
    pub fn remaining_timeout(&self, elapsed_ms: u64) -> (r: u64)
        ensures
            r == if elapsed_ms < self.tick_rate_ms {
                self.tick_rate_ms - elapsed_ms
            } else {
                0int
            },
    {
        if elapsed_ms < self.tick_rate_ms {
            self.tick_rate_ms - elapsed_ms
        } else {
            0
        }
    }

    /// Whether this cycle performs a tick: the interval has elapsed, or
    /// a navigation event changed the screen since the last draw.
    pub fn should_tick(&self, elapsed_ms: u64) -> (r: bool)
        ensures
            r == (self.screen_changed || elapsed_ms >= self.tick_rate_ms),
    {
        self.screen_changed || elapsed_ms >= self.tick_rate_ms
    }

    /// Mark the pending redraw as done.
    pub fn clear_screen_changed(&mut self)
        ensures
            *final(self) == (LoopCore { screen_changed: false, ..*old(self) }),
            old(self).should_exit ==> final(self).should_exit,
    {
        self.screen_changed = false;
    }
}

/// Teardown reachability: after any sequence of dispatched messages that
/// contains a terminate or an error, the loop is in the exited state —
/// the flag is a latch that no dispatch clears.
pub proof fn lemma_exit_is_latched(before: LoopCore, after: LoopCore, mid: LoopCore)
    requires
        before.should_exit ==> mid.should_exit,
        mid.should_exit ==> after.should_exit,
    ensures
        before.should_exit ==> after.should_exit,
{
}

} // verus!
