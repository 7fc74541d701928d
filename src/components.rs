//! The inline progress display shown while a clone runs in the background:
//! a spinner, and the rules that end the display.

use vstd::prelude::*;

verus! {

/// Messages folded into the inline display's state.
#[derive(Debug)]
pub enum Msg {
    Quit,
    Tick,
    Success,
    Failure(String),
}

/// Keys that the inline display reacts to.
#[derive(Debug)]
pub enum InlineKey {
    Esc,
    Char(char),
    Other,
}

/// The number of frames of the spinner animation.
pub const SPINNER_FRAMES: usize = 10;

/// Milliseconds between two spinner frames.
pub const SPINNER_INTERVAL_MS: u64 = 83;

/// The spinner's animation state; time is given in milliseconds.
#[derive(Debug)]
pub struct SpinnerState {
    pub last_event: u64,
    pub interval: u64,
    pub frame: usize,
}

impl SpinnerState {
    /// A spinner at its first frame, started at time `now`.
    pub fn starting_at(now: u64) -> (r: SpinnerState)
        ensures
            r.last_event == now,
            r.interval == SPINNER_INTERVAL_MS,
            r.frame == 0,
    {
        SpinnerState { last_event: now, interval: SPINNER_INTERVAL_MS, frame: 0 }
    }

    /// Moves to the next frame where an interval has passed since the last move.
    pub fn update(&mut self, now: u64)
        ensures
            final(self).interval == old(self).interval,
            if now >= old(self).last_event && now - old(self).last_event >= old(self).interval {
                &&& final(self).last_event == now
                &&& final(self).frame == if old(self).frame == usize::MAX {
                    0
                } else {
                    (old(self).frame + 1) as usize
                }
            } else {
                &&& final(self).last_event == old(self).last_event
                &&& final(self).frame == old(self).frame
            },
    {
        if now >= self.last_event && now - self.last_event >= self.interval {
            self.last_event = now;
            self.next_state();
        }
    }

    /// Advances one frame, wrapping around at the top of the counter.
    pub fn next_state(&mut self)
        ensures
            final(self).last_event == old(self).last_event,
            final(self).interval == old(self).interval,
            final(self).frame == if old(self).frame == usize::MAX {
                0
            } else {
                (old(self).frame + 1) as usize
            },
    {
        self.frame = self.frame.wrapping_add(1);
    }

    /// The frame of the animation to draw.
    pub fn frame_index(&self) -> (r: usize)
        ensures
            r == self.frame % SPINNER_FRAMES,
            r < SPINNER_FRAMES,
    {
        self.frame % SPINNER_FRAMES
    }
}

/// A heading with a spinner, shown until a background command ends.
pub struct InlineCommand {
    pub spinner: SpinnerState,
    pub heading: String,
}

impl InlineCommand {
    pub fn new(heading: String, now: u64) -> (r: InlineCommand)
        ensures
            r.heading@ == heading@,
            r.spinner.frame == 0,
            r.spinner.last_event == now,
    {
        InlineCommand { spinner: SpinnerState::starting_at(now), heading }
    }

    /// The message a key gives: escape and `c` quit.
    pub fn handle_key_event(&self, key: &InlineKey) -> (r: Option<Msg>)
        ensures
            match key {
                InlineKey::Esc => r matches Some(Msg::Quit),
                InlineKey::Char(c) => if *c == 'c' {
                    r matches Some(Msg::Quit)
                } else {
                    r is None
                },
                InlineKey::Other => r is None,
            },
    {
        match key {
            InlineKey::Esc => Some(Msg::Quit),
            InlineKey::Char(c) => if *c == 'c' {
                Some(Msg::Quit)
            } else {
                None
            },
            InlineKey::Other => None,
        }
    }

    /// Folds a message into the state at time `now`; true where the display
    /// ends. The background command's success or failure, and quitting, end
    /// it; a tick advances the spinner.
    pub fn update_state(&mut self, msg: &Msg, now: u64) -> (r: bool)
        ensures
            r == !(msg is Tick),
            final(self).heading == old(self).heading,
            msg is Tick ==> final(self).spinner.frame == if now >= old(self).spinner.last_event
                && now - old(self).spinner.last_event >= old(self).spinner.interval {
                if old(self).spinner.frame == usize::MAX {
                    0
                } else {
                    (old(self).spinner.frame + 1) as usize
                }
            } else {
                old(self).spinner.frame
            },
            !(msg is Tick) ==> final(self).spinner == old(self).spinner,
    {
        match msg {
            Msg::Tick => {
                self.spinner.update(now);
                false
            },
            _ => true,
        }
    }
}

} // verus!
