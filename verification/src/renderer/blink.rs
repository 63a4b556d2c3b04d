//! Cursor blink state, from Neovim's blinkwait/blinkon/blinkoff. Time is in milliseconds on
//! the app's monotonic clock.

use vstd::prelude::*;

use crate::editor::cursor::{Cursor, CursorShape};
use crate::editor::{clone_cursor, CursorView};

verus! {

#[derive(Debug, PartialEq, Eq, Clone, Copy, Structural)]
pub enum BlinkState {
    Waiting,
    On,
    Off,
}

/// What the app should do after updating the blink: redraw now, wait until a deadline, or
/// nothing (static cursor).
#[derive(Debug, PartialEq, Eq, Clone, Copy, Structural)]
pub enum BlinkAction {
    Wait,
    Deadline(u64),
    Immediately,
}

pub struct BlinkStatus {
    state: BlinkState,
    transition_time: u64,
    current: Option<Cursor>,
}

/// The blink-relevant part of a cursor.
pub struct BlinkCursor {
    pub grid_position: (u64, u64),
    pub parent_grid: u64,
    pub shape: CursorShape,
    pub blinkwait: Option<u64>,
    pub blinkon: Option<u64>,
    pub blinkoff: Option<u64>,
}

pub open spec fn blink_cursor(c: CursorView) -> BlinkCursor {
    BlinkCursor {
        grid_position: c.grid_position,
        parent_grid: c.parent_grid,
        shape: c.shape,
        blinkwait: c.blinkwait,
        blinkon: c.blinkon,
        blinkoff: c.blinkoff,
    }
}

pub open spec fn or_zero(o: Option<u64>) -> u64 {
    match o {
        Some(x) => x,
        None => 0,
    }
}

/// How long the phase `state` lasts for cursor `c`.
pub open spec fn phase_delay(c: Option<BlinkCursor>, state: BlinkState) -> u64 {
    match c {
        Some(c) => match state {
            BlinkState::Waiting => or_zero(c.blinkwait),
            BlinkState::Off => or_zero(c.blinkoff),
            BlinkState::On => or_zero(c.blinkon),
        },
        None => 0,
    }
}

pub open spec fn is_static(c: BlinkCursor) -> bool {
    c.blinkoff is None || c.blinkoff == Some(0u64) || c.blinkon is None || c.blinkon == Some(0u64)
}

/// The blink as values: phase, when it ends, and the cursor it is for.
pub struct BlinkView {
    pub state: BlinkState,
    pub transition_time: u64,
    pub current: Option<BlinkCursor>,
}

/// One update at time `now` with the latest cursor: a new cursor (any change of place, grid,
/// shape or timing) restarts the cycle (waiting when it has a blinkwait, else on); a static
/// cursor just waits; a phase that has ended moves on (waiting -> on -> off -> on) and asks for
/// a redraw now; otherwise the app waits until the phase ends.
pub open spec fn spec_update(s: BlinkView, now: u64, c: BlinkCursor) -> (BlinkView, BlinkAction) {
    let changed = match s.current {
        Some(old) => old != c,
        None => true,
    };
    let s1 = if changed {
        let state = if c.blinkwait matches Some(w) && w > 0 { BlinkState::Waiting } else { BlinkState::On };
        BlinkView { state, transition_time: (now + phase_delay(Some(c), state)) as u64, current: Some(c) }
    } else {
        s
    };
    let cur = s1.current.unwrap();
    if is_static(cur) {
        (BlinkView { state: BlinkState::Waiting, ..s1 }, BlinkAction::Wait)
    } else if s1.transition_time <= now {
        let state = match s1.state {
            BlinkState::Waiting => BlinkState::On,
            BlinkState::On => BlinkState::Off,
            BlinkState::Off => BlinkState::On,
        };
        let t = s1.transition_time + phase_delay(s1.current, state);
        let t2 = if t <= now { now + phase_delay(s1.current, state) } else { t };
        (BlinkView { state, transition_time: t2 as u64, ..s1 }, BlinkAction::Immediately)
    } else {
        (s1, BlinkAction::Deadline(s1.transition_time))
    }
}

impl BlinkStatus {
    pub closed spec fn spec_view(&self) -> BlinkView {
        BlinkView {
            state: self.state,
            transition_time: self.transition_time,
            current: match self.current {
                Some(c) => Some(blink_cursor(c@)),
                None => None,
            },
        }
    }

    /// Waiting, with no cursor yet, at time `now`.
    pub fn new(now: u64) -> (b: BlinkStatus)
        ensures
            b.spec_view() == (BlinkView { state: BlinkState::Waiting, transition_time: now, current: None }),
    {
        BlinkStatus { state: BlinkState::Waiting, transition_time: now, current: None }
    }

    fn delay(&self) -> (ms: u64)
        ensures
            ms == phase_delay(self.spec_view().current, self.spec_view().state),
    {
        match (&self.current, self.state) {
            (Some(c), BlinkState::Waiting) => match c.blinkwait {
                Some(x) => x,
                None => 0,
            },
            (Some(c), BlinkState::Off) => match c.blinkoff {
                Some(x) => x,
                None => 0,
            },
            (Some(c), BlinkState::On) => match c.blinkon {
                Some(x) => x,
                None => 0,
            },
            (None, _) => 0,
        }
    }

    /// Update with the cursor from the latest frame (see `spec_update`).
    pub fn update(&mut self, cursor: &Cursor, now: u64) -> (a: BlinkAction)
        requires
            now + or_zero(cursor.blinkwait) + or_zero(cursor.blinkon) + or_zero(cursor.blinkoff) <= u64::MAX,
        ensures
            (final(self).spec_view(), a) == spec_update(old(self).spec_view(), now, blink_cursor(cursor@)),
    {
        let changed = match &self.current {
            Some(c) => c.grid_position.0 != cursor.grid_position.0 || c.grid_position.1 != cursor.grid_position.1
                || c.parent_grid != cursor.parent_grid || c.blinkwait != cursor.blinkwait || c.blinkon != cursor.blinkon
                || c.blinkoff != cursor.blinkoff || c.shape != cursor.shape,
            None => true,
        };
        if changed {
            self.current = Some(clone_cursor(cursor));
            self.state = match cursor.blinkwait {
                Some(w) => if w > 0 {
                    BlinkState::Waiting
                } else {
                    BlinkState::On
                },
                None => BlinkState::On,
            };
            let d = self.delay();
            self.transition_time = now + d;
        }
        let stat = match &self.current {
            Some(c) => c.is_static(),
            None => true,
        };
        if stat {
            self.state = BlinkState::Waiting;
            return BlinkAction::Wait;
        }
        if self.transition_time <= now {
            self.state = match self.state {
                BlinkState::Waiting => BlinkState::On,
                BlinkState::On => BlinkState::Off,
                BlinkState::Off => BlinkState::On,
            };
            let d = self.delay();
            let t = self.transition_time + d;
            self.transition_time = if t <= now { now + d } else { t };
            return BlinkAction::Immediately;
        }
        BlinkAction::Deadline(self.transition_time)
    }

    pub fn visible(&self) -> (b: bool)
        ensures
            b == (self.spec_view().state != BlinkState::Off),
    {
        self.state != BlinkState::Off
    }
}


/// A cursor whose on or off phase is missing or zero never blinks: every update leaves it
/// shown and asks for no redraw.
pub proof fn law_static_cursor_stays_shown(s: BlinkView, now: u64, c: BlinkCursor)
    requires
        is_static(c),
    ensures
        spec_update(s, now, c).1 == BlinkAction::Wait,
        spec_update(s, now, c).0.state != BlinkState::Off,
{
}

/// A blinking cursor alternates: once its phase is over, an update turns it off if it was
/// on and on if it was off, and asks for a redraw now.
pub proof fn law_blink_alternates(s: BlinkView, now: u64, c: BlinkCursor)
    requires
        s.current == Some(c),
        !is_static(c),
        s.transition_time <= now,
        now + or_zero(c.blinkwait) + or_zero(c.blinkon) + or_zero(c.blinkoff) <= u64::MAX,
    ensures
        spec_update(s, now, c).1 == BlinkAction::Immediately,
        s.state == BlinkState::On ==> spec_update(s, now, c).0.state == BlinkState::Off,
        s.state != BlinkState::On ==> spec_update(s, now, c).0.state == BlinkState::On,
        now < spec_update(s, now, c).0.transition_time || phase_delay(Some(c), spec_update(s, now, c).0.state) == 0,
{
}


/// Can `update` take `cursor` at `now` (its `requires`): does `now` plus the cursor's blink
/// times stay a `u64`?
pub fn update_fits(cursor: &Cursor, now: u64) -> (b: bool)
    ensures
        b == (now + or_zero(cursor.blinkwait) + or_zero(cursor.blinkon) + or_zero(cursor.blinkoff) <= u64::MAX),
{
    let w = match cursor.blinkwait { Some(x) => x, None => 0 } as u128;
    let on = match cursor.blinkon { Some(x) => x, None => 0 } as u128;
    let off = match cursor.blinkoff { Some(x) => x, None => 0 } as u128;
    now as u128 + w + on + off <= u64::MAX as u128
}

} // verus!
