//! Keeps a local table of room bookings in step with a remote scheduling
//! service and decides, from that table and an ambient temperature reading,
//! which heating outputs have to be switched on.
//!
//! Every instant in this crate is a number of whole seconds since the Unix
//! epoch, in UTC; the bookings table keeps no finer resolution.

use vstd::prelude::*;

pub mod config;
pub mod convergence;
pub mod db;
pub mod external;
pub mod pull_from_ct;
pub mod push_to_ta;
pub mod read_ext_temp;
pub mod shutdown;
pub mod text;

verus! {

/// Length of the window that one synchronisation pass covers: 24 hours.
pub const SYNC_WINDOW_SECONDS: i64 = 86_400;

/// Length of the window that one actuation cycle looks ahead: 30 minutes.
pub const ACTUATION_WINDOW_SECONDS: i64 = 1_800;

/// A single booking for a room.
#[derive(Debug, PartialEq, Eq, Clone, Copy, Structural)]
pub struct Booking {
    /// The id of the booked resource in the scheduling service. It is the
    /// booking's identity: the table holds at most one booking per id.
    pub churchtools_id: i64,
    /// The booking starts at this instant.
    pub start_time: i64,
    /// The booking ends at this instant.
    pub end_time: i64,
}

/// A half-open interval `[start, end)` of instants.
#[derive(Debug, PartialEq, Eq, Clone, Copy, Structural)]
pub struct Window {
    pub start: i64,
    pub end: i64,
}

impl Window {
    /// Whether the booking's interval `[start_time, end_time)` and the window
    /// have an instant in common.
    pub open spec fn intersects(self, b: Booking) -> bool {
        b.start_time < self.end && self.start < b.end_time
    }

    /// The window of the given length that starts at `now`. Its end stops at
    /// the largest or the smallest instant where `now + length` would pass it.
    pub open spec fn starting_at(now: i64, length: i64) -> Window {
        Window {
            start: now,
            end: if now + length > i64::MAX {
                i64::MAX
            } else if now + length < i64::MIN {
                i64::MIN
            } else {
                (now + length) as i64
            },
        }
    }

    /// The window `[now, now + length)`.
    pub fn from_now(now: i64, length: i64) -> (w: Window)
        ensures
            w == Window::starting_at(now, length),
    {
        let end: i128 = now as i128 + length as i128;
        let end: i64 = if end > i64::MAX as i128 {
            i64::MAX
        } else if end < i64::MIN as i128 {
            i64::MIN
        } else {
            end as i64
        };
        Window { start: now, end }
    }

    /// The window that a synchronisation pass at `now` covers: `[now, now + 24h)`.
    pub fn for_sync(now: i64) -> (w: Window)
        ensures
            w == Window::starting_at(now, SYNC_WINDOW_SECONDS),
    {
        Window::from_now(now, SYNC_WINDOW_SECONDS)
    }

    /// The window that an actuation cycle at `now` covers: `[now, now + 30min)`.
    pub fn for_actuation(now: i64) -> (w: Window)
        ensures
            w == Window::starting_at(now, ACTUATION_WINDOW_SECONDS),
    {
        Window::from_now(now, ACTUATION_WINDOW_SECONDS)
    }

    /// Whether the booking intersects the window.
    pub fn touches(&self, booking: &Booking) -> (r: bool)
        ensures
            r == self.intersects(*booking),
    {
        booking.start_time < self.end && self.start < booking.end_time
    }
}

} // verus!
