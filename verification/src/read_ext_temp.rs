//! Reading the ambient temperature that a controller sends, and forgetting
//! it when no reading has come for too long.

use crate::config::ExtTempConfig;
use crate::external::{coe_readings, decode_datagram};
use crate::shutdown::InShutdown;
use vstd::prelude::*;

verus! {

/// The value of one reading, as far as this crate tells values apart.
#[derive(Debug, PartialEq, Eq, Clone, Copy, Structural)]
pub enum ReadingValue {
    /// A temperature in tenths of a degree Centigrade.
    DegreeCentigradeTenths(i32),
    /// An analogue value of another unit.
    OtherAnalogue,
    /// A digital value.
    Digital,
}

/// One value that a datagram carries, with the node and output it is of.
#[derive(Debug, PartialEq, Eq, Clone, Copy, Structural)]
pub struct Reading {
    pub node: u8,
    pub pdo_index: u8,
    pub value: ReadingValue,
}

/// The temperature that the reading gives, where it is of the expected node
/// and output and is a temperature.
pub open spec fn accepted(reading: Reading, can_id: u8, pdo_index: u8) -> Option<i32> {
    if reading.node == can_id && reading.pdo_index == pdo_index {
        match reading.value {
            ReadingValue::DegreeCentigradeTenths(x) => Some(x),
            _ => None,
        }
    } else {
        None
    }
}

/// The temperature of the first reading that is accepted.
pub open spec fn first_accepted(readings: Seq<Reading>, can_id: u8, pdo_index: u8) -> Option<i32>
    decreases readings.len(),
{
    if readings.len() == 0 {
        None
    } else {
        match accepted(readings[0], can_id, pdo_index) {
            Some(x) => Some(x),
            None => first_accepted(readings.drop_first(), can_id, pdo_index),
        }
    }
}

/// The temperature that a datagram brings: that of its first accepted
/// reading. A datagram that cannot be read brings none.
pub open spec fn temperature_in(datagram: Seq<u8>, can_id: u8, pdo_index: u8) -> Option<i32> {
    match coe_readings(datagram) {
        Some(readings) => first_accepted(readings, can_id, pdo_index),
        None => None,
    }
}

/// The temperature of the first of the readings that is of the expected node
/// and output and is a temperature.
pub fn first_accepted_reading(readings: &Vec<Reading>, can_id: u8, pdo_index: u8) -> (found: Option<
    i32,
>)
    ensures
        found == first_accepted(readings@, can_id, pdo_index),
{
    let mut i: usize = 0;
    assert(readings@.skip(0) == readings@);
    while i < readings.len()
        invariant
            i <= readings@.len(),
            first_accepted(readings@, can_id, pdo_index) == first_accepted(
                readings@.skip(i as int),
                can_id,
                pdo_index,
            ),
        decreases readings@.len() - i,
    {
        let reading = &readings[i];
        proof {
            assert(readings@.skip(i as int)[0] == readings@[i as int]);
            assert(readings@.skip(i as int).drop_first() == readings@.skip(i + 1));
        }
        if reading.node == can_id && reading.pdo_index == pdo_index {
            match reading.value {
                ReadingValue::DegreeCentigradeTenths(x) => {
                    return Some(x);
                },
                _ => {},
            }
        }
        i += 1;
    }
    None
}

/// The temperature that a received datagram brings, if any.
pub fn read_next_ext_temp_packet(datagram: &[u8], can_id: u8, pdo_index: u8) -> (found: Option<i32>)
    ensures
        found == temperature_in(datagram@, can_id, pdo_index),
{
    match decode_datagram(datagram) {
        Some(readings) => first_accepted_reading(&readings, can_id, pdo_index),
        None => None,
    }
}

/// Receiving the ambient temperature failed.
#[derive(Debug)]
pub enum ReadExtTempError {
    Udp(std::io::Error),
}

impl From<std::io::Error> for ReadExtTempError {
    fn from(value: std::io::Error) -> (r: Self) {
        Self::Udp(value)
    }
}

impl vstd::std_specs::convert::FromSpecImpl<std::io::Error> for ReadExtTempError {
    open spec fn obeys_from_spec() -> bool {
        true
    }

    open spec fn from_spec(value: std::io::Error) -> Self {
        Self::Udp(value)
    }
}

/// What ended one wait of the temperature receiver. Exactly one of the three
/// is handled per wait.
#[derive(Debug)]
pub enum ExtTempEvent {
    /// A datagram arrived.
    Datagram(Vec<u8>),
    /// The freshness timer elapsed.
    TimerElapsed,
    /// Shutdown was requested.
    ShutdownObserved,
}

/// The ambient temperature as far as it is known, with its freshness timer.
#[derive(Debug, PartialEq, Eq, Clone, Copy, Structural)]
pub struct ExtTemp {
    /// Node id to expect.
    pub can_id: u8,
    /// Output index to expect.
    pub pdo_index: u8,
    /// Minutes after which a reading is no longer trusted.
    pub timeout: u8,
    /// The temperature in tenths of a degree Centigrade; `None` while unknown.
    pub value: Option<i32>,
    /// The instant at which the freshness timer was last started.
    pub timer_started: i64,
}

impl ExtTemp {
    /// The unknown temperature of the given sensor, the timer started at `now`.
    pub fn new(sensor: &ExtTempConfig, now: i64) -> (state: ExtTemp)
        ensures
            state == (ExtTemp {
                can_id: sensor.can_id,
                pdo_index: sensor.pdo_index,
                timeout: sensor.timeout,
                value: None,
                timer_started: now,
            }),
    {
        ExtTemp {
            can_id: sensor.can_id,
            pdo_index: sensor.pdo_index,
            timeout: sensor.timeout,
            value: None,
            timer_started: now,
        }
    }

    /// Whether the freshness timer has elapsed at `now`: the timeout has
    /// passed since the timer was started.
    pub open spec fn timer_due(&self, now: int) -> bool {
        now - self.timer_started >= 60 * self.timeout
    }

    /// The temperature that holds at `now`: the known one while the timer has
    /// not elapsed, none after that.
    pub open spec fn value_at(&self, now: int) -> Option<i32> {
        if self.timer_due(now) {
            None
        } else {
            self.value
        }
    }

    /// The state after a temperature has been accepted at `now`: the
    /// temperature is known and the timer starts anew.
    pub open spec fn after_reading(&self, x: i32, now: i64) -> ExtTemp {
        ExtTemp { value: Some(x), timer_started: now, ..*self }
    }

    /// The state after the timer has elapsed at `now`: the temperature is
    /// unknown and the timer starts anew. A timer that has not in fact
    /// elapsed changes nothing.
    pub open spec fn after_timer(&self, now: i64) -> ExtTemp {
        if self.timer_due(now as int) {
            ExtTemp { value: None, timer_started: now, ..*self }
        } else {
            *self
        }
    }

    /// The state after `event` has been handled at `now`. A datagram that
    /// brings no accepted temperature changes nothing, nor does shutdown.
    pub open spec fn after(&self, event: ExtTempEvent, now: i64) -> ExtTemp {
        match event {
            ExtTempEvent::Datagram(bytes) => match temperature_in(
                bytes@,
                self.can_id,
                self.pdo_index,
            ) {
                Some(x) => self.after_reading(x, now),
                None => *self,
            },
            ExtTempEvent::TimerElapsed => self.after_timer(now),
            ExtTempEvent::ShutdownObserved => *self,
        }
    }

    /// Whether the freshness timer has elapsed at `now`.
    pub fn is_timer_due(&self, now: i64) -> (due: bool)
        ensures
            due == self.timer_due(now as int),
    {
        now as i128 - self.timer_started as i128 >= 60 * (self.timeout as i128)
    }

    /// The temperature that holds at `now`.
    pub fn current(&self, now: i64) -> (value: Option<i32>)
        ensures
            value == self.value_at(now as int),
    {
        if self.is_timer_due(now) {
            None
        } else {
            self.value
        }
    }

    /// The seconds from `now` until the freshness timer elapses: 0 where it
    /// has elapsed, and the largest number where they are more than that.
    pub open spec fn seconds_left(&self, now: int) -> int {
        let left = 60 * self.timeout - (now - self.timer_started);
        if left <= 0 {
            0
        } else if left > u64::MAX {
            u64::MAX as int
        } else {
            left
        }
    }

    /// The seconds from `now` until the freshness timer elapses.
    pub fn seconds_until_due(&self, now: i64) -> (seconds: u64)
        ensures
            seconds == self.seconds_left(now as int),
            seconds == 0 <==> self.timer_due(now as int),
    {
        let passed: i128 = now as i128 - self.timer_started as i128;
        let timeout: i128 = 60 * (self.timeout as i128);
        if passed >= timeout {
            0
        } else if timeout - passed > u64::MAX as i128 {
            u64::MAX
        } else {
            (timeout - passed) as u64
        }
    }
}

/// Handles what ended one wait of the receiver at `now` and says whether the
/// receiver goes on: it stops on shutdown only. Exactly one of the three
/// effects is applied: a datagram that completed the wait makes the
/// temperature known if it brings an accepted reading, even where the timer
/// is due as well, and the timer is not looked at in that case.
pub fn read_ext_temp(ext_temp: &mut ExtTemp, event: ExtTempEvent, now: i64) -> (go_on: bool)
    ensures
        *final(ext_temp) == old(ext_temp).after(event, now),
        go_on == !(event is ShutdownObserved),
{
    match event {
        ExtTempEvent::Datagram(bytes) => {
            match read_next_ext_temp_packet(bytes.as_slice(), ext_temp.can_id, ext_temp.pdo_index) {
                Some(x) => {
                    ext_temp.value = Some(x);
                    ext_temp.timer_started = now;
                },
                None => {},
            }
            true
        },
        ExtTempEvent::TimerElapsed => {
            if ext_temp.is_timer_due(now) {
                ext_temp.value = None;
                ext_temp.timer_started = now;
            }
            true
        },
        ExtTempEvent::ShutdownObserved => false,
    }
}

/// What the receiver does when its socket cannot be opened: it requests
/// shutdown of the other loops and fails.
pub fn socket_failed(shutdown: &mut InShutdown, cause: std::io::Error) -> (error: ReadExtTempError)
    ensures
        *final(shutdown) == InShutdown::Yes,
        error == ReadExtTempError::Udp(cause),
{
    shutdown.request();
    ReadExtTempError::Udp(cause)
}

/// Staleness. A temperature accepted at `t0` holds at every later instant
/// `t` before the timeout has passed, whether or not the timer is looked at
/// in between, and is unknown at every instant from then on, once the
/// elapsed timer has been handled; read through `value_at`, it is unknown
/// from then on in any case. A reading accepted later starts the same span
/// anew from its own instant.
pub proof fn lemma_staleness(state: ExtTemp, x: i32, t0: i64, t: i64)
    requires
        t0 <= t,
    ensures
        ({
            let known = state.after_reading(x, t0);
            &&& t - t0 < 60 * state.timeout ==> known.after_timer(t) == known
                && known.after_timer(t).value == Some(x) && known.value_at(t as int) == Some(x)
            &&& t - t0 >= 60 * state.timeout ==> known.after_timer(t).value is None
                && known.value_at(t as int) is None
        }),
{
}

/// Only an accepted reading makes the temperature known, and only an elapsed
/// timer makes it unknown: every other event leaves the state as it is.
pub proof fn lemma_other_events_change_nothing(state: ExtTemp, event: ExtTempEvent, now: i64)
    ensures
        match event {
            ExtTempEvent::Datagram(bytes) => temperature_in(bytes@, state.can_id, state.pdo_index)
                is None ==> state.after(event, now) == state,
            ExtTempEvent::TimerElapsed => !state.timer_due(now as int) ==> state.after(event, now)
                == state,
            ExtTempEvent::ShutdownObserved => state.after(event, now) == state,
        },
        state.after(event, now).value is Some && state.value is None ==> event is Datagram,
        state.after(event, now).value is None && state.value is Some ==> event is TimerElapsed
            && state.timer_due(now as int),
{
}

} // verus!
