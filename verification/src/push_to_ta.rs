//! Pushing the state of the bookings table to the controllers.

use crate::config::{AssociatedRoomConfig, CMIConfig, Config};
use crate::db::DBError;
use crate::external::{coe_datagrams, encode_outputs};
use crate::Booking;
use vstd::prelude::*;

verus! {

/// The port on which every controller listens.
pub const COE_PORT: u16 = 5442;

/// The most bytes that a datagram of the protocol holds.
pub const MAX_DATAGRAM_BYTES: usize = 252;

/// All the things that can go wrong while emitting to the controllers.
#[derive(Debug)]
pub enum COEEmitError {
    /// Getting the bookings from the table failed.
    Db(DBError),
    /// Sending a datagram failed.
    Udp(std::io::Error),
}

impl From<DBError> for COEEmitError {
    fn from(value: DBError) -> (r: Self) {
        Self::Db(value)
    }
}

impl vstd::std_specs::convert::FromSpecImpl<DBError> for COEEmitError {
    open spec fn obeys_from_spec() -> bool {
        true
    }

    open spec fn from_spec(value: DBError) -> Self {
        Self::Db(value)
    }
}

impl From<std::io::Error> for COEEmitError {
    fn from(value: std::io::Error) -> (r: Self) {
        Self::Udp(value)
    }
}

impl vstd::std_specs::convert::FromSpecImpl<std::io::Error> for COEEmitError {
    open spec fn obeys_from_spec() -> bool {
        true
    }

    open spec fn from_spec(value: std::io::Error) -> Self {
        Self::Udp(value)
    }
}

/// What one output of a controller is set to.
#[derive(Debug, PartialEq, Eq, Clone, Copy, Structural)]
pub struct OutputState {
    /// The output on the controller, zero-based as on the wire.
    pub pdo_index: u8,
    /// Whether the room on this output is heated.
    pub on: bool,
}

/// The datagrams to send to one controller.
#[derive(Debug)]
pub struct Transmission {
    pub host: String,
    pub port: u16,
    pub datagrams: Vec<Vec<u8>>,
}

/// Whether the booking is one of the room and `now` lies in the interval
/// `[heating_start, heating_stop)` that the room's schedule makes of it.
pub open spec fn heats_for(
    room: AssociatedRoomConfig,
    booking: Booking,
    now: i64,
    ext_temp: Option<i32>,
) -> bool {
    &&& booking.churchtools_id == room.churchtools_id
    &&& room.heating_start(booking.start_time as int, ext_temp) <= now
    &&& now < room.heating_stop(booking.end_time as int, ext_temp)
}

/// Whether the room is heated at `now`: at least one booking asks for it.
pub open spec fn room_on(
    room: AssociatedRoomConfig,
    bookings: Seq<Booking>,
    now: i64,
    ext_temp: Option<i32>,
) -> bool {
    exists|i: int| 0 <= i < bookings.len() && heats_for(room, #[trigger] bookings[i], now, ext_temp)
}

/// What each room's output is set to at `now`, in the order of the rooms.
pub open spec fn outputs_of(
    rooms: Seq<AssociatedRoomConfig>,
    bookings: Seq<Booking>,
    now: i64,
    ext_temp: Option<i32>,
) -> Seq<OutputState> {
    Seq::new(
        rooms.len(),
        |j: int|
            OutputState {
                pdo_index: rooms[j].pdo_index,
                on: room_on(rooms[j], bookings, now, ext_temp),
            },
    )
}

/// Whether the booking asks for the room to be heated at `now`.
pub fn booking_heats_room(
    room: &AssociatedRoomConfig,
    booking: &Booking,
    now: i64,
    ext_temp: Option<i32>,
) -> (on: bool)
    ensures
        on == heats_for(*room, *booking, now, ext_temp),
{
    if booking.churchtools_id != room.churchtools_id {
        return false;
    }
    let lead: i128 = 60 * (room.preheat_time(ext_temp) as i128);
    let lag: i128 = 60 * (room.preshutdown_time(ext_temp) as i128);
    let new_start: i128 = booking.start_time as i128 - lead;
    let new_stop: i128 = booking.end_time as i128 - lag;
    new_start <= now as i128 && (now as i128) < new_stop
}

/// Whether the room is heated at `now`.
pub fn room_is_on(
    room: &AssociatedRoomConfig,
    bookings: &Vec<Booking>,
    now: i64,
    ext_temp: Option<i32>,
) -> (on: bool)
    ensures
        on == room_on(*room, bookings@, now, ext_temp),
{
    let mut i: usize = 0;
    while i < bookings.len()
        invariant
            i <= bookings@.len(),
            forall|k: int| 0 <= k < i ==> !heats_for(*room, #[trigger] bookings@[k], now, ext_temp),
        decreases bookings@.len() - i,
    {
        if booking_heats_room(room, &bookings[i], now, ext_temp) {
            return true;
        }
        i += 1;
    }
    false
}

/// What the outputs of one controller are set to at `now`.
pub fn room_outputs(
    cmi: &CMIConfig,
    bookings: &Vec<Booking>,
    now: i64,
    ext_temp: Option<i32>,
) -> (outputs: Vec<OutputState>)
    ensures
        outputs@ == outputs_of(cmi.rooms@, bookings@, now, ext_temp),
{
    let mut outputs: Vec<OutputState> = Vec::new();
    let mut j: usize = 0;
    while j < cmi.rooms.len()
        invariant
            j <= cmi.rooms@.len(),
            outputs@.len() == j,
            forall|k: int|
                0 <= k < j ==> #[trigger] outputs@[k] == outputs_of(
                    cmi.rooms@,
                    bookings@,
                    now,
                    ext_temp,
                )[k],
        decreases cmi.rooms@.len() - j,
    {
        let room = &cmi.rooms[j];
        outputs.push(
            OutputState { pdo_index: room.pdo_index, on: room_is_on(room, bookings, now, ext_temp) },
        );
        j += 1;
    }
    assert(outputs@ =~= outputs_of(cmi.rooms@, bookings@, now, ext_temp));
    outputs
}

/// Whether `t` is what has to be sent to the controller at `now`: to its
/// host, on the port of the protocol, the datagrams that carry the state of
/// each of its rooms' outputs, none of them longer than the protocol allows.
pub open spec fn transmission_for(
    cmi: CMIConfig,
    bookings: Seq<Booking>,
    now: i64,
    ext_temp: Option<i32>,
    t: Transmission,
) -> bool {
    &&& t.host@ == cmi.host@
    &&& t.port == COE_PORT
    &&& t.datagrams.deep_view() == coe_datagrams(
        cmi.our_virtual_can_id,
        outputs_of(cmi.rooms@, bookings, now, ext_temp),
    )
    &&& forall|i: int|
        0 <= i < t.datagrams@.len() ==> (#[trigger] t.datagrams@[i])@.len() <= MAX_DATAGRAM_BYTES
}

/// What one actuation cycle at `now` sends: for every controller, in the
/// order of the configuration, the state of all its assigned rooms. A room is
/// on if and only if at least one of `bookings` is a booking of that room
/// whose adapted interval holds `now`.
pub fn emit_coe(config: &Config, bookings: &Vec<Booking>, now: i64, ext_temp: Option<i32>) -> (plan:
    Vec<Transmission>)
    ensures
        plan@.len() == config.cmis@.len(),
        forall|i: int|
            0 <= i < config.cmis@.len() ==> transmission_for(
                #[trigger] config.cmis@[i],
                bookings@,
                now,
                ext_temp,
                plan@[i],
            ),
{
    let mut plan: Vec<Transmission> = Vec::new();
    let mut i: usize = 0;
    while i < config.cmis.len()
        invariant
            i <= config.cmis@.len(),
            plan@.len() == i,
            forall|k: int|
                0 <= k < i ==> transmission_for(
                    #[trigger] config.cmis@[k],
                    bookings@,
                    now,
                    ext_temp,
                    plan@[k],
                ),
        decreases config.cmis@.len() - i,
    {
        let cmi = &config.cmis[i];
        let outputs = room_outputs(cmi, bookings, now, ext_temp);
        let datagrams = encode_outputs(cmi.our_virtual_can_id, &outputs);
        plan.push(Transmission { host: cmi.host.clone(), port: COE_PORT, datagrams });
        i += 1;
    }
    plan
}

/// Where the loop that pushes to the controllers stands.
#[derive(Debug, PartialEq, Eq, Clone, Copy, Structural)]
pub enum EmitterState {
    /// An actuation cycle is running.
    Emitting,
    /// The loop waits for its next tick or for shutdown.
    Waiting,
    /// The loop has returned.
    Stopped,
}

/// What the loop that pushes to the controllers has just seen.
#[derive(Debug)]
pub enum EmitterEvent {
    /// The actuation cycle ended.
    EmitDone(Result<(), COEEmitError>),
    /// The time for the next cycle has come.
    Tick,
    /// Shutdown was requested.
    ShutdownObserved,
}

/// What the loop that pushes to the controllers does next.
#[derive(Debug, PartialEq, Eq, Clone, Copy, Structural)]
pub enum EmitterAction {
    /// Run an actuation cycle.
    Emit,
    /// Wait for the next tick or for shutdown.
    Wait,
    /// Return.
    Stop,
}

/// What a loop in `state` is busy with.
pub open spec fn emitter_pending(state: EmitterState) -> EmitterAction {
    match state {
        EmitterState::Emitting => EmitterAction::Emit,
        EmitterState::Waiting => EmitterAction::Wait,
        EmitterState::Stopped => EmitterAction::Stop,
    }
}

/// The loop starts with an actuation cycle.
pub fn start_emitter() -> (first: (EmitterState, EmitterAction))
    ensures
        first == (EmitterState::Emitting, EmitterAction::Emit),
{
    (EmitterState::Emitting, EmitterAction::Emit)
}

/// One decision of the loop that pushes to the controllers. A cycle is
/// followed by the wait whether it failed or not: an error does not end the
/// loop. The loop leaves its wait for the next cycle on a tick and returns on
/// shutdown, which it observes nowhere but in its wait. An event that the
/// state does not wait for changes nothing.
pub fn push_coe(state: EmitterState, event: &EmitterEvent) -> (next: (EmitterState, EmitterAction))
    ensures
        state == EmitterState::Emitting && *event is EmitDone ==> next == (
            EmitterState::Waiting,
            EmitterAction::Wait,
        ),
        state == EmitterState::Waiting && *event is Tick ==> next == (
            EmitterState::Emitting,
            EmitterAction::Emit,
        ),
        state == EmitterState::Waiting && *event is ShutdownObserved ==> next == (
            EmitterState::Stopped,
            EmitterAction::Stop,
        ),
        !(state == EmitterState::Emitting && *event is EmitDone) && !(state == EmitterState::Waiting
            && (*event is Tick || *event is ShutdownObserved)) ==> next == (
            state,
            emitter_pending(state),
        ),
{
    match (state, event) {
        (EmitterState::Emitting, EmitterEvent::EmitDone(_)) => (
            EmitterState::Waiting,
            EmitterAction::Wait,
        ),
        (EmitterState::Waiting, EmitterEvent::Tick) => (
            EmitterState::Emitting,
            EmitterAction::Emit,
        ),
        (EmitterState::Waiting, EmitterEvent::ShutdownObserved) => (
            EmitterState::Stopped,
            EmitterAction::Stop,
        ),
        (EmitterState::Emitting, _) => (state, EmitterAction::Emit),
        (EmitterState::Waiting, _) => (state, EmitterAction::Wait),
        (EmitterState::Stopped, _) => (state, EmitterAction::Stop),
    }
}

} // verus!
