//! Getting bookings from the scheduling service into the bookings table.

use crate::config::{AssociatedRoomConfig, CMIConfig, Config};
use crate::db::{
    delete_bookings, deleted_all, get_bookings_in_timeframe, has_id, in_window, insert_bookings,
    lemma_filter_step, update_bookings, updated_all, BookingTable, DBError,
};
use crate::external::{parse_rfc3339, rfc3339_seconds, unique_ids};
use crate::{Booking, Window};
use vstd::prelude::*;

verus! {

/// The status id under which the scheduling service lists active bookings.
pub const ACTIVE_STATUS_ID: u8 = 2;

/// The answer of the scheduling service to a query for bookings.
#[derive(Debug)]
pub struct CTBookingsResponse {
    pub data: Vec<BookingsData>,
}

/// One booking as the scheduling service describes it.
#[derive(Debug)]
pub struct BookingsData {
    pub base: BookingsDataBase,
    pub calculated: BookingsDataCalculated,
}

#[derive(Debug)]
pub struct BookingsDataBase {
    pub id: i64,
}

/// Start and end of a booking, as RFC 3339 texts.
#[derive(Debug)]
pub struct BookingsDataCalculated {
    pub start_date: String,
    pub end_date: String,
}

/// Asking the scheduling service for bookings failed.
#[derive(Debug)]
pub enum CTApiError {
    CannotGetBookings(reqwest::Error),
    CannotDeserialize(reqwest::Error),
    CannotParseTime(chrono::ParseError),
}

/// Something went wrong while gathering bookings into the table.
#[derive(Debug)]
pub enum GatherError {
    DB(DBError),
    CT(CTApiError),
}

impl From<DBError> for GatherError {
    fn from(value: DBError) -> (r: Self) {
        Self::DB(value)
    }
}

impl vstd::std_specs::convert::FromSpecImpl<DBError> for GatherError {
    open spec fn obeys_from_spec() -> bool {
        true
    }

    open spec fn from_spec(value: DBError) -> Self {
        Self::DB(value)
    }
}

impl From<CTApiError> for GatherError {
    fn from(value: CTApiError) -> (r: Self) {
        Self::CT(value)
    }
}

impl vstd::std_specs::convert::FromSpecImpl<CTApiError> for GatherError {
    open spec fn obeys_from_spec() -> bool {
        true
    }

    open spec fn from_spec(value: CTApiError) -> Self {
        Self::CT(value)
    }
}

/// What to ask the scheduling service for: the active bookings of the given
/// resources that fall into the window.
#[derive(Debug)]
pub struct BookingQuery {
    pub resource_ids: Vec<i64>,
    pub window: Window,
    pub status_id: u8,
}

/// The sequence without every element that occurred before in it.
pub open spec fn first_occurrences(s: Seq<i64>) -> Seq<i64>
    decreases s.len(),
{
    if s.len() == 0 {
        s
    } else {
        let before = first_occurrences(s.drop_last());
        if before.contains(s.last()) {
            before
        } else {
            before.push(s.last())
        }
    }
}

/// `first_occurrences(s)` holds exactly the elements of `s`, each once.
pub proof fn lemma_first_occurrences(s: Seq<i64>)
    ensures
        first_occurrences(s).no_duplicates(),
        forall|x: i64| #[trigger] first_occurrences(s).contains(x) <==> s.contains(x),
    decreases s.len(),
{
    if s.len() > 0 {
        let init = s.drop_last();
        let last = s.last();
        let before = first_occurrences(init);
        let all = first_occurrences(s);
        lemma_first_occurrences(init);
        assert forall|x: i64| #[trigger] all.contains(x) <==> s.contains(x) by {
            assert(before.contains(x) <==> init.contains(x));
            assert(s.contains(x) <==> (init.contains(x) || x == last)) by {
                if s.contains(x) {
                    let i = choose|i: int| 0 <= i < s.len() && s[i] == x;
                    if i < s.len() - 1 {
                        assert(init[i] == x);
                    }
                }
                if init.contains(x) {
                    let i = choose|i: int| 0 <= i < init.len() && init[i] == x;
                    assert(s[i] == x);
                }
                if x == last {
                    assert(s[s.len() - 1] == x);
                }
            }
            if !before.contains(last) {
                assert(all == before.push(last));
                if before.contains(x) {
                    let k = choose|k: int| 0 <= k < before.len() && before[k] == x;
                    assert(all[k] == x);
                }
                if x == last {
                    assert(all[before.len() as int] == x);
                }
                if all.contains(x) {
                    let k = choose|k: int| 0 <= k < all.len() && all[k] == x;
                    if k < before.len() {
                        assert(before[k] == x);
                    }
                }
            }
        }
    }
}

/// The resource id of every room, in order.
pub open spec fn room_ids(rooms: Seq<AssociatedRoomConfig>) -> Seq<i64> {
    rooms.map_values(|r: AssociatedRoomConfig| r.churchtools_id)
}

/// The resource id of every room of every controller, in order.
pub open spec fn all_room_ids(cmis: Seq<CMIConfig>) -> Seq<i64>
    decreases cmis.len(),
{
    if cmis.len() == 0 {
        Seq::empty()
    } else {
        all_room_ids(cmis.drop_last()) + room_ids(cmis.last().rooms@)
    }
}

/// The resource ids that the configuration binds to a room, each once, in
/// the order in which the configuration first names them.
pub fn relevant_resource_ids(config: &Config) -> (ids: Vec<i64>)
    ensures
        ids@ == first_occurrences(all_room_ids(config.cmis@)),
{
    let mut ids: Vec<i64> = Vec::new();
    let mut i: usize = 0;
    while i < config.cmis.len()
        invariant
            i <= config.cmis@.len(),
            ids@ == all_room_ids(config.cmis@.take(i as int)),
        decreases config.cmis@.len() - i,
    {
        let rooms = &config.cmis[i].rooms;
        let ghost before = ids@;
        let mut j: usize = 0;
        while j < rooms.len()
            invariant
                j <= rooms@.len(),
                ids@ == before + room_ids(rooms@.take(j as int)),
            decreases rooms@.len() - j,
        {
            ids.push(rooms[j].churchtools_id);
            proof {
                assert(rooms@.take(j + 1) == rooms@.take(j as int).push(rooms@[j as int]));
                assert(room_ids(rooms@.take(j + 1)) == room_ids(rooms@.take(j as int)).push(
                    rooms@[j as int].churchtools_id,
                ));
            }
            j += 1;
        }
        proof {
            assert(rooms@.take(j as int) == rooms@);
            assert(config.cmis@.take(i + 1).drop_last() == config.cmis@.take(i as int));
        }
        i += 1;
    }
    proof {
        assert(config.cmis@.take(i as int) == config.cmis@);
    }
    unique_ids(ids)
}

/// What a synchronisation pass that starts at `now` asks the scheduling
/// service for: the active bookings, within the next 24 hours, of the
/// resources that the configuration binds to a room.
pub fn booking_query(config: &Config, now: i64) -> (query: BookingQuery)
    ensures
        query.resource_ids@ == first_occurrences(all_room_ids(config.cmis@)),
        query.window == Window::starting_at(now, crate::SYNC_WINDOW_SECONDS),
        query.status_id == ACTIVE_STATUS_ID,
{
    BookingQuery {
        resource_ids: relevant_resource_ids(config),
        window: Window::for_sync(now),
        status_id: ACTIVE_STATUS_ID,
    }
}

/// The booking that the scheduling service describes, where both of its
/// times can be read.
pub open spec fn booking_read(data: BookingsData) -> Option<Booking> {
    match (rfc3339_seconds(data.calculated.start_date@), rfc3339_seconds(data.calculated.end_date@)) {
        (Some(start_time), Some(end_time)) => Some(
            Booking { churchtools_id: data.base.id, start_time, end_time },
        ),
        _ => None,
    }
}

/// The booking of the resource with the times that were read, or the error
/// of the first of the two that could not be read, the start before the end.
pub fn booking_from_times(
    churchtools_id: i64,
    start: Result<i64, chrono::ParseError>,
    end: Result<i64, chrono::ParseError>,
) -> (result: Result<Booking, CTApiError>)
    ensures
        match (start, end) {
            (Ok(start_time), Ok(end_time)) => result == Ok::<_, CTApiError>(
                Booking { churchtools_id, start_time, end_time },
            ),
            (Err(e), _) => result == Err::<Booking, _>(CTApiError::CannotParseTime(e)),
            (Ok(_), Err(e)) => result == Err::<Booking, _>(CTApiError::CannotParseTime(e)),
        },
{
    let start_time = match start {
        Ok(t) => t,
        Err(e) => {
            return Err(CTApiError::CannotParseTime(e));
        },
    };
    let end_time = match end {
        Ok(t) => t,
        Err(e) => {
            return Err(CTApiError::CannotParseTime(e));
        },
    };
    Ok(Booking { churchtools_id, start_time, end_time })
}

/// Reads one booking of the scheduling service's answer.
pub fn read_booking(data: &BookingsData) -> (result: Result<Booking, CTApiError>)
    ensures
        match result {
            Ok(b) => booking_read(*data) == Some(b),
            Err(e) => booking_read(*data) is None && e is CannotParseTime,
        },
{
    let start = parse_rfc3339(data.calculated.start_date.as_str());
    let end = parse_rfc3339(data.calculated.end_date.as_str());
    booking_from_times(data.base.id, start, end)
}

/// Reads the bookings of the scheduling service's answer, in order. Fails
/// where the start or the end of one of them is no RFC 3339 text.
pub fn bookings_from_response(response: &CTBookingsResponse) -> (result: Result<
    Vec<Booking>,
    CTApiError,
>)
    ensures
        result is Ok <==> forall|i: int|
            0 <= i < response.data@.len() ==> (#[trigger] booking_read(response.data@[i])) is Some,
        match result {
            Ok(bookings) => {
                &&& bookings@.len() == response.data@.len()
                &&& forall|i: int|
                    0 <= i < response.data@.len() ==> (#[trigger] booking_read(response.data@[i]))
                        == Some(bookings@[i])
            },
            Err(e) => e is CannotParseTime,
        },
{
    let mut bookings: Vec<Booking> = Vec::new();
    let mut i: usize = 0;
    while i < response.data.len()
        invariant
            i <= response.data@.len(),
            bookings@.len() == i,
            forall|k: int|
                0 <= k < i ==> (#[trigger] booking_read(response.data@[k])) == Some(bookings@[k]),
        decreases response.data@.len() - i,
    {
        match read_booking(&response.data[i]) {
            Ok(b) => {
                bookings.push(b);
            },
            Err(e) => {
                assert(booking_read(response.data@[i as int]) is None);
                return Err(e);
            },
        }
        i += 1;
    }
    Ok(bookings)
}

/// The bookings that intersect the window, in order.
pub fn bookings_in_window(bookings: &Vec<Booking>, window: Window) -> (kept: Vec<Booking>)
    ensures
        kept@ == bookings@.filter(in_window(window)),
{
    let mut kept: Vec<Booking> = Vec::new();
    let mut i: usize = 0;
    assert(bookings@.take(0).filter(in_window(window)) == Seq::<Booking>::empty()) by {
        reveal(Seq::filter);
    }
    while i < bookings.len()
        invariant
            i <= bookings@.len(),
            kept@ == bookings@.take(i as int).filter(in_window(window)),
        decreases bookings@.len() - i,
    {
        proof {
            lemma_filter_step(bookings@, in_window(window), i as int);
        }
        if window.touches(&bookings[i]) {
            kept.push(bookings[i]);
        }
        i += 1;
    }
    assert(bookings@.take(i as int) == bookings@);
    kept
}

/// The bookings of resources of which `known` holds no booking.
pub open spec fn unknown_to(known: Seq<Booking>) -> spec_fn(Booking) -> bool {
    |b: Booking| !has_id(known, b.churchtools_id)
}

/// The bookings of resources of which `known` holds a booking with another
/// start or another end.
pub open spec fn changed_from(known: Seq<Booking>) -> spec_fn(Booking) -> bool {
    |b: Booking|
        exists|i: int|
            0 <= i < known.len() && (#[trigger] known[i]).churchtools_id == b.churchtools_id
                && known[i] != b
}

/// The resource id of every booking, in order.
pub open spec fn ids_of(s: Seq<Booking>) -> Seq<i64> {
    s.map_values(|b: Booking| b.churchtools_id)
}

/// The bookings of the service that the table does not know: to be inserted.
pub open spec fn new_bookings(from_ct: Seq<Booking>, from_db: Seq<Booking>) -> Seq<Booking> {
    from_ct.filter(unknown_to(from_db))
}

/// The resources whose bookings the service no longer lists: to be deleted.
pub open spec fn deprecated_bookings(from_ct: Seq<Booking>, from_db: Seq<Booking>) -> Seq<i64> {
    ids_of(from_db.filter(unknown_to(from_ct)))
}

/// The bookings of the service that the table knows with other times: to be
/// updated.
pub open spec fn changed_bookings(from_ct: Seq<Booking>, from_db: Seq<Booking>) -> Seq<Booking> {
    from_ct.filter(changed_from(from_db))
}

/// What one synchronisation pass does to the table.
#[derive(Debug)]
pub struct SyncPlan {
    /// Bookings to insert.
    pub new_bookings: Vec<Booking>,
    /// Resources whose bookings to delete.
    pub deprecated_bookings: Vec<i64>,
    /// Bookings to write over the row of their resource.
    pub changed_bookings: Vec<Booking>,
}

impl SyncPlan {
    /// Whether the plan leaves the table as it is.
    pub open spec fn is_empty(&self) -> bool {
        &&& self.new_bookings@.len() == 0
        &&& self.deprecated_bookings@.len() == 0
        &&& self.changed_bookings@.len() == 0
    }

    /// Whether the plan leaves the table as it is.
    pub fn changes_nothing(&self) -> (r: bool)
        ensures
            r == self.is_empty(),
    {
        self.new_bookings.len() == 0 && self.deprecated_bookings.len() == 0
            && self.changed_bookings.len() == 0
    }
}

/// Whether one of the bookings is of the resource.
pub fn contains_id(bookings: &Vec<Booking>, id: i64) -> (found: bool)
    ensures
        found == has_id(bookings@, id),
{
    let mut i: usize = 0;
    while i < bookings.len()
        invariant
            i <= bookings@.len(),
            forall|k: int| 0 <= k < i ==> (#[trigger] bookings@[k]).churchtools_id != id,
        decreases bookings@.len() - i,
    {
        if bookings[i].churchtools_id == id {
            return true;
        }
        i += 1;
    }
    false
}

/// Whether `known` holds a booking of the same resource with another start
/// or another end.
pub fn differs_from_known(known: &Vec<Booking>, booking: &Booking) -> (changed: bool)
    ensures
        changed == changed_from(known@)(*booking),
{
    let mut i: usize = 0;
    while i < known.len()
        invariant
            i <= known@.len(),
            forall|k: int|
                0 <= k < i ==> !((#[trigger] known@[k]).churchtools_id == booking.churchtools_id
                    && known@[k] != *booking),
        decreases known@.len() - i,
    {
        if known[i].churchtools_id == booking.churchtools_id && known[i] != *booking {
            return true;
        }
        i += 1;
    }
    false
}

/// Compares the bookings that the service lists for a window with those that
/// the table holds for it: a booking of a resource that the table does not
/// know is new, a resource that the service no longer lists is deprecated,
/// and a booking whose start or end differs from the table's is changed.
/// Bookings that are the same on both sides appear nowhere in the plan.
pub fn plan_sync(bookings_from_ct: &Vec<Booking>, bookings_from_db: &Vec<Booking>) -> (plan:
    SyncPlan)
    ensures
        plan.new_bookings@ == new_bookings(bookings_from_ct@, bookings_from_db@),
        plan.deprecated_bookings@ == deprecated_bookings(bookings_from_ct@, bookings_from_db@),
        plan.changed_bookings@ == changed_bookings(bookings_from_ct@, bookings_from_db@),
{
    let ghost ct = bookings_from_ct@;
    let ghost db = bookings_from_db@;
    let mut new: Vec<Booking> = Vec::new();
    let mut changed: Vec<Booking> = Vec::new();
    let mut i: usize = 0;
    proof {
        reveal(Seq::filter);
        assert(ct.take(0).filter(unknown_to(db)) == Seq::<Booking>::empty());
        assert(ct.take(0).filter(changed_from(db)) == Seq::<Booking>::empty());
    }
    while i < bookings_from_ct.len()
        invariant
            i <= ct.len(),
            ct == bookings_from_ct@,
            db == bookings_from_db@,
            new@ == ct.take(i as int).filter(unknown_to(db)),
            changed@ == ct.take(i as int).filter(changed_from(db)),
        decreases ct.len() - i,
    {
        let b = &bookings_from_ct[i];
        proof {
            lemma_filter_step(ct, unknown_to(db), i as int);
            lemma_filter_step(ct, changed_from(db), i as int);
        }
        if !contains_id(bookings_from_db, b.churchtools_id) {
            new.push(*b);
        }
        if differs_from_known(bookings_from_db, b) {
            changed.push(*b);
        }
        i += 1;
    }
    assert(ct.take(i as int) == ct);
    let mut deprecated: Vec<i64> = Vec::new();
    let mut j: usize = 0;
    proof {
        reveal(Seq::filter);
        assert(ids_of(db.take(0).filter(unknown_to(ct))) == Seq::<i64>::empty());
    }
    while j < bookings_from_db.len()
        invariant
            j <= db.len(),
            ct == bookings_from_ct@,
            db == bookings_from_db@,
            deprecated@ == ids_of(db.take(j as int).filter(unknown_to(ct))),
        decreases db.len() - j,
    {
        let id = bookings_from_db[j].churchtools_id;
        proof {
            lemma_filter_step(db, unknown_to(ct), j as int);
            let kept = db.take(j as int).filter(unknown_to(ct));
            assert(ids_of(kept.push(db[j as int])) == ids_of(kept).push(id));
        }
        if !contains_id(bookings_from_ct, id) {
            deprecated.push(id);
        }
        j += 1;
    }
    assert(db.take(j as int) == db);
    SyncPlan { new_bookings: new, deprecated_bookings: deprecated, changed_bookings: changed }
}

/// The rows of the table after one synchronisation pass over the window
/// with the bookings that the service lists: the new bookings are inserted,
/// then the deprecated resources deleted, then the changed bookings written
/// over their rows, each compared with the rows that intersect the window.
pub open spec fn synced(rows: Seq<Booking>, from_ct: Seq<Booking>, window: Window) -> Seq<Booking> {
    let known = rows.filter(in_window(window));
    updated_all(
        deleted_all(rows + new_bookings(from_ct, known), deprecated_bookings(from_ct, known)),
        changed_bookings(from_ct, known),
    )
}

/// One synchronisation pass over the window: brings the rows of the table
/// that intersect the window in line with the bookings that the service
/// lists for it, and leaves the other rows alone.
pub fn get_bookings_into_db(db: &mut BookingTable, bookings_from_ct: &Vec<Booking>, window: Window)
    ensures
        final(db)@ == synced(old(db)@, bookings_from_ct@, window),
{
    let bookings_from_db = get_bookings_in_timeframe(db, window.start, window.end);
    let plan = plan_sync(bookings_from_ct, &bookings_from_db);
    insert_bookings(db, &plan.new_bookings);
    delete_bookings(db, &plan.deprecated_bookings);
    update_bookings(db, &plan.changed_bookings);
}

/// Where the loop that keeps the table up to date stands.
#[derive(Debug, PartialEq, Eq, Clone, Copy, Structural)]
pub enum GathererState {
    /// A synchronisation pass is running.
    Syncing,
    /// The prune that follows a pass is running.
    Pruning,
    /// The loop waits for its next tick or for shutdown.
    Waiting,
    /// The loop has returned.
    Stopped,
}

/// What the loop that keeps the table up to date has just seen.
#[derive(Debug)]
pub enum GathererEvent {
    /// The synchronisation pass ended.
    SyncDone(Result<(), GatherError>),
    /// The prune ended; on success with the number of rows it removed.
    PruneDone(Result<usize, DBError>),
    /// The time for the next pass has come.
    Tick,
    /// Shutdown was requested.
    ShutdownObserved,
}

/// What the loop that keeps the table up to date does next.
#[derive(Debug, PartialEq, Eq, Clone, Copy, Structural)]
pub enum GathererAction {
    /// Run a synchronisation pass.
    Sync,
    /// Prune the bookings that have ended.
    Prune,
    /// Wait for the next tick or for shutdown.
    Wait,
    /// Return.
    Stop,
}

/// What a loop in `state` is busy with.
pub open spec fn gatherer_pending(state: GathererState) -> GathererAction {
    match state {
        GathererState::Syncing => GathererAction::Sync,
        GathererState::Pruning => GathererAction::Prune,
        GathererState::Waiting => GathererAction::Wait,
        GathererState::Stopped => GathererAction::Stop,
    }
}

/// The loop starts with a synchronisation pass.
pub fn start_gatherer() -> (first: (GathererState, GathererAction))
    ensures
        first == (GathererState::Syncing, GathererAction::Sync),
{
    (GathererState::Syncing, GathererAction::Sync)
}

/// One decision of the loop that keeps the table up to date. A pass is
/// followed by a prune whether it failed or not, and a prune by the wait
/// whether it failed or not: an error ends neither the cycle nor the loop.
/// The loop leaves its wait for the next pass on a tick and returns on
/// shutdown, which it observes nowhere but in its wait. An event that the
/// state does not wait for changes nothing.
pub fn keep_db_up_to_date(state: GathererState, event: &GathererEvent) -> (next: (
    GathererState,
    GathererAction,
))
    ensures
        state == GathererState::Syncing && *event is SyncDone ==> next == (
            GathererState::Pruning,
            GathererAction::Prune,
        ),
        state == GathererState::Pruning && *event is PruneDone ==> next == (
            GathererState::Waiting,
            GathererAction::Wait,
        ),
        state == GathererState::Waiting && *event is Tick ==> next == (
            GathererState::Syncing,
            GathererAction::Sync,
        ),
        state == GathererState::Waiting && *event is ShutdownObserved ==> next == (
            GathererState::Stopped,
            GathererAction::Stop,
        ),
        !(state == GathererState::Syncing && *event is SyncDone) && !(state
            == GathererState::Pruning && *event is PruneDone) && !(state == GathererState::Waiting
            && (*event is Tick || *event is ShutdownObserved)) ==> next == (
            state,
            gatherer_pending(state),
        ),
{
    match (state, event) {
        (GathererState::Syncing, GathererEvent::SyncDone(_)) => (
            GathererState::Pruning,
            GathererAction::Prune,
        ),
        (GathererState::Pruning, GathererEvent::PruneDone(_)) => (
            GathererState::Waiting,
            GathererAction::Wait,
        ),
        (GathererState::Waiting, GathererEvent::Tick) => (
            GathererState::Syncing,
            GathererAction::Sync,
        ),
        (GathererState::Waiting, GathererEvent::ShutdownObserved) => (
            GathererState::Stopped,
            GathererAction::Stop,
        ),
        (GathererState::Syncing, _) => (state, GathererAction::Sync),
        (GathererState::Pruning, _) => (state, GathererAction::Prune),
        (GathererState::Waiting, _) => (state, GathererAction::Wait),
        (GathererState::Stopped, _) => (state, GathererAction::Stop),
    }
}

} // verus!
