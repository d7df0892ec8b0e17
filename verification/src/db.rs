//! The bookings table: the errors of the engine that keeps it, and what each
//! statement does to its rows.
//!
//! `BookingTable` holds the rows in memory. It states, and the functions here
//! prove, what the reconciler and the emitter may expect of the table; the
//! engine that persists the rows stays outside this crate.

use crate::{Booking, Window};
use vstd::prelude::*;

verus! {

/// A statement on the bookings table failed in the engine.
#[derive(Debug)]
pub enum DBError {
    CannotSelectBookings(sqlx::Error),
    CannotInsertBooking(sqlx::Error),
    CannotDeleteBooking(sqlx::Error),
    CannotUpdateBooking(sqlx::Error),
}

/// The rows of the bookings table, in the order in which they were inserted.
#[derive(Debug)]
pub struct BookingTable {
    pub rows: Vec<Booking>,
}

impl View for BookingTable {
    type V = Seq<Booking>;

    open spec fn view(&self) -> Seq<Booking> {
        self.rows@
    }
}

/// Whether no two of the bookings have the same resource id.
pub open spec fn distinct_ids(s: Seq<Booking>) -> bool {
    forall|i: int, j: int|
        0 <= i < j < s.len() ==> (#[trigger] s[i]).churchtools_id != (#[trigger] s[j]).churchtools_id
}

/// Whether one of the bookings has the resource id.
pub open spec fn has_id(s: Seq<Booking>, id: i64) -> bool {
    exists|i: int| 0 <= i < s.len() && (#[trigger] s[i]).churchtools_id == id
}

/// The bookings that intersect the window.
pub open spec fn in_window(w: Window) -> spec_fn(Booking) -> bool {
    |b: Booking| w.intersects(b)
}

/// The bookings of every resource but the one with the id.
pub open spec fn other_than(id: i64) -> spec_fn(Booking) -> bool {
    |b: Booking| b.churchtools_id != id
}

/// The bookings that have not ended before `now`.
pub open spec fn not_ended(now: i64) -> spec_fn(Booking) -> bool {
    |b: Booking| b.end_time >= now
}

/// Puts `booking` in the place of a booking of the same resource.
pub open spec fn replaced_by(booking: Booking) -> spec_fn(Booking) -> Booking {
    |b: Booking|
        if b.churchtools_id == booking.churchtools_id {
            booking
        } else {
            b
        }
}

/// The rows after the bookings of each of the resources were deleted, one
/// resource after the other.
pub open spec fn deleted_all(rows: Seq<Booking>, ids: Seq<i64>) -> Seq<Booking>
    decreases ids.len(),
{
    if ids.len() == 0 {
        rows
    } else {
        deleted_all(rows, ids.drop_last()).filter(other_than(ids.last()))
    }
}

/// The rows after each of the bookings was written over the rows of its
/// resource, one booking after the other.
pub open spec fn updated_all(rows: Seq<Booking>, bookings: Seq<Booking>) -> Seq<Booking>
    decreases bookings.len(),
{
    if bookings.len() == 0 {
        rows
    } else {
        updated_all(rows, bookings.drop_last()).map_values(replaced_by(bookings.last()))
    }
}

/// What becomes of `row` when each of the bookings is written over the rows
/// of its resource: the last of the bookings of the row's resource, or the
/// row itself where there is none.
pub open spec fn latest_for(bookings: Seq<Booking>, row: Booking) -> Booking
    decreases bookings.len(),
{
    if bookings.len() == 0 {
        row
    } else if bookings.last().churchtools_id == row.churchtools_id {
        bookings.last()
    } else {
        latest_for(bookings.drop_last(), row)
    }
}

/// One more element of `s` is either added to what the filter kept or left out.
pub proof fn lemma_filter_step<A>(s: Seq<A>, p: spec_fn(A) -> bool, i: int)
    requires
        0 <= i < s.len(),
    ensures
        s.take(i + 1).filter(p) == if p(s[i]) {
            s.take(i).filter(p).push(s[i])
        } else {
            s.take(i).filter(p)
        },
{
    reveal(Seq::filter);
    assert(s.take(i + 1).drop_last() == s.take(i));
    assert(s.take(i + 1).last() == s[i]);
}

/// A filter keeps exactly the elements that satisfy it.
pub proof fn lemma_filter_members<A>(s: Seq<A>, p: spec_fn(A) -> bool)
    ensures
        forall|x: A| #[trigger] s.filter(p).contains(x) <==> s.contains(x) && p(x),
{
    assert forall|x: A| #[trigger] s.filter(p).contains(x) <==> s.contains(x) && p(x) by {
        if s.filter(p).contains(x) {
            s.lemma_filter_contains_rev(p, x);
            let k = choose|k: int| 0 <= k < s.filter(p).len() && s.filter(p)[k] == x;
            s.lemma_filter_pred(p, k);
        }
        if s.contains(x) && p(x) {
            let i = choose|i: int| 0 <= i < s.len() && s[i] == x;
            s.lemma_filter_contains(p, i);
        }
    }
}

/// All rows of the table.
pub fn get_all_bookings(db: &BookingTable) -> (bookings: Vec<Booking>)
    ensures
        bookings@ == db@,
{
    let mut bookings: Vec<Booking> = Vec::new();
    let mut i: usize = 0;
    while i < db.rows.len()
        invariant
            i <= db.rows@.len(),
            bookings@ == db.rows@.take(i as int),
        decreases db.rows@.len() - i,
    {
        bookings.push(db.rows[i]);
        assert(db.rows@.take(i + 1) == db.rows@.take(i as int).push(db.rows@[i as int]));
        i += 1;
    }
    assert(db.rows@.take(i as int) == db.rows@);
    bookings
}

/// The rows that intersect the interval `[start, end)`, in the order of the
/// table.
pub fn get_bookings_in_timeframe(db: &BookingTable, start: i64, end: i64) -> (bookings: Vec<Booking>)
    ensures
        bookings@ == db@.filter(in_window(Window { start, end })),
{
    let window = Window { start, end };
    let mut bookings: Vec<Booking> = Vec::new();
    let mut i: usize = 0;
    assert(db.rows@.take(0).filter(in_window(window)) == Seq::<Booking>::empty()) by {
        reveal(Seq::filter);
    }
    while i < db.rows.len()
        invariant
            i <= db.rows@.len(),
            bookings@ == db.rows@.take(i as int).filter(in_window(window)),
        decreases db.rows@.len() - i,
    {
        proof {
            lemma_filter_step(db.rows@, in_window(window), i as int);
        }
        if window.touches(&db.rows[i]) {
            bookings.push(db.rows[i]);
        }
        i += 1;
    }
    assert(db.rows@.take(i as int) == db.rows@);
    bookings
}

/// Inserts a booking as the last row of the table.
pub fn insert_booking(db: &mut BookingTable, booking: &Booking)
    ensures
        final(db)@ == old(db)@.push(*booking),
{
    db.rows.push(*booking);
}

/// Inserts the bookings, in order, as the last rows of the table.
pub fn insert_bookings(db: &mut BookingTable, bookings: &Vec<Booking>)
    ensures
        final(db)@ == old(db)@ + bookings@,
{
    let mut i: usize = 0;
    assert(bookings@.take(0) == Seq::<Booking>::empty());
    while i < bookings.len()
        invariant
            i <= bookings@.len(),
            db@ == old(db)@ + bookings@.take(i as int),
        decreases bookings@.len() - i,
    {
        insert_booking(db, &bookings[i]);
        assert(bookings@.take(i + 1) == bookings@.take(i as int).push(bookings@[i as int]));
        i += 1;
    }
    assert(bookings@.take(i as int) == bookings@);
}

/// Deletes every row of the resource with the id.
pub fn delete_booking(db: &mut BookingTable, booking_id: i64)
    ensures
        final(db)@ == old(db)@.filter(other_than(booking_id)),
{
    let mut kept: Vec<Booking> = Vec::new();
    let mut i: usize = 0;
    assert(db.rows@.take(0).filter(other_than(booking_id)) == Seq::<Booking>::empty()) by {
        reveal(Seq::filter);
    }
    while i < db.rows.len()
        invariant
            i <= db.rows@.len(),
            db@ == old(db)@,
            kept@ == db.rows@.take(i as int).filter(other_than(booking_id)),
        decreases db.rows@.len() - i,
    {
        proof {
            lemma_filter_step(db.rows@, other_than(booking_id), i as int);
        }
        if db.rows[i].churchtools_id != booking_id {
            kept.push(db.rows[i]);
        }
        i += 1;
    }
    assert(db.rows@.take(i as int) == db.rows@);
    db.rows = kept;
}

/// Deletes every row of each of the resources, one resource after the other.
pub fn delete_bookings(db: &mut BookingTable, bookings: &Vec<i64>)
    ensures
        final(db)@ == deleted_all(old(db)@, bookings@),
{
    let mut i: usize = 0;
    while i < bookings.len()
        invariant
            i <= bookings@.len(),
            db@ == deleted_all(old(db)@, bookings@.take(i as int)),
        decreases bookings@.len() - i,
    {
        delete_booking(db, bookings[i]);
        assert(bookings@.take(i + 1).drop_last() == bookings@.take(i as int));
        i += 1;
    }
    assert(bookings@.take(i as int) == bookings@);
}

/// Writes the booking over every row of its resource. A booking of a
/// resource without a row changes nothing.
pub fn update_booking(db: &mut BookingTable, booking: &Booking)
    ensures
        final(db)@ == old(db)@.map_values(replaced_by(*booking)),
{
    let mut i: usize = 0;
    while i < db.rows.len()
        invariant
            i <= db.rows@.len(),
            db@.len() == old(db)@.len(),
            forall|k: int|
                0 <= k < i ==> #[trigger] db@[k] == replaced_by(*booking)(old(db)@[k]),
            forall|k: int| i <= k < db@.len() ==> #[trigger] db@[k] == old(db)@[k],
        decreases db.rows@.len() - i,
    {
        if db.rows[i].churchtools_id == booking.churchtools_id {
            db.rows.set(i, *booking);
        }
        i += 1;
    }
    assert(db@ =~= old(db)@.map_values(replaced_by(*booking)));
}

/// Writes each of the bookings over the rows of its resource, one booking
/// after the other.
pub fn update_bookings(db: &mut BookingTable, bookings: &Vec<Booking>)
    ensures
        final(db)@ == updated_all(old(db)@, bookings@),
{
    let mut i: usize = 0;
    while i < bookings.len()
        invariant
            i <= bookings@.len(),
            db@ == updated_all(old(db)@, bookings@.take(i as int)),
        decreases bookings@.len() - i,
    {
        update_booking(db, &bookings[i]);
        assert(bookings@.take(i + 1).drop_last() == bookings@.take(i as int));
        i += 1;
    }
    assert(bookings@.take(i as int) == bookings@);
}

/// Deletes every row whose booking ended before `now` and returns how many
/// rows that were.
pub fn prune_old_bookings(db: &mut BookingTable, now: i64) -> (removed: usize)
    ensures
        final(db)@ == old(db)@.filter(not_ended(now)),
        removed == old(db)@.len() - final(db)@.len(),
{
    let mut kept: Vec<Booking> = Vec::new();
    let mut i: usize = 0;
    assert(db.rows@.take(0).filter(not_ended(now)) == Seq::<Booking>::empty()) by {
        reveal(Seq::filter);
    }
    while i < db.rows.len()
        invariant
            i <= db.rows@.len(),
            db@ == old(db)@,
            kept@ == db.rows@.take(i as int).filter(not_ended(now)),
            kept@.len() <= i,
        decreases db.rows@.len() - i,
    {
        proof {
            lemma_filter_step(db.rows@, not_ended(now), i as int);
        }
        if db.rows[i].end_time >= now {
            kept.push(db.rows[i]);
        }
        i += 1;
    }
    assert(db.rows@.take(i as int) == db.rows@);
    let removed: usize = db.rows.len() - kept.len();
    db.rows = kept;
    removed
}

/// Whether no two of the bookings are of the same resource.
pub fn has_distinct_ids(bookings: &Vec<Booking>) -> (distinct: bool)
    ensures
        distinct == distinct_ids(bookings@),
{
    let mut j: usize = 0;
    while j < bookings.len()
        invariant
            j <= bookings@.len(),
            forall|a: int, b: int|
                0 <= a < b < j ==> (#[trigger] bookings@[a]).churchtools_id != (
                #[trigger] bookings@[b]).churchtools_id,
        decreases bookings@.len() - j,
    {
        let mut i: usize = 0;
        while i < j
            invariant
                i <= j < bookings@.len(),
                forall|a: int|
                    0 <= a < i ==> (#[trigger] bookings@[a]).churchtools_id != bookings@[j as int].churchtools_id,
            decreases j - i,
        {
            if bookings[i].churchtools_id == bookings[j].churchtools_id {
                return false;
            }
            i += 1;
        }
        j += 1;
    }
    true
}

} // verus!
