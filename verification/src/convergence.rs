//! What a synchronisation pass and a prune achieve on the bookings table.

use crate::db::{
    deleted_all, distinct_ids, has_id, in_window, latest_for, lemma_filter_members, not_ended,
    other_than, replaced_by, updated_all,
};
use crate::pull_from_ct::{
    changed_bookings, changed_from, deprecated_bookings, ids_of, new_bookings, synced, unknown_to,
};
use crate::{Booking, Window};
use vstd::prelude::*;

verus! {

/// Two bookings of one resource among bookings with distinct ids are the
/// same booking.
pub proof fn lemma_one_booking_per_id(s: Seq<Booking>, a: Booking, b: Booking)
    requires
        distinct_ids(s),
        s.contains(a),
        s.contains(b),
        a.churchtools_id == b.churchtools_id,
    ensures
        a == b,
{
    let i = choose|i: int| 0 <= i < s.len() && s[i] == a;
    let j = choose|j: int| 0 <= j < s.len() && s[j] == b;
    if i < j {
        assert(s[i].churchtools_id != s[j].churchtools_id);
    } else if j < i {
        assert(s[j].churchtools_id != s[i].churchtools_id);
    }
}

/// A resource has a booking among `s` exactly if `s` holds a booking with
/// its id.
pub proof fn lemma_has_id(s: Seq<Booking>, id: i64)
    ensures
        has_id(s, id) <==> exists|b: Booking| #[trigger] s.contains(b) && b.churchtools_id == id,
        ids_of(s).contains(id) <==> has_id(s, id),
{
    if has_id(s, id) {
        let i = choose|i: int| 0 <= i < s.len() && (#[trigger] s[i]).churchtools_id == id;
        assert(s.contains(s[i]));
        assert(ids_of(s)[i] == id);
    }
    if exists|b: Booking| #[trigger] s.contains(b) && b.churchtools_id == id {
        let b = choose|b: Booking| #[trigger] s.contains(b) && b.churchtools_id == id;
        let i = choose|i: int| 0 <= i < s.len() && s[i] == b;
        assert(s[i].churchtools_id == id);
    }
    if ids_of(s).contains(id) {
        let i = choose|i: int| 0 <= i < ids_of(s).len() && ids_of(s)[i] == id;
        assert(s[i].churchtools_id == id);
    }
}

/// What is in one of two sequences is in both put together, and nothing else.
pub proof fn lemma_concat_members(a: Seq<Booking>, b: Seq<Booking>, x: Booking)
    ensures
        (a + b).contains(x) <==> a.contains(x) || b.contains(x),
{
    if a.contains(x) {
        let i = choose|i: int| 0 <= i < a.len() && a[i] == x;
        assert((a + b)[i] == x);
    }
    if b.contains(x) {
        let i = choose|i: int| 0 <= i < b.len() && b[i] == x;
        assert((a + b)[a.len() + i] == x);
    }
    if (a + b).contains(x) {
        let i = choose|i: int| 0 <= i < (a + b).len() && (a + b)[i] == x;
        if i < a.len() {
            assert(a[i] == x);
        } else {
            assert(b[i - a.len()] == x);
        }
    }
}

/// Deleting resources one after the other leaves exactly the rows of the
/// other resources.
pub proof fn lemma_deleted_all_members(rows: Seq<Booking>, ids: Seq<i64>)
    ensures
        forall|x: Booking| #[trigger]
            deleted_all(rows, ids).contains(x) <==> rows.contains(x) && !ids.contains(
                x.churchtools_id,
            ),
    decreases ids.len(),
{
    if ids.len() > 0 {
        let init = ids.drop_last();
        let last = ids.last();
        lemma_deleted_all_members(rows, init);
        lemma_filter_members(deleted_all(rows, init), other_than(last));
        assert forall|x: Booking| #[trigger]
            deleted_all(rows, ids).contains(x) <==> rows.contains(x) && !ids.contains(
                x.churchtools_id,
            ) by {
            let id = x.churchtools_id;
            assert(deleted_all(rows, init).contains(x) <==> rows.contains(x) && !init.contains(id));
            assert(ids.contains(id) <==> init.contains(id) || id == last) by {
                if ids.contains(id) {
                    let i = choose|i: int| 0 <= i < ids.len() && ids[i] == id;
                    if i < ids.len() - 1 {
                        assert(init[i] == id);
                    }
                }
                if init.contains(id) {
                    let i = choose|i: int| 0 <= i < init.len() && init[i] == id;
                    assert(ids[i] == id);
                }
                if id == last {
                    assert(ids[ids.len() - 1] == id);
                }
            }
        }
    }
}

/// Writing bookings over the rows of their resources changes each row on its
/// own, and moves none.
pub proof fn lemma_updated_all_rows(rows: Seq<Booking>, bookings: Seq<Booking>)
    ensures
        updated_all(rows, bookings).len() == rows.len(),
        forall|k: int|
            0 <= k < rows.len() ==> #[trigger] updated_all(rows, bookings)[k] == latest_for(
                bookings,
                rows[k],
            ),
    decreases bookings.len(),
{
    if bookings.len() > 0 {
        lemma_updated_all_rows(rows, bookings.drop_last());
        assert forall|k: int| 0 <= k < rows.len() implies #[trigger] updated_all(rows, bookings)[k]
            == latest_for(bookings, rows[k]) by {
            let before = updated_all(rows, bookings.drop_last())[k];
            assert(before == latest_for(bookings.drop_last(), rows[k]));
            lemma_latest_for(bookings.drop_last(), rows[k]);
            assert(updated_all(rows, bookings)[k] == replaced_by(bookings.last())(before));
        }
    }
}

/// What is written over a row is a booking of the row's resource; a row of
/// a resource that none of the bookings is of stays as it is.
pub proof fn lemma_latest_for(bookings: Seq<Booking>, row: Booking)
    ensures
        latest_for(bookings, row).churchtools_id == row.churchtools_id,
        has_id(bookings, row.churchtools_id) ==> bookings.contains(latest_for(bookings, row)),
        !has_id(bookings, row.churchtools_id) ==> latest_for(bookings, row) == row,
    decreases bookings.len(),
{
    if bookings.len() > 0 {
        let init = bookings.drop_last();
        let last = bookings.last();
        lemma_latest_for(init, row);
        if last.churchtools_id == row.churchtools_id {
            assert(bookings[bookings.len() - 1] == last);
        } else {
            if has_id(bookings, row.churchtools_id) {
                let i = choose|i: int|
                    0 <= i < bookings.len() && (#[trigger] bookings[i]).churchtools_id
                        == row.churchtools_id;
                assert(init[i].churchtools_id == row.churchtools_id);
                let k = choose|k: int| 0 <= k < init.len() && init[k] == latest_for(init, row);
                assert(bookings[k] == latest_for(init, row));
            } else {
                if has_id(init, row.churchtools_id) {
                    let i = choose|i: int|
                        0 <= i < init.len() && (#[trigger] init[i]).churchtools_id
                            == row.churchtools_id;
                    assert(bookings[i].churchtools_id == row.churchtools_id);
                }
            }
        }
    }
}

/// Two lists of bookings with distinct ids that hold the same bookings are
/// equally long.
pub proof fn lemma_same_members_same_length(a: Seq<Booking>, b: Seq<Booking>)
    requires
        distinct_ids(a),
        distinct_ids(b),
    ensures
        (forall|x: Booking| #[trigger] a.contains(x) <==> b.contains(x)) ==> a.len() == b.len(),
{
    if forall|x: Booking| #[trigger] a.contains(x) <==> b.contains(x) {
        assert(a.no_duplicates()) by {
            assert forall|i: int, j: int| 0 <= i < a.len() && 0 <= j < a.len() && i != j implies a[i]
                != a[j] by {
                if i < j {
                    assert(a[i].churchtools_id != a[j].churchtools_id);
                } else {
                    assert(a[j].churchtools_id != a[i].churchtools_id);
                }
            }
        }
        assert(b.no_duplicates()) by {
            assert forall|i: int, j: int| 0 <= i < b.len() && 0 <= j < b.len() && i != j implies b[i]
                != b[j] by {
                if i < j {
                    assert(b[i].churchtools_id != b[j].churchtools_id);
                } else {
                    assert(b[j].churchtools_id != b[i].churchtools_id);
                }
            }
        }
        a.unique_seq_to_set();
        b.unique_seq_to_set();
        assert(a.to_set() =~= b.to_set());
    }
}

/// Whether every booking intersects the window.
pub open spec fn all_in_window(s: Seq<Booking>, window: Window) -> bool {
    forall|i: int| 0 <= i < s.len() ==> window.intersects(#[trigger] s[i])
}

/// Convergence. Where the table holds at most one row per resource, and the
/// service lists at most one booking per resource, all of them within the
/// window, then after one synchronisation pass the rows of the table that
/// intersect the window are exactly the bookings that the service lists:
/// the same resources with the same start and end.
pub proof fn lemma_sync_converges(rows: Seq<Booking>, from_ct: Seq<Booking>, window: Window)
    requires
        distinct_ids(rows),
        distinct_ids(from_ct),
        all_in_window(from_ct, window),
    ensures
        forall|b: Booking| #[trigger]
            synced(rows, from_ct, window).filter(in_window(window)).contains(b) <==> from_ct.contains(
                b,
            ),
        distinct_ids(synced(rows, from_ct, window).filter(in_window(window))),
        synced(rows, from_ct, window).filter(in_window(window)).len() == from_ct.len(),
{
    lemma_sync_keeps_window_keyed(rows, from_ct, window);
    lemma_same_members_same_length(
        synced(rows, from_ct, window).filter(in_window(window)),
        from_ct,
    );
    let known = rows.filter(in_window(window));
    let new = new_bookings(from_ct, known);
    let deprecated = deprecated_bookings(from_ct, known);
    let changed = changed_bookings(from_ct, known);
    let inserted = rows + new;
    let deleted = deleted_all(inserted, deprecated);
    let updated = updated_all(deleted, changed);
    let result = updated.filter(in_window(window));
    lemma_filter_members(rows, in_window(window));
    lemma_filter_members(from_ct, unknown_to(known));
    lemma_filter_members(from_ct, changed_from(known));
    lemma_filter_members(known, unknown_to(from_ct));
    lemma_filter_members(updated, in_window(window));
    lemma_deleted_all_members(inserted, deprecated);
    lemma_updated_all_rows(deleted, changed);
    assert forall|b: Booking| #[trigger] result.contains(b) <==> from_ct.contains(b) by {
        if result.contains(b) {
            assert(updated.contains(b) && window.intersects(b));
            let k = choose|k: int| 0 <= k < updated.len() && updated[k] == b;
            let row = deleted[k];
            assert(b == latest_for(changed, row));
            assert(deleted.contains(row));
            lemma_latest_for(changed, row);
            if has_id(changed, row.churchtools_id) {
                assert(changed.contains(b));
                assert(from_ct.contains(b));
            } else {
                assert(b == row);
                lemma_concat_members(rows, new, row);
                if rows.contains(row) {
                    assert(known.contains(row));
                    lemma_has_id(known, row.churchtools_id);
                    lemma_has_id(known.filter(unknown_to(from_ct)), row.churchtools_id);
                    if !has_id(from_ct, row.churchtools_id) {
                        assert(known.filter(unknown_to(from_ct)).contains(row));
                        assert(deprecated.contains(row.churchtools_id));
                        assert(false);
                    }
                    let i = choose|i: int|
                        0 <= i < from_ct.len() && (#[trigger] from_ct[i]).churchtools_id
                            == row.churchtools_id;
                    let listed = from_ct[i];
                    assert(from_ct.contains(listed));
                    if listed != row {
                        let m = choose|m: int| 0 <= m < known.len() && known[m] == row;
                        assert(known[m].churchtools_id == listed.churchtools_id && known[m]
                            != listed);
                        assert(changed_from(known)(listed));
                        assert(changed.contains(listed));
                        lemma_has_id(changed, row.churchtools_id);
                        assert(false);
                    }
                } else {
                    assert(new.contains(row));
                }
            }
        }
        if from_ct.contains(b) {
            let i = choose|i: int| 0 <= i < from_ct.len() && from_ct[i] == b;
            assert(window.intersects(from_ct[i]));
            if !has_id(known, b.churchtools_id) {
                assert(new.contains(b));
                lemma_concat_members(rows, new, b);
                lemma_has_id(known.filter(unknown_to(from_ct)), b.churchtools_id);
                if deprecated.contains(b.churchtools_id) {
                    let d = choose|d: Booking| #[trigger]
                        known.filter(unknown_to(from_ct)).contains(d) && d.churchtools_id
                            == b.churchtools_id;
                    assert(known.contains(d));
                    lemma_has_id(known, b.churchtools_id);
                    assert(false);
                }
                assert(deleted.contains(b));
                let k = choose|k: int| 0 <= k < deleted.len() && deleted[k] == b;
                lemma_latest_for(changed, b);
                if has_id(changed, b.churchtools_id) {
                    let c = latest_for(changed, b);
                    assert(changed.contains(c));
                    assert(changed_from(known)(c));
                    assert(false);
                }
                assert(updated[k] == b);
                assert(updated.contains(b));
            } else {
                let m = choose|m: int|
                    0 <= m < known.len() && (#[trigger] known[m]).churchtools_id
                        == b.churchtools_id;
                let row = known[m];
                assert(known.contains(row));
                assert(rows.contains(row));
                lemma_concat_members(rows, new, row);
                lemma_has_id(known.filter(unknown_to(from_ct)), row.churchtools_id);
                if deprecated.contains(row.churchtools_id) {
                    let d = choose|d: Booking| #[trigger]
                        known.filter(unknown_to(from_ct)).contains(d) && d.churchtools_id
                            == row.churchtools_id;
                    assert(!has_id(from_ct, d.churchtools_id));
                    assert(from_ct[i].churchtools_id == d.churchtools_id);
                    assert(false);
                }
                assert(deleted.contains(row));
                let k = choose|k: int| 0 <= k < deleted.len() && deleted[k] == row;
                lemma_latest_for(changed, row);
                let c = latest_for(changed, row);
                if has_id(changed, row.churchtools_id) {
                    assert(changed.contains(c));
                    assert(from_ct.contains(c));
                    lemma_one_booking_per_id(from_ct, c, b);
                } else {
                    if row != b {
                        assert(changed_from(known)(b));
                        assert(changed.contains(b));
                        lemma_has_id(changed, row.churchtools_id);
                        assert(false);
                    }
                }
                assert(updated[k] == b);
                assert(updated.contains(b));
            }
        }
    }
}

/// Whether `r` holds of every two of the bookings, taken in their order.
pub open spec fn pairwise(s: Seq<Booking>, r: spec_fn(Booking, Booking) -> bool) -> bool {
    forall|i: int, j: int| 0 <= i < j < s.len() ==> r(#[trigger] s[i], #[trigger] s[j])
}

/// Two bookings that both satisfy `counts` are of different resources.
pub open spec fn apart_if(counts: spec_fn(Booking) -> bool) -> spec_fn(Booking, Booking) -> bool {
    |a: Booking, b: Booking| counts(a) && counts(b) ==> a.churchtools_id != b.churchtools_id
}

/// Every booking.
pub open spec fn always() -> spec_fn(Booking) -> bool {
    |b: Booking| true
}

/// The rows that intersect the window once the bookings are written over
/// the rows of their resources.
pub open spec fn lands_in(changed: Seq<Booking>, window: Window) -> spec_fn(Booking) -> bool {
    |row: Booking| window.intersects(latest_for(changed, row))
}

/// A filter keeps what holds of every two elements taken in their order.
pub proof fn lemma_filter_keeps_pairs(
    s: Seq<Booking>,
    p: spec_fn(Booking) -> bool,
    r: spec_fn(Booking, Booking) -> bool,
)
    requires
        pairwise(s, r),
    ensures
        pairwise(s.filter(p), r),
    decreases s.len(),
{
    reveal(Seq::filter);
    if s.len() > 0 {
        let init = s.drop_last();
        let last = s.last();
        let kept = init.filter(p);
        let all = s.filter(p);
        assert(pairwise(init, r)) by {
            assert forall|i: int, j: int| 0 <= i < j < init.len() implies r(
                #[trigger] init[i],
                #[trigger] init[j],
            ) by {
                assert(r(s[i], s[j]));
            }
        }
        lemma_filter_keeps_pairs(init, p, r);
        lemma_filter_members(init, p);
        assert forall|i: int, j: int| 0 <= i < j < all.len() implies r(
            #[trigger] all[i],
            #[trigger] all[j],
        ) by {
            if j < kept.len() {
                assert(r(kept[i], kept[j]));
            } else {
                assert(all == kept.push(last));
                assert(kept.contains(kept[i]));
                let k = choose|k: int| 0 <= k < init.len() && init[k] == kept[i];
                assert(r(s[k], s[s.len() - 1]));
            }
        }
    }
}

/// Deleting resources keeps what holds of every two rows taken in their
/// order.
pub proof fn lemma_deleted_all_keeps_pairs(
    rows: Seq<Booking>,
    ids: Seq<i64>,
    r: spec_fn(Booking, Booking) -> bool,
)
    requires
        pairwise(rows, r),
    ensures
        pairwise(deleted_all(rows, ids), r),
    decreases ids.len(),
{
    if ids.len() > 0 {
        lemma_deleted_all_keeps_pairs(rows, ids.drop_last(), r);
        lemma_filter_keeps_pairs(deleted_all(rows, ids.drop_last()), other_than(ids.last()), r);
    }
}

/// Bookings with distinct ids are those of which every two are of different
/// resources.
pub proof fn lemma_distinct_ids_pairwise(s: Seq<Booking>)
    ensures
        distinct_ids(s) <==> pairwise(s, apart_if(always())),
{
    if distinct_ids(s) {
        assert forall|i: int, j: int| 0 <= i < j < s.len() implies apart_if(always())(
            #[trigger] s[i],
            #[trigger] s[j],
        ) by {}
    }
    if pairwise(s, apart_if(always())) {
        assert forall|i: int, j: int| 0 <= i < j < s.len() implies (#[trigger] s[i]).churchtools_id
            != (#[trigger] s[j]).churchtools_id by {
            assert(apart_if(always())(s[i], s[j]));
        }
    }
}

/// After a synchronisation pass the rows of the table that intersect the
/// window hold at most one booking per resource, where the table held at
/// most one row per resource and the service lists at most one booking per
/// resource.
pub proof fn lemma_sync_keeps_window_keyed(rows: Seq<Booking>, from_ct: Seq<Booking>, window: Window)
    requires
        distinct_ids(rows),
        distinct_ids(from_ct),
    ensures
        distinct_ids(synced(rows, from_ct, window).filter(in_window(window))),
{
    let known = rows.filter(in_window(window));
    let new = new_bookings(from_ct, known);
    let deprecated = deprecated_bookings(from_ct, known);
    let changed = changed_bookings(from_ct, known);
    let inserted = rows + new;
    let deleted = deleted_all(inserted, deprecated);
    let updated = updated_all(deleted, changed);
    let result = updated.filter(in_window(window));
    let r = apart_if(lands_in(changed, window));
    lemma_filter_members(rows, in_window(window));
    lemma_filter_members(from_ct, unknown_to(known));
    lemma_filter_members(from_ct, changed_from(known));
    lemma_distinct_ids_pairwise(from_ct);
    lemma_filter_keeps_pairs(from_ct, unknown_to(known), apart_if(always()));
    lemma_distinct_ids_pairwise(new);
    assert forall|i: int, j: int| 0 <= i < j < inserted.len() implies r(
        #[trigger] inserted[i],
        #[trigger] inserted[j],
    ) by {
        let a = inserted[i];
        let b = inserted[j];
        if j < rows.len() {
            assert(rows[i].churchtools_id != rows[j].churchtools_id);
        } else if i >= rows.len() {
            assert(new[i - rows.len()].churchtools_id != new[j - rows.len()].churchtools_id);
        } else {
            assert(a == rows[i] && b == new[j - rows.len()]);
            if a.churchtools_id == b.churchtools_id && lands_in(changed, window)(a) {
                assert(new.contains(b));
                assert(!has_id(known, b.churchtools_id));
                assert(rows.contains(a));
                lemma_latest_for(changed, a);
                if has_id(changed, a.churchtools_id) {
                    let c = latest_for(changed, a);
                    assert(changed.contains(c));
                    assert(changed_from(known)(c));
                    assert(false);
                }
                assert(known.contains(a));
                lemma_has_id(known, a.churchtools_id);
                assert(false);
            }
        }
    }
    lemma_deleted_all_keeps_pairs(inserted, deprecated, r);
    lemma_updated_all_rows(deleted, changed);
    assert forall|i: int, j: int| 0 <= i < j < updated.len() implies apart_if(in_window(window))(
        #[trigger] updated[i],
        #[trigger] updated[j],
    ) by {
        lemma_latest_for(changed, deleted[i]);
        lemma_latest_for(changed, deleted[j]);
        assert(r(deleted[i], deleted[j]));
    }
    lemma_filter_keeps_pairs(updated, in_window(window), apart_if(in_window(window)));
    lemma_filter_members(updated, in_window(window));
    assert forall|i: int, j: int| 0 <= i < j < result.len() implies (
    #[trigger] result[i]).churchtools_id != (#[trigger] result[j]).churchtools_id by {
        assert(result.contains(result[i]));
        assert(result.contains(result[j]));
        assert(apart_if(in_window(window))(result[i], result[j]));
    }
}

/// A synchronisation pass leaves the whole table with at most one row per
/// resource, where it held at most one row per resource, the service lists
/// at most one booking per resource, and every row of a resource that the
/// service lists intersects the window.
pub proof fn lemma_sync_keeps_table_keyed(rows: Seq<Booking>, from_ct: Seq<Booking>, window: Window)
    requires
        distinct_ids(rows),
        distinct_ids(from_ct),
        forall|i: int, k: int|
            0 <= i < from_ct.len() && 0 <= k < rows.len() && (#[trigger] from_ct[i]).churchtools_id
                == (#[trigger] rows[k]).churchtools_id ==> window.intersects(rows[k]),
    ensures
        distinct_ids(synced(rows, from_ct, window)),
{
    let known = rows.filter(in_window(window));
    let new = new_bookings(from_ct, known);
    let deprecated = deprecated_bookings(from_ct, known);
    let changed = changed_bookings(from_ct, known);
    let inserted = rows + new;
    let deleted = deleted_all(inserted, deprecated);
    let updated = updated_all(deleted, changed);
    let r = apart_if(always());
    lemma_filter_members(rows, in_window(window));
    lemma_filter_members(from_ct, unknown_to(known));
    lemma_distinct_ids_pairwise(from_ct);
    lemma_filter_keeps_pairs(from_ct, unknown_to(known), r);
    lemma_distinct_ids_pairwise(new);
    assert forall|i: int, j: int| 0 <= i < j < inserted.len() implies r(
        #[trigger] inserted[i],
        #[trigger] inserted[j],
    ) by {
        let a = inserted[i];
        let b = inserted[j];
        if j < rows.len() {
            assert(rows[i].churchtools_id != rows[j].churchtools_id);
        } else if i >= rows.len() {
            assert(new[i - rows.len()].churchtools_id != new[j - rows.len()].churchtools_id);
        } else {
            assert(a == rows[i] && b == new[j - rows.len()]);
            if a.churchtools_id == b.churchtools_id {
                assert(new.contains(b));
                assert(from_ct.contains(b));
                let m = choose|m: int| 0 <= m < from_ct.len() && from_ct[m] == b;
                assert(from_ct[m].churchtools_id == rows[i].churchtools_id);
                assert(window.intersects(rows[i]));
                assert(rows.contains(a));
                assert(known.contains(a));
                lemma_has_id(known, a.churchtools_id);
                assert(false);
            }
        }
    }
    lemma_deleted_all_keeps_pairs(inserted, deprecated, r);
    lemma_updated_all_rows(deleted, changed);
    assert forall|i: int, j: int| 0 <= i < j < updated.len() implies (
    #[trigger] updated[i]).churchtools_id != (#[trigger] updated[j]).churchtools_id by {
        lemma_latest_for(changed, deleted[i]);
        lemma_latest_for(changed, deleted[j]);
        assert(r(deleted[i], deleted[j]));
    }
}

/// Idempotence. After one synchronisation pass, a second pass over the same
/// window with the same bookings of the service finds nothing to insert, to
/// delete or to update, and leaves every row of the table as it is.
pub proof fn lemma_second_pass_changes_nothing(
    rows: Seq<Booking>,
    from_ct: Seq<Booking>,
    window: Window,
)
    requires
        distinct_ids(rows),
        distinct_ids(from_ct),
        all_in_window(from_ct, window),
    ensures
        ({
            let after = synced(rows, from_ct, window);
            let known = after.filter(in_window(window));
            &&& new_bookings(from_ct, known).len() == 0
            &&& deprecated_bookings(from_ct, known).len() == 0
            &&& changed_bookings(from_ct, known).len() == 0
            &&& synced(after, from_ct, window) == after
        }),
{
    let after = synced(rows, from_ct, window);
    let known = after.filter(in_window(window));
    lemma_sync_converges(rows, from_ct, window);
    assert forall|i: int| 0 <= i < from_ct.len() implies !unknown_to(known)(#[trigger] from_ct[i]) by {
        assert(from_ct.contains(from_ct[i]));
        assert(known.contains(from_ct[i]));
        lemma_has_id(known, from_ct[i].churchtools_id);
    }
    from_ct.lemma_all_neg_filter_empty(unknown_to(known));
    assert forall|i: int| 0 <= i < from_ct.len() implies !changed_from(known)(
        #[trigger] from_ct[i],
    ) by {
        let b = from_ct[i];
        assert(from_ct.contains(b));
        if changed_from(known)(b) {
            let m = choose|m: int|
                0 <= m < known.len() && (#[trigger] known[m]).churchtools_id == b.churchtools_id
                    && known[m] != b;
            assert(known.contains(known[m]));
            assert(from_ct.contains(known[m]));
            lemma_one_booking_per_id(from_ct, known[m], b);
        }
    }
    from_ct.lemma_all_neg_filter_empty(changed_from(known));
    assert forall|j: int| 0 <= j < known.len() implies !unknown_to(from_ct)(#[trigger] known[j]) by {
        assert(known.contains(known[j]));
        assert(from_ct.contains(known[j]));
        lemma_has_id(from_ct, known[j].churchtools_id);
    }
    known.lemma_all_neg_filter_empty(unknown_to(from_ct));
    assert(new_bookings(from_ct, known) == Seq::<Booking>::empty());
    assert(deprecated_bookings(from_ct, known) == Seq::<i64>::empty());
    assert(changed_bookings(from_ct, known) == Seq::<Booking>::empty());
    assert(after + Seq::<Booking>::empty() == after);
}

/// Prune. After a prune at `now` the table holds exactly the rows it held
/// before whose booking has not ended before `now`: a booking that ended
/// before `now` is gone, whatever a synchronisation pass did or failed to do
/// before, and a booking that ends at `now` or later is kept.
pub proof fn lemma_prune_removes_the_past(rows: Seq<Booking>, now: i64)
    ensures
        forall|b: Booking| #[trigger]
            rows.filter(not_ended(now)).contains(b) <==> rows.contains(b) && b.end_time >= now,
{
    lemma_filter_members(rows, not_ended(now));
}

/// A prune leaves the table with at most one row per resource where it
/// held at most one row per resource.
pub proof fn lemma_prune_keeps_table_keyed(rows: Seq<Booking>, now: i64)
    requires
        distinct_ids(rows),
    ensures
        distinct_ids(rows.filter(not_ended(now))),
{
    lemma_distinct_ids_pairwise(rows);
    lemma_filter_keeps_pairs(rows, not_ended(now), apart_if(always()));
    lemma_distinct_ids_pairwise(rows.filter(not_ended(now)));
}

} // verus!
