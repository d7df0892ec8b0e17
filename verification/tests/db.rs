use chrono::{DateTime, NaiveDate};
use ct_ta_sync::db::{
    delete_booking, delete_bookings, get_all_bookings, get_bookings_in_timeframe, insert_booking,
    insert_bookings, prune_old_bookings, update_booking, update_bookings, BookingTable,
};
use ct_ta_sync::Booking;

fn at(text: &str) -> i64 {
    DateTime::parse_from_rfc3339(text).unwrap().timestamp()
}

fn day(year: i32, month: u32, day: u32, hour: u32, minute: u32, second: u32) -> i64 {
    NaiveDate::from_ymd_opt(year, month, day)
        .unwrap()
        .and_hms_opt(hour, minute, second)
        .unwrap()
        .and_utc()
        .timestamp()
}

fn good_data() -> BookingTable {
    let mut table = BookingTable { rows: Vec::new() };
    insert_booking(
        &mut table,
        &Booking {
            churchtools_id: 123,
            start_time: at("2021-03-26T15:30:00+00:00"),
            end_time: at("2021-03-26T17:00:00+00:00"),
        },
    );
    insert_booking(
        &mut table,
        &Booking {
            churchtools_id: 125,
            start_time: at("2021-03-28T15:30:00+00:00"),
            end_time: at("2021-03-28T17:00:00+00:00"),
        },
    );
    table
}

#[test]
fn select_all_bookings() {
    let pool = good_data();
    let bookings = get_all_bookings(&pool);
    assert_eq!(bookings.len(), 2);
    assert_eq!(
        bookings[0],
        Booking {
            churchtools_id: 123,
            start_time: at("2021-03-26T15:30:00+00:00"),
            end_time: at("2021-03-26T17:00:00+00:00"),
        }
    );
    assert_eq!(
        bookings[1],
        Booking {
            churchtools_id: 125,
            start_time: at("2021-03-28T15:30:00+00:00"),
            end_time: at("2021-03-28T17:00:00+00:00"),
        }
    );
}

#[test]
fn select_bookings_in_timeframe() {
    let pool = good_data();
    let start = day(2021, 3, 26, 0, 0, 0);
    let end = day(2021, 3, 26, 23, 59, 59);
    let bookings = get_bookings_in_timeframe(&pool, start, end);
    assert_eq!(bookings.len(), 1);
    assert_eq!(
        bookings[0],
        Booking {
            churchtools_id: 123,
            start_time: at("2021-03-26T15:30:00+00:00"),
            end_time: at("2021-03-26T17:00:00+00:00"),
        }
    );
}

#[test]
fn delete_single_booking() {
    let mut pool = good_data();
    delete_booking(&mut pool, 123);

    let start = day(2021, 3, 26, 0, 0, 0);
    let end = day(2021, 3, 26, 23, 59, 59);
    let bookings = get_bookings_in_timeframe(&pool, start, end);
    assert_eq!(bookings.len(), 0);
}

#[test]
fn delete_multiple_bookings() {
    let mut pool = good_data();
    let to_delete = vec![123, 125];
    delete_bookings(&mut pool, &to_delete);

    let bookings = get_all_bookings(&pool);
    assert_eq!(bookings.len(), 0);
}

#[test]
fn test_update_booking() {
    let mut pool = good_data();
    let new_booking = Booking {
        churchtools_id: 123,
        start_time: at("2021-04-26T15:30:00+00:00"),
        end_time: at("2021-04-26T17:00:00+00:00"),
    };
    update_booking(&mut pool, &new_booking);
    let start = day(2021, 4, 20, 0, 0, 0);
    let end = day(2021, 5, 30, 23, 59, 59);
    let bookings = get_bookings_in_timeframe(&pool, start, end);
    assert_eq!(bookings.len(), 1);
    assert_eq!(bookings[0], new_booking);
}

#[test]
fn test_insert_booking() {
    let mut pool = good_data();
    let new_booking = Booking {
        churchtools_id: 12341234,
        start_time: at("2019-04-26T14:28:00+00:00"),
        end_time: at("2019-04-26T18:00:00+00:00"),
    };
    insert_booking(&mut pool, &new_booking);
    let start = day(2019, 1, 1, 0, 0, 0);
    let end = day(2019, 12, 31, 23, 59, 59);
    let bookings = get_bookings_in_timeframe(&pool, start, end);
    assert_eq!(bookings.len(), 1);
    assert_eq!(bookings[0], new_booking);
}

#[test]
fn the_timeframe_is_half_open() {
    let mut table = BookingTable { rows: Vec::new() };
    let b = Booking { churchtools_id: 1, start_time: 100, end_time: 200 };
    insert_booking(&mut table, &b);
    // ends where the booking starts
    assert!(get_bookings_in_timeframe(&table, 0, 100).is_empty());
    assert_eq!(get_bookings_in_timeframe(&table, 0, 101), vec![b]);
    // starts where the booking ends
    assert!(get_bookings_in_timeframe(&table, 200, 300).is_empty());
    assert_eq!(get_bookings_in_timeframe(&table, 199, 300), vec![b]);
    // inside and around
    assert_eq!(get_bookings_in_timeframe(&table, 120, 130), vec![b]);
    assert_eq!(get_bookings_in_timeframe(&table, 0, 1_000), vec![b]);
}

#[test]
fn updating_an_unknown_resource_changes_nothing() {
    let mut table = good_data();
    let before = get_all_bookings(&table);
    update_booking(&mut table, &Booking { churchtools_id: 999, start_time: 1, end_time: 2 });
    assert_eq!(get_all_bookings(&table), before);
    delete_booking(&mut table, 999);
    assert_eq!(get_all_bookings(&table), before);
}

#[test]
fn inserts_keep_their_order() {
    let mut table = good_data();
    let more = vec![
        Booking { churchtools_id: 7, start_time: 10, end_time: 20 },
        Booking { churchtools_id: 5, start_time: 30, end_time: 40 },
    ];
    insert_bookings(&mut table, &more);
    let ids: Vec<i64> = get_all_bookings(&table).iter().map(|b| b.churchtools_id).collect();
    assert_eq!(ids, vec![123, 125, 7, 5]);
}

#[test]
fn later_updates_win() {
    let mut table = good_data();
    let updates = vec![
        Booking { churchtools_id: 125, start_time: 10, end_time: 20 },
        Booking { churchtools_id: 125, start_time: 30, end_time: 40 },
    ];
    update_bookings(&mut table, &updates);
    let rows = get_all_bookings(&table);
    assert_eq!(rows.len(), 2);
    assert_eq!(rows[0].churchtools_id, 123);
    assert_eq!(rows[1], Booking { churchtools_id: 125, start_time: 30, end_time: 40 });
}

#[test]
fn prune_deletes_what_ended_before_now() {
    let mut table = BookingTable { rows: Vec::new() };
    let ended = Booking { churchtools_id: 1, start_time: 100, end_time: 199 };
    let ending_now = Booking { churchtools_id: 2, start_time: 100, end_time: 200 };
    let running = Booking { churchtools_id: 3, start_time: 100, end_time: 300 };
    let coming = Booking { churchtools_id: 4, start_time: 400, end_time: 500 };
    insert_bookings(&mut table, &vec![ended, ending_now, running, coming]);
    let removed = prune_old_bookings(&mut table, 200);
    assert_eq!(removed, 1);
    assert_eq!(get_all_bookings(&table), vec![ending_now, running, coming]);
    // a second prune at the same instant finds nothing
    assert_eq!(prune_old_bookings(&mut table, 200), 0);
    assert_eq!(prune_old_bookings(&mut table, 501), 3);
    assert!(get_all_bookings(&table).is_empty());
}
