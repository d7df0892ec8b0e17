use ct_ta_sync::config::{clamp_tenths, scale_minutes, AssociatedRoomConfig};

fn room(preheat_minutes: u8, preshutdown_minutes: u8) -> AssociatedRoomConfig {
    AssociatedRoomConfig { churchtools_id: 0, pdo_index: 0, preheat_minutes, preshutdown_minutes }
}

#[test]
fn preheat_time_below_start() {
    let external_temp = -200;
    let room = AssociatedRoomConfig {
        churchtools_id: 0,
        pdo_index: 0,
        preheat_minutes: 40,
        preshutdown_minutes: 13,
    };
    assert_eq!(room.preheat_time(Some(external_temp)), 40);
}

#[test]
fn preheat_time_ext_unknown() {
    let external_temp = None;
    let room = AssociatedRoomConfig {
        churchtools_id: 0,
        pdo_index: 0,
        preheat_minutes: 40,
        preshutdown_minutes: 13,
    };
    assert_eq!(room.preheat_time(external_temp), 40);
}

#[test]
fn preheat_time_ext_high() {
    let external_temp = Some(200);
    let room = AssociatedRoomConfig {
        churchtools_id: 0,
        pdo_index: 0,
        preheat_minutes: 40,
        preshutdown_minutes: 13,
    };
    assert_eq!(room.preheat_time(external_temp), 0);
}

#[test]
fn preheat_time_ext_middle() {
    let external_temp = Some(50);
    let room = AssociatedRoomConfig {
        churchtools_id: 0,
        pdo_index: 0,
        preheat_minutes: 40,
        preshutdown_minutes: 13,
    };
    assert_eq!(room.preheat_time(external_temp), 20);
}

#[test]
fn preshutdown_time_below_start() {
    let external_temp = -200;
    let room = AssociatedRoomConfig {
        churchtools_id: 0,
        pdo_index: 0,
        preheat_minutes: 40,
        preshutdown_minutes: 13,
    };
    assert_eq!(room.preshutdown_time(Some(external_temp)), 0);
}

#[test]
fn preshutdown_time_ext_unknown() {
    let external_temp = None;
    let room = AssociatedRoomConfig {
        churchtools_id: 0,
        pdo_index: 0,
        preheat_minutes: 40,
        preshutdown_minutes: 13,
    };
    assert_eq!(room.preshutdown_time(external_temp), 0);
}

#[test]
fn preshutdown_time_ext_high() {
    let external_temp = Some(200);
    let room = AssociatedRoomConfig {
        churchtools_id: 0,
        pdo_index: 0,
        preheat_minutes: 40,
        preshutdown_minutes: 13,
    };
    assert_eq!(room.preshutdown_time(external_temp), 13);
}

#[test]
fn preshutdown_time_ext_middle() {
    let external_temp = Some(50);
    let room = AssociatedRoomConfig {
        churchtools_id: 0,
        pdo_index: 0,
        preheat_minutes: 40,
        preshutdown_minutes: 13,
    };
    assert_eq!(room.preshutdown_time(external_temp), 7);
}

#[test]
fn temperature_above_the_range_counts_as_warmest() {
    assert_eq!(room(40, 13).preheat_time(Some(4_000)), 0);
    assert_eq!(room(40, 13).preshutdown_time(Some(4_000)), 13);
    assert_eq!(room(40, 13).preheat_time(Some(i32::MAX)), 0);
    assert_eq!(room(40, 13).preshutdown_time(Some(i32::MIN)), 0);
}

#[test]
fn clamp_keeps_what_is_in_range() {
    assert_eq!(clamp_tenths(-101), -100);
    assert_eq!(clamp_tenths(-100), -100);
    assert_eq!(clamp_tenths(0), 0);
    assert_eq!(clamp_tenths(200), 200);
    assert_eq!(clamp_tenths(201), 200);
}

#[test]
fn scaled_minutes_round_to_the_nearest_minute() {
    // 30 * 200 / 300 = 20
    assert_eq!(room(30, 10).preheat_time(Some(0)), 20);
    // 10 * 100 / 300 = 3.33..
    assert_eq!(room(30, 10).preshutdown_time(Some(0)), 3);
    // 10 * 200 / 300 = 6.66..
    assert_eq!(room(30, 10).preshutdown_time(Some(100)), 7);
    // 255 * 300 / 300 = 255
    assert_eq!(room(255, 255).preheat_time(Some(-100)), 255);
    assert_eq!(room(255, 255).preshutdown_time(Some(200)), 255);
}

#[test]
fn a_half_minute_rounds_up() {
    // 3 * 50 / 300 = 0.5
    assert_eq!(room(3, 3).preshutdown_time(Some(-50)), 1);
    assert_eq!(room(3, 3).preheat_time(Some(150)), 1);
    // 1 * 150 / 300 = 0.5
    assert_eq!(scale_minutes(1, 150), 1);
    // 1 * 149 / 300 < 0.5
    assert_eq!(scale_minutes(1, 149), 0);
    // 13 * 150 / 300 = 6.5
    assert_eq!(scale_minutes(13, 150), 7);
    // 9 * 50 / 300 = 1.5
    assert_eq!(scale_minutes(9, 50), 2);
}

#[test]
fn colder_means_longer_preheat_and_shorter_preshutdown() {
    let r = room(40, 13);
    let mut last_preheat = r.preheat_time(Some(-100));
    let mut last_preshutdown = r.preshutdown_time(Some(-100));
    let mut t = -99;
    while t <= 200 {
        let preheat = r.preheat_time(Some(t));
        let preshutdown = r.preshutdown_time(Some(t));
        assert!(preheat <= last_preheat);
        assert!(preshutdown >= last_preshutdown);
        last_preheat = preheat;
        last_preshutdown = preshutdown;
        t += 1;
    }
}

#[test]
fn adapted_interval_with_known_temperature() {
    let r = room(40, 13);
    let (start, stop) = r.apply_preheat_and_preshutdown(100_000, 200_000, Some(50));
    assert_eq!(start, 100_000 - 20 * 60);
    assert_eq!(stop, 200_000 - 7 * 60);
}

#[test]
fn adapted_interval_with_unknown_temperature() {
    let r = room(40, 13);
    let (start, stop) = r.apply_preheat_and_preshutdown(100_000, 200_000, None);
    assert_eq!(start, 100_000 - 40 * 60);
    assert_eq!(stop, 200_000);
}

#[test]
fn adapted_interval_at_the_extremes() {
    let r = room(40, 13);
    assert_eq!(r.apply_preheat_and_preshutdown(0, 3_600, Some(-200)), (-2_400, 3_600));
    assert_eq!(r.apply_preheat_and_preshutdown(0, 3_600, Some(200)), (0, 3_600 - 780));
}
