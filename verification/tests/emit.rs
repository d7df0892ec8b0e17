use ct_ta_sync::config::{
    AssociatedRoomConfig, CMIConfig, ChurchToolsConfig, Config, ExtTempConfig, GlobalConfig,
};
use ct_ta_sync::db::DBError;
use ct_ta_sync::push_to_ta::{
    booking_heats_room, emit_coe, push_coe, room_is_on, room_outputs, start_emitter, COEEmitError,
    EmitterAction, EmitterEvent, EmitterState, OutputState, COE_PORT,
};
use ct_ta_sync::Booking;

const MIDNIGHT: i64 = 1_700_006_400;

fn clock(hour: i64, minute: i64) -> i64 {
    MIDNIGHT + hour * 3_600 + minute * 60
}

fn room(id: i64, pdo_index: u8) -> AssociatedRoomConfig {
    AssociatedRoomConfig { churchtools_id: id, pdo_index, preheat_minutes: 30, preshutdown_minutes: 10 }
}

fn config(cmis: Vec<CMIConfig>) -> Config {
    Config {
        cmis,
        external_temperature_sensor: ExtTempConfig {
            bind_addr: "0.0.0.0".to_string(),
            can_id: 3,
            pdo_index: 0,
            timeout: 5,
        },
        ct: ChurchToolsConfig { host: "ct".to_string(), login_token: "t".to_string() },
        global: GlobalConfig {
            ct_pull_frequency: 300,
            ta_push_frequency: 5,
            log_level: "INFO".to_string(),
            emiter_bind_addr: "0.0.0.0".to_string(),
        },
    }
}

#[test]
fn midnight_is_a_midnight() {
    assert_eq!(MIDNIGHT % 86_400, 0);
}

#[test]
fn a_room_is_on_inside_its_adapted_interval() {
    // without a temperature: 30 minutes of preheat, no preshutdown,
    // so the adapted interval is [10:00, 12:00)
    let r = room(7, 0);
    let bookings = vec![Booking { churchtools_id: 7, start_time: clock(10, 30), end_time: clock(12, 0) }];
    assert_eq!(
        r.apply_preheat_and_preshutdown(clock(10, 30), clock(12, 0), None),
        (clock(10, 0), clock(12, 0))
    );
    assert!(room_is_on(&r, &bookings, clock(11, 0), None));
    assert!(!room_is_on(&r, &bookings, clock(9, 0), None));
    assert!(!room_is_on(&r, &bookings, clock(12, 0), None));
}

#[test]
fn the_adapted_interval_is_half_open() {
    let r = room(7, 0);
    let bookings = vec![Booking { churchtools_id: 7, start_time: clock(10, 30), end_time: clock(12, 0) }];
    assert!(room_is_on(&r, &bookings, clock(10, 0), None));
    assert!(!room_is_on(&r, &bookings, clock(10, 0) - 1, None));
    assert!(room_is_on(&r, &bookings, clock(12, 0) - 1, None));
}

#[test]
fn the_temperature_moves_both_ends() {
    // at 20.0 degrees: no preheat, 10 minutes of preshutdown
    let r = room(7, 0);
    let booking = Booking { churchtools_id: 7, start_time: clock(10, 30), end_time: clock(12, 0) };
    assert!(!booking_heats_room(&r, &booking, clock(10, 29), Some(200)));
    assert!(booking_heats_room(&r, &booking, clock(10, 30), Some(200)));
    assert!(booking_heats_room(&r, &booking, clock(11, 49), Some(200)));
    assert!(!booking_heats_room(&r, &booking, clock(11, 50), Some(200)));
    // at -10.0 degrees: 30 minutes of preheat, no preshutdown
    assert!(booking_heats_room(&r, &booking, clock(10, 0), Some(-100)));
    assert!(booking_heats_room(&r, &booking, clock(11, 59), Some(-100)));
    assert!(!booking_heats_room(&r, &booking, clock(12, 0), Some(-100)));
}

#[test]
fn bookings_of_other_rooms_do_not_count() {
    let r = room(7, 0);
    let bookings = vec![Booking { churchtools_id: 8, start_time: clock(10, 30), end_time: clock(12, 0) }];
    assert!(!room_is_on(&r, &bookings, clock(11, 0), None));
    assert!(!room_is_on(&r, &vec![], clock(11, 0), None));
}

#[test]
fn one_of_several_bookings_is_enough() {
    let r = room(7, 0);
    let bookings = vec![
        Booking { churchtools_id: 7, start_time: clock(6, 0), end_time: clock(7, 0) },
        Booking { churchtools_id: 8, start_time: clock(10, 30), end_time: clock(12, 0) },
        Booking { churchtools_id: 7, start_time: clock(14, 0), end_time: clock(15, 0) },
    ];
    assert!(room_is_on(&r, &bookings, clock(6, 30), None));
    assert!(!room_is_on(&r, &bookings, clock(11, 0), None));
    assert!(room_is_on(&r, &bookings, clock(13, 45), None));
}

#[test]
fn instants_at_the_ends_of_time_do_not_overflow() {
    let r = AssociatedRoomConfig { churchtools_id: 1, pdo_index: 0, preheat_minutes: 255, preshutdown_minutes: 255 };
    let earliest = Booking { churchtools_id: 1, start_time: i64::MIN, end_time: i64::MIN + 10 };
    assert!(!booking_heats_room(&r, &earliest, i64::MIN, Some(200)));
    assert!(booking_heats_room(&r, &earliest, i64::MIN, None));
    let latest = Booking { churchtools_id: 1, start_time: i64::MAX - 10, end_time: i64::MAX };
    assert!(booking_heats_room(&r, &latest, i64::MAX - 1, None));
}

#[test]
fn every_room_of_a_controller_gets_its_output() {
    let cmi = CMIConfig {
        host: "cmi-a".to_string(),
        our_virtual_can_id: 58,
        rooms: vec![room(7, 0), room(8, 5), room(7, 63)],
    };
    let bookings = vec![Booking { churchtools_id: 7, start_time: clock(10, 30), end_time: clock(12, 0) }];
    assert_eq!(
        room_outputs(&cmi, &bookings, clock(11, 0), None),
        vec![
            OutputState { pdo_index: 0, on: true },
            OutputState { pdo_index: 5, on: false },
            OutputState { pdo_index: 63, on: true },
        ]
    );
}

#[test]
fn a_cycle_sends_each_controller_its_rooms() {
    let c = config(vec![
        CMIConfig { host: "cmi-a".to_string(), our_virtual_can_id: 58, rooms: vec![room(7, 0), room(8, 5)] },
        CMIConfig { host: "cmi-b".to_string(), our_virtual_can_id: 12, rooms: vec![room(8, 63)] },
        CMIConfig { host: "cmi-c".to_string(), our_virtual_can_id: 13, rooms: vec![] },
    ]);
    let bookings = vec![Booking { churchtools_id: 7, start_time: clock(10, 30), end_time: clock(12, 0) }];
    let plan = emit_coe(&c, &bookings, clock(11, 0), None);
    assert_eq!(plan.len(), 3);
    assert_eq!(plan[0].host, "cmi-a");
    assert_eq!(plan[0].port, 5442);
    assert_eq!(COE_PORT, 5442);
    assert_eq!(
        plan[0].datagrams,
        vec![vec![2, 0, 20, 2, 58, 0, 0, 43, 1, 0, 0, 0, 58, 5, 0, 43, 0, 0, 0, 0]]
    );
    assert_eq!(plan[1].host, "cmi-b");
    assert_eq!(plan[1].port, 5442);
    assert_eq!(plan[1].datagrams, vec![vec![2, 0, 12, 1, 12, 63, 0, 43, 0, 0, 0, 0]]);
    assert_eq!(plan[2].host, "cmi-c");
    assert!(plan[2].datagrams.is_empty());
}

#[test]
fn many_rooms_take_more_than_one_datagram() {
    let rooms: Vec<AssociatedRoomConfig> = (0..40).map(|i| room(i64::from(i), i)).collect();
    let c = config(vec![CMIConfig { host: "cmi-a".to_string(), our_virtual_can_id: 58, rooms }]);
    let plan = emit_coe(&c, &vec![], clock(11, 0), Some(50));
    assert_eq!(plan.len(), 1);
    assert_eq!(plan[0].datagrams.len(), 2);
    assert_eq!(plan[0].datagrams[0].len(), 4 + 31 * 8);
    assert_eq!(plan[0].datagrams[1].len(), 4 + 9 * 8);
    for d in &plan[0].datagrams {
        assert!(d.len() <= 252);
    }
    assert_eq!(&plan[0].datagrams[1][0..12], &[2, 0, 76, 9, 58, 31, 0, 43, 0, 0, 0, 0]);
}

#[test]
fn emit_errors_wrap_their_cause() {
    let io = std::io::Error::new(std::io::ErrorKind::ConnectionRefused, "refused");
    assert!(matches!(COEEmitError::from(io), COEEmitError::Udp(_)));
    let db = DBError::CannotSelectBookings(sqlx::Error::PoolClosed);
    assert!(matches!(COEEmitError::from(db), COEEmitError::Db(DBError::CannotSelectBookings(_))));
}

#[test]
fn the_emitter_goes_on_after_a_failed_cycle() {
    assert_eq!(start_emitter(), (EmitterState::Emitting, EmitterAction::Emit));
    let failed = EmitterEvent::EmitDone(Err(COEEmitError::Udp(std::io::Error::new(
        std::io::ErrorKind::ConnectionRefused,
        "refused",
    ))));
    assert_eq!(push_coe(EmitterState::Emitting, &failed), (EmitterState::Waiting, EmitterAction::Wait));
    assert_eq!(
        push_coe(EmitterState::Emitting, &EmitterEvent::EmitDone(Ok(()))),
        (EmitterState::Waiting, EmitterAction::Wait)
    );
    assert_eq!(
        push_coe(EmitterState::Waiting, &EmitterEvent::Tick),
        (EmitterState::Emitting, EmitterAction::Emit)
    );
    assert_eq!(
        push_coe(EmitterState::Waiting, &EmitterEvent::ShutdownObserved),
        (EmitterState::Stopped, EmitterAction::Stop)
    );
}

#[test]
fn the_emitter_observes_shutdown_only_in_its_wait() {
    assert_eq!(
        push_coe(EmitterState::Emitting, &EmitterEvent::ShutdownObserved),
        (EmitterState::Emitting, EmitterAction::Emit)
    );
    assert_eq!(
        push_coe(EmitterState::Emitting, &EmitterEvent::Tick),
        (EmitterState::Emitting, EmitterAction::Emit)
    );
    assert_eq!(
        push_coe(EmitterState::Waiting, &EmitterEvent::EmitDone(Ok(()))),
        (EmitterState::Waiting, EmitterAction::Wait)
    );
    assert_eq!(
        push_coe(EmitterState::Stopped, &EmitterEvent::Tick),
        (EmitterState::Stopped, EmitterAction::Stop)
    );
}
