use ct_ta_sync::read_ext_temp::ReadExtTempError;
use ct_ta_sync::shutdown::{final_result, signal_handler, FatalError, InShutdown, SignalEvent};

#[test]
fn every_signal_requests_shutdown() {
    for event in [
        SignalEvent::Terminate,
        SignalEvent::Hangup,
        SignalEvent::Interrupt,
        SignalEvent::CtrlC(Ok(())),
        SignalEvent::CtrlC(Err(std::io::Error::new(std::io::ErrorKind::Other, "no ctrl-c"))),
    ] {
        let mut shutdown = InShutdown::No;
        assert!(signal_handler(&mut shutdown, event).is_ok());
        assert_eq!(shutdown, InShutdown::Yes);
        assert!(shutdown.is_requested());
    }
}

#[test]
fn a_listener_that_cannot_be_installed_is_fatal() {
    let mut shutdown = InShutdown::No;
    let cause = std::io::Error::new(std::io::ErrorKind::PermissionDenied, "no signals");
    let result = signal_handler(&mut shutdown, SignalEvent::ListenerFailed(cause));
    assert_eq!(result.unwrap_err().kind(), std::io::ErrorKind::PermissionDenied);
    assert_eq!(shutdown, InShutdown::Yes);
}

#[test]
fn a_shutdown_of_another_loop_is_only_observed() {
    let mut shutdown = InShutdown::Yes;
    assert!(signal_handler(&mut shutdown, SignalEvent::ShutdownObserved).is_ok());
    assert_eq!(shutdown, InShutdown::Yes);
    let mut untouched = InShutdown::No;
    assert!(signal_handler(&mut untouched, SignalEvent::ShutdownObserved).is_ok());
    assert_eq!(untouched, InShutdown::No);
}

#[test]
fn a_requested_shutdown_stays_requested() {
    let mut shutdown = InShutdown::No;
    assert!(!shutdown.is_requested());
    shutdown.request();
    assert!(shutdown.is_requested());
    shutdown.request();
    assert!(shutdown.is_requested());
    for event in [SignalEvent::Terminate, SignalEvent::ShutdownObserved, SignalEvent::CtrlC(Ok(()))] {
        assert!(signal_handler(&mut shutdown, event).is_ok());
        assert_eq!(shutdown, InShutdown::Yes);
    }
}

#[test]
fn the_receiver_error_comes_first() {
    let bind = || ReadExtTempError::Udp(std::io::Error::new(std::io::ErrorKind::AddrInUse, "in use"));
    let signal = || std::io::Error::new(std::io::ErrorKind::PermissionDenied, "no signals");
    assert!(final_result(Ok(()), Ok(())).is_ok());
    assert!(matches!(final_result(Err(bind()), Ok(())), Err(FatalError::ExtTemp(_))));
    assert!(matches!(final_result(Err(bind()), Err(signal())), Err(FatalError::ExtTemp(_))));
    match final_result(Ok(()), Err(signal())) {
        Err(FatalError::Signal(e)) => assert_eq!(e.kind(), std::io::ErrorKind::PermissionDenied),
        _ => panic!("the signal listener failed"),
    }
}
