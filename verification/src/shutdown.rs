//! The cooperative shutdown that every loop observes, and the decisions of
//! the loop that listens for the operating system's signals.

use crate::read_ext_temp::ReadExtTempError;
use vstd::prelude::*;

verus! {

/// Whether shutdown has been requested. The flag goes from `No` to `Yes` and
/// never back.
#[derive(Debug, PartialEq, Eq, Clone, Copy, Structural)]
pub enum InShutdown {
    Yes,
    No,
}

impl InShutdown {
    /// Requests shutdown. Requesting it again changes nothing.
    pub fn request(&mut self)
        ensures
            *final(self) == InShutdown::Yes,
    {
        *self = InShutdown::Yes;
    }

    /// Whether shutdown has been requested.
    pub fn is_requested(&self) -> (r: bool)
        ensures
            r == (*self == InShutdown::Yes),
    {
        match self {
            InShutdown::Yes => true,
            InShutdown::No => false,
        }
    }
}

/// What ended the signal listener's wait.
#[derive(Debug)]
pub enum SignalEvent {
    /// A listener for one of the signals could not be installed.
    ListenerFailed(std::io::Error),
    /// Another loop requested shutdown.
    ShutdownObserved,
    /// The process was asked to terminate.
    Terminate,
    /// The controlling terminal hung up.
    Hangup,
    /// The process was interrupted.
    Interrupt,
    /// The wait for ctrl-c ended, with or without an error.
    CtrlC(Result<(), std::io::Error>),
}

/// The shutdown flag after the signal listener has handled `event`: unchanged
/// where another loop requested the shutdown, requested in every other case.
pub open spec fn flag_after_signal(flag: InShutdown, event: SignalEvent) -> InShutdown {
    match event {
        SignalEvent::ShutdownObserved => flag,
        _ => InShutdown::Yes,
    }
}

/// Handles what ended the signal listener's wait: requests shutdown on every
/// signal, on a failed wait for ctrl-c and where a listener could not be
/// installed, and reports only the last of these as an error.
pub fn signal_handler(shutdown: &mut InShutdown, event: SignalEvent) -> (result: Result<
    (),
    std::io::Error,
>)
    ensures
        *final(shutdown) == flag_after_signal(*old(shutdown), event),
        *old(shutdown) == InShutdown::Yes ==> *final(shutdown) == InShutdown::Yes,
        match event {
            SignalEvent::ListenerFailed(e) => result == Err::<(), _>(e),
            _ => result is Ok,
        },
{
    match event {
        SignalEvent::ListenerFailed(e) => {
            shutdown.request();
            Err(e)
        },
        SignalEvent::ShutdownObserved => Ok(()),
        SignalEvent::Terminate => {
            shutdown.request();
            Ok(())
        },
        SignalEvent::Hangup => {
            shutdown.request();
            Ok(())
        },
        SignalEvent::Interrupt => {
            shutdown.request();
            Ok(())
        },
        SignalEvent::CtrlC(_) => {
            shutdown.request();
            Ok(())
        },
    }
}

/// Why the process as a whole failed.
#[derive(Debug)]
pub enum FatalError {
    /// The temperature receiver could not start.
    ExtTemp(ReadExtTempError),
    /// The signal listener could not start.
    Signal(std::io::Error),
}

/// The result of the process once all loops have returned: the error of the
/// temperature receiver if it failed, else that of the signal listener if it
/// failed, else success. The two other loops never fail as a whole.
pub fn final_result(
    receiver: Result<(), ReadExtTempError>,
    signals: Result<(), std::io::Error>,
) -> (result: Result<(), FatalError>)
    ensures
        match (receiver, signals) {
            (Err(e), _) => result == Err::<(), _>(FatalError::ExtTemp(e)),
            (Ok(_), Err(e)) => result == Err::<(), _>(FatalError::Signal(e)),
            (Ok(_), Ok(_)) => result is Ok,
        },
{
    match receiver {
        Err(e) => Err(FatalError::ExtTemp(e)),
        Ok(_) => match signals {
            Err(e) => Err(FatalError::Signal(e)),
            Ok(_) => Ok(()),
        },
    }
}

} // verus!
