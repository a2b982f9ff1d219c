//! Signal kinds and the signal bookkeeping of the application: which
//! shutdown signals have arrived and which arrivals reach the registered
//! handlers. Installing the operating system handlers is done by the caller,
//! which hands each arrival to [`SignalHandler::deliver`].
use vstd::prelude::*;
use crate::platform::Os;
use crate::error::PlatformError;
use crate::text::{push_str, string_of};

verus! {

/// Signal types.
#[derive(Debug, Clone, Copy, PartialEq, Eq, Structural, Hash)]
pub enum SignalKind {
    /// Interrupt (Ctrl+C on all platforms, SIGINT on Unix).
    Interrupt,
    /// Terminate (SIGTERM on Unix, Ctrl+Break on Windows).
    Terminate,
    /// Hangup (SIGHUP on Unix, not available on Windows).
    Hangup,
    /// User signal 1 (SIGUSR1 on Unix, not available on Windows).
    User1,
    /// User signal 2 (SIGUSR2 on Unix, not available on Windows).
    User2,
    /// Child process signal (SIGCHLD on Unix).
    Child,
    /// Window size change (SIGWINCH on Unix).
    WindowChange,
    /// Alarm (SIGALRM on Unix).
    Alarm,
    /// Pipe broken (SIGPIPE on Unix).
    Pipe,
}

/// The conventional name of a signal.
pub open spec fn signal_name(k: SignalKind) -> Seq<char> {
    match k {
        SignalKind::Interrupt => "SIGINT"@,
        SignalKind::Terminate => "SIGTERM"@,
        SignalKind::Hangup => "SIGHUP"@,
        SignalKind::User1 => "SIGUSR1"@,
        SignalKind::User2 => "SIGUSR2"@,
        SignalKind::Child => "SIGCHLD"@,
        SignalKind::WindowChange => "SIGWINCH"@,
        SignalKind::Alarm => "SIGALRM"@,
        SignalKind::Pipe => "SIGPIPE"@,
    }
}

/// Whether the signal is a Unix system's: every kind but interrupt and
/// terminate exists on Unix only.
pub open spec fn available_on(k: SignalKind, os: Os) -> bool {
    k == SignalKind::Interrupt || k == SignalKind::Terminate || os == Os::Linux || os == Os::MacOs
}

impl SignalKind {
    /// Check if this signal is available on `os`.
    pub fn is_available(&self, os: &Os) -> (r: bool)
        ensures
            r == available_on(*self, *os),
    {
        match self {
            SignalKind::Interrupt | SignalKind::Terminate => true,
            _ => matches!(os, Os::Linux | Os::MacOs),
        }
    }

    /// Get human-readable name.
    pub fn as_str(&self) -> (r: &'static str)
        ensures
            r@ == signal_name(*self),
    {
        match self {
            SignalKind::Interrupt => "SIGINT",
            SignalKind::Terminate => "SIGTERM",
            SignalKind::Hangup => "SIGHUP",
            SignalKind::User1 => "SIGUSR1",
            SignalKind::User2 => "SIGUSR2",
            SignalKind::Child => "SIGCHLD",
            SignalKind::WindowChange => "SIGWINCH",
            SignalKind::Alarm => "SIGALRM",
            SignalKind::Pipe => "SIGPIPE",
        }
    }

    /// Whether a process can be sent this signal: every kind but child
    /// and window-change.
    pub fn check_sendable(&self) -> (r: Result<(), PlatformError>)
        ensures
            (*self == SignalKind::Child || *self == SignalKind::WindowChange) ==> (r matches Err(
                PlatformError::Signal(m),
            ) && m@ == "Unsupported signal: "@ + signal_name(*self)),
            !(*self == SignalKind::Child || *self == SignalKind::WindowChange) ==> r is Ok,
    {
        match self {
            SignalKind::Child | SignalKind::WindowChange => {
                let mut v: Vec<char> = Vec::new();
                push_str(&mut v, "Unsupported signal: ");
                push_str(&mut v, self.as_str());
                Err(PlatformError::Signal(string_of(v.as_slice())))
            },
            _ => Ok(()),
        }
    }

    /// The same name, as an owned string.
    pub fn to_string(&self) -> (r: String)
        ensures
            r@ == signal_name(*self),
    {
        crate::text::owned(self.as_str())
    }
}

/// Which shutdown signals have been received.
#[derive(Debug, Clone, Copy, PartialEq, Eq)]
pub struct SignalHandler {
    interrupted: bool,
    terminated: bool,
}

impl SignalHandler {
    /// Whether an interrupt has been received.
    pub closed spec fn interrupted_flag(&self) -> bool {
        self.interrupted
    }

    /// Whether a termination has been received.
    pub closed spec fn terminated_flag(&self) -> bool {
        self.terminated
    }

    /// No signal received yet.
    pub fn new() -> (r: Self)
        ensures
            !r.interrupted_flag(),
            !r.terminated_flag(),
    {
        SignalHandler { interrupted: false, terminated: false }
    }

    /// Record the arrival of a signal. An interrupt sets the interrupt flag,
    /// a termination the termination flag; interrupts, terminations and
    /// hangups are passed on to the registered handlers, which the result
    /// says, and other signals are not handled.
    pub fn deliver(&mut self, kind: SignalKind) -> (notify: bool)
        ensures
            final(self).interrupted_flag() == (old(self).interrupted_flag() || kind
                == SignalKind::Interrupt),
            final(self).terminated_flag() == (old(self).terminated_flag() || kind
                == SignalKind::Terminate),
            notify == (kind == SignalKind::Interrupt || kind == SignalKind::Terminate || kind
                == SignalKind::Hangup),
            (kind == SignalKind::Interrupt || kind == SignalKind::Terminate) ==> (
            final(self).interrupted_flag() || final(self).terminated_flag()),
    {
        match kind {
            SignalKind::Interrupt => {
                self.interrupted = true;
                true
            },
            SignalKind::Terminate => {
                self.terminated = true;
                true
            },
            SignalKind::Hangup => true,
            _ => false,
        }
    }

    /// Check if an interrupt signal (Ctrl+C) was received.
    pub fn was_interrupted(&self) -> (r: bool)
        ensures
            r == self.interrupted_flag(),
    {
        self.interrupted
    }

    /// Check if a termination signal was received.
    pub fn was_terminated(&self) -> (r: bool)
        ensures
            r == self.terminated_flag(),
    {
        self.terminated
    }

    /// Check if any shutdown signal was received.
    pub fn should_shutdown(&self) -> (r: bool)
        ensures
            r == (self.interrupted_flag() || self.terminated_flag()),
    {
        self.was_interrupted() || self.was_terminated()
    }

    /// Reset the interrupt flag.
    pub fn reset_interrupt(&mut self)
        ensures
            !final(self).interrupted_flag(),
            final(self).terminated_flag() == old(self).terminated_flag(),
    {
        self.interrupted = false;
    }

    /// Reset the termination flag.
    pub fn reset_terminate(&mut self)
        ensures
            !final(self).terminated_flag(),
            final(self).interrupted_flag() == old(self).interrupted_flag(),
    {
        self.terminated = false;
    }

    /// Reset all signal flags.
    pub fn reset_all(&mut self)
        ensures
            !final(self).interrupted_flag(),
            !final(self).terminated_flag(),
    {
        self.reset_interrupt();
        self.reset_terminate();
    }
}

/// Tracks whether Ctrl+C was pressed since the guard was created or reset.
#[derive(Debug, Clone, Copy, PartialEq, Eq)]
pub struct CtrlCGuard {
    pressed: bool,
}

impl CtrlCGuard {
    /// Whether Ctrl+C was seen.
    pub closed spec fn pressed_flag(&self) -> bool {
        self.pressed
    }

    /// Create a new Ctrl+C guard.
    pub fn new() -> (r: Self)
        ensures
            !r.pressed_flag(),
    {
        CtrlCGuard { pressed: false }
    }

    /// Note a delivered signal: only an interrupt counts as a key press.
    pub fn notify(&mut self, kind: SignalKind)
        ensures
            final(self).pressed_flag() == (old(self).pressed_flag() || kind
                == SignalKind::Interrupt),
    {
        if kind == SignalKind::Interrupt {
            self.pressed = true;
        }
    }

    /// Check if Ctrl+C was pressed.
    pub fn was_pressed(&self) -> (r: bool)
        ensures
            r == self.pressed_flag(),
    {
        self.pressed
    }

    /// Reset the flag.
    pub fn reset(&mut self)
        ensures
            !final(self).pressed_flag(),
    {
        self.pressed = false;
    }
}

impl Default for CtrlCGuard {
    fn default() -> (r: Self)
        ensures
            !r.pressed_flag(),
    {
        CtrlCGuard::new()
    }
}

} // verus!
