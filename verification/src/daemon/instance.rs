//! One daemon at a time: what the answer of the named mutex means.
use vstd::prelude::*;

verus! {

/// The name of the mutex, within one Windows session.
pub const SINGLETON_NAME: &'static str = "Local\\CursorLightDaemon";

/// The error code that says that the mutex was there already.
pub const ERROR_ALREADY_EXISTS: u32 = 183;

/// The mutex that a daemon holds while it runs. It is never the null handle.
#[derive(Debug, PartialEq, Eq)]
pub struct SingleInstance {
    handle: usize,
}

impl SingleInstance {
    pub closed spec fn spec_handle(&self) -> usize {
        self.handle
    }

    /// The handle to close at the end.
    pub fn handle(&self) -> (h: usize)
        ensures
            h == self.spec_handle(),
    {
        self.handle
    }
}

/// Whether this is the only daemon.
#[derive(Debug, PartialEq, Eq)]
pub enum InstanceGuard {
    Acquired(SingleInstance),
    AlreadyRunning,
    /// It cannot be told, for the given error code.
    Unavailable(u32),
}

/// What a handle to the mutex, null or not, and the error code after the call that made it mean.
/// A handle to a mutex that was there already is of no use and should be closed.
pub fn acquire(handle: usize, last_error: u32) -> (g: InstanceGuard)
    ensures
        handle == 0 ==> g == InstanceGuard::Unavailable(last_error),
        handle != 0 && last_error == ERROR_ALREADY_EXISTS ==> g == InstanceGuard::AlreadyRunning,
        handle != 0 && last_error != ERROR_ALREADY_EXISTS ==> (g matches InstanceGuard::Acquired(s)
            && s.spec_handle() == handle),
        g is AlreadyRunning <==> handle != 0 && last_error == 183,
{
    if handle == 0 {
        return InstanceGuard::Unavailable(last_error);
    }
    if last_error == ERROR_ALREADY_EXISTS {
        return InstanceGuard::AlreadyRunning;
    }
    InstanceGuard::Acquired(SingleInstance { handle })
}

/// What a daemon that starts up does about the answer.
#[derive(Debug, Clone, Copy, PartialEq, Eq, Structural)]
pub enum Startup {
    Run,
    /// Run all the same, without the protection.
    RunUnguarded,
    Exit,
}

/// Only a daemon that is known to run keeps another from starting.
pub fn startup(guard: &InstanceGuard) -> (s: Startup)
    ensures
        s == (match guard {
            InstanceGuard::Acquired(_) => Startup::Run,
            InstanceGuard::AlreadyRunning => Startup::Exit,
            InstanceGuard::Unavailable(_) => Startup::RunUnguarded,
        }),
{
    match guard {
        InstanceGuard::Acquired(_) => Startup::Run,
        InstanceGuard::AlreadyRunning => Startup::Exit,
        InstanceGuard::Unavailable(_) => Startup::RunUnguarded,
    }
}

} // verus!
