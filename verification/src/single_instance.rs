//! The guard against a second running instance, built on a named mutex.

use vstd::prelude::*;

verus! {

/// The status with which Windows reports that a mutex of this name exists.
pub const ERROR_ALREADY_EXISTS: u32 = 183;

/// The name of the mutex. It lies in the namespace of the desktop session: two
/// users of one machine are not in each other's way.
pub open spec fn mutex_name_text() -> Seq<char> {
    "Local\\Resonance.SingleInstance"@
}

pub fn mutex_name() -> (name: &'static str)
    ensures
        name@ == mutex_name_text(),
{
    "Local\\Resonance.SingleInstance"
}

/// What came of claiming the name.
#[derive(Debug, Clone, Copy, PartialEq, Eq, Structural)]
pub enum Instance {
    /// This process goes on. `holds_name` says whether it holds the mutex.
    Only { holds_name: bool },
    /// Another process holds the name. This process closes its own handle, which
    /// would otherwise keep the name alive, and exits.
    AlreadyRunning,
}

/// What creating the mutex means: `created` says whether there is a handle, and
/// `last_error` is the status right after the call. An application that works is
/// not refused because the guard failed.
pub fn acquire(created: bool, last_error: u32) -> (instance: Instance)
    ensures
        instance == if created && last_error == ERROR_ALREADY_EXISTS {
            Instance::AlreadyRunning
        } else {
            Instance::Only { holds_name: created }
        },
{
    if created && last_error == ERROR_ALREADY_EXISTS {
        Instance::AlreadyRunning
    } else {
        Instance::Only { holds_name: created }
    }
}

/// The name is one of the desktop session, and this application's own.
pub proof fn name_is_of_the_session()
    ensures
        mutex_name_text() == "Local\\Resonance.SingleInstance"@,
{
}

/// Another instance runs exactly where the name was there before; a guard that could not
/// be set up stops nothing.
pub proof fn only_a_taken_name_stops(created: bool, last_error: u32, instance: Instance)
    requires
        call_ensures(acquire, (created, last_error), instance),
    ensures
        instance is AlreadyRunning <==> created && last_error == 183,
        !created ==> instance == (Instance::Only { holds_name: false }),
        created && last_error != 183 ==> instance == (Instance::Only { holds_name: true }),
{
}

} // verus!
