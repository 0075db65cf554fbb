//! Link cables between two emulated consoles running in the same process.

use super::console::EmulatorCore;
use crate::text;
use vstd::prelude::*;
use vstd::string::*;

verus! {

/// Why a link operation failed.
#[derive(Clone, Debug, PartialEq, Eq)]
pub enum LinkError {
    /// The partner is not a console this one can be linked to (another family, or no port).
    IncompatiblePartner,
    /// The port is not connected (or already is, for `connect`).
    NotConnected,
    /// The recorded serial events could not be parsed.
    BadSerialData(String),
    /// Both consoles of the pair are waiting on each other and neither can run.
    Deadlock,
    /// The console core failed.
    Emulator(String),
}

/// Why a link operation failed, as the contracts see it.
pub ghost enum ErrorModel {
    IncompatiblePartner,
    NotConnected,
    BadSerialData(Seq<char>),
    Deadlock,
    Emulator(Seq<char>),
}

impl View for LinkError {
    type V = ErrorModel;

    open spec fn view(&self) -> ErrorModel {
        match *self {
            LinkError::IncompatiblePartner => ErrorModel::IncompatiblePartner,
            LinkError::NotConnected => ErrorModel::NotConnected,
            LinkError::BadSerialData(what) => ErrorModel::BadSerialData(what@),
            LinkError::Deadlock => ErrorModel::Deadlock,
            LinkError::Emulator(what) => ErrorModel::Emulator(what@),
        }
    }
}

impl ErrorModel {
    /// The error in words.
    pub open spec fn text(self) -> Seq<char> {
        match self {
            ErrorModel::IncompatiblePartner => "the other console cannot be linked to this one"@,
            ErrorModel::NotConnected => "the link port is not connected"@,
            ErrorModel::BadSerialData(what) => "the recorded link traffic is malformed: "@ + what,
            ErrorModel::Deadlock => "both linked consoles are waiting on each other"@,
            ErrorModel::Emulator(what) => "the emulator failed: "@ + what,
        }
    }
}

impl LinkError {
    /// The error in words.
    pub fn message(&self) -> (r: String)
        ensures
            r@ == self@.text(),
    {
        match self {
            LinkError::IncompatiblePartner => {
                "the other console cannot be linked to this one".to_owned()
            },
            LinkError::NotConnected => "the link port is not connected".to_owned(),
            LinkError::BadSerialData(what) => text::joined(
                "the recorded link traffic is malformed: ",
                what.as_str(),
            ),
            LinkError::Deadlock => "both linked consoles are waiting on each other".to_owned(),
            LinkError::Emulator(what) => text::joined("the emulator failed: ", what.as_str()),
        }
    }
}

/// Which console of a linked pair steps next: the one that is behind in its own emulated time, the
/// first on ties. One that sleeps never steps; neither can if both do.
pub open spec fn second_is_next(
    first_asleep: bool,
    first_time: u64,
    second_asleep: bool,
    second_time: u64,
) -> Option<bool> {
    if first_asleep && second_asleep {
        None
    } else if first_asleep {
        Some(true)
    } else if second_asleep {
        Some(false)
    } else {
        Some(second_time < first_time)
    }
}

/// Which console of a linked pair steps next.
///
/// The console that is behind in its own emulated time steps, so the two timelines are merged
/// cycle by cycle (ties go to `first`); a console its lockstep coordinator has put to sleep never
/// steps until the other wakes it. `Err(Deadlock)` when both are asleep.
pub fn second_runs_next<C: EmulatorCore>(first: &C, second: &C) -> (r: Result<bool, LinkError>)
    ensures
        match second_is_next(
            first.asleep(),
            first.linked_for(),
            second.asleep(),
            second.linked_for(),
        ) {
            Some(second_runs) => r matches Ok(s) && s == second_runs,
            None => r matches Err(e) && e@ == ErrorModel::Deadlock,
        },
{
    let first_asleep: bool = first.is_asleep();
    let second_asleep: bool = second.is_asleep();
    if first_asleep && second_asleep {
        Err(LinkError::Deadlock)
    } else if first_asleep {
        Ok(true)
    } else if second_asleep {
        Ok(false)
    } else {
        Ok(second.link_time() < first.link_time())
    }
}

/// Both machines decide alike whichever console each calls its own: a pair that is not deadlocked
/// has one console that steps, never the one that sleeps and, with both awake, never the one that
/// is ahead.
pub proof fn law_one_console_steps(
    first_asleep: bool,
    first_time: u64,
    second_asleep: bool,
    second_time: u64,
)
    requires
        !(first_asleep && second_asleep),
    ensures
        second_is_next(first_asleep, first_time, second_asleep, second_time) matches Some(second)
            && (second ==> !second_asleep) && (!second ==> !first_asleep) && (!first_asleep
            && !second_asleep ==> (second ==> second_time < first_time) && (!second ==> first_time
            <= second_time)),
{
}

} // verus!
