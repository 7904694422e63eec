//! Choosing the network interface to capture on, and the failures that stop
//! the start-up.

use vstd::prelude::*;
use vstd::string::StringExecFns;

verus! {

/// Why the start-up cannot go on.
#[derive(Debug, Clone)]
pub enum OsError {
    /// No interface of the host has the name that was asked for.
    InterfaceNotFound(String),
    /// The interface has a link type other than Ethernet.
    UnknownInterfaceType,
    /// The operating system refused to open the capture channel, for the
    /// reason it gave.
    ListenFailed(String),
}

impl OsError {
    /// The text that `message` returns.
    pub open spec fn message_text(&self) -> Seq<char> {
        match self {
            OsError::InterfaceNotFound(name) => "Cannot find interface "@ + name@,
            OsError::UnknownInterfaceType => "Unknown interface type"@,
            OsError::ListenFailed(reason) => "Failed to listen to network interface: "@ + reason@,
        }
    }

    /// A line for the user.
    pub fn message(&self) -> (text: String)
        ensures
            text@ == self.message_text(),
    {
        match self {
            OsError::InterfaceNotFound(name) => String::from_str("Cannot find interface ").concat(
                name.as_str(),
            ),
            OsError::UnknownInterfaceType => String::from_str("Unknown interface type"),
            OsError::ListenFailed(reason) => String::from_str(
                "Failed to listen to network interface: ",
            ).concat(reason.as_str()),
        }
    }
}

/// No name before position `end` is `wanted`.
pub open spec fn none_named(names: Seq<String>, end: int, wanted: Seq<char>) -> bool {
    forall|j: int| 0 <= j < end && j < names.len() ==> (#[trigger] names[j])@ != wanted
}

/// Finds the first interface whose name is exactly `interface_name`, among
/// the names of the host's interfaces in the order the host lists them.
pub fn get_interface(names: &Vec<String>, interface_name: &str) -> (found: Option<usize>)
    ensures
        match found {
            Some(i) => i < names.len() && names[i as int]@ == interface_name@ && none_named(
                names@,
                i as int,
                interface_name@,
            ),
            None => none_named(names@, names.len() as int, interface_name@),
        },
{
    let wanted = interface_name.to_owned();
    let mut i: usize = 0;
    while i < names.len()
        invariant
            i <= names.len(),
            wanted@ == interface_name@,
            none_named(names@, i as int, interface_name@),
        decreases names.len() - i,
    {
        if names[i] == wanted {
            return Some(i);
        }
        i += 1;
    }
    None
}

/// As `get_interface`, with the absence of the name reported as the error
/// that stops the start-up. No other interface stands in for a missing one.
pub fn resolve_interface(names: &Vec<String>, interface_name: &str) -> (found: Result<
    usize,
    OsError,
>)
    ensures
        match found {
            Ok(i) => i < names.len() && names[i as int]@ == interface_name@ && none_named(
                names@,
                i as int,
                interface_name@,
            ),
            Err(OsError::InterfaceNotFound(name)) => name@ == interface_name@ && none_named(
                names@,
                names.len() as int,
                interface_name@,
            ),
            Err(_) => false,
        },
{
    match get_interface(names, interface_name) {
        Some(i) => Ok(i),
        None => Err(OsError::InterfaceNotFound(interface_name.to_owned())),
    }
}

/// What opening a capture channel on an interface came to.
#[derive(Debug, Clone)]
pub enum ChannelOutcome {
    /// An Ethernet channel was opened.
    Ethernet,
    /// A channel of another link type was opened.
    OtherLinkType,
    /// The operating system refused, for the reason it gave.
    Refused(String),
}

/// Only an Ethernet channel can be captured on; every other outcome stops
/// the start-up, and there is no second attempt with another link type.
pub fn check_channel(outcome: ChannelOutcome) -> (checked: Result<(), OsError>)
    ensures
        match outcome {
            ChannelOutcome::Ethernet => checked is Ok,
            ChannelOutcome::OtherLinkType => checked == Err::<(), OsError>(
                OsError::UnknownInterfaceType,
            ),
            ChannelOutcome::Refused(reason) => checked == Err::<(), OsError>(
                OsError::ListenFailed(reason),
            ),
        },
{
    match outcome {
        ChannelOutcome::Ethernet => Ok(()),
        ChannelOutcome::OtherLinkType => Err(OsError::UnknownInterfaceType),
        ChannelOutcome::Refused(reason) => Err(OsError::ListenFailed(reason)),
    }
}

} // verus!
