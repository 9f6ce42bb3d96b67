//! Desktop notification events. Building the event is the library's work;
//! delivering it is a fire-and-forget call outside the library.

use vstd::prelude::*;
use vstd::string::StringExecFns;

verus! {

/// What a desktop notification may announce.
#[derive(Debug, Clone, PartialEq, Eq)]
pub enum NotificationEvent {
    /// A bundle was integrated into the menu.
    Integrated { name: String, path: String, icon: Option<String> },
    /// A bundle's integration was removed.
    Unintegrated { name: String, path: String },
}

/// The event announcing an integration.
pub fn integrated(name: &str, path: &str, icon: Option<&String>) -> (r: NotificationEvent)
    ensures
        r matches NotificationEvent::Integrated { name: n, path: p, icon: ic } && n@ == name@ && p@
            == path@ && (match icon {
            Some(s) => ic matches Some(x) && x@ == s@,
            None => ic is None,
        }),
{
    NotificationEvent::Integrated {
        name: String::from_str(name),
        path: String::from_str(path),
        icon: match icon {
            Some(s) => Some(s.clone()),
            None => None,
        },
    }
}

/// The event announcing a removal.
pub fn unintegrated(name: &str, path: &str) -> (r: NotificationEvent)
    ensures
        r matches NotificationEvent::Unintegrated { name: n, path: p } && n@ == name@ && p@
            == path@,
{
    NotificationEvent::Unintegrated {
        name: String::from_str(name),
        path: String::from_str(path),
    }
}

} // verus!
