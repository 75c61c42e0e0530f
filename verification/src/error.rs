//! The error taxonomy: failures local to one event, failures of the
//! subscription as a whole, and the advisory "no event available right now"
//! condition that a live tail reports routinely.

use vstd::prelude::*;

verus! {

/// Which of the three kinds a failure belongs to.
///
/// `Event` failures concern a single already-retrieved event and are
/// recoverable by skipping it; `Subscription` failures concern the
/// subscription as a whole and are likely fatal; `NoMoreLogs` is not a true
/// error but the signal that no event is currently available.
#[derive(Clone, Copy, Debug, Eq, PartialEq, PartialOrd, Structural)]
pub enum ErrorKind {
    Event,
    Subscription,
    NoMoreLogs,
}

impl ErrorKind {
    /// A fixed human-readable description of the kind.
    pub fn describe(&self) -> (r: String)
        ensures
            r@ == spec_kind_text(*self),
    {
        match *self {
            ErrorKind::Event => String::from_str("event error"),
            ErrorKind::Subscription => String::from_str("event subscription error"),
            ErrorKind::NoMoreLogs => String::from_str("no more logs to pull"),
        }
    }
}

/// The fixed description of each error kind.
pub open spec fn spec_kind_text(k: ErrorKind) -> Seq<char> {
    match k {
        ErrorKind::Event => "event error"@,
        ErrorKind::Subscription => "event subscription error"@,
        ErrorKind::NoMoreLogs => "no more logs to pull"@,
    }
}

/// An error: its kind, and a human-readable message combining a static
/// description with the underlying OS error text.
#[derive(Debug)]
pub struct Error {
    pub kind: ErrorKind,
    pub message: String,
}

pub type Result<T> = core::result::Result<T, Error>;

/// The message format shared by the two constructors: the static
/// description, then the OS error text in parentheses.
pub open spec fn spec_error_message(message: Seq<char>, os_error: Seq<char>) -> Seq<char> {
    message + " - ("@ + os_error + ")"@
}

impl Error {
    /// A failure local to processing one event.
    pub fn event(message: &str, os_error: &str) -> (e: Error)
        ensures
            e.kind == ErrorKind::Event,
            e.message@ == spec_error_message(message@, os_error@),
    {
        Error { kind: ErrorKind::Event, message: compose_message(message, os_error) }
    }

    /// A failure of the subscription as a whole.
    pub fn subscription(message: &str, os_error: &str) -> (e: Error)
        ensures
            e.kind == ErrorKind::Subscription,
            e.message@ == spec_error_message(message@, os_error@),
    {
        Error { kind: ErrorKind::Subscription, message: compose_message(message, os_error) }
    }

    /// The advisory "no event currently available" condition, carrying no
    /// message.
    pub fn no_more_logs() -> (e: Error)
        ensures
            e.kind == ErrorKind::NoMoreLogs,
            e.message@ == Seq::<char>::empty(),
    {
        let m = String::new();
        Error { kind: ErrorKind::NoMoreLogs, message: m }
    }

    /// The user-visible text of the error: the carried message for the two
    /// true error kinds, and the kind's fixed description otherwise.
    pub fn display_text(&self) -> (r: String)
        ensures
            r@ == (match self.kind {
                ErrorKind::Event => self.message@,
                ErrorKind::Subscription => self.message@,
                ErrorKind::NoMoreLogs => spec_kind_text(ErrorKind::NoMoreLogs),
            }),
    {
        match self.kind {
            ErrorKind::Event => self.message.clone(),
            ErrorKind::Subscription => self.message.clone(),
            ErrorKind::NoMoreLogs => ErrorKind::NoMoreLogs.describe(),
        }
    }
}

fn compose_message(message: &str, os_error: &str) -> (m: String)
    ensures
        m@ == spec_error_message(message@, os_error@),
{
    let mut m = message.to_owned();
    m.append(" - (");
    m.append(os_error);
    m.append(")");
    proof {
        assert(m@ =~= spec_error_message(message@, os_error@));
    }
    m
}

} // verus!
