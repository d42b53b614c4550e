//! Which screen locker a run uses.

use vstd::prelude::*;
use crate::error::Error;
use crate::text::same_text;

verus! {

/// The supported screen lockers.
#[derive(Debug, Clone, Copy, PartialEq, Eq, Structural)]
pub enum Locker {
    /// `swaylock`, for a Wayland session.
    Sway,
    /// `i3lock`, for an X11 session.
    I3,
}

/// What resolving a locker comes to, over the characters of the session type.
pub enum Resolution {
    /// This locker runs.
    Use(Locker),
    /// The session type, held here, names no supported locker.
    Unsupported(Seq<char>),
    /// There was neither a choice nor a session type.
    Unconfigured,
}

/// The locker for an explicit choice and a session type, either of which may
/// be absent. A choice always wins. Without one, the session type `wayland`
/// selects [`Locker::Sway`] and `x11` selects [`Locker::I3`]; any other session
/// type is unsupported, and none at all leaves the run unconfigured.
pub open spec fn resolution(choice: Option<Locker>, session: Option<Seq<char>>) -> Resolution {
    match (choice, session) {
        (Some(locker), _) => Resolution::Use(locker),
        (None, Some(name)) => if name == "wayland"@ {
            Resolution::Use(Locker::Sway)
        } else if name == "x11"@ {
            Resolution::Use(Locker::I3)
        } else {
            Resolution::Unsupported(name)
        },
        (None, None) => Resolution::Unconfigured,
    }
}

/// The characters of an optional string.
pub open spec fn session_text(session: Option<&str>) -> Option<Seq<char>> {
    match session {
        Some(name) => Some(name@),
        None => None,
    }
}

/// Resolves the locker to run from the user's choice and the session type.
pub fn resolve(choice: Option<Locker>, session: Option<&str>) -> (resolved: Result<Locker, Error>)
    ensures
        match resolution(choice, session_text(session)) {
            Resolution::Use(locker) => resolved == Ok::<Locker, Error>(locker),
            Resolution::Unsupported(name) => resolved matches Err(Error::UnsupportedSession(held))
                && held@ == name,
            Resolution::Unconfigured => resolved == Err::<Locker, Error>(Error::Configuration),
        },
        choice matches Some(locker) ==> resolved == Ok::<Locker, Error>(locker),
        choice is None && session is None ==> resolved == Err::<Locker, Error>(
            Error::Configuration,
        ),
        resolved is Ok <==> choice is Some || (session matches Some(name) && (name@ == "wayland"@
            || name@ == "x11"@)),
{
    match (choice, session) {
        (Some(locker), _) => Ok(locker),
        (None, Some(name)) => {
            if same_text(name, "wayland") {
                Ok(Locker::Sway)
            } else if same_text(name, "x11") {
                Ok(Locker::I3)
            } else {
                Err(Error::UnsupportedSession(name.to_owned()))
            }
        },
        (None, None) => Err(Error::Configuration),
    }
}

} // verus!
