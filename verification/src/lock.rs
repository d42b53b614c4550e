//! From the displays and the images to the locker's invocation.

use vstd::prelude::*;
use crate::arguments::{
    argument_set,
    command,
    flatten,
    flattened,
    image_arguments,
    program_of,
    style_of,
    Command,
};
use crate::error::Error;
use crate::locker::{resolution, resolve, session_text, Locker, Resolution};
use crate::text::texts;

verus! {

/// The command line of `locker` for `displays`: its style, then an image for
/// each display, the comic for the first and the fallback for the others.
pub open spec fn command_line(
    locker: Locker,
    displays: Seq<Seq<char>>,
    comic: Seq<char>,
    fallback: Seq<char>,
) -> Seq<Seq<char>> {
    style_of(locker) + flattened(image_arguments(displays, comic, fallback))
}

/// Plans the locker's invocation: resolves the locker from the user's choice
/// and the session type, and gives it the comic on the first display and the
/// fallback image on every other.
pub fn plan(
    choice: Option<Locker>,
    session: Option<&str>,
    displays: &[String],
    comic: &str,
    fallback: &str,
) -> (planned: Result<Command, Error>)
    ensures
        match resolution(choice, session_text(session)) {
            Resolution::Use(locker) => planned matches Ok(invocation) && invocation.program@
                == program_of(locker) && texts(invocation.arguments@) == command_line(
                locker,
                texts(displays@),
                comic@,
                fallback@,
            ),
            Resolution::Unsupported(name) => planned matches Err(Error::UnsupportedSession(held))
                && held@ == name,
            Resolution::Unconfigured => planned == Err::<Command, Error>(Error::Configuration),
        },
{
    let set = argument_set(displays, comic, fallback);
    let line = flatten(set.as_slice());
    match resolve(choice, session) {
        Ok(locker) => Ok(command(locker, line.as_slice())),
        Err(error) => Err(error),
    }
}

} // verus!
