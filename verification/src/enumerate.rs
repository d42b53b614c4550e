//! Finding the connected displays. Two queries can tell: the compositor's,
//! which is asked first, and the legacy one, which is asked only where the
//! compositor's could not be launched.

use vstd::prelude::*;
use vstd::utf8::{decode_utf8, valid_utf8};
use crate::display::{names, names_of, sort_widest_first, widest_first, Display};
use crate::error::Error;
use crate::text::{decode, texts};
use crate::xrandr::{connected_names, connected_outputs, lines};

verus! {

/// How asking the compositor for its outputs ended.
#[derive(Debug, Clone, PartialEq, Eq)]
pub enum SwayReply {
    /// The query could not be launched.
    Unavailable,
    /// The query ran, and what it printed is no list of outputs.
    Malformed,
    /// The outputs, in the order in which the query printed them.
    Outputs(Vec<Display>),
}

/// How asking the legacy query ended.
#[derive(Debug, Clone, PartialEq, Eq)]
pub enum XrandrReply {
    /// The query could not be launched.
    Unavailable,
    /// What the query printed.
    Listing(Vec<u8>),
}

/// What follows the compositor's reply.
#[derive(Debug, Clone, PartialEq, Eq)]
pub enum Enumeration {
    /// The displays are known: their names, widest first.
    Found(Vec<String>),
    /// The legacy query has to be asked.
    AskXrandr,
    /// The displays cannot be told.
    Failed(Error),
}

/// Decides what follows the compositor's reply. Its outputs are final,
/// widest first and those of equal width in the order given. Only a query
/// that could not be launched hands over to the legacy query; a reply that
/// could not be decoded fails the enumeration.
pub fn after_swaymsg(reply: SwayReply) -> (next: Enumeration)
    ensures
        match reply {
            SwayReply::Unavailable => next == Enumeration::AskXrandr,
            SwayReply::Malformed => next == Enumeration::Failed(Error::Parse),
            SwayReply::Outputs(outputs) => next matches Enumeration::Found(found) && texts(found@)
                == names_of(widest_first(outputs@)),
        },
{
    match reply {
        SwayReply::Unavailable => Enumeration::AskXrandr,
        SwayReply::Malformed => Enumeration::Failed(Error::Parse),
        SwayReply::Outputs(outputs) => {
            let arranged = sort_widest_first(outputs);
            Enumeration::Found(names(arranged.as_slice()))
        },
    }
}

/// The names that a listing of the legacy query holds, where it is text.
pub open spec fn listed_names(listing: Seq<u8>) -> Option<Seq<Seq<char>>> {
    if valid_utf8(listing) {
        Some(connected_names(lines(decode_utf8(listing))))
    } else {
        None
    }
}

/// Decides what follows the legacy query's reply. Its listing names the
/// displays in the listing's own order, and a listing that is no text fails
/// the enumeration. Where this query could not be launched either, no tool
/// is left to ask.
pub fn after_xrandr(reply: XrandrReply) -> (found: Result<Vec<String>, Error>)
    ensures
        match reply {
            XrandrReply::Unavailable => found == Err::<Vec<String>, Error>(Error::ExternalTool),
            XrandrReply::Listing(listing) => match listed_names(listing@) {
                Some(listed) => found matches Ok(names) && texts(names@) == listed,
                None => found == Err::<Vec<String>, Error>(Error::Parse),
            },
        },
{
    match reply {
        XrandrReply::Unavailable => Err(Error::ExternalTool),
        XrandrReply::Listing(listing) => match decode(listing.as_slice()) {
            Some(text) => Ok(connected_outputs(text)),
            None => Err(Error::Parse),
        },
    }
}

} // verus!
