//! Device registry and push dispatch for a mail-notification relay.
//!
//! The registry keeps, in a sled store, one record per device
//! (`device_<token>` -> account id) and one comma-delimited device list per
//! mail user. Registration puts the token in front of that list; dispatch
//! walks it and produces one push request per listed device.
use vstd::prelude::*;
use vstd::utf8::encode_utf8;

pub mod dispatch;
pub mod event;
pub mod registry;

use crate::event::{classified_input, parse_event, Event};
use crate::registry::{after_registration, register, store_contents};

verus! {

/// Why handling an event failed.
#[derive(Debug)]
pub enum NotifyError {
    /// The input holds no `event` string member.
    InvalidInput,
    /// The `event` member names a kind this relay does not handle.
    UnsupportedEvent(String),
    /// A registration lacks one of its string members.
    MalformedRegistration,
    /// A new-message notification lacks its `user` member.
    MalformedPush,
    /// The store failed to read or write.
    Store(sled::Error),
    /// A listed device has no account record: the registry is inconsistent.
    MissingAccount(Vec<u8>),
    /// A stored value under this key is not UTF-8 text.
    CorruptRecord(Vec<u8>),
}

/// Handles one inbound event: a registration is recorded in the store; a
/// notification is handed back for dispatch and leaves the store as it is.
/// An input that is not a well-formed event fails before any write.
pub fn handle_event(input: &[u8], db: &mut sled::Db) -> (r: Result<Event, NotifyError>)
    ensures
        r matches Err(e) && !(e is Store) ==> classified_input(input@, r) && store_contents(
            *final(db),
        ) == store_contents(*old(db)),
        r matches Ok(Event::Notification(_)) ==> classified_input(input@, r) && store_contents(
            *final(db),
        ) == store_contents(*old(db)),
        r matches Ok(Event::Registration(g)) ==> classified_input(input@, r) && store_contents(
            *final(db),
        ) == after_registration(
            store_contents(*old(db)),
            encode_utf8(g.account_id@),
            encode_utf8(g.device_token@),
            encode_utf8(g.user@),
        ),
        r matches Err(NotifyError::Store(_)) ==> exists|g: registry::Registration|
            classified_input(input@, Ok(Event::Registration(g))),
{
    let event = match parse_event(input) {
        Ok(event) => event,
        Err(e) => {
            return Err(e);
        },
    };
    if let Event::Registration(g) = &event {
        match register(g, db) {
            Ok(()) => {},
            Err(e) => {
                return Err(e);
            },
        }
    }
    Ok(event)
}

} // verus!
