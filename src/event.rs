//! The inbound event: its members read from the JSON input, and its
//! classification into a registration or a new-message notification.
use vstd::prelude::*;
use vstd::string::StringExecFns;

use crate::registry::Registration;
use crate::NotifyError;

verus! {

/// The `event` value of a device registration.
pub const REGISTRATION_EVENT: &'static str = "ApplePushService";

/// The `event` value of a new-message notification.
pub const NOTIFICATION_EVENT: &'static str = "MessageNew";

/// What serde_json reads as the string member `key` of the JSON object in
/// `input`; `None` where `input` is no JSON object or has no such member
/// holding a string.
pub uninterp spec fn json_string_member(input: Seq<u8>, key: Seq<char>) -> Option<Seq<char>>;

/// Relies on serde_json::from_slice, serde_json::Value::get and
/// serde_json::Value::as_str: parses `input` and reads the string member
/// `key` of the object it holds.
#[verifier::external_body]
fn string_member(input: &[u8], key: &str) -> (r: Option<String>)
    ensures
        json_string_member(input@, key@) == match r {
            Some(s) => Some(s@),
            None => None::<Seq<char>>,
        },
{
    let value: serde_json::Value = serde_json::from_slice(input).ok()?;
    value.get(key).and_then(serde_json::Value::as_str).map(String::from)
}

/// A new-message notification: the user to notify, and the message's URI,
/// which only serves for logging.
pub struct Notification {
    pub user: String,
    pub uri: Option<String>,
}

/// An event that the relay handles.
pub enum Event {
    Registration(Registration),
    Notification(Notification),
}

/// The members of an event that the relay reads.
pub struct EventFields {
    pub event: Option<String>,
    pub account_id: Option<String>,
    pub device_token: Option<String>,
    pub user: Option<String>,
    pub uri: Option<String>,
}

/// The text of an optional string.
pub open spec fn text_of(s: Option<String>) -> Option<Seq<char>> {
    match s {
        Some(s) => Some(s@),
        None => None,
    }
}

/// Whether `r` is the classification of an event with these members.
pub open spec fn classified(
    event: Option<Seq<char>>,
    account_id: Option<Seq<char>>,
    device_token: Option<Seq<char>>,
    user: Option<Seq<char>>,
    uri: Option<Seq<char>>,
    r: Result<Event, NotifyError>,
) -> bool {
    match event {
        None => r matches Err(NotifyError::InvalidInput),
        Some(e) => if e == REGISTRATION_EVENT@ {
            if account_id is Some && device_token is Some && user is Some {
                &&& r matches Ok(Event::Registration(g))
                &&& Some(g.account_id@) == account_id
                &&& Some(g.device_token@) == device_token
                &&& Some(g.user@) == user
            } else {
                r matches Err(NotifyError::MalformedRegistration)
            }
        } else if e == NOTIFICATION_EVENT@ {
            if user is Some {
                &&& r matches Ok(Event::Notification(n))
                &&& Some(n.user@) == user
                &&& text_of(n.uri) == uri
            } else {
                r matches Err(NotifyError::MalformedPush)
            }
        } else {
            &&& r matches Err(NotifyError::UnsupportedEvent(s))
            &&& s@ == e
        },
    }
}

/// Classifies an event by its `event` member and checks that the members
/// its kind needs are there.
pub fn classify(fields: EventFields) -> (r: Result<Event, NotifyError>)
    ensures
        classified(
            text_of(fields.event),
            text_of(fields.account_id),
            text_of(fields.device_token),
            text_of(fields.user),
            text_of(fields.uri),
            r,
        ),
{
    let EventFields { event, account_id, device_token, user, uri } = fields;
    let event = match event {
        Some(event) => event,
        None => {
            return Err(NotifyError::InvalidInput);
        },
    };
    if event == String::from_str(REGISTRATION_EVENT) {
        match (account_id, device_token, user) {
            (Some(account_id), Some(device_token), Some(user)) => Ok(
                Event::Registration(Registration { account_id, device_token, user }),
            ),
            _ => Err(NotifyError::MalformedRegistration),
        }
    } else if event == String::from_str(NOTIFICATION_EVENT) {
        match user {
            Some(user) => Ok(Event::Notification(Notification { user, uri })),
            None => Err(NotifyError::MalformedPush),
        }
    } else {
        Err(NotifyError::UnsupportedEvent(event))
    }
}

/// The classification of the JSON event in `input`.
pub open spec fn classified_input(input: Seq<u8>, r: Result<Event, NotifyError>) -> bool {
    classified(
        json_string_member(input, "event"@),
        json_string_member(input, "apsAccountId"@),
        json_string_member(input, "apsDeviceToken"@),
        json_string_member(input, "user"@),
        json_string_member(input, "uri"@),
        r,
    )
}

/// Reads the members of the JSON event in `input` and classifies it.
pub fn parse_event(input: &[u8]) -> (r: Result<Event, NotifyError>)
    ensures
        classified_input(input@, r),
{
    let fields = EventFields {
        event: string_member(input, "event"),
        account_id: string_member(input, "apsAccountId"),
        device_token: string_member(input, "apsDeviceToken"),
        user: string_member(input, "user"),
        uri: string_member(input, "uri"),
    };
    classify(fields)
}

} // verus!
