//! Push dispatch: the devices of one user, walked one at a time, each
//! turned into one request for the push gateway.
//!
//! The caller sends each request and reports the gateway's status back; a
//! refused request is recorded and never stops the walk.
use vstd::prelude::*;
use vstd::string::StringExecFns;
use vstd::utf8::{decode_utf8, encode_utf8, valid_utf8};

use crate::registry::{
    append_bytes,
    device_record_key, device_tokens, device_key, list_tokens, lookup, store_contents, store_get,
    stored_list,
};
use crate::NotifyError;

verus! {

/// Where a device's push request goes: this prefix followed by its token.
pub const GATEWAY_DEVICE_URL: &'static str = "https://api.push.apple.com/3/device/";

/// The value of the `apns-push-type` header.
pub const PUSH_TYPE: &'static str = "alert";

/// The value of the `apns-priority` header.
pub const PUSH_PRIORITY: &'static str = "10";

/// How long a notification stays deliverable, in seconds: one day.
pub const EXPIRY_SECONDS: u64 = 24 * 60 * 60;

/// The gateway status of a delivered notification.
pub const STATUS_DELIVERED: u16 = 200;

/// What serde_json writes for a string: a quoted, escaped JSON literal.
pub uninterp spec fn json_string_literal(s: Seq<char>) -> Seq<char>;

/// Relies on serde_json::to_string, which writes a string as a JSON string
/// literal. Serialising a `str` does not fail.
#[verifier::external_body]
fn json_quote(s: &str) -> (r: String)
    ensures
        r@ == json_string_literal(s@),
{
    serde_json::to_string(s).unwrap_or_default()
}

/// Relies on std::str::from_utf8, which succeeds exactly on valid UTF-8 and
/// then reads the characters it encodes.
#[verifier::external_body]
fn utf8_text(bytes: &[u8]) -> (r: Option<String>)
    ensures
        r is Some <==> valid_utf8(bytes@),
        r matches Some(s) ==> s@ == decode_utf8(bytes@),
{
    std::str::from_utf8(bytes).ok().map(String::from)
}

/// The JSON body of a push: `{"aps":{"account-id":<account>}}`.
pub open spec fn push_body(account: Seq<char>) -> Seq<char> {
    "{\"aps\":{\"account-id\":"@ + json_string_literal(account) + "}}"@
}

/// The gateway address for a device token.
pub open spec fn push_url(token: Seq<char>) -> Seq<char> {
    GATEWAY_DEVICE_URL@ + token
}

/// Builds the JSON body of a push for an account.
pub fn push_body_for(account_id: &str) -> (r: String)
    ensures
        r@ == push_body(account_id@),
{
    let head = String::from_str("{\"aps\":{\"account-id\":");
    let quoted = json_quote(account_id);
    head.concat(quoted.as_str()).concat("}}")
}

/// The expiry of a notification sent at `now` (seconds since the Unix epoch).
pub fn expiry_after(now: u64) -> (r: u64)
    requires
        now <= u64::MAX - EXPIRY_SECONDS,
    ensures
        r == now + EXPIRY_SECONDS,
{
    now + EXPIRY_SECONDS
}

/// One request to the push gateway, for one device.
pub struct PushRequest {
    pub device_token: String,
    pub url: String,
    pub topic: String,
    /// Seconds since the Unix epoch after which the gateway drops it.
    pub expiration: u64,
    pub body: String,
}

/// The state of a dispatch: the listed devices, how many were handed out,
/// and the ones that the gateway refused.
pub struct DispatchView {
    pub devices: Seq<Seq<u8>>,
    pub next: nat,
    pub refused: Seq<Seq<u8>>,
}

impl DispatchView {
    /// The state after the gateway answered the last request with `status`:
    /// a refusal records the device that was handed out last.
    pub open spec fn after_status(self, status: u16) -> DispatchView {
        if status == STATUS_DELIVERED || self.next == 0 {
            self
        } else {
            DispatchView { refused: self.refused.push(self.devices[self.next - 1]), ..self }
        }
    }

    /// The state after the next device was handed out.
    pub open spec fn advanced(self) -> DispatchView {
        DispatchView { next: self.next + 1, ..self }
    }
}

/// A dispatch at its start, for a user key of store contents `m`.
pub open spec fn dispatch_start(m: Map<Seq<u8>, Seq<u8>>, user: Seq<u8>) -> DispatchView {
    DispatchView { devices: list_tokens(stored_list(m, user)), next: 0, refused: seq![] }
}

/// The devices of one user and the progress of pushing to them.
pub struct Dispatch {
    tokens: Vec<Vec<u8>>,
    texts: Vec<String>,
    next: usize,
    refused: Vec<Vec<u8>>,
}

impl View for Dispatch {
    type V = DispatchView;

    closed spec fn view(&self) -> DispatchView {
        DispatchView {
            devices: self.tokens@.map_values(|t: Vec<u8>| t@),
            next: self.next as nat,
            refused: self.refused@.map_values(|t: Vec<u8>| t@),
        }
    }
}

impl Dispatch {
    /// Every token is UTF-8 text, held decoded too, and the walk is within
    /// the list.
    pub closed spec fn wf(&self) -> bool {
        &&& self.texts@.len() == self.tokens@.len()
        &&& self.next <= self.tokens@.len()
        &&& forall|i: int|
            0 <= i < self.tokens@.len() ==> valid_utf8(#[trigger] self.tokens@[i]@)
                && self.texts@[i]@ == decode_utf8(self.tokens@[i]@)
    }
}


/// Every device token is UTF-8 text.
pub open spec fn all_text(devices: Seq<Seq<u8>>) -> bool {
    forall|i: int| 0 <= i < devices.len() ==> valid_utf8(#[trigger] devices[i])
}

impl Dispatch {
    /// Reads the device list of `user` and starts a dispatch over its
    /// tokens. A user without a list gets an empty dispatch.
    pub fn start(db: &sled::Db, user: &str) -> (r: Result<Dispatch, NotifyError>)
        ensures
            r matches Ok(d) ==> (d.wf() && d@ == dispatch_start(
                store_contents(*db),
                encode_utf8(user@),
            ) && all_text(d@.devices)),
            r matches Err(e) ==> e is Store || e is CorruptRecord,
            r matches Err(NotifyError::CorruptRecord(k)) ==> (k@ == encode_utf8(user@) && !all_text(
                dispatch_start(store_contents(*db), encode_utf8(user@)).devices,
            )),
    {
        let key = user.as_bytes();
        let found = match store_get(db, key) {
            Ok(found) => found,
            Err(e) => {
                return Err(NotifyError::Store(e));
            },
        };
        let tokens = match found {
            Some(list) => device_tokens(list.as_slice()),
            None => {
                let none: Vec<Vec<u8>> = Vec::new();
                assert(none@.map_values(|t: Vec<u8>| t@) == list_tokens(seq![]));
                none
            },
        };
        let ghost devices = tokens@.map_values(|t: Vec<u8>| t@);
        assert(key@ == encode_utf8(user@));
        assert(devices == dispatch_start(store_contents(*db), key@).devices);
        let mut texts: Vec<String> = Vec::new();
        let mut i: usize = 0;
        while i < tokens.len()
            invariant
                i <= tokens@.len(),
                texts@.len() == i,
                devices == tokens@.map_values(|t: Vec<u8>| t@),
                key@ == encode_utf8(user@),
                devices == dispatch_start(store_contents(*db), key@).devices,
                forall|j: int|
                    0 <= j < i ==> valid_utf8(#[trigger] tokens@[j]@) && texts@[j]@
                        == decode_utf8(tokens@[j]@),
            decreases tokens@.len() - i,
        {
            match utf8_text(tokens[i].as_slice()) {
                Some(text) => texts.push(text),
                None => {
                    assert(!valid_utf8(devices[i as int]));
                    let mut k: Vec<u8> = Vec::new();
                    append_bytes(&mut k, key);
                    assert(k@ =~= key@);
                    assert(!all_text(devices));
                    return Err(NotifyError::CorruptRecord(k));
                },
            }
            i = i + 1;
        }
        let refused: Vec<Vec<u8>> = Vec::new();
        assert(refused@.map_values(|t: Vec<u8>| t@) == Seq::<Seq<u8>>::empty());
        assert forall|j: int| 0 <= j < devices.len() implies valid_utf8(#[trigger] devices[j]) by {
            assert(devices[j] == tokens@[j]@);
        }
        Ok(Dispatch { tokens, texts, next: 0, refused })
    }

    /// Hands out the request for the next device, or `None` once every
    /// device was handed out. The account comes from the device's record;
    /// a device without one means the registry is inconsistent, and fails.
    pub fn next_push(&mut self, db: &sled::Db, topic: &str, expiration: u64) -> (r: Result<
        Option<PushRequest>,
        NotifyError,
    >)
        requires
            old(self).wf(),
        ensures
            final(self).wf(),
            r is Err ==> final(self)@ == old(self)@,
            old(self)@.next >= old(self)@.devices.len() ==> (r matches Ok(None)) && final(self)@
                == old(self)@,
            old(self)@.next < old(self)@.devices.len() ==> {
                let token = old(self)@.devices[old(self)@.next as int];
                let account = lookup(store_contents(*db), device_key(token));
                match r {
                    Ok(Some(req)) => {
                        &&& (account matches Some(a) && valid_utf8(a) && req.body@ == push_body(
                            decode_utf8(a),
                        ))
                        &&& req.device_token@ == decode_utf8(token)
                        &&& req.url@ == push_url(decode_utf8(token))
                        &&& req.topic@ == topic@
                        &&& req.expiration == expiration
                        &&& final(self)@ == old(self)@.advanced()
                    },
                    Ok(None) => false,
                    Err(NotifyError::MissingAccount(t)) => t@ == token && account is None,
                    Err(NotifyError::CorruptRecord(k)) => k@ == device_key(token) && (
                    account matches Some(a) && !valid_utf8(a)),
                    Err(NotifyError::Store(_)) => true,
                    Err(_) => false,
                }
            },
    {
        if self.next >= self.tokens.len() {
            return Ok(None);
        }
        let i = self.next;
        let key = device_record_key(self.tokens[i].as_slice());
        let account = match store_get(db, key.as_slice()) {
            Ok(Some(account)) => account,
            Ok(None) => {
                let mut t: Vec<u8> = Vec::new();
                append_bytes(&mut t, self.tokens[i].as_slice());
                assert(t@ =~= self.tokens@[i as int]@);
                return Err(NotifyError::MissingAccount(t));
            },
            Err(e) => {
                return Err(NotifyError::Store(e));
            },
        };
        let account_text = match utf8_text(account.as_slice()) {
            Some(text) => text,
            None => {
                return Err(NotifyError::CorruptRecord(key));
            },
        };
        let token_text = self.texts[i].clone();
        let url = String::from_str(GATEWAY_DEVICE_URL).concat(token_text.as_str());
        let body = push_body_for(account_text.as_str());
        self.next = i + 1;
        Ok(
            Some(
                PushRequest {
                    device_token: token_text,
                    url,
                    topic: String::from_str(topic),
                    expiration,
                    body,
                },
            ),
        )
    }

    /// Records the gateway's answer to the request handed out last, and
    /// tells whether it was delivered. A refusal is kept; the walk goes on.
    pub fn record_status(&mut self, status: u16) -> (delivered: bool)
        requires
            old(self).wf(),
        ensures
            final(self).wf(),
            delivered == (status == STATUS_DELIVERED),
            final(self)@ == old(self)@.after_status(status),
    {
        if status == STATUS_DELIVERED {
            return true;
        }
        if self.next > 0 {
            let mut t: Vec<u8> = Vec::new();
            append_bytes(&mut t, self.tokens[self.next - 1].as_slice());
            let ghost before = self.refused@;
            self.refused.push(t);
            assert(self.refused@.map_values(|t: Vec<u8>| t@) == before.map_values(
                |t: Vec<u8>| t@,
            ).push(self.tokens@[self.next - 1]@));
        }
        false
    }

    /// How many devices were handed out so far.
    pub fn attempted(&self) -> (r: usize)
        ensures
            r == self@.next,
    {
        self.next
    }

    /// How many devices the list holds.
    pub fn device_count(&self) -> (r: usize)
        ensures
            r == self@.devices.len(),
    {
        self.tokens.len()
    }

    /// How many requests the gateway refused.
    pub fn refused_count(&self) -> (r: usize)
        ensures
            r == self@.refused.len(),
    {
        self.refused.len()
    }
}

/// A user without a device list gets no push: the dispatch starts with no
/// device to send to.
pub proof fn unknown_user_gets_no_push(m: Map<Seq<u8>, Seq<u8>>, user: Seq<u8>)
    requires
        lookup(m, user) is None,
    ensures
        dispatch_start(m, user).devices.len() == 0,
{
    assert(stored_list(m, user) == Seq::<u8>::empty());
}

/// Whatever the gateway answers, the walk goes on from where it was: the
/// devices and the position of the next one stay as they were, and a
/// refusal only records the device.
pub proof fn gateway_answer_keeps_walk(d: DispatchView, status: u16)
    ensures
        d.after_status(status).devices == d.devices,
        d.after_status(status).next == d.next,
        status != STATUS_DELIVERED && d.next > 0 ==> d.after_status(status).refused
            == d.refused.push(d.devices[d.next - 1]),
{
}

} // verus!
