//! The sled-backed registry: its model as a map of byte strings, the
//! trusted calls into sled, and the registration update.
use vstd::prelude::*;
use vstd::utf8::encode_utf8;

use crate::NotifyError;

verus! {

/// The byte that separates device tokens in a user's device list (`,`).
pub const LIST_SEPARATOR: u8 = 44;

#[verifier::external_type_specification]
#[verifier::external_body]
pub struct ExDb(sled::Db);

#[verifier::external_type_specification]
#[verifier::external_body]
pub struct ExSledError(sled::Error);

/// What a sled database holds: each key with its value.
pub uninterp spec fn store_contents(db: sled::Db) -> Map<Seq<u8>, Seq<u8>>;

/// The value under `key`, if any.
pub open spec fn lookup(m: Map<Seq<u8>, Seq<u8>>, key: Seq<u8>) -> Option<Seq<u8>> {
    if m.contains_key(key) {
        Some(m[key])
    } else {
        None
    }
}

/// A device list after `token` was put in front of it.
pub open spec fn prepended(token: Seq<u8>, current: Option<Seq<u8>>) -> Seq<u8> {
    match current {
        Some(list) => token.push(LIST_SEPARATOR) + list,
        None => token.push(LIST_SEPARATOR),
    }
}

/// Builds the new device list from a token and the list stored so far.
pub fn prepend_device(token: &[u8], current: Option<&[u8]>) -> (r: Vec<u8>)
    ensures
        r@ == prepended(
            token@,
            match current {
                Some(c) => Some(c@),
                None => None,
            },
        ),
{
    let mut r: Vec<u8> = Vec::new();
    append_bytes(&mut r, token);
    r.push(LIST_SEPARATOR);
    if let Some(c) = current {
        append_bytes(&mut r, c);
    }
    r
}

/// Appends the bytes of `tail` to `v`.
pub fn append_bytes(v: &mut Vec<u8>, tail: &[u8])
    ensures
        final(v)@ == old(v)@ + tail@,
{
    let mut i: usize = 0;
    while i < tail.len()
        invariant
            i <= tail@.len(),
            v@ == old(v)@ + tail@.subrange(0, i as int),
        decreases tail@.len() - i,
    {
        v.push(tail[i]);
        i = i + 1;
        assert(tail@.subrange(0, i as int) == tail@.subrange(0, i - 1 as int).push(tail@[i - 1]));
    }
    assert(tail@.subrange(0, i as int) == tail@);
}

/// The key of a device record: `device_` followed by the token.
pub open spec fn device_key(token: Seq<u8>) -> Seq<u8> {
    // the ASCII bytes of "device_"
    seq![100u8, 101, 118, 105, 99, 101, 95] + token
}

/// The store after one registration: the device record is written first,
/// then the token is put in front of the user's list as it stands then.
pub open spec fn after_registration(
    m: Map<Seq<u8>, Seq<u8>>,
    account: Seq<u8>,
    token: Seq<u8>,
    user: Seq<u8>,
) -> Map<Seq<u8>, Seq<u8>> {
    let with_device = m.insert(device_key(token), account);
    with_device.insert(user, prepended(token, lookup(with_device, user)))
}

/// Builds the key of the record for a device token.
pub fn device_record_key(token: &[u8]) -> (r: Vec<u8>)
    ensures
        r@ == device_key(token@),
{
    // the ASCII bytes of "device_"
    let mut r: Vec<u8> = vec![100u8, 101, 118, 105, 99, 101, 95];
    append_bytes(&mut r, token);
    r
}

/// Relies on sled::Tree::insert, which stores `value` under `key`. The
/// contract assumes no other process writes to the store during the call.
#[verifier::external_body]
fn store_put(db: &mut sled::Db, key: &[u8], value: &[u8]) -> (r: Result<(), sled::Error>)
    ensures
        r is Ok ==> store_contents(*final(db)) == store_contents(*old(db)).insert(key@, value@),
{
    db.insert(key, value).map(|_previous| ())
}

/// Relies on sled::Tree::get, which returns the value stored under `key`.
#[verifier::external_body]
pub(crate) fn store_get(db: &sled::Db, key: &[u8]) -> (r: Result<Option<Vec<u8>>, sled::Error>)
    ensures
        r matches Ok(v) ==> lookup(store_contents(*db), key@) == match v {
            Some(b) => Some(b@),
            None => None::<Seq<u8>>,
        },
{
    db.get(key).map(|found| found.map(|value| value.to_vec()))
}

/// Relies on sled::Tree::fetch_and_update, which applies the closure to the
/// value under `key` and stores what it returns as one compare-and-swap,
/// retrying on conflict. The closure only calls `prepend_device`. The
/// contract assumes no other process writes to the store during the call.
#[verifier::external_body]
fn store_prepend(db: &mut sled::Db, key: &[u8], token: &[u8]) -> (r: Result<(), sled::Error>)
    ensures
        r is Ok ==> store_contents(*final(db)) == store_contents(*old(db)).insert(
            key@,
            prepended(token@, lookup(store_contents(*old(db)), key@)),
        ),
{
    db.fetch_and_update(key, |current| Some(prepend_device(token, current))).map(|_previous| ())
}

/// A finished run of token bytes: kept unless it is empty.
pub open spec fn finished(run: Seq<u8>) -> Seq<Seq<u8>> {
    if run.len() == 0 {
        seq![]
    } else {
        seq![run]
    }
}

/// The tokens of `s`, where `run` holds the bytes of the current token read
/// so far: the separator-free runs, in order, with empty runs skipped.
pub open spec fn tokens_after(run: Seq<u8>, s: Seq<u8>) -> Seq<Seq<u8>>
    decreases s.len(),
{
    if s.len() == 0 {
        finished(run)
    } else if s[0] == LIST_SEPARATOR {
        finished(run) + tokens_after(seq![], s.drop_first())
    } else {
        tokens_after(run.push(s[0]), s.drop_first())
    }
}

/// The device tokens of a stored device list.
pub open spec fn list_tokens(list: Seq<u8>) -> Seq<Seq<u8>> {
    tokens_after(seq![], list)
}

/// A user's device list as stored, empty where the user has none.
pub open spec fn stored_list(m: Map<Seq<u8>, Seq<u8>>, user: Seq<u8>) -> Seq<u8> {
    match lookup(m, user) {
        Some(list) => list,
        None => seq![],
    }
}

/// Splits a device list at its separators, skipping empty fields.
pub fn device_tokens(list: &[u8]) -> (r: Vec<Vec<u8>>)
    ensures
        r@.map_values(|t: Vec<u8>| t@) == list_tokens(list@),
{
    let mut out: Vec<Vec<u8>> = Vec::new();
    let mut run: Vec<u8> = Vec::new();
    let mut i: usize = 0;
    assert(list@.skip(0) == list@);
    assert(out@.map_values(|t: Vec<u8>| t@) + tokens_after(run@, list@) == tokens_after(run@, list@));
    while i < list.len()
        invariant
            i <= list@.len(),
            out@.map_values(|t: Vec<u8>| t@) + tokens_after(run@, list@.skip(i as int))
                == list_tokens(list@),
        decreases list@.len() - i,
    {
        let ghost rest = list@.skip(i as int);
        assert(rest.drop_first() == list@.skip(i + 1));
        if list[i] == LIST_SEPARATOR {
            let ghost before = out@;
            if run.len() > 0 {
                out.push(run);
                assert(out@.map_values(|t: Vec<u8>| t@) == before.map_values(|t: Vec<u8>| t@)
                    + finished(run@));
            } else {
                assert(finished(run@) == Seq::<Seq<u8>>::empty());
                assert(before.map_values(|t: Vec<u8>| t@) + finished(run@)
                    == before.map_values(|t: Vec<u8>| t@));
            }
            run = Vec::new();
            assert(run@ == Seq::<u8>::empty());
        } else {
            run.push(list[i]);
        }
        i = i + 1;
    }
    assert(list@.skip(i as int).len() == 0);
    let ghost before = out@;
    if run.len() > 0 {
        out.push(run);
        assert(out@.map_values(|t: Vec<u8>| t@) == before.map_values(|t: Vec<u8>| t@)
            + finished(run@));
    } else {
        assert(before.map_values(|t: Vec<u8>| t@) + finished(run@)
            == before.map_values(|t: Vec<u8>| t@));
    }
    out
}

/// A separator-free token followed by a separator ends the current run.
pub proof fn lemma_token_then_separator(run: Seq<u8>, token: Seq<u8>, rest: Seq<u8>)
    requires
        !token.contains(LIST_SEPARATOR),
    ensures
        tokens_after(run, token.push(LIST_SEPARATOR) + rest) == finished(run + token)
            + tokens_after(seq![], rest),
    decreases token.len(),
{
    let s = token.push(LIST_SEPARATOR) + rest;
    if token.len() == 0 {
        assert(s[0] == LIST_SEPARATOR);
        assert(s.drop_first() == rest);
        assert(run + token == run);
    } else {
        let tail = token.drop_first();
        assert(s[0] == token[0]);
        assert(s.drop_first() == tail.push(LIST_SEPARATOR) + rest);
        assert(!tail.contains(LIST_SEPARATOR)) by {
            if tail.contains(LIST_SEPARATOR) {
                let k = choose|k: int| 0 <= k < tail.len() && tail[k] == LIST_SEPARATOR;
                assert(token[k + 1] == LIST_SEPARATOR);
            }
        }
        lemma_token_then_separator(run.push(token[0]), tail, rest);
        assert(run.push(token[0]) + tail == run + token);
    }
}

/// Putting a nonempty, separator-free token in front of a list makes it the
/// list's first token and leaves the others as they were.
pub proof fn lemma_prepended_tokens(token: Seq<u8>, current: Option<Seq<u8>>)
    requires
        token.len() > 0,
        !token.contains(LIST_SEPARATOR),
    ensures
        list_tokens(prepended(token, current)) == seq![token] + list_tokens(
            match current {
                Some(list) => list,
                None => seq![],
            },
        ),
{
    let rest = match current {
        Some(list) => list,
        None => Seq::<u8>::empty(),
    };
    assert(prepended(token, current) == token.push(LIST_SEPARATOR) + rest);
    lemma_token_then_separator(seq![], token, rest);
    assert(Seq::<u8>::empty() + token == token);
}

/// After a registration the device record holds the account, and a
/// nonempty, separator-free token is the first token of the user's list,
/// followed by the tokens listed before. A user named like the device's own
/// record key is left out: there the list overwrites the record.
pub proof fn registration_is_recorded(
    m: Map<Seq<u8>, Seq<u8>>,
    account: Seq<u8>,
    token: Seq<u8>,
    user: Seq<u8>,
)
    requires
        user != device_key(token),
    ensures
        lookup(after_registration(m, account, token, user), device_key(token)) == Some(account),
        lookup(after_registration(m, account, token, user), user) == Some(
            prepended(token, lookup(m, user)),
        ),
        token.len() > 0 && !token.contains(LIST_SEPARATOR) ==> list_tokens(
            stored_list(after_registration(m, account, token, user), user),
        ) == seq![token] + list_tokens(stored_list(m, user)),
{
    let with_device = m.insert(device_key(token), account);
    assert(lookup(with_device, user) == lookup(m, user));
    if token.len() > 0 && !token.contains(LIST_SEPARATOR) {
        lemma_prepended_tokens(token, lookup(m, user));
    }
}

/// Registering one device twice for one user lists its token twice: the
/// list is not deduplicated.
pub proof fn repeated_registration_lists_twice(
    m: Map<Seq<u8>, Seq<u8>>,
    first_account: Seq<u8>,
    second_account: Seq<u8>,
    token: Seq<u8>,
    user: Seq<u8>,
)
    requires
        user != device_key(token),
        token.len() > 0,
        !token.contains(LIST_SEPARATOR),
    ensures
        list_tokens(
            stored_list(
                after_registration(
                    after_registration(m, first_account, token, user),
                    second_account,
                    token,
                    user,
                ),
                user,
            ),
        ) == seq![token, token] + list_tokens(stored_list(m, user)),
{
    let once = after_registration(m, first_account, token, user);
    registration_is_recorded(m, first_account, token, user);
    registration_is_recorded(once, second_account, token, user);
    assert(seq![token] + (seq![token] + list_tokens(stored_list(m, user))) == seq![token, token]
        + list_tokens(stored_list(m, user)));
}

/// A device registration request: the push account, the device token and
/// the mail user that the device belongs to.
pub struct Registration {
    pub account_id: String,
    pub device_token: String,
    pub user: String,
}

/// Records a device for a user: writes `device_<token> -> account` and puts
/// the token in front of the user's device list. The two writes are separate
/// store operations; the list update is atomic on its own key.
pub fn register(registration: &Registration, db: &mut sled::Db) -> (r: Result<(), NotifyError>)
    ensures
        r is Ok ==> store_contents(*final(db)) == after_registration(
            store_contents(*old(db)),
            encode_utf8(registration.account_id@),
            encode_utf8(registration.device_token@),
            encode_utf8(registration.user@),
        ),
        r matches Err(e) ==> e is Store,
{
    let token = registration.device_token.as_str().as_bytes();
    let key = device_record_key(token);
    match store_put(db, key.as_slice(), registration.account_id.as_str().as_bytes()) {
        Ok(()) => {},
        Err(e) => {
            return Err(NotifyError::Store(e));
        },
    }
    match store_prepend(db, registration.user.as_str().as_bytes(), token) {
        Ok(()) => Ok(()),
        Err(e) => Err(NotifyError::Store(e)),
    }
}

} // verus!
