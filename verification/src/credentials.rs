//! Credential storage abstraction.
//!
//! Production builds talk to the host OS keychain through the `keyring`
//! crate; tests use [`InMemoryStore`]. The [`CredentialStore`] trait keeps
//! call sites storage-agnostic.

use vstd::hash_map::StringHashMap;
use vstd::prelude::*;

verus! {

/// Service name under which every keyring entry of this application lives.
pub const SERVICE: &'static str = "musictui2";

/// Canonical key for an optional GitHub token stored in the keyring.
pub const GITHUB_TOKEN_KEY: &'static str = "github-token";

/// Errors raised by credential storage backends.
#[derive(Debug)]
pub enum CredentialError {
    Backend(String),
}

impl CredentialError {
    /// A backend error carrying `msg`.
    pub fn backend(msg: String) -> (e: Self)
        ensures
            e == CredentialError::Backend(msg),
    {
        CredentialError::Backend(msg)
    }

    /// The text of this error, as shown to users.
    pub fn message(&self) -> (m: String)
        ensures
            m@ == "Keyring backend error: "@ + self->Backend_0@,
    {
        match self {
            CredentialError::Backend(msg) => {
                let mut m = String::from_str("Keyring backend error: ");
                m.append(msg.as_str());
                m
            },
        }
    }
}

/// The plain-value view of a lookup result: the secret, if any, or the
/// error text.
pub open spec fn lookup_view(r: Result<Option<String>, CredentialError>) -> Result<Option<Seq<char>>, Seq<char>> {
    match r {
        Ok(Some(v)) => Ok(Some(v@)),
        Ok(None) => Ok(None),
        Err(CredentialError::Backend(m)) => Err(m@),
    }
}

/// The plain-value view of a write or delete result.
pub open spec fn unit_view(r: Result<(), CredentialError>) -> Result<(), Seq<char>> {
    match r {
        Ok(()) => Ok(()),
        Err(CredentialError::Backend(m)) => Err(m@),
    }
}

/// Storage backend for sensitive strings (WebDAV passwords, GitHub tokens).
///
/// Each implementation says, through its spec functions, which results its
/// operations may produce.
pub trait CredentialStore: Send + Sync {
    /// The secrets this value holds in the process, by key.
    spec fn contents(&self) -> Map<Seq<char>, Seq<char>>;

    /// `r` is a result that `get(key)` may produce on this store.
    spec fn get_allows(&self, key: Seq<char>, r: Result<Option<Seq<char>>, Seq<char>>) -> bool;

    /// `set(key, secret)` may leave this store holding `after`, with result
    /// `r`.
    spec fn set_allows(&self, after: Map<Seq<char>, Seq<char>>, key: Seq<char>, secret: Seq<char>, r: Result<(), Seq<char>>) -> bool;

    /// `delete(key)` may leave this store holding `after`, with result `r`.
    spec fn delete_allows(&self, after: Map<Seq<char>, Seq<char>>, key: Seq<char>, r: Result<(), Seq<char>>) -> bool;

    fn get(&self, key: &str) -> (r: Result<Option<String>, CredentialError>)
        ensures
            self.get_allows(key@, lookup_view(r)),
    ;

    fn set(&mut self, key: &str, secret: &str) -> (r: Result<(), CredentialError>)
        ensures
            old(self).set_allows(final(self).contents(), key@, secret@, unit_view(r)),
    ;

    fn delete(&mut self, key: &str) -> (r: Result<(), CredentialError>)
        ensures
            old(self).delete_allows(final(self).contents(), key@, unit_view(r)),
    ;
}

/// The value stored under `key`, if any.
pub open spec fn lookup(m: Map<Seq<char>, Seq<char>>, key: Seq<char>) -> Option<Seq<char>> {
    if m.dom().contains(key) {
        Some(m[key])
    } else {
        None
    }
}

/// Thread-confined in-memory store, used by tests and as a fallback.
pub struct InMemoryStore {
    entries: StringHashMap<String>,
}

impl View for InMemoryStore {
    type V = Map<Seq<char>, Seq<char>>;

    closed spec fn view(&self) -> Map<Seq<char>, Seq<char>> {
        self.entries@.map_values(|v: String| v@)
    }
}

impl InMemoryStore {
    /// An empty store.
    pub fn new() -> (s: Self)
        ensures
            s@ == Map::<Seq<char>, Seq<char>>::empty(),
    {
        let s = InMemoryStore { entries: StringHashMap::new() };
        assert(s@ =~= Map::<Seq<char>, Seq<char>>::empty());
        s
    }
}

impl Default for InMemoryStore {
    fn default() -> (s: Self)
        ensures
            s@ == Map::<Seq<char>, Seq<char>>::empty(),
    {
        InMemoryStore::new()
    }
}

impl CredentialStore for InMemoryStore {
    open spec fn contents(&self) -> Map<Seq<char>, Seq<char>> {
        self@
    }

    open spec fn get_allows(&self, key: Seq<char>, r: Result<Option<Seq<char>>, Seq<char>>) -> bool {
        r == Ok::<Option<Seq<char>>, Seq<char>>(lookup(self@, key))
    }

    open spec fn set_allows(&self, after: Map<Seq<char>, Seq<char>>, key: Seq<char>, secret: Seq<char>, r: Result<(), Seq<char>>) -> bool {
        &&& after == self@.insert(key, secret)
        &&& r == Ok::<(), Seq<char>>(())
    }

    open spec fn delete_allows(&self, after: Map<Seq<char>, Seq<char>>, key: Seq<char>, r: Result<(), Seq<char>>) -> bool {
        &&& after == self@.remove(key)
        &&& r == Ok::<(), Seq<char>>(())
    }

    fn get(&self, key: &str) -> (r: Result<Option<String>, CredentialError>) {
        match self.entries.get(key) {
            Some(v) => Ok(Some(v.clone())),
            None => Ok(None),
        }
    }

    fn set(&mut self, key: &str, secret: &str) -> (r: Result<(), CredentialError>) {
        let ghost before = self@;
        self.entries.insert(key.to_string(), secret.to_string());
        assert(self@ =~= before.insert(key@, secret@));
        Ok(())
    }

    fn delete(&mut self, key: &str) -> (r: Result<(), CredentialError>) {
        let ghost before = self@;
        self.entries.remove(key);
        assert(self@ =~= before.remove(key@));
        Ok(())
    }
}

/// An entry handle of the `keyring` crate.
#[verifier::external_type_specification]
#[verifier::external_body]
pub struct ExKeyringEntry(keyring::Entry);

/// The error type of the `keyring` crate.
#[verifier::external_type_specification]
#[verifier::external_body]
pub struct ExKeyringError(keyring::Error);

/// `keyring::Entry::new(service, user)`. Whether it succeeds depends on the
/// platform credential store, so nothing is stated of the result.
#[verifier::external_body]
fn open_entry(service: &str, user: &str) -> Result<keyring::Entry, keyring::Error> {
    keyring::Entry::new(service, user)
}

/// `keyring::Entry::get_password`. The result depends on what the platform
/// store holds, so nothing is stated of it.
#[verifier::external_body]
fn read_password(entry: &keyring::Entry) -> Result<String, keyring::Error> {
    entry.get_password()
}

/// `keyring::Entry::set_password`. The result depends on the platform store,
/// so nothing is stated of it.
#[verifier::external_body]
fn write_password(entry: &keyring::Entry, password: &str) -> Result<(), keyring::Error> {
    entry.set_password(password)
}

/// `keyring::Entry::delete_credential`. The result depends on the platform
/// store, so nothing is stated of it.
#[verifier::external_body]
fn remove_credential(entry: &keyring::Entry) -> Result<(), keyring::Error> {
    entry.delete_credential()
}

/// Tells the `keyring::Error::NoEntry` variant apart from the others. The
/// error is opaque here, so the answer is not tied to anything stated.
#[verifier::external_body]
fn is_no_entry(err: &keyring::Error) -> bool {
    match err {
        keyring::Error::NoEntry => true,
        _ => false,
    }
}

/// The `Display` text of a `keyring::Error`; the error is opaque here, so the
/// text is not tied to anything stated.
#[verifier::external_body]
fn keyring_error_text(err: &keyring::Error) -> String {
    err.to_string()
}

/// How a keyring operation ended, as plain values: it was done, with its
/// value; the entry was missing; or it failed. The last two carry the
/// error's text.
#[derive(Debug, Clone, PartialEq, Eq)]
pub enum KeyringOutcome<T> {
    Done(T),
    NoEntry(String),
    Failed(String),
}

/// A keyring result as an outcome: the value where it succeeded, else the
/// error, told apart by whether it is `NoEntry`, with its text.
fn keyring_outcome<T>(r: Result<T, keyring::Error>) -> (o: KeyringOutcome<T>)
    ensures
        r matches Ok(v) ==> o == KeyringOutcome::Done(v),
        r is Err ==> !(o is Done),
{
    match r {
        Ok(v) => KeyringOutcome::Done(v),
        Err(err) => {
            let text = keyring_error_text(&err);
            if is_no_entry(&err) {
                KeyringOutcome::NoEntry(text)
            } else {
                KeyringOutcome::Failed(text)
            }
        },
    }
}

/// What a read of the keyring returns for its outcome: the stored
/// password; none where the entry is missing; a backend error with the
/// keyring's text where it failed.
pub fn read_result(outcome: KeyringOutcome<String>) -> (r: Result<Option<String>, CredentialError>)
    ensures
        match outcome {
            KeyringOutcome::Done(v) => r == Ok::<Option<String>, CredentialError>(Some(v)),
            KeyringOutcome::NoEntry(_) => r == Ok::<Option<String>, CredentialError>(None),
            KeyringOutcome::Failed(t) => r == Err::<Option<String>, CredentialError>(CredentialError::Backend(t)),
        },
{
    match outcome {
        KeyringOutcome::Done(v) => Ok(Some(v)),
        KeyringOutcome::NoEntry(_) => Ok(None),
        KeyringOutcome::Failed(t) => Err(CredentialError::Backend(t)),
    }
}

/// What a write to the keyring returns for its outcome: success where it
/// was done; otherwise, a missing entry included, a backend error with the
/// keyring's text.
pub fn write_result(outcome: KeyringOutcome<()>) -> (r: Result<(), CredentialError>)
    ensures
        match outcome {
            KeyringOutcome::Done(_) => r == Ok::<(), CredentialError>(()),
            KeyringOutcome::NoEntry(t) => r == Err::<(), CredentialError>(CredentialError::Backend(t)),
            KeyringOutcome::Failed(t) => r == Err::<(), CredentialError>(CredentialError::Backend(t)),
        },
{
    match outcome {
        KeyringOutcome::Done(_) => Ok(()),
        KeyringOutcome::NoEntry(t) => Err(CredentialError::Backend(t)),
        KeyringOutcome::Failed(t) => Err(CredentialError::Backend(t)),
    }
}

/// What a delete from the keyring returns for its outcome: success where it
/// was done or there was nothing to delete; a backend error with the
/// keyring's text where it failed.
pub fn delete_result(outcome: KeyringOutcome<()>) -> (r: Result<(), CredentialError>)
    ensures
        match outcome {
            KeyringOutcome::Done(_) => r == Ok::<(), CredentialError>(()),
            KeyringOutcome::NoEntry(_) => r == Ok::<(), CredentialError>(()),
            KeyringOutcome::Failed(t) => r == Err::<(), CredentialError>(CredentialError::Backend(t)),
        },
{
    match outcome {
        KeyringOutcome::Done(_) => Ok(()),
        KeyringOutcome::NoEntry(_) => Ok(()),
        KeyringOutcome::Failed(t) => Err(CredentialError::Backend(t)),
    }
}

/// Opening the entry for `key` under the application's service: the entry,
/// or a failure with the keyring's text, whatever the error.
fn open_service_entry(key: &str) -> (r: Result<keyring::Entry, String>) {
    match open_entry(SERVICE, key) {
        Ok(entry) => Ok(entry),
        Err(err) => Err(keyring_error_text(&err)),
    }
}

/// OS keyring-backed store. Each entry lives under the [`SERVICE`] name to
/// avoid clashing with other applications on the same host.
pub struct KeyringStore;

impl KeyringStore {
    pub fn new() -> (s: Self)
        ensures
            s == KeyringStore,
    {
        KeyringStore
    }
}

impl Default for KeyringStore {
    fn default() -> (s: Self)
        ensures
            s == KeyringStore,
    {
        KeyringStore
    }
}

impl CredentialStore for KeyringStore {
    /// The secrets live in the platform store; the handle itself holds none.
    open spec fn contents(&self) -> Map<Seq<char>, Seq<char>> {
        Map::empty()
    }

    /// The platform store may hold anything, so any result is possible.
    open spec fn get_allows(&self, key: Seq<char>, r: Result<Option<Seq<char>>, Seq<char>>) -> bool {
        true
    }

    open spec fn set_allows(&self, after: Map<Seq<char>, Seq<char>>, key: Seq<char>, secret: Seq<char>, r: Result<(), Seq<char>>) -> bool {
        true
    }

    open spec fn delete_allows(&self, after: Map<Seq<char>, Seq<char>>, key: Seq<char>, r: Result<(), Seq<char>>) -> bool {
        true
    }

    fn get(&self, key: &str) -> (r: Result<Option<String>, CredentialError>) {
        match open_service_entry(key) {
            Err(text) => read_result(KeyringOutcome::Failed(text)),
            Ok(entry) => read_result(keyring_outcome(read_password(&entry))),
        }
    }

    fn set(&mut self, key: &str, secret: &str) -> (r: Result<(), CredentialError>) {
        match open_service_entry(key) {
            Err(text) => write_result(KeyringOutcome::Failed(text)),
            Ok(entry) => write_result(keyring_outcome(write_password(&entry, secret))),
        }
    }

    fn delete(&mut self, key: &str) -> (r: Result<(), CredentialError>) {
        match open_service_entry(key) {
            Err(text) => delete_result(KeyringOutcome::Failed(text)),
            Ok(entry) => delete_result(keyring_outcome(remove_credential(&entry))),
        }
    }
}

/// Canonical key for the WebDAV password belonging to a source name.
pub open spec fn webdav_key(source_name: Seq<char>) -> Seq<char> {
    "webdav-password:"@ + source_name
}

/// Canonical key for the WebDAV password belonging to a given source name.
pub fn webdav_password_key(source_name: &str) -> (k: String)
    ensures
        k@ == webdav_key(source_name@),
{
    let mut k = String::from_str("webdav-password:");
    k.append(source_name);
    k
}

/// A GitHub token from the environment, when it is set and not empty.
pub open spec fn usable_env(env_value: Option<String>) -> bool {
    env_value matches Some(v) && v@.len() > 0
}

/// What a store lookup contributes as a secret: a non-empty stored value;
/// a missing or empty one is no value; a store error is passed on.
pub open spec fn stored_secret(stored: Result<Option<Seq<char>>, Seq<char>>) -> Result<Option<Seq<char>>, Seq<char>> {
    match stored {
        Err(e) => Err(e),
        Ok(Some(v)) if v.len() > 0 => Ok(Some(v)),
        Ok(_) => Ok(None),
    }
}

/// Resolves the GitHub token from the environment first, then the store as a
/// fallback. Returns `Ok(None)` when neither source has a value (an empty
/// value counts as none).
pub fn resolve_github_token<S: CredentialStore>(env_value: Option<String>, store: &S) -> (r: Result<Option<String>, CredentialError>)
    ensures
        usable_env(env_value) ==> lookup_view(r) == Ok::<Option<Seq<char>>, Seq<char>>(Some(env_value->0@)),
        !usable_env(env_value) ==> exists|stored: Result<Option<Seq<char>>, Seq<char>>|
            #![trigger store.get_allows(GITHUB_TOKEN_KEY@, stored)]
            store.get_allows(GITHUB_TOKEN_KEY@, stored) && lookup_view(r) == stored_secret(stored),
{
    if let Some(value) = env_value {
        if !value.as_str().is_empty() {
            return Ok(Some(value));
        }
    }
    let stored = store.get(GITHUB_TOKEN_KEY);
    let ghost stored_view = lookup_view(stored);
    assert(store.get_allows(GITHUB_TOKEN_KEY@, stored_view));
    match stored {
        Ok(Some(v)) => if v.as_str().is_empty() {
            Ok(None)
        } else {
            Ok(Some(v))
        },
        other => other,
    }
}

/// What resolving a WebDAV password gives, from what the store returned and
/// the inline fallback: a non-empty stored secret wins, then a non-empty
/// inline value; a store error is passed on.
pub open spec fn resolved_password(stored: Result<Option<Seq<char>>, Seq<char>>, fallback: Option<Seq<char>>) -> Result<Option<Seq<char>>, Seq<char>> {
    match stored {
        Err(e) => Err(e),
        Ok(Some(v)) if v.len() > 0 => Ok(Some(v)),
        Ok(_) => match fallback {
            Some(f) if f.len() > 0 => Ok(Some(f)),
            _ => Ok(None),
        },
    }
}

/// The plain view of an optional string slice.
pub open spec fn opt_string_view(o: Option<String>) -> Option<Seq<char>> {
    match o {
        Some(s) => Some(s@),
        None => None,
    }
}

/// An optional string slice as an optional sequence.
pub open spec fn opt_str_view(o: Option<&str>) -> Option<Seq<char>> {
    match o {
        Some(s) => Some(s@),
        None => None,
    }
}

/// Resolves the WebDAV password for a source: the store entry first, then the
/// caller-provided inline fallback. Returns `Ok(None)` when neither has a value.
pub fn resolve_webdav_password<S: CredentialStore>(
    source_name: &str,
    fallback_inline: Option<&str>,
    store: &S,
) -> (r: Result<Option<String>, CredentialError>)
    ensures
        exists|stored: Result<Option<Seq<char>>, Seq<char>>|
            #![trigger store.get_allows(webdav_key(source_name@), stored)]
            store.get_allows(webdav_key(source_name@), stored)
            && lookup_view(r) == resolved_password(stored, opt_str_view(fallback_inline)),
{
    let key = webdav_password_key(source_name);
    let stored = store.get(key.as_str());
    let ghost stored_view = lookup_view(stored);
    assert(store.get_allows(webdav_key(source_name@), stored_view));
    match stored {
        Err(e) => Err(e),
        Ok(Some(value)) if !value.as_str().is_empty() => Ok(Some(value)),
        Ok(_) => match fallback_inline {
            Some(f) if !f.is_empty() => {
                let r = Ok(Some(f.to_string()));
                assert(lookup_view(r) == resolved_password(stored_view, opt_str_view(fallback_inline)));
                r
            },
            _ => Ok(None),
        },
    }
}

/// Writes a WebDAV password to the store under the canonical key for the
/// given source name.
pub fn store_webdav_password<S: CredentialStore>(source_name: &str, password: &str, store: &mut S) -> (r: Result<(), CredentialError>)
    ensures
        old(store).set_allows(final(store).contents(), webdav_key(source_name@), password@, unit_view(r)),
{
    let key = webdav_password_key(source_name);
    store.set(key.as_str(), password)
}

} // verus!

verus! {

/// Law: on the in-memory store, a write succeeds, and reading the key right
/// after gives back exactly what was written (so a later write overwrites an
/// earlier one).
pub proof fn law_read_after_write(
    store: InMemoryStore,
    after: InMemoryStore,
    key: Seq<char>,
    secret: Seq<char>,
    written: Result<(), Seq<char>>,
    read: Result<Option<Seq<char>>, Seq<char>>,
)
    requires
        store.set_allows(after@, key, secret, written),
        after.get_allows(key, read),
    ensures
        written == Ok::<(), Seq<char>>(()),
        read == Ok::<Option<Seq<char>>, Seq<char>>(Some(secret)),
{
}

/// Law: on the in-memory store, writing one key leaves what every other key
/// reads unchanged.
pub proof fn law_write_keeps_other_keys(
    store: InMemoryStore,
    after: InMemoryStore,
    key: Seq<char>,
    other: Seq<char>,
    secret: Seq<char>,
    written: Result<(), Seq<char>>,
)
    requires
        store.set_allows(after@, key, secret, written),
        key != other,
    ensures
        lookup(after@, other) == lookup(store@, other),
{
}

/// Law: on the in-memory store, a delete succeeds whether or not the key was
/// present, and the key then reads as missing.
pub proof fn law_delete_removes(
    store: InMemoryStore,
    after: InMemoryStore,
    key: Seq<char>,
    deleted: Result<(), Seq<char>>,
    read: Result<Option<Seq<char>>, Seq<char>>,
)
    requires
        store.delete_allows(after@, key, deleted),
        after.get_allows(key, read),
    ensures
        deleted == Ok::<(), Seq<char>>(()),
        read == Ok::<Option<Seq<char>>, Seq<char>>(None),
{
}

/// Law: on the in-memory store, deleting a key twice leaves the store as
/// deleting it once does.
pub proof fn law_delete_idempotent(
    store: InMemoryStore,
    once: InMemoryStore,
    twice: InMemoryStore,
    key: Seq<char>,
    r1: Result<(), Seq<char>>,
    r2: Result<(), Seq<char>>,
)
    requires
        store.delete_allows(once@, key, r1),
        once.delete_allows(twice@, key, r2),
    ensures
        twice@ == once@,
        r2 == Ok::<(), Seq<char>>(()),
{
    assert(once@.remove(key) =~= once@);
}

/// Law: the password keys of two different source names never collide.
pub proof fn law_webdav_keys_distinct(a: Seq<char>, b: Seq<char>)
    requires
        a != b,
    ensures
        webdav_key(a) != webdav_key(b),
{
    let prefix = "webdav-password:"@;
    if webdav_key(a) == webdav_key(b) {
        assert(webdav_key(a).skip(prefix.len() as int) =~= a);
        assert(webdav_key(b).skip(prefix.len() as int) =~= b);
    }
}

/// Law: a non-empty password stored for a source is what resolving that
/// source's password gives, whatever the inline fallback; an empty one is
/// treated as missing and the fallback decides.
pub proof fn law_stored_password_resolves(
    store: InMemoryStore,
    after: InMemoryStore,
    source_name: Seq<char>,
    password: Seq<char>,
    fallback: Option<Seq<char>>,
    written: Result<(), Seq<char>>,
    stored: Result<Option<Seq<char>>, Seq<char>>,
)
    requires
        store.set_allows(after@, webdav_key(source_name), password, written),
        after.get_allows(webdav_key(source_name), stored),
    ensures
        password.len() > 0 ==> resolved_password(stored, fallback) == Ok::<Option<Seq<char>>, Seq<char>>(Some(password)),
        password.len() == 0 ==> resolved_password(stored, fallback) == resolved_password(Ok(None), fallback),
{
}

/// Law: passwords of different sources are kept apart: storing one source's
/// password does not change what another source resolves to.
pub proof fn law_sources_independent(
    store: InMemoryStore,
    after: InMemoryStore,
    source_name: Seq<char>,
    other_source: Seq<char>,
    password: Seq<char>,
    written: Result<(), Seq<char>>,
)
    requires
        store.set_allows(after@, webdav_key(source_name), password, written),
        source_name != other_source,
    ensures
        lookup(after@, webdav_key(other_source)) == lookup(store@, webdav_key(other_source)),
{
    law_webdav_keys_distinct(source_name, other_source);
}

} // verus!
