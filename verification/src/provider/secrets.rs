//! Provider credentials: the OS keychain through the `keyring` crate, with
//! environment variables standing in when the keychain has no entry.
//!
//! Reading the environment is the caller's work: it passes the value of the
//! variable that [`env_var_name`] names.

use vstd::prelude::*;

use crate::provider::error::{ErrorKindView, KeyringFailure, ProviderError};
use crate::provider::types::str_eq;
use crate::text::{chars_of, seq_starts_with, starts_with_chars, string_from_chars, sub_vec};

verus! {

#[verifier::external_type_specification]
#[verifier::external_body]
pub struct ExKeyringEntry(keyring::Entry);

#[verifier::external_type_specification]
#[verifier::external_body]
pub struct ExKeyringError(keyring::Error);

/// `keyring::Entry::new(service, account)`: the platform's credential for
/// this service and account. Whether it can be made depends on the
/// platform store, so nothing is claimed of the outcome.
#[verifier::external_body]
fn keyring_entry(service: &str, account: &str) -> Result<keyring::Entry, keyring::Error> {
    keyring::Entry::new(service, account)
}

/// `keyring::Entry::set_password`; the outcome depends on the platform
/// store.
#[verifier::external_body]
fn keyring_set(entry: &keyring::Entry, value: &str) -> Result<(), keyring::Error> {
    entry.set_password(value)
}

/// What reading a keychain entry gave.
#[derive(Debug)]
pub enum KeychainRead {
    Found(String),
    /// `keyring::Error::NoEntry`: nothing is stored for the account.
    NoEntry,
    /// Any other keyring error, by its text.
    Failed(String),
}

/// What deleting a keychain entry gave.
#[derive(Debug)]
pub enum KeychainDelete {
    Deleted,
    /// `keyring::Error::NoEntry`: nothing was stored for the account.
    NoEntry,
    /// Any other keyring error, by its text.
    Failed(String),
}

/// `keyring::Entry::get_password`, its outcome told apart by variant: the
/// password, `Error::NoEntry`, or another error's `Display` text. The
/// outcome depends on the platform store, so nothing is claimed of it.
#[verifier::external_body]
fn keyring_read(entry: &keyring::Entry) -> KeychainRead {
    match entry.get_password() {
        Ok(v) => KeychainRead::Found(v),
        Err(keyring::Error::NoEntry) => KeychainRead::NoEntry,
        Err(e) => KeychainRead::Failed(e.to_string()),
    }
}

/// `keyring::Entry::delete_credential`, its outcome told apart by variant:
/// done, `Error::NoEntry`, or another error's `Display` text. The outcome
/// depends on the platform store, so nothing is claimed of it.
#[verifier::external_body]
fn keyring_remove(entry: &keyring::Entry) -> KeychainDelete {
    match entry.delete_credential() {
        Ok(()) => KeychainDelete::Deleted,
        Err(keyring::Error::NoEntry) => KeychainDelete::NoEntry,
        Err(e) => KeychainDelete::Failed(e.to_string()),
    }
}

/// The `Display` text of a keyring error. The error value is opaque here,
/// so nothing is claimed.
#[verifier::external_body]
fn keyring_error_text(e: &keyring::Error) -> String {
    e.to_string()
}

fn prefixed_error(prefix: &str, e: &keyring::Error) -> (r: ProviderError)
    ensures
        r@ matches ErrorKindView::Message(m) && seq_starts_with(m, prefix@),
{
    let mut s = prefix.to_owned();
    let t = keyring_error_text(e);
    s.append(t.as_str());
    assert(s@.subrange(0, prefix@.len() as int) =~= prefix@);
    ProviderError::message(s)
}

/// ASCII letters and digits stay, everything else becomes `_`; letters are
/// upper-cased.
pub open spec fn env_slug_char(c: char) -> char {
    if 'a' <= c <= 'z' {
        ((c as u32) - 32) as char
    } else if ('A' <= c <= 'Z') || ('0' <= c <= '9') {
        c
    } else {
        '_'
    }
}

/// The environment variable that stands in for the keychain entry of
/// `account`, if any.
pub open spec fn env_var_for(account: Seq<char>) -> Option<Seq<char>> {
    let p = "custom:"@;
    if seq_starts_with(account, p) {
        Some("IDE_CUSTOM_"@ + account.subrange(p.len() as int, account.len() as int).map_values(
            |c: char| env_slug_char(c),
        ) + "_API_KEY"@)
    } else if account == "anthropic"@ {
        Some("ANTHROPIC_API_KEY"@)
    } else if account == "openai"@ {
        Some("OPENAI_API_KEY"@)
    } else if account == "gemini"@ {
        Some("GEMINI_API_KEY"@)
    } else {
        None
    }
}

fn slug_char(c: char) -> (r: char)
    ensures
        r == env_slug_char(c),
{
    if 'a' <= c && c <= 'z' {
        let b: u8 = (c as u8) - 32;
        b as char
    } else if ('A' <= c && c <= 'Z') || ('0' <= c && c <= '9') {
        c
    } else {
        '_'
    }
}

/// Name of the environment variable that stands in for `account`.
pub fn env_var_name(account: &str) -> (r: Option<String>)
    ensures
        match env_var_for(account@) {
            Some(n) => r is Some && r->Some_0@ == n,
            None => r is None,
        },
{
    let cs = chars_of(account);
    let prefix = chars_of("custom:");
    if starts_with_chars(cs.as_slice(), prefix.as_slice()) {
        let rest = sub_vec(&cs, prefix.len(), cs.len());
        let mut slug: Vec<char> = Vec::new();
        let mut i: usize = 0;
        while i < rest.len()
            invariant
                0 <= i <= rest@.len(),
                slug@ == rest@.subrange(0, i as int).map_values(|c: char| env_slug_char(c)),
            decreases rest@.len() - i,
        {
            slug.push(slug_char(rest[i]));
            assert(rest@.subrange(0, i + 1).map_values(|c: char| env_slug_char(c)) =~= rest@.subrange(
                0,
                i as int,
            ).map_values(|c: char| env_slug_char(c)).push(env_slug_char(rest@[i as int])));
            i = i + 1;
        }
        assert(rest@.subrange(0, rest@.len() as int) =~= rest@);
        let mut name = "IDE_CUSTOM_".to_owned();
        name.append(string_from_chars(slug.as_slice()).as_str());
        name.append("_API_KEY");
        return Some(name);
    }
    if str_eq(account, "anthropic") {
        Some("ANTHROPIC_API_KEY".to_owned())
    } else if str_eq(account, "openai") {
        Some("OPENAI_API_KEY".to_owned())
    } else if str_eq(account, "gemini") {
        Some("GEMINI_API_KEY".to_owned())
    } else {
        None
    }
}

pub open spec fn opt_str(o: Option<String>) -> Option<Seq<char>> {
    match o {
        Some(v) => Some(v@),
        None => None,
    }
}

/// The key a read gives: what the keychain holds, else (no entry, or a
/// failed read) the environment's value.
pub open spec fn keychain_key(read: KeychainRead, env_value: Option<String>) -> Option<Seq<char>> {
    match read {
        KeychainRead::Found(v) => Some(v@),
        _ => opt_str(env_value),
    }
}

/// Picks the key from a keychain read and the environment's value.
pub fn key_from_keychain(read: KeychainRead, env_value: Option<String>) -> (r: Option<String>)
    ensures
        opt_str(r) == keychain_key(read, env_value),
{
    match read {
        KeychainRead::Found(v) => Some(v),
        KeychainRead::NoEntry => env_value,
        KeychainRead::Failed(_) => env_value,
    }
}

/// The text shown when the environment stood in for a missing entry.
pub open spec fn env_fallback_note() -> Seq<char> {
    "No OS keychain entry; used environment variable."@
}

/// The key and the hint for the user that a read gives: no hint when the
/// keychain held the key, or when there was no entry and no environment
/// value; the fallback note when the environment stood in for a missing
/// entry; `keyring: <error>` after a failed read.
pub open spec fn keychain_detail(read: KeychainRead, env_value: Option<String>) -> (
    Option<Seq<char>>,
    Option<(Seq<char>, bool)>,
) {
    match read {
        KeychainRead::Found(v) => (Some(v@), None),
        KeychainRead::NoEntry => match env_value {
            Some(v) => (Some(v@), Some((env_fallback_note(), true))),
            None => (None, None),
        },
        KeychainRead::Failed(t) => (
            opt_str(env_value),
            Some(("keyring: "@ + t@, env_value is Some)),
        ),
    }
}

pub open spec fn failure_view(f: Option<KeyringFailure>) -> Option<(Seq<char>, bool)> {
    match f {
        Some(k) => Some((k.message@, k.used_env_fallback)),
        None => None,
    }
}

/// Picks the key and the user hint from a keychain read and the
/// environment's value.
pub fn key_detail_from_keychain(read: KeychainRead, env_value: Option<String>) -> (r: (
    Option<String>,
    Option<KeyringFailure>,
))
    ensures
        (opt_str(r.0), failure_view(r.1)) == keychain_detail(read, env_value),
{
    match read {
        KeychainRead::Found(v) => (Some(v), None),
        KeychainRead::NoEntry => match env_value {
            Some(v) => (
                Some(v),
                Some(
                    KeyringFailure {
                        message: "No OS keychain entry; used environment variable.".to_owned(),
                        used_env_fallback: true,
                    },
                ),
            ),
            None => (None, None),
        },
        KeychainRead::Failed(t) => {
            let mut message = "keyring: ".to_owned();
            message.append(t.as_str());
            let used = env_value.is_some();
            (env_value, Some(KeyringFailure { message, used_env_fallback: used }))
        },
    }
}

/// What a delete gives: done, and also when nothing was stored; otherwise
/// the error `keyring delete: <error>`.
pub fn delete_outcome(d: KeychainDelete) -> (r: Result<(), ProviderError>)
    ensures
        match d {
            KeychainDelete::Failed(t) => r is Err && r->Err_0@ == ErrorKindView::Message(
                "keyring delete: "@ + t@,
            ),
            _ => r is Ok,
        },
{
    match d {
        KeychainDelete::Deleted => Ok(()),
        KeychainDelete::NoEntry => Ok(()),
        KeychainDelete::Failed(t) => {
            let mut m = "keyring delete: ".to_owned();
            m.append(t.as_str());
            Err(ProviderError::message(m))
        },
    }
}

/// API keys in the OS keychain under one service name.
#[derive(Debug, Clone)]
pub struct SecretStore {
    service_name: String,
}

impl SecretStore {
    pub closed spec fn service(&self) -> Seq<char> {
        self.service_name@
    }

    /// The store under the service name `ide`.
    pub fn new() -> (r: SecretStore)
        ensures
            r.service() == "ide"@,
    {
        SecretStore { service_name: "ide".to_owned() }
    }

    /// Stores a secret for `account` (`anthropic`, `openai`, `custom:<name>`).
    /// The keychain decides whether it succeeds; a failure names the step.
    pub fn set_key(&self, account: &str, value: &str) -> (r: Result<(), ProviderError>)
        ensures
            r matches Err(e) ==> e@ matches ErrorKindView::Message(m) && (seq_starts_with(
                m,
                "keyring entry: "@,
            ) || seq_starts_with(m, "keyring set: "@)),
    {
        let entry = match keyring_entry(self.service_name.as_str(), account) {
            Ok(e) => e,
            Err(e) => return Err(prefixed_error("keyring entry: ", &e)),
        };
        match keyring_set(&entry, value) {
            Ok(()) => Ok(()),
            Err(e) => Err(prefixed_error("keyring set: ", &e)),
        }
    }

    /// Reads the secret of `account`; when the keychain has none (or fails),
    /// `env_value`, the value of the variable [`env_var_name`] names, stands
    /// in (see [`key_from_keychain`]).
    pub fn get_key(&self, account: &str, env_value: Option<String>) -> (r: Result<
        Option<String>,
        ProviderError,
    >)
        ensures
            r matches Err(e) ==> e@ matches ErrorKindView::Message(m) && seq_starts_with(
                m,
                "keyring entry: "@,
            ),
            r matches Ok(k) ==> (k is Some || opt_str(k) == opt_str(env_value)),
            env_value is Some ==> (r is Err || r->Ok_0 is Some),
    {
        let entry = match keyring_entry(self.service_name.as_str(), account) {
            Ok(e) => e,
            Err(e) => return Err(prefixed_error("keyring entry: ", &e)),
        };
        let read = keyring_read(&entry);
        Ok(key_from_keychain(read, env_value))
    }

    /// Deletes the secret of `account`; a missing entry counts as deleted
    /// (see [`delete_outcome`]).
    pub fn delete_key(&self, account: &str) -> (r: Result<(), ProviderError>)
        ensures
            r matches Err(e) ==> e@ matches ErrorKindView::Message(m) && (seq_starts_with(
                m,
                "keyring entry: "@,
            ) || seq_starts_with(m, "keyring delete: "@)),
    {
        let entry = match keyring_entry(self.service_name.as_str(), account) {
            Ok(e) => e,
            Err(e) => return Err(prefixed_error("keyring entry: ", &e)),
        };
        let r = delete_outcome(keyring_remove(&entry));
        proof {
            if r is Err {
                let m = "keyring delete: "@;
                assert(r->Err_0@ matches ErrorKindView::Message(t) && t.subrange(0, m.len() as int) =~= m);
            }
        }
        r
    }

    /// Like [`Self::get_key`], and says whether the environment stood in
    /// (for hints shown to the user; see [`key_detail_from_keychain`]).
    pub fn get_key_detail(&self, account: &str, env_value: Option<String>) -> (r: Result<
        (Option<String>, Option<KeyringFailure>),
        ProviderError,
    >)
        ensures
            r matches Err(e) ==> e@ matches ErrorKindView::Message(m) && seq_starts_with(
                m,
                "keyring entry: "@,
            ),
            r matches Ok((None, _)) ==> env_value is None,
            env_value is Some ==> (r is Err || r->Ok_0.0 is Some),
            r matches Ok((_, Some(f))) ==> f.used_env_fallback == env_value is Some,
            r matches Ok((k, f)) ==> (f is None ==> k is Some || env_value is None),
    {
        let entry = match keyring_entry(self.service_name.as_str(), account) {
            Ok(e) => e,
            Err(e) => return Err(prefixed_error("keyring entry: ", &e)),
        };
        let read = keyring_read(&entry);
        Ok(key_detail_from_keychain(read, env_value))
    }

}

impl Default for SecretStore {
    fn default() -> (r: Self)
        ensures
            r.service() == "ide"@,
    {
        SecretStore::new()
    }
}

} // verus!
