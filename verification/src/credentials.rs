//! The Odoo password in the OS credential store.
use vstd::prelude::*;

use crate::error::AppError;
use vstd::string::StringExecFns;

verus! {

/// The service name credentials are filed under.
pub const SERVICE: &'static str = "time-tracker-app";

#[verifier::external_type_specification]
#[verifier::external_body]
pub struct ExKeyringEntry(keyring::Entry);

/// A credential-store failure: whether it is `keyring::Error::NoEntry`, and
/// the error's text.
#[derive(Debug, Clone)]
pub struct KeyringFailure {
    pub no_entry: bool,
    pub message: String,
}

/// `keyring::Entry::new(service, user)`. Whether the store can make an entry
/// depends on the platform, so nothing is promised of the outcome; a failure
/// carries `keyring::Error`'s text and whether it is `NoEntry`.
#[verifier::external_body]
fn keyring_entry(service: &str, user: &str) -> Result<keyring::Entry, KeyringFailure> {
    keyring::Entry::new(service, user).map_err(|e| KeyringFailure {
        no_entry: matches!(e, keyring::Error::NoEntry),
        message: e.to_string(),
    })
}

/// `Entry::set_password`. The outcome depends on the store; nothing is promised.
#[verifier::external_body]
fn keyring_set(entry: &keyring::Entry, password: &str) -> Result<(), KeyringFailure> {
    entry.set_password(password).map_err(|e| KeyringFailure {
        no_entry: matches!(e, keyring::Error::NoEntry),
        message: e.to_string(),
    })
}

/// `Entry::get_password`. The outcome depends on the store; nothing is promised.
#[verifier::external_body]
fn keyring_get(entry: &keyring::Entry) -> Result<String, KeyringFailure> {
    entry.get_password().map_err(|e| KeyringFailure {
        no_entry: matches!(e, keyring::Error::NoEntry),
        message: e.to_string(),
    })
}

/// `Entry::delete_credential`. The outcome depends on the store; nothing is promised.
#[verifier::external_body]
fn keyring_delete(entry: &keyring::Entry) -> Result<(), KeyringFailure> {
    entry.delete_credential().map_err(|e| KeyringFailure {
        no_entry: matches!(e, keyring::Error::NoEntry),
        message: e.to_string(),
    })
}

/// What a store write means for the caller: any failure is a keyring error.
pub fn save_outcome(r: Result<(), KeyringFailure>) -> (res: Result<(), AppError>)
    ensures
        match r {
            Ok(()) => res is Ok,
            Err(f) => res == Err::<(), AppError>(AppError::Keyring(f.message)),
        },
{
    match r {
        Ok(()) => Ok(()),
        Err(f) => Err(AppError::Keyring(f.message)),
    }
}

/// What a store read means: a password, no password (`NoEntry` is not an
/// error), or a keyring error.
pub fn load_outcome(r: Result<String, KeyringFailure>) -> (res: Result<Option<String>, AppError>)
    ensures
        match r {
            Ok(pw) => res == Ok::<Option<String>, AppError>(Some(pw)),
            Err(f) => if f.no_entry {
                res == Ok::<Option<String>, AppError>(None)
            } else {
                res == Err::<Option<String>, AppError>(AppError::Keyring(f.message))
            },
        },
{
    match r {
        Ok(pw) => Ok(Some(pw)),
        Err(f) => {
            if f.no_entry {
                Ok(None)
            } else {
                Err(AppError::Keyring(f.message))
            }
        },
    }
}

/// What a store delete means: deleting what is not there is fine.
pub fn clear_outcome(r: Result<(), KeyringFailure>) -> (res: Result<(), AppError>)
    ensures
        match r {
            Ok(()) => res is Ok,
            Err(f) => if f.no_entry {
                res is Ok
            } else {
                res == Err::<(), AppError>(AppError::Keyring(f.message))
            },
        },
{
    match r {
        Ok(()) => Ok(()),
        Err(f) => {
            if f.no_entry {
                Ok(())
            } else {
                Err(AppError::Keyring(f.message))
            }
        },
    }
}

/// The key a user's password is filed under in the credential store: this
/// app's service name and the Odoo username.
pub fn credential_key(username: &str) -> (k: (String, String))
    ensures
        k.0@ == SERVICE@,
        k.1@ == username@,
{
    (String::from_str(SERVICE), String::from_str(username))
}

/// Store an Odoo password/API key for `username` in the OS credential store,
/// under `credential_key(username)`.
pub fn save_credentials(username: &str, password: &str) -> (res: Result<(), AppError>)
    ensures
        res matches Err(e) ==> e is Keyring,
{
    let key = credential_key(username);
    let entry = match keyring_entry(key.0.as_str(), key.1.as_str()) {
        Ok(e) => e,
        Err(f) => {
            return Err(AppError::Keyring(f.message));
        },
    };
    save_outcome(keyring_set(&entry, password))
}

/// Load the password stored under `credential_key(username)`; `Ok(None)`
/// when there is none.
pub fn load_credentials(username: &str) -> (res: Result<Option<String>, AppError>)
    ensures
        res matches Err(e) ==> e is Keyring,
{
    let key = credential_key(username);
    let entry = match keyring_entry(key.0.as_str(), key.1.as_str()) {
        Ok(e) => e,
        Err(f) => {
            return Err(AppError::Keyring(f.message));
        },
    };
    load_outcome(keyring_get(&entry))
}

/// Remove the credential stored under `credential_key(username)` (a missing
/// one is fine).
pub fn clear_credentials(username: &str) -> (res: Result<(), AppError>)
    ensures
        res matches Err(e) ==> e is Keyring,
{
    let key = credential_key(username);
    let entry = match keyring_entry(key.0.as_str(), key.1.as_str()) {
        Ok(e) => e,
        Err(f) => {
            return Err(AppError::Keyring(f.message));
        },
    };
    clear_outcome(keyring_delete(&entry))
}

} // verus!
