//! The vault backed by the operating system's credential store: the secret
//! is one entry under a fixed service and account name, and the store does
//! the protecting. What is decided here is how the store's failures are
//! reported.

use vstd::prelude::*;
use crate::error::VaultError;

verus! {

/// Service name of the entry.
pub const SERVICE_NAME: &'static str = "gpt-on-a-budget";

/// Account name of the entry.
pub const KEY_USERNAME: &'static str = "openai_api_key";

/// A handle on one entry of the credential store.
#[verifier::external_type_specification]
#[verifier::external_body]
pub struct ExEntry(keyring::Entry);

/// The credential store's own error.
#[verifier::external_type_specification]
#[verifier::external_body]
pub struct ExStoreError(keyring::Error);

/// `keyring::Entry::new` looks the entry up by service and account name.
/// Nothing is promised of what it finds.
pub assume_specification[ keyring::Entry::new ](service: &str, user: &str) -> (entry: Result<
    keyring::Entry,
    keyring::Error,
>)
;

/// `keyring::Entry::set_password` creates or replaces the entry's secret.
/// Nothing is promised of whether the store accepts.
pub assume_specification[ keyring::Entry::set_password ](
    entry: &keyring::Entry,
    password: &str,
) -> (done: Result<(), keyring::Error>)
;

/// `keyring::Entry::get_password` reads the entry's secret. Nothing is
/// promised of what the store holds.
pub assume_specification[ keyring::Entry::get_password ](entry: &keyring::Entry) -> (secret: Result<
    String,
    keyring::Error,
>)
;

/// What the vault reads of a failure of the credential store.
#[derive(Debug)]
pub struct StoreFault {
    /// Whether the store said that no such entry exists.
    pub no_entry: bool,
    /// The store's own description of the failure.
    pub text: String,
}

/// Tells `keyring::Error::NoEntry` from the other variants and takes the
/// error's `Display` text. Nothing is claimed of either.
#[verifier::external_body]
fn fault_of(e: keyring::Error) -> (fault: StoreFault) {
    let text = e.to_string();
    match e {
        keyring::Error::NoEntry => StoreFault { no_entry: true, text },
        _ => StoreFault { no_entry: false, text },
    }
}

/// How a failed save is reported: always as a storage failure that carries
/// the store's description.
pub fn save_failure(fault: StoreFault) -> (e: VaultError)
    ensures
        e matches VaultError::IoFailure(why) && why@ == fault.text@,
{
    VaultError::IoFailure(fault.text)
}

/// How a failed load is reported: a missing entry as `NotFound`, so that the
/// caller can ask for the secret; everything else as a storage failure that
/// carries the store's description.
pub fn load_failure(fault: StoreFault) -> (e: VaultError)
    ensures
        fault.no_entry ==> e is NotFound,
        !fault.no_entry ==> (e matches VaultError::IoFailure(why) && why@ == fault.text@),
{
    if fault.no_entry {
        VaultError::NotFound
    } else {
        VaultError::IoFailure(fault.text)
    }
}

/// The vault over one entry of the credential store.
pub struct SystemVault {
    service: String,
    account: String,
}

impl SystemVault {
    /// The service name of the entry.
    pub closed spec fn spec_service(&self) -> Seq<char> {
        self.service@
    }

    /// The account name of the entry.
    pub closed spec fn spec_account(&self) -> Seq<char> {
        self.account@
    }

    /// The vault over the application's own entry.
    pub fn new() -> (vault: SystemVault)
        ensures
            vault.spec_service() == SERVICE_NAME@,
            vault.spec_account() == KEY_USERNAME@,
    {
        SystemVault { service: SERVICE_NAME.to_owned(), account: KEY_USERNAME.to_owned() }
    }

    /// The vault over the entry of another service and account.
    pub fn with_identity(service: String, account: String) -> (vault: SystemVault)
        ensures
            vault.spec_service() == service@,
            vault.spec_account() == account@,
    {
        SystemVault { service, account }
    }

    /// Stores the secret in the entry, replacing an earlier one. Whatever
    /// the store answers, the only failure reported is a storage failure.
    pub fn save_secret(&self, secret: &str) -> (out: Result<(), VaultError>)
        ensures
            out matches Err(e) ==> e is IoFailure,
    {
        let entry = match keyring::Entry::new(self.service.as_str(), self.account.as_str()) {
            Ok(entry) => entry,
            Err(e) => {
                return save_outcome(Err(fault_of(e)));
            },
        };
        save_outcome(match entry.set_password(secret) {
            Ok(()) => Ok(()),
            Err(e) => Err(fault_of(e)),
        })
    }

    /// Reads the secret from the entry. Whatever the store answers, a
    /// failure is reported as `NotFound` or as a storage failure, never as a
    /// damaged record.
    pub fn load_secret(&self) -> (out: Result<String, VaultError>)
        ensures
            out matches Err(e) ==> e is NotFound || e is IoFailure,
    {
        let entry = match keyring::Entry::new(self.service.as_str(), self.account.as_str()) {
            Ok(entry) => entry,
            Err(e) => {
                return load_outcome(Err(fault_of(e)));
            },
        };
        load_outcome(match entry.get_password() {
            Ok(secret) => Ok(secret),
            Err(e) => Err(fault_of(e)),
        })
    }
}

/// Stores the API key in the application's entry of the credential store.
pub fn encrypt_and_save_api_key(api_key: &str) -> (out: Result<(), VaultError>)
    ensures
        out matches Err(e) ==> e is IoFailure,
{
    SystemVault::new().save_secret(api_key)
}

/// Reads the API key from the application's entry of the credential store.
pub fn decrypt_api_key() -> (out: Result<String, VaultError>)
    ensures
        out matches Err(e) ==> e is NotFound || e is IoFailure,
{
    SystemVault::new().load_secret()
}

/// What a save reports for each answer of the credential store: success
/// where the store accepted, and otherwise a storage failure that carries the
/// store's description, whichever kind of failure the store named.
pub fn save_outcome(answer: Result<(), StoreFault>) -> (out: Result<(), VaultError>)
    ensures
        match answer {
            Ok(_) => out is Ok,
            Err(fault) => out matches Err(VaultError::IoFailure(why)) && why@ == fault.text@,
        },
{
    match answer {
        Ok(()) => Ok(()),
        Err(fault) => Err(save_failure(fault)),
    }
}

/// What a load reports for each answer of the credential store: the secret
/// as the store gave it; `NotFound` where the store has no such entry; and
/// otherwise a storage failure that carries the store's description.
pub fn load_outcome(answer: Result<String, StoreFault>) -> (out: Result<String, VaultError>)
    ensures
        match answer {
            Ok(secret) => out matches Ok(text) && text@ == secret@,
            Err(fault) => if fault.no_entry {
                out matches Err(e) && e is NotFound
            } else {
                out matches Err(VaultError::IoFailure(why)) && why@ == fault.text@
            },
        },
{
    match answer {
        Ok(secret) => Ok(secret),
        Err(fault) => Err(load_failure(fault)),
    }
}

} // verus!
