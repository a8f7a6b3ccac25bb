//! The self-contained vault: the secret is encrypted under a key derived
//! from a passphrase and kept as one record, whose bytes the caller reads
//! from and writes to the storage location.

use vstd::prelude::*;
use vstd::utf8::{decode_utf8, encode_utf8, valid_utf8};
use vstd::utf8::{decode_utf8_encode_utf8, encode_utf8_decode_utf8, encode_utf8_valid_utf8};
use vstd::slice::slice_to_vec;
use crate::cipher::{aes_gcm_opened, aes_gcm_sealed, argon2_output};
use crate::cipher::{derive_key, fresh_bytes, seal, text_of, unseal};
use crate::cipher::{KEY_LEN, NONCE_LEN, SALT_LEN, TAG_LEN};
use crate::error::{ErrorKind, VaultError};
use crate::record::{lemma_scan_round_trip, lemma_scan_sound, lemma_truncated_text_is_refused};
use crate::record::{record_text, scan};
use crate::record::{EncryptedRecord, RecordView};

verus! {

/// The passphrase every record of this application is sealed under.
pub const MASTER_PASSPHRASE: &'static str = "gpt-on-a-budget local vault";

/// What the storage location held when it was last read or written.
#[derive(Debug)]
pub enum StoredContent {
    /// Nothing has been stored there.
    Missing,
    /// The location could not be read; the text says why.
    Unreadable(String),
    /// These bytes.
    Present(Vec<u8>),
}

/// The mathematical value of a `StoredContent`.
pub enum StoredView {
    Missing,
    Unreadable(Seq<char>),
    Present(Seq<u8>),
}

impl View for StoredContent {
    type V = StoredView;

    open spec fn view(&self) -> StoredView {
        match self {
            StoredContent::Missing => StoredView::Missing,
            StoredContent::Unreadable(why) => StoredView::Unreadable(why@),
            StoredContent::Present(bytes) => StoredView::Present(bytes@),
        }
    }
}

/// How an operation ended, as contracts speak of it: the text it returned or
/// the kind of its failure.
pub open spec fn outcome(r: Result<String, VaultError>) -> Result<Seq<char>, ErrorKind> {
    match r {
        Ok(text) => Ok(text@),
        Err(e) => Err(e.spec_kind()),
    }
}

/// The record that sealing `secret` under an already derived key gives,
/// where the cipher accepts. The salt is only carried along.
pub open spec fn sealed_with_key(
    key: Seq<u8>,
    salt: Seq<u8>,
    nonce: Seq<u8>,
    secret: Seq<char>,
) -> Option<RecordView> {
    if nonce.len() != NONCE_LEN {
        None
    } else {
        match aes_gcm_sealed(key, nonce, encode_utf8(secret)) {
            Some(ciphertext) => Some(RecordView { salt, nonce, ciphertext }),
            None => None,
        }
    }
}

/// The record that sealing `secret` under `passphrase` with the given salt
/// and nonce gives, where the salt has at least sixteen bytes and key
/// derivation and cipher both accept.
pub open spec fn sealed_record(
    passphrase: Seq<u8>,
    salt: Seq<u8>,
    nonce: Seq<u8>,
    secret: Seq<char>,
) -> Option<RecordView> {
    if nonce.len() != NONCE_LEN || salt.len() < SALT_LEN {
        None
    } else {
        match argon2_output(passphrase, salt, KEY_LEN as nat) {
            Some(key) => sealed_with_key(key, salt, nonce, secret),
            None => None,
        }
    }
}

/// What opening a record under an already derived key gives. A nonce of the
/// wrong length makes the record malformed; a ciphertext the cipher does not
/// authenticate under this key and nonce is a cipher failure; authenticated
/// bytes that are no text are an encoding failure.
pub open spec fn opened_with_key(key: Seq<u8>, r: RecordView) -> Result<Seq<char>, ErrorKind> {
    if r.nonce.len() != NONCE_LEN {
        Err(ErrorKind::MalformedRecord)
    } else {
        match aes_gcm_opened(key, r.nonce, r.ciphertext) {
            None => Err(ErrorKind::CryptoFailure),
            Some(plain) => if valid_utf8(plain) {
                Ok(decode_utf8(plain))
            } else {
                Err(ErrorKind::EncodingFailure)
            },
        }
    }
}

/// What opening a record under `passphrase` gives: the secret, or the kind
/// of failure. A salt the key derivation refuses is a cipher failure; the
/// rest is decided under the derived key.
pub open spec fn opened_record(passphrase: Seq<u8>, r: RecordView) -> Result<Seq<char>, ErrorKind> {
    if r.nonce.len() != NONCE_LEN {
        Err(ErrorKind::MalformedRecord)
    } else {
        match argon2_output(passphrase, r.salt, KEY_LEN as nat) {
            None => Err(ErrorKind::CryptoFailure),
            Some(key) => opened_with_key(key, r),
        }
    }
}

/// What loading from a storage location gives.
pub open spec fn loaded(passphrase: Seq<u8>, stored: StoredView) -> Result<Seq<char>, ErrorKind> {
    match stored {
        StoredView::Missing => Err(ErrorKind::NotFound),
        StoredView::Unreadable(_) => Err(ErrorKind::IoFailure),
        StoredView::Present(text) => match scan(text) {
            None => Err(ErrorKind::MalformedRecord),
            Some(r) => opened_record(passphrase, r),
        },
    }
}

/// What the storage location holds after a record was saved: that record's
/// text, whatever was there before.
pub open spec fn after_save(before: StoredView, r: RecordView) -> StoredView {
    StoredView::Present(record_text(r))
}

/// Derives the 256-bit key of a record from the passphrase and the record's
/// salt. Fails exactly where the key derivation refuses the inputs.
pub fn derive_record_key(passphrase: &[u8], salt: &[u8]) -> (out: Result<Vec<u8>, VaultError>)
    ensures
        match out {
            Ok(key) => argon2_output(passphrase@, salt@, KEY_LEN as nat) == Some(key@)
                && key@.len() == KEY_LEN,
            Err(e) => argon2_output(passphrase@, salt@, KEY_LEN as nat) is None
                && e is CryptoFailure,
        },
{
    match derive_key(passphrase, salt, KEY_LEN) {
        Some(key) => Ok(key),
        None => Err(VaultError::CryptoFailure),
    }
}

/// Seals `secret` into a record under an already derived key. Succeeds
/// exactly where the nonce has twelve bytes and the cipher accepts; the
/// record then opens, under the same key, to `secret`.
pub fn seal_with_key(key: &[u8], salt: &[u8], nonce: &[u8], secret: &str) -> (out: Result<
    EncryptedRecord,
    VaultError,
>)
    ensures
        out is Ok <==> sealed_with_key(key@, salt@, nonce@, secret@) is Some,
        out matches Ok(r) ==> sealed_with_key(key@, salt@, nonce@, secret@) == Some(r@)
            && opened_with_key(key@, r@) == Ok::<Seq<char>, ErrorKind>(secret@)
            && r@.ciphertext.len() == encode_utf8(secret@).len() + TAG_LEN,
        out matches Err(e) ==> e is CryptoFailure,
{
    if nonce.len() != NONCE_LEN {
        return Err(VaultError::CryptoFailure);
    }
    match seal(key, nonce, secret.as_bytes()) {
        Some(ciphertext) => {
            proof {
                encode_utf8_valid_utf8(secret@);
                encode_utf8_decode_utf8(secret@);
            }
            Ok(EncryptedRecord { salt: slice_to_vec(salt), nonce: slice_to_vec(nonce), ciphertext })
        },
        None => Err(VaultError::CryptoFailure),
    }
}

/// Seals `secret` into a record, with a salt and a nonce that the caller
/// drew. Succeeds exactly where the nonce has twelve bytes, the salt at
/// least sixteen, and key derivation and cipher accept; the record then
/// opens, under the same passphrase, to `secret`.
pub fn seal_secret(passphrase: &[u8], salt: &[u8], nonce: &[u8], secret: &str) -> (out: Result<
    EncryptedRecord,
    VaultError,
>)
    ensures
        out is Ok <==> sealed_record(passphrase@, salt@, nonce@, secret@) is Some,
        out matches Ok(r) ==> sealed_record(passphrase@, salt@, nonce@, secret@) == Some(r@)
            && opened_record(passphrase@, r@) == Ok::<Seq<char>, ErrorKind>(secret@),
        out matches Err(e) ==> e is CryptoFailure,
{
    if nonce.len() != NONCE_LEN || salt.len() < SALT_LEN {
        return Err(VaultError::CryptoFailure);
    }
    match derive_record_key(passphrase, salt) {
        Ok(key) => seal_with_key(key.as_slice(), salt, nonce, secret),
        Err(e) => Err(e),
    }
}

/// Opens a record under an already derived key: lets the cipher
/// authenticate and decrypt, and reads the plaintext as text.
pub fn open_with_key(key: &[u8], record: &EncryptedRecord) -> (out: Result<String, VaultError>)
    ensures
        outcome(out) == opened_with_key(key@, record@),
        record@.nonce.len() == NONCE_LEN && record@.ciphertext.len() < TAG_LEN ==> outcome(out)
            == Err::<Seq<char>, ErrorKind>(ErrorKind::CryptoFailure),
{
    if record.nonce.len() != NONCE_LEN {
        return Err(VaultError::MalformedRecord);
    }
    let plain = match unseal(key, record.nonce.as_slice(), record.ciphertext.as_slice()) {
        Some(plain) => plain,
        None => {
            return Err(VaultError::CryptoFailure);
        },
    };
    match text_of(plain) {
        Some(text) => Ok(text),
        None => Err(VaultError::EncodingFailure),
    }
}

/// Opens a record: derives the key from the record's salt and opens the
/// record under it.
pub fn open_record(passphrase: &[u8], record: &EncryptedRecord) -> (out: Result<String, VaultError>)
    ensures
        outcome(out) == opened_record(passphrase@, record@),
        record@.nonce.len() == NONCE_LEN && record@.ciphertext.len() < TAG_LEN ==> outcome(out)
            == Err::<Seq<char>, ErrorKind>(ErrorKind::CryptoFailure),
{
    if record.nonce.len() != NONCE_LEN {
        return Err(VaultError::MalformedRecord);
    }
    match derive_record_key(passphrase, record.salt.as_slice()) {
        Ok(key) => open_with_key(key.as_slice(), record),
        Err(e) => Err(e),
    }
}

/// A saved record loads as it opens: reading the text back loses nothing.
pub proof fn lemma_saved_record_loads(passphrase: Seq<u8>, before: StoredView, r: RecordView)
    ensures
        loaded(passphrase, after_save(before, r)) == opened_record(passphrase, r),
{
    lemma_scan_round_trip(r);
}

/// Of two saves in succession only the second counts: what loads afterwards
/// is what the second record opens to, whatever the first one held.
pub proof fn lemma_last_save_decides(
    passphrase: Seq<u8>,
    before: StoredView,
    first: RecordView,
    second: RecordView,
)
    ensures
        loaded(passphrase, after_save(after_save(before, first), second)) == opened_record(
            passphrase,
            second,
        ),
        after_save(after_save(before, first), second) == after_save(before, second),
{
    lemma_scan_round_trip(second);
}

/// Loading from a location where nothing was stored reports exactly that.
pub proof fn lemma_missing_is_not_found(passphrase: Seq<u8>)
    ensures
        loaded(passphrase, StoredView::Missing) == Err::<Seq<char>, ErrorKind>(
            ErrorKind::NotFound,
        ),
{
}

/// Bytes that are no record's text load as a malformed record.
pub proof fn lemma_malformed_is_refused(passphrase: Seq<u8>, text: Seq<u8>)
    requires
        forall|r: RecordView| #[trigger] record_text(r) != text,
    ensures
        loaded(passphrase, StoredView::Present(text)) == Err::<Seq<char>, ErrorKind>(
            ErrorKind::MalformedRecord,
        ),
{
    if scan(text) is Some {
        lemma_scan_sound(text);
    }
}

/// A half-written record is refused as malformed: no proper beginning of a
/// record's text loads.
pub proof fn lemma_half_written_record_is_malformed(passphrase: Seq<u8>, r: RecordView, n: int)
    requires
        0 <= n < record_text(r).len(),
    ensures
        loaded(passphrase, StoredView::Present(record_text(r).take(n))) == Err::<
            Seq<char>,
            ErrorKind,
        >(ErrorKind::MalformedRecord),
{
    lemma_truncated_text_is_refused(r, n);
}

/// Loading fails closed: a secret comes out only where the stored bytes are
/// a record's text, the key derived from its salt exists, and the cipher
/// authenticated its ciphertext as the encoding of that very secret.
pub proof fn lemma_load_is_authenticated(passphrase: Seq<u8>, text: Seq<u8>, secret: Seq<char>)
    requires
        loaded(passphrase, StoredView::Present(text)) == Ok::<Seq<char>, ErrorKind>(secret),
    ensures
        scan(text) is Some,
        record_text(scan(text)->0) == text,
        argon2_output(passphrase, scan(text)->0.salt, KEY_LEN as nat) is Some,
        aes_gcm_opened(
            argon2_output(passphrase, scan(text)->0.salt, KEY_LEN as nat)->0,
            scan(text)->0.nonce,
            scan(text)->0.ciphertext,
        ) == Some(encode_utf8(secret)),
{
    lemma_scan_sound(text);
    let r = scan(text)->0;
    let key = argon2_output(passphrase, r.salt, KEY_LEN as nat)->0;
    let plain = aes_gcm_opened(key, r.nonce, r.ciphertext)->0;
    decode_utf8_encode_utf8(plain);
}

/// A vault over one storage location. It holds what the location held when
/// the caller read it; a save replaces that, and the caller writes the new
/// content out.
pub struct FileVault {
    passphrase: Vec<u8>,
    stored: StoredContent,
}

impl FileVault {
    /// The passphrase records are sealed under.
    pub closed spec fn spec_passphrase(&self) -> Seq<u8> {
        self.passphrase@
    }

    /// What the storage location holds.
    pub closed spec fn spec_stored(&self) -> StoredView {
        self.stored@
    }

    /// A vault under the application's fixed passphrase.
    pub fn new(stored: StoredContent) -> (vault: FileVault)
        ensures
            vault.spec_passphrase() == encode_utf8(MASTER_PASSPHRASE@),
            vault.spec_stored() == stored@,
    {
        FileVault { passphrase: slice_to_vec(MASTER_PASSPHRASE.as_bytes()), stored }
    }

    /// A vault under a passphrase of the caller's.
    pub fn with_passphrase(passphrase: Vec<u8>, stored: StoredContent) -> (vault: FileVault)
        ensures
            vault.spec_passphrase() == passphrase@,
            vault.spec_stored() == stored@,
    {
        FileVault { passphrase, stored }
    }

    /// What the storage location holds: after a successful save, the bytes
    /// to write there.
    pub fn stored(&self) -> (content: &StoredContent)
        ensures
            content@ == self.spec_stored(),
    {
        &self.stored
    }

    /// Seals `secret` with the given salt and nonce and replaces the stored
    /// content by the new record. Where sealing fails, the stored content
    /// stays as it was.
    pub fn save_secret_with(&mut self, secret: &str, salt: &[u8], nonce: &[u8]) -> (out: Result<
        (),
        VaultError,
    >)
        ensures
            final(self).spec_passphrase() == old(self).spec_passphrase(),
            out is Ok <==> sealed_record(old(self).spec_passphrase(), salt@, nonce@, secret@)
                is Some,
            out is Ok ==> final(self).spec_stored() == after_save(
                old(self).spec_stored(),
                sealed_record(old(self).spec_passphrase(), salt@, nonce@, secret@)->0,
            ),
            out is Ok ==> loaded(final(self).spec_passphrase(), final(self).spec_stored()) == Ok::<
                Seq<char>,
                ErrorKind,
            >(secret@),
            out matches Err(e) ==> e is CryptoFailure && final(self).spec_stored() == old(
                self,
            ).spec_stored(),
    {
        match seal_secret(self.passphrase.as_slice(), salt, nonce, secret) {
            Ok(record) => {
                proof {
                    lemma_saved_record_loads(self.passphrase@, self.stored@, record@);
                }
                self.stored = StoredContent::Present(record.to_bytes());
                Ok(())
            },
            Err(e) => Err(e),
        }
    }

    /// Saves `secret` under a salt and a nonce drawn afresh from the
    /// system's random source. On success the stored content is the text of
    /// a record sealed from `secret` with sixteen bytes of salt and twelve of
    /// nonce, and loads as `secret`; on failure it stays as it was.
    pub fn save_secret(&mut self, secret: &str) -> (out: Result<(), VaultError>)
        ensures
            final(self).spec_passphrase() == old(self).spec_passphrase(),
            out is Ok ==> loaded(final(self).spec_passphrase(), final(self).spec_stored()) == Ok::<
                Seq<char>,
                ErrorKind,
            >(secret@),
            out is Ok ==> exists|salt: Seq<u8>, nonce: Seq<u8>|
                salt.len() == SALT_LEN && nonce.len() == NONCE_LEN && #[trigger] sealed_record(
                    old(self).spec_passphrase(),
                    salt,
                    nonce,
                    secret@,
                ) is Some && final(self).spec_stored() == after_save(
                    old(self).spec_stored(),
                    sealed_record(old(self).spec_passphrase(), salt, nonce, secret@)->0,
                ),
            out matches Err(e) ==> e is CryptoFailure && final(self).spec_stored() == old(
                self,
            ).spec_stored(),
    {
        let salt = match fresh_bytes(SALT_LEN) {
            Some(salt) => salt,
            None => {
                return Err(VaultError::CryptoFailure);
            },
        };
        let nonce = match fresh_bytes(NONCE_LEN) {
            Some(nonce) => nonce,
            None => {
                return Err(VaultError::CryptoFailure);
            },
        };
        self.save_secret_with(secret, salt.as_slice(), nonce.as_slice())
    }

    /// Recovers the secret from the stored content.
    pub fn load_secret(&self) -> (out: Result<String, VaultError>)
        ensures
            outcome(out) == loaded(self.spec_passphrase(), self.spec_stored()),
            out matches Err(VaultError::IoFailure(why)) ==> self.spec_stored()
                == StoredView::Unreadable(why@),
            forall|r: RecordView|
                self.spec_stored() == StoredView::Present(#[trigger] record_text(r))
                    && r.nonce.len() == NONCE_LEN && r.ciphertext.len() < TAG_LEN ==> outcome(out)
                    == Err::<Seq<char>, ErrorKind>(ErrorKind::CryptoFailure),
    {
        match &self.stored {
            StoredContent::Missing => Err(VaultError::NotFound),
            StoredContent::Unreadable(why) => Err(VaultError::IoFailure(why.clone())),
            StoredContent::Present(text) => {
                proof {
                    assert forall|r: RecordView| text@ == #[trigger] record_text(r) implies scan(
                        text@,
                    ) == Some(r) by {
                        lemma_scan_round_trip(r);
                    }
                }
                match EncryptedRecord::parse(text.as_slice()) {
                    Ok(record) => open_record(self.passphrase.as_slice(), &record),
                    Err(e) => Err(e),
                }
            },
        }
    }
}

} // verus!
