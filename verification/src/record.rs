//! The persisted form of one secret: salt, nonce and ciphertext, written as
//! a one-line JSON object whose three fields are hexadecimal text.

use vstd::prelude::*;
use vstd::slice::slice_subrange;
use crate::error::VaultError;
use crate::hex::{decode, encode, hex_bytes, hex_text, is_digit, is_hex_digit, is_hex_text};
use crate::hex::{lemma_hex_round_trip, lemma_hex_text_canonical};

verus! {

/// One encrypted secret with everything but the passphrase that is needed to
/// decrypt it again.
#[derive(Debug)]
pub struct EncryptedRecord {
    /// Input of the key derivation, fresh for every save.
    pub salt: Vec<u8>,
    /// Input of the cipher, fresh for every save.
    pub nonce: Vec<u8>,
    /// Output of the cipher, with its authentication tag.
    pub ciphertext: Vec<u8>,
}

/// The mathematical value of a record.
pub struct RecordView {
    pub salt: Seq<u8>,
    pub nonce: Seq<u8>,
    pub ciphertext: Seq<u8>,
}

impl View for EncryptedRecord {
    type V = RecordView;

    open spec fn view(&self) -> RecordView {
        RecordView { salt: self.salt@, nonce: self.nonce@, ciphertext: self.ciphertext@ }
    }
}

/// `{"salt":"`
pub open spec fn salt_open() -> Seq<u8> {
    seq![123u8, 34u8, 115u8, 97u8, 108u8, 116u8, 34u8, 58u8, 34u8]
}

/// `","nonce":"`
pub open spec fn nonce_open() -> Seq<u8> {
    seq![34u8, 44u8, 34u8, 110u8, 111u8, 110u8, 99u8, 101u8, 34u8, 58u8, 34u8]
}

/// `","ciphertext":"`
pub open spec fn cipher_open() -> Seq<u8> {
    seq![
        34u8, 44u8, 34u8, 99u8, 105u8, 112u8, 104u8, 101u8, 114u8, 116u8, 101u8, 120u8, 116u8,
        34u8, 58u8, 34u8,
    ]
}

/// `"}`
pub open spec fn record_close() -> Seq<u8> {
    seq![34u8, 125u8]
}

/// The text of a record: `{"salt":"S","nonce":"N","ciphertext":"C"}`, where
/// `S`, `N` and `C` are the three fields in hexadecimal, with no byte before,
/// between or after.
pub open spec fn record_text(r: RecordView) -> Seq<u8> {
    salt_open() + hex_text(r.salt) + (nonce_open() + hex_text(r.nonce) + (cipher_open() + hex_text(
        r.ciphertext,
    ) + record_close()))
}

/// Where the run of digits that starts at `p` ends.
pub open spec fn hex_run_end(t: Seq<u8>, p: int) -> int
    decreases t.len() - p,
{
    if 0 <= p < t.len() && is_hex_digit(t[p]) {
        hex_run_end(t, p + 1)
    } else {
        p
    }
}

/// Reads one field from the front of `t`: the opening literal, then digits
/// up to the first byte that is none. Gives the field's bytes and what
/// follows the digits.
#[verifier::opaque]
pub open spec fn field(t: Seq<u8>, open: Seq<u8>) -> Option<(Seq<u8>, Seq<u8>)> {
    let e = hex_run_end(t, open.len() as int);
    if open.is_prefix_of(t) && (e - open.len()) % 2 == 0 {
        Some((hex_bytes(t.subrange(open.len() as int, e)), t.skip(e)))
    } else {
        None
    }
}

/// Reads a record field by field: the record that `t` is the text of, or
/// `None` where it is the text of none.
pub open spec fn scan(t: Seq<u8>) -> Option<RecordView> {
    match field(t, salt_open()) {
        Some((salt, after_salt)) => match field(after_salt, nonce_open()) {
            Some((nonce, after_nonce)) => match field(after_nonce, cipher_open()) {
                Some((ciphertext, rest)) => if rest == record_close() {
                    Some(RecordView { salt, nonce, ciphertext })
                } else {
                    None
                },
                None => None,
            },
            None => None,
        },
        None => None,
    }
}

proof fn lemma_run_bounds(t: Seq<u8>, p: int)
    requires
        0 <= p <= t.len(),
    ensures
        p <= hex_run_end(t, p) <= t.len(),
        forall|i: int| p <= i < hex_run_end(t, p) ==> is_hex_digit(#[trigger] t[i]),
        hex_run_end(t, p) < t.len() ==> !is_hex_digit(t[hex_run_end(t, p)]),
    decreases t.len() - p,
{
    if p < t.len() && is_hex_digit(t[p]) {
        lemma_run_bounds(t, p + 1);
    }
}

proof fn lemma_run_is(t: Seq<u8>, p: int, e: int)
    requires
        0 <= p <= e <= t.len(),
        forall|i: int| p <= i < e ==> is_hex_digit(#[trigger] t[i]),
        e < t.len() ==> !is_hex_digit(t[e]),
    ensures
        hex_run_end(t, p) == e,
    decreases e - p,
{
    if p < e {
        lemma_run_is(t, p + 1, e);
    }
}

proof fn lemma_field_reads(open: Seq<u8>, x: Seq<u8>, rest: Seq<u8>)
    requires
        rest.len() > 0,
        !is_hex_digit(rest[0]),
    ensures
        field(open + hex_text(x) + rest, open) == Some((x, rest)),
{
    reveal(field);
    let t = open + hex_text(x) + rest;
    let p = open.len() as int;
    let e = p + 2 * x.len();
    lemma_hex_round_trip(x);
    assert forall|i: int| p <= i < e implies is_hex_digit(#[trigger] t[i]) by {
        assert(t[i] == hex_text(x)[i - p]);
    }
    assert(t[e] == rest[0]);
    lemma_run_is(t, p, e);
    assert(t.subrange(p, e) =~= hex_text(x));
    assert(t.skip(e) =~= rest);
    assert(open.is_prefix_of(t)) by {
        assert(t.subrange(0, p) =~= open);
    }
}

proof fn lemma_three_parts(t: Seq<u8>, p: int, e: int)
    requires
        0 <= p <= e <= t.len(),
    ensures
        t == t.subrange(0, p) + t.subrange(p, e) + t.skip(e),
{
    assert(t =~= t.subrange(0, p) + t.subrange(p, e) + t.skip(e));
}

proof fn lemma_run_is_hex_text(t: Seq<u8>, p: int)
    requires
        0 <= p <= t.len(),
        (hex_run_end(t, p) - p) % 2 == 0,
    ensures
        is_hex_text(t.subrange(p, hex_run_end(t, p))),
{
    lemma_run_bounds(t, p);
    let digits = t.subrange(p, hex_run_end(t, p));
    assert forall|i: int| 0 <= i < digits.len() implies is_hex_digit(#[trigger] digits[i]) by {
        assert(digits[i] == t[p + i]);
    }
}

proof fn lemma_field_spells(t: Seq<u8>, open: Seq<u8>)
    requires
        field(t, open) is Some,
    ensures
        ({
            let found = field(t, open)->0;
            t == open + hex_text(found.0) + found.1
        }),
{
    reveal(field);
    let p = open.len() as int;
    let e = hex_run_end(t, p);
    assert(open.is_prefix_of(t));
    assert(open == t.subrange(0, p));
    lemma_run_bounds(t, p);
    lemma_run_is_hex_text(t, p);
    lemma_hex_text_canonical(t.subrange(p, e));
    lemma_three_parts(t, p, e);
}

/// Reading undoes writing: the text of a record reads back as that record.
pub proof fn lemma_scan_round_trip(r: RecordView)
    ensures
        scan(record_text(r)) == Some(r),
{
    let tail2 = cipher_open() + hex_text(r.ciphertext) + record_close();
    let tail1 = nonce_open() + hex_text(r.nonce) + tail2;
    assert(tail1[0] == 34u8);
    assert(tail2[0] == 34u8);
    assert(record_close()[0] == 34u8);
    lemma_field_reads(salt_open(), r.salt, tail1);
    lemma_field_reads(nonce_open(), r.nonce, tail2);
    lemma_field_reads(cipher_open(), r.ciphertext, record_close());
}

/// Whatever reads as a record is exactly the text of that record.
pub proof fn lemma_scan_sound(t: Seq<u8>)
    requires
        scan(t) is Some,
    ensures
        record_text(scan(t)->0) == t,
{
    lemma_field_spells(t, salt_open());
    let salt_field = field(t, salt_open())->0;
    lemma_field_spells(salt_field.1, nonce_open());
    let nonce_field = field(salt_field.1, nonce_open())->0;
    lemma_field_spells(nonce_field.1, cipher_open());
}

/// A text reads as a record exactly when it is that record's text.
pub proof fn lemma_scan_characterized(t: Seq<u8>, r: RecordView)
    ensures
        scan(t) == Some(r) <==> record_text(r) == t,
{
    if scan(t) == Some(r) {
        lemma_scan_sound(t);
    }
    if record_text(r) == t {
        lemma_scan_round_trip(r);
    }
}

/// A changed text never reads as the record that was written: it reads as
/// another record or as none.
pub proof fn lemma_changed_text_is_another_record(r: RecordView, changed: Seq<u8>)
    requires
        changed != record_text(r),
    ensures
        scan(changed) != Some(r),
{
    if scan(changed) is Some {
        lemma_scan_sound(changed);
    }
}

proof fn lemma_field_of_longer_text(
    p: Seq<u8>,
    t: Seq<u8>,
    open: Seq<u8>,
    bytes: Seq<u8>,
    rest: Seq<u8>,
)
    requires
        p.is_prefix_of(t),
        field(p, open) == Some((bytes, rest)),
        rest.len() > 0,
        !is_hex_digit(rest[0]),
    ensures
        rest.len() <= p.len(),
        field(t, open) == Some((bytes, t.skip(p.len() - rest.len()))),
        rest.is_prefix_of(t.skip(p.len() - rest.len())),
{
    reveal(field);
    let start = open.len() as int;
    let e = hex_run_end(p, start);
    lemma_run_bounds(p, start);
    assert(p.skip(e)[0] == p[e]);
    assert forall|i: int| 0 <= i < p.len() implies p[i] == t[i] by {
        assert(t.subrange(0, p.len() as int)[i] == t[i]);
    }
    lemma_run_is(t, start, e);
    assert(open =~= t.subrange(0, start)) by {
        assert forall|i: int| 0 <= i < start implies open[i] == t[i] by {
            assert(p.subrange(0, start)[i] == p[i]);
        }
    }
    assert(p.subrange(start, e) =~= t.subrange(start, e));
    assert(p.skip(e) =~= t.skip(e).subrange(0, p.len() - e));
}

/// A text that was cut short is no record: of a record's text, no proper
/// beginning reads as a record. A reader that meets a half-written record
/// is refused.
pub proof fn lemma_truncated_text_is_refused(r: RecordView, n: int)
    requires
        0 <= n < record_text(r).len(),
    ensures
        scan(record_text(r).take(n)) is None,
{
    let t = record_text(r);
    let p = t.take(n);
    if scan(p) is Some {
        lemma_scan_round_trip(r);
        assert(p.is_prefix_of(t)) by {
            assert(p =~= t.subrange(0, p.len() as int));
        }
        let salt_part = field(p, salt_open())->0;
        let after_salt = salt_part.1;
        let nonce_part = field(after_salt, nonce_open())->0;
        let after_nonce = nonce_part.1;
        let cipher_part = field(after_nonce, cipher_open())->0;
        let end = cipher_part.1;
        assert(after_salt.len() > 0 && after_salt[0] == 34u8) by {
            reveal(field);
            assert(nonce_open()[0] == 34u8);
            assert(after_salt.subrange(0, nonce_open().len() as int)[0] == after_salt[0]);
        }
        assert(after_nonce.len() > 0 && after_nonce[0] == 34u8) by {
            reveal(field);
            assert(cipher_open()[0] == 34u8);
            assert(after_nonce.subrange(0, cipher_open().len() as int)[0] == after_nonce[0]);
        }
        assert(end.len() == 2 && end[0] == 34u8) by {
            assert(record_close()[0] == 34u8);
            assert(record_close().len() == 2);
        }
        lemma_field_of_longer_text(p, t, salt_open(), salt_part.0, after_salt);
        let whole_after_salt = t.skip(p.len() - after_salt.len());
        lemma_field_of_longer_text(
            after_salt,
            whole_after_salt,
            nonce_open(),
            nonce_part.0,
            after_nonce,
        );
        let whole_after_nonce = whole_after_salt.skip(after_salt.len() - after_nonce.len());
        lemma_field_of_longer_text(
            after_nonce,
            whole_after_nonce,
            cipher_open(),
            cipher_part.0,
            end,
        );
        let whole_end = whole_after_nonce.skip(after_nonce.len() - end.len());
        assert(whole_end == record_close());
        assert(whole_end.len() == t.len() - (p.len() - end.len()));
        assert(p.len() == t.len());
    }
}

/// Two records with the same text are the same record.
pub proof fn lemma_record_text_injective(a: RecordView, b: RecordView)
    requires
        record_text(a) == record_text(b),
    ensures
        a == b,
{
    lemma_scan_round_trip(a);
    lemma_scan_round_trip(b);
}

fn salt_open_bytes() -> (lit: [u8; 9])
    ensures
        lit@ == salt_open(),
{
    let lit: [u8; 9] = [123, 34, 115, 97, 108, 116, 34, 58, 34];
    proof {
        assert(lit@ =~= salt_open());
    }
    lit
}

fn nonce_open_bytes() -> (lit: [u8; 11])
    ensures
        lit@ == nonce_open(),
{
    let lit: [u8; 11] = [34, 44, 34, 110, 111, 110, 99, 101, 34, 58, 34];
    proof {
        assert(lit@ =~= nonce_open());
    }
    lit
}

fn cipher_open_bytes() -> (lit: [u8; 16])
    ensures
        lit@ == cipher_open(),
{
    let lit: [u8; 16] = [34, 44, 34, 99, 105, 112, 104, 101, 114, 116, 101, 120, 116, 34, 58, 34];
    proof {
        assert(lit@ =~= cipher_open());
    }
    lit
}

fn put(out: &mut Vec<u8>, part: &[u8])
    ensures
        final(out)@ == old(out)@ + part@,
{
    let mut i: usize = 0;
    while i < part.len()
        invariant
            i <= part.len(),
            out@ == old(out)@ + part@.take(i as int),
        decreases part.len() - i,
    {
        out.push(part[i]);
        proof {
            assert(out@ =~= old(out)@ + part@.take(i + 1));
        }
        i += 1;
    }
    proof {
        assert(part@.take(i as int) =~= part@);
    }
}

/// Reads the field that starts at `pos`: gives its bytes and the position
/// after its digits.
fn read_field(text: &[u8], pos: usize, open: &[u8]) -> (r: Option<(Vec<u8>, usize)>)
    requires
        pos <= text.len(),
    ensures
        match r {
            Some((bytes, end)) => pos <= end <= text.len() && field(
                text@.skip(pos as int),
                open@,
            ) == Some((bytes@, text@.skip(end as int))),
            None => field(text@.skip(pos as int), open@) is None,
        },
{
    let n = text.len();
    let ghost s = text@.skip(pos as int);
    if n - pos < open.len() {
        proof {
            reveal(field);
        }
        return None;
    }
    let mut j: usize = 0;
    while j < open.len()
        invariant
            j <= open.len(),
            pos + open.len() <= n,
            n == text.len(),
            s == text@.skip(pos as int),
            forall|k: int| 0 <= k < j ==> text@[pos + k] == #[trigger] open@[k],
        decreases open.len() - j,
    {
        if text[pos + j] != open[j] {
            proof {
                reveal(field);
                assert(s.subrange(0, open@.len() as int)[j as int] == text@[pos + j]);
            }
            return None;
        }
        j += 1;
    }
    let start = pos + open.len();
    let mut end = start;
    while end < n && is_digit(text[end])
        invariant
            start <= end <= n,
            n == text.len(),
            forall|k: int| start <= k < end ==> is_hex_digit(#[trigger] text@[k]),
        decreases n - end,
    {
        end += 1;
    }
    let digits = slice_subrange(text, start, end);
    proof {
        reveal(field);
        assert(s.subrange(0, open@.len() as int) =~= open@);
        assert forall|i: int| open@.len() <= i < end - pos implies is_hex_digit(#[trigger] s[i]) by {
            assert(s[i] == text@[pos + i]);
        }
        lemma_run_is(s, open@.len() as int, end - pos);
        assert(digits@ =~= s.subrange(open@.len() as int, end - pos));
        assert(s.skip(end - pos) =~= text@.skip(end as int));
        assert forall|i: int| 0 <= i < digits@.len() implies is_hex_digit(#[trigger] digits@[i]) by {
            assert(digits@[i] == text@[start + i]);
        }
    }
    match decode(digits) {
        Some(bytes) => Some((bytes, end)),
        None => None,
    }
}

impl EncryptedRecord {
    /// Writes the record in its persisted form.
    pub fn to_bytes(&self) -> (text: Vec<u8>)
        ensures
            text@ == record_text(self@),
    {
        let mut tail: Vec<u8> = Vec::new();
        let lit = cipher_open_bytes();
        put(&mut tail, lit.as_slice());
        let digits = encode(self.ciphertext.as_slice());
        put(&mut tail, digits.as_slice());
        tail.push(34);
        tail.push(125);
        proof {
            assert(tail@ =~= cipher_open() + hex_text(self.ciphertext@) + record_close());
        }
        let mut middle: Vec<u8> = Vec::new();
        let lit = nonce_open_bytes();
        put(&mut middle, lit.as_slice());
        let digits = encode(self.nonce.as_slice());
        put(&mut middle, digits.as_slice());
        put(&mut middle, tail.as_slice());
        proof {
            assert(middle@ =~= nonce_open() + hex_text(self.nonce@) + tail@);
        }
        let mut text: Vec<u8> = Vec::new();
        let lit = salt_open_bytes();
        put(&mut text, lit.as_slice());
        let digits = encode(self.salt.as_slice());
        put(&mut text, digits.as_slice());
        put(&mut text, middle.as_slice());
        proof {
            assert(text@ =~= salt_open() + hex_text(self.salt@) + middle@);
        }
        text
    }

    /// Reads a record from its persisted form. Only the exact form that
    /// `to_bytes` writes is a record: a missing or reordered field, a digit
    /// that is not lower-case hexadecimal, an odd number of digits or any
    /// byte before, between or after the fields is refused.
    pub fn parse(text: &[u8]) -> (out: Result<EncryptedRecord, VaultError>)
        ensures
            out matches Ok(r) ==> scan(text@) == Some(r@) && record_text(r@) == text@,
            out matches Err(e) ==> e is MalformedRecord && scan(text@) is None,
            out is Err ==> forall|v: RecordView| #[trigger] record_text(v) != text@,
    {
        proof {
            assert(text@.skip(0) =~= text@);
            if scan(text@) is Some {
                lemma_scan_sound(text@);
            }
            assert forall|v: RecordView| scan(text@) is None implies #[trigger] record_text(v)
                != text@ by {
                lemma_scan_round_trip(v);
            }
        }
        let lit = salt_open_bytes();
        let (salt, after_salt) = match read_field(text, 0, lit.as_slice()) {
            Some(found) => found,
            None => {
                return Err(VaultError::MalformedRecord);
            },
        };
        let lit = nonce_open_bytes();
        let (nonce, after_nonce) = match read_field(text, after_salt, lit.as_slice()) {
            Some(found) => found,
            None => {
                return Err(VaultError::MalformedRecord);
            },
        };
        let lit = cipher_open_bytes();
        let (ciphertext, end) = match read_field(text, after_nonce, lit.as_slice()) {
            Some(found) => found,
            None => {
                return Err(VaultError::MalformedRecord);
            },
        };
        let ghost rest = text@.skip(end as int);
        if text.len() - end == 2 && text[end] == 34 && text[end + 1] == 125 {
            proof {
                assert(rest =~= record_close());
            }
            Ok(EncryptedRecord { salt, nonce, ciphertext })
        } else {
            proof {
                if rest.len() == 2 {
                    assert(rest[0] == text@[end as int] && rest[1] == text@[end + 1]);
                    assert(record_close()[0] == 34u8 && record_close()[1] == 125u8);
                }
                assert(rest != record_close());
            }
            Err(VaultError::MalformedRecord)
        }
    }
}

} // verus!
