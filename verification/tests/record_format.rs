use secret_vault::error::{ErrorKind, VaultError};
use secret_vault::hex::{decode, encode, is_digit};
use secret_vault::record::EncryptedRecord;

fn sample() -> EncryptedRecord {
    EncryptedRecord { salt: vec![0x01, 0x02], nonce: vec![0xab, 0x05, 0xff], ciphertext: vec![0x00, 0x10, 0x9e] }
}

const SAMPLE_TEXT: &str = "{\"salt\":\"0102\",\"nonce\":\"ab05ff\",\"ciphertext\":\"00109e\"}";

#[test]
fn hex_encode_exact() {
    assert_eq!(encode(&[0xab, 0x05, 0x00, 0xff, 0x9e]), b"ab0500ff9e".to_vec());
    assert_eq!(encode(&[]), Vec::<u8>::new());
}

#[test]
fn hex_decode_exact() {
    assert_eq!(decode(b"ab0500ff9e"), Some(vec![0xab, 0x05, 0x00, 0xff, 0x9e]));
    assert_eq!(decode(b""), Some(vec![]));
}

#[test]
fn hex_round_trip_every_byte() {
    let all: Vec<u8> = (0..=255u8).collect();
    let text = encode(&all);
    assert_eq!(text.len(), 512);
    assert!(text.iter().all(|c| is_digit(*c)));
    assert_eq!(decode(&text), Some(all));
}

#[test]
fn hex_decode_refuses_odd_length() {
    assert_eq!(decode(b"abc"), None);
    assert_eq!(decode(b"a"), None);
}

#[test]
fn hex_decode_refuses_other_bytes() {
    assert_eq!(decode(b"AB"), None);
    assert_eq!(decode(b"0g"), None);
    assert_eq!(decode(b"0 "), None);
    assert_eq!(decode(b"\"0"), None);
}

#[test]
fn hex_digits_are_lower_case_only() {
    for c in 0..=255u8 {
        let expected = c.is_ascii_digit() || (b'a'..=b'f').contains(&c);
        assert_eq!(is_digit(c), expected);
    }
}

#[test]
fn record_text_exact() {
    assert_eq!(sample().to_bytes(), SAMPLE_TEXT.as_bytes().to_vec());
}

#[test]
fn record_with_empty_fields() {
    let r = EncryptedRecord { salt: vec![], nonce: vec![], ciphertext: vec![] };
    let text = r.to_bytes();
    assert_eq!(text, b"{\"salt\":\"\",\"nonce\":\"\",\"ciphertext\":\"\"}".to_vec());
    let back = EncryptedRecord::parse(&text).unwrap();
    assert!(back.salt.is_empty() && back.nonce.is_empty() && back.ciphertext.is_empty());
}

#[test]
fn record_parse_reads_what_was_written() {
    let back = EncryptedRecord::parse(SAMPLE_TEXT.as_bytes()).unwrap();
    assert_eq!(back.salt, vec![0x01, 0x02]);
    assert_eq!(back.nonce, vec![0xab, 0x05, 0xff]);
    assert_eq!(back.ciphertext, vec![0x00, 0x10, 0x9e]);
    assert_eq!(back.to_bytes(), SAMPLE_TEXT.as_bytes().to_vec());
}

fn refused(text: &str) {
    match EncryptedRecord::parse(text.as_bytes()) {
        Err(e) => {
            assert!(matches!(e, VaultError::MalformedRecord));
            assert_eq!(e.kind(), ErrorKind::MalformedRecord);
        }
        Ok(_) => panic!("accepted {}", text),
    }
}

#[test]
fn record_parse_refuses_missing_field() {
    refused("{\"salt\":\"0102\",\"ciphertext\":\"00109e\"}");
    refused("{\"salt\":\"0102\",\"nonce\":\"ab05ff\"}");
    refused("{\"nonce\":\"ab05ff\",\"ciphertext\":\"00109e\"}");
    refused("{}");
    refused("");
}

#[test]
fn record_parse_refuses_invalid_encoding() {
    refused("{\"salt\":\"01zz\",\"nonce\":\"ab05ff\",\"ciphertext\":\"00109e\"}");
    refused("{\"salt\":\"0102\",\"nonce\":\"AB05FF\",\"ciphertext\":\"00109e\"}");
    refused("{\"salt\":\"0102\",\"nonce\":\"ab05ff\",\"ciphertext\":\"00109\"}");
    refused("{\"salt\":\"010\",\"nonce\":\"ab05ff\",\"ciphertext\":\"00109e\"}");
}

#[test]
fn record_parse_refuses_truncated_text() {
    for end in 0..SAMPLE_TEXT.len() {
        assert!(EncryptedRecord::parse(&SAMPLE_TEXT.as_bytes()[..end]).is_err());
    }
}

#[test]
fn record_parse_refuses_other_shapes() {
    refused("{\"salt\":\"0102\",\"nonce\":\"ab05ff\",\"ciphertext\":\"00109e\"} ");
    refused(" {\"salt\":\"0102\",\"nonce\":\"ab05ff\",\"ciphertext\":\"00109e\"}");
    refused("{\"nonce\":\"ab05ff\",\"salt\":\"0102\",\"ciphertext\":\"00109e\"}");
    refused("{\"salt\":\"0102\",\"nonce\":\"ab05ff\",\"ciphertext\":\"00109e\"}}");
    refused("not a record");
}

#[test]
fn error_kinds_and_reasons() {
    assert_eq!(VaultError::NotFound.kind(), ErrorKind::NotFound);
    assert_eq!(VaultError::IoFailure("disk".to_string()).kind(), ErrorKind::IoFailure);
    assert_eq!(VaultError::MalformedRecord.kind(), ErrorKind::MalformedRecord);
    assert_eq!(VaultError::CryptoFailure.kind(), ErrorKind::CryptoFailure);
    assert_eq!(VaultError::EncodingFailure.kind(), ErrorKind::EncodingFailure);
    assert_eq!(VaultError::NotFound.reason(), "No se encontró la API key.");
    assert_eq!(VaultError::IoFailure("disk".to_string()).reason(), "disk");
    assert_eq!(VaultError::CryptoFailure.reason(), "could not read stored credential");
    assert!(VaultError::NotFound.is_not_found());
    assert!(!VaultError::CryptoFailure.is_not_found());
}

#[test]
fn changed_text_never_reads_as_the_same_record() {
    let text = SAMPLE_TEXT.as_bytes();
    for at in 0..text.len() {
        for to in [b'0', b'f', b'"', b' ', b'}'] {
            if text[at] == to {
                continue;
            }
            let mut changed = text.to_vec();
            changed[at] = to;
            if let Ok(r) = EncryptedRecord::parse(&changed) {
                let same = r.salt == sample().salt && r.nonce == sample().nonce && r.ciphertext == sample().ciphertext;
                assert!(!same);
                assert_eq!(r.to_bytes(), changed);
            }
        }
    }
}
