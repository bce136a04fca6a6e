use secrets_manager::crypto::{
    carry_out, decrypt, encrypt, worded_decryption, worded_encryption, CryptCall, DecryptFailure,
    EncryptFailure,
};

#[test]
fn decrypting_what_was_encrypted_gives_the_plaintext_back() {
    let plaintext = b"k1".to_vec();
    let ciphertext = encrypt(&plaintext, "pw").unwrap();
    assert_ne!(ciphertext, plaintext);
    assert_eq!(decrypt(&ciphertext, "pw").unwrap(), plaintext);
}

#[test]
fn round_trip_of_empty_and_binary_content() {
    for plaintext in [Vec::new(), vec![0u8, 255, 10, 13, 0, 1, 2, 3]] {
        let ciphertext = encrypt(&plaintext, "correct horse").unwrap();
        assert_eq!(decrypt(&ciphertext, "correct horse").unwrap(), plaintext);
    }
}

#[test]
fn two_encryptions_of_the_same_input_differ() {
    let first = encrypt(b"same", "pw").unwrap();
    let second = encrypt(b"same", "pw").unwrap();
    assert_ne!(first, second);
}

#[test]
fn a_flipped_byte_makes_decryption_fail() {
    let mut ciphertext = encrypt(b"k1", "pw").unwrap();
    let last = ciphertext.len() - 1;
    ciphertext[last] ^= 0x01;
    assert!(decrypt(&ciphertext, "pw").is_err());
}

#[test]
fn a_flipped_byte_in_the_header_makes_decryption_fail() {
    let mut ciphertext = encrypt(b"k1", "pw").unwrap();
    ciphertext[30] ^= 0x01;
    assert!(decrypt(&ciphertext, "pw").is_err());
}

#[test]
fn the_wrong_passphrase_makes_decryption_fail() {
    let ciphertext = encrypt(b"k1", "pw").unwrap();
    assert!(decrypt(&ciphertext, "other").is_err());
}

#[test]
fn what_is_no_age_file_does_not_decrypt() {
    assert!(decrypt(b"not an age file", "pw").is_err());
    assert!(decrypt(b"", "pw").is_err());
}

#[test]
fn an_outcome_keeps_its_bytes_and_a_failure_gets_words() {
    assert_eq!(worded_encryption(Ok(vec![1, 2, 3])), Ok(vec![1, 2, 3]));
    assert_eq!(worded_decryption(Ok(vec![])), Ok(vec![]));
    assert_eq!(
        worded_decryption(Err(DecryptFailure::DecryptionFailed)),
        Err("decryption failed".to_owned())
    );
    assert_eq!(
        worded_decryption(Err(DecryptFailure::Io("unexpected end of file".to_owned()))),
        Err("unexpected end of file".to_owned())
    );
    assert_eq!(
        worded_encryption(Err(EncryptFailure::EncryptedIdentities(DecryptFailure::InvalidMac))),
        Err("the authentication code of the header is invalid".to_owned())
    );
    assert_eq!(
        worded_encryption(Err(EncryptFailure::IncompatibleRecipients {
            first: vec![],
            other: vec![]
        })),
        Err("the recipients do not go together".to_owned())
    );
    assert_eq!(
        worded_encryption(Err(EncryptFailure::MissingRecipients)),
        Err("no recipient was given".to_owned())
    );
}

#[test]
fn an_excessive_work_factor_is_put_into_words_whatever_the_numbers() {
    assert_eq!(
        DecryptFailure::ExcessiveWork { required: 255, target: 0 }.words(),
        "the file asks for work factor 255, more than this device accepts with its target of 0"
    );
    assert_eq!(
        DecryptFailure::ExcessiveWork { required: 58, target: 18 }.words(),
        "the file asks for work factor 58, more than this device accepts with its target of 18"
    );
    assert_eq!(
        DecryptFailure::ExcessiveWork { required: 0, target: 255 }.words(),
        "the file asks for work factor 0, more than this device accepts with its target of 255"
    );
}

/// The ciphertext with the work factor in its header set to `factor`.
fn with_work_factor(ciphertext: &[u8], factor: &str) -> Vec<u8> {
    let stanza = b"-> scrypt ";
    let start = ciphertext.windows(stanza.len()).position(|w| w == stanza).unwrap();
    let end = start + ciphertext[start..].iter().position(|b| *b == b'\n').unwrap();
    let number = start + ciphertext[start..end].iter().rposition(|b| *b == b' ').unwrap() + 1;
    let mut changed = ciphertext[..number].to_vec();
    changed.extend_from_slice(factor.as_bytes());
    changed.extend_from_slice(&ciphertext[end..]);
    changed
}

#[test]
fn a_changed_work_factor_gives_an_error_with_words() {
    let ciphertext = encrypt(b"k1", "pw").unwrap();
    for factor in ["58", "98", "255"] {
        let changed = with_work_factor(&ciphertext, factor);
        assert!(decrypt(&changed, "pw").is_err());
        let outcome =
            carry_out(CryptCall::Decrypt { bytes: changed, passphrase: "pw".to_owned() });
        let words = outcome.unwrap_err();
        assert!(
            words.starts_with(&format!("the file asks for work factor {}, ", factor)),
            "{}",
            words
        );
    }
}

#[test]
fn carry_out_makes_the_call_that_it_is_given() {
    assert_eq!(carry_out(CryptCall::Nothing), Err(String::new()));
    let sealed =
        carry_out(CryptCall::Encrypt { bytes: b"k1".to_vec(), passphrase: "pw".to_owned() })
            .unwrap();
    assert_eq!(decrypt(&sealed, "pw").unwrap(), b"k1".to_vec());
    assert!(decrypt(&sealed, "").is_err());
    assert_eq!(
        carry_out(CryptCall::Decrypt { bytes: sealed, passphrase: "pw".to_owned() }),
        Ok(b"k1".to_vec())
    );
    assert_eq!(
        carry_out(CryptCall::Decrypt { bytes: b"no age file".to_vec(), passphrase: "pw".to_owned() })
            .is_err(),
        true
    );
}
