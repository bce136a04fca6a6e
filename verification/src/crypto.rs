//! Passphrase encryption, done by `age`.

use crate::effects::{Reply, ReplyView};
use crate::meta::{decimal, render_number};
use crate::utf8path_ext::texts;
use age::secrecy::SecretString;
use age::{DecryptError, Decryptor, EncryptError, Encryptor};
use std::io::{Read, Write};
use vstd::prelude::*;
use vstd::string::*;

verus! {

/// `age::EncryptError`, carried to where its variants are told apart.
#[verifier::external_type_specification]
#[verifier::external_body]
pub struct ExEncryptError(age::EncryptError);

/// `age::DecryptError`, carried to where its variants are told apart.
#[verifier::external_type_specification]
#[verifier::external_body]
pub struct ExDecryptError(age::DecryptError);

/// Encrypts `plaintext` under `passphrase`: calls
/// `age::Encryptor::with_user_passphrase` and writes the plaintext through
/// the writer that `wrap_output` gives. Nothing is claimed of the result:
/// the ciphertext holds fresh random values, so two calls on the same input
/// differ.
#[verifier::external_body]
pub fn encrypt(plaintext: &[u8], passphrase: &str) -> (r: Result<Vec<u8>, age::EncryptError>) {
    let encryptor = Encryptor::with_user_passphrase(SecretString::from(passphrase));
    let mut encrypted = vec![];
    let mut writer = encryptor.wrap_output(&mut encrypted)?;
    writer.write_all(plaintext)?;
    writer.finish()?;
    Ok(encrypted)
}

/// Decrypts `ciphertext` under `passphrase`: calls `age::Decryptor::new`
/// and reads the plaintext from the reader that `decrypt` gives for an
/// `age::scrypt::Identity`. Nothing is claimed of the result: how much work
/// `age` accepts to spend on a file depends on the speed that it measures
/// when the identity is made.
#[verifier::external_body]
pub fn decrypt(ciphertext: &[u8], passphrase: &str) -> (r: Result<Vec<u8>, age::DecryptError>) {
    let decryptor = Decryptor::new(ciphertext)?;
    let mut decrypted = vec![];
    let identity = age::scrypt::Identity::new(SecretString::from(passphrase));
    let mut reader = decryptor.decrypt(std::iter::once(&identity as _))?;
    reader.read_to_end(&mut decrypted)?;
    Ok(decrypted)
}

/// Why a decryption failed.
#[derive(Debug, Clone, PartialEq, Eq)]
pub enum DecryptFailure {
    /// The file did not decrypt: the passphrase is wrong or the content was changed.
    DecryptionFailed,
    /// The file asks for more work than this device accepts.
    ExcessiveWork { required: u8, target: u8 },
    /// The header of the file is invalid.
    InvalidHeader,
    /// The authentication code of the header is invalid.
    InvalidMac,
    /// Reading failed, for the reason given.
    Io(String),
    /// An encrypted key did not decrypt.
    KeyDecryptionFailed,
    /// The file is not encrypted to the passphrase.
    NoMatchingKeys,
    /// The format of the file is not known.
    UnknownFormat,
}

/// What `DecryptFailure` holds, as mathematical values.
pub enum DecryptFailureView {
    DecryptionFailed,
    ExcessiveWork { required: u8, target: u8 },
    InvalidHeader,
    InvalidMac,
    Io(Seq<char>),
    KeyDecryptionFailed,
    NoMatchingKeys,
    UnknownFormat,
}

impl View for DecryptFailure {
    type V = DecryptFailureView;

    open spec fn view(&self) -> DecryptFailureView {
        match self {
            DecryptFailure::DecryptionFailed => DecryptFailureView::DecryptionFailed,
            DecryptFailure::ExcessiveWork { required, target } => DecryptFailureView::ExcessiveWork {
                required: *required,
                target: *target,
            },
            DecryptFailure::InvalidHeader => DecryptFailureView::InvalidHeader,
            DecryptFailure::InvalidMac => DecryptFailureView::InvalidMac,
            DecryptFailure::Io(reason) => DecryptFailureView::Io(reason@),
            DecryptFailure::KeyDecryptionFailed => DecryptFailureView::KeyDecryptionFailed,
            DecryptFailure::NoMatchingKeys => DecryptFailureView::NoMatchingKeys,
            DecryptFailure::UnknownFormat => DecryptFailureView::UnknownFormat,
        }
    }
}

/// Why an encryption failed.
#[derive(Debug, Clone, PartialEq, Eq)]
pub enum EncryptFailure {
    /// Identities that are themselves encrypted did not decrypt.
    EncryptedIdentities(DecryptFailure),
    /// Two recipients declare labels that do not go together.
    IncompatibleRecipients { first: Vec<String>, other: Vec<String> },
    /// A recipient declares labels that are invalid.
    InvalidRecipientLabels(Vec<String>),
    /// Writing failed, for the reason given.
    Io(String),
    /// No recipient was given.
    MissingRecipients,
    /// A passphrase was mixed with other recipients.
    MixedRecipientAndPassphrase,
}

/// What `EncryptFailure` holds, as mathematical values.
pub enum EncryptFailureView {
    EncryptedIdentities(DecryptFailureView),
    IncompatibleRecipients { first: Seq<Seq<char>>, other: Seq<Seq<char>> },
    InvalidRecipientLabels(Seq<Seq<char>>),
    Io(Seq<char>),
    MissingRecipients,
    MixedRecipientAndPassphrase,
}

impl View for EncryptFailure {
    type V = EncryptFailureView;

    open spec fn view(&self) -> EncryptFailureView {
        match self {
            EncryptFailure::EncryptedIdentities(inner) => EncryptFailureView::EncryptedIdentities(
                inner@,
            ),
            EncryptFailure::IncompatibleRecipients { first, other } => {
                EncryptFailureView::IncompatibleRecipients {
                    first: texts(first@),
                    other: texts(other@),
                }
            },
            EncryptFailure::InvalidRecipientLabels(labels) => {
                EncryptFailureView::InvalidRecipientLabels(texts(labels@))
            },
            EncryptFailure::Io(reason) => EncryptFailureView::Io(reason@),
            EncryptFailure::MissingRecipients => EncryptFailureView::MissingRecipients,
            EncryptFailure::MixedRecipientAndPassphrase => {
                EncryptFailureView::MixedRecipientAndPassphrase
            },
        }
    }
}

/// A failed encryption with its variants told apart; where the failure
/// lies in a decryption, that one is still to be told apart.
pub enum EncryptParts {
    Identities(DecryptError),
    Failure(EncryptFailure),
}

/// Tells the variants of `age::DecryptError` apart and moves their fields
/// out; an `io::Error` is kept as the text it displays. Nothing is claimed
/// of the result. The `Display` of `age::DecryptError` is never called.
#[verifier::external_body]
pub(crate) fn decrypt_failure(error: DecryptError) -> (r: DecryptFailure) {
    match error {
        DecryptError::DecryptionFailed => DecryptFailure::DecryptionFailed,
        DecryptError::ExcessiveWork { required, target } => DecryptFailure::ExcessiveWork { required, target },
        DecryptError::InvalidHeader => DecryptFailure::InvalidHeader,
        DecryptError::InvalidMac => DecryptFailure::InvalidMac,
        DecryptError::Io(e) => DecryptFailure::Io(e.to_string()),
        DecryptError::KeyDecryptionFailed => DecryptFailure::KeyDecryptionFailed,
        DecryptError::NoMatchingKeys => DecryptFailure::NoMatchingKeys,
        DecryptError::UnknownFormat => DecryptFailure::UnknownFormat,
    }
}

/// Tells the variants of `age::EncryptError` apart and moves their fields
/// out; an `io::Error` is kept as the text it displays, and a set of labels
/// as a list in the order in which the set hands them out. Nothing is
/// claimed of the result. The `Display` of `age::EncryptError` is never called.
#[verifier::external_body]
pub(crate) fn encrypt_parts(error: EncryptError) -> (r: EncryptParts) {
    match error {
        EncryptError::EncryptedIdentities(e) => EncryptParts::Identities(e),
        EncryptError::IncompatibleRecipients { l_labels, r_labels } => EncryptParts::Failure(EncryptFailure::IncompatibleRecipients { first: l_labels.into_iter().collect(), other: r_labels.into_iter().collect() }),
        EncryptError::InvalidRecipientLabels(labels) => EncryptParts::Failure(EncryptFailure::InvalidRecipientLabels(labels.into_iter().collect())),
        EncryptError::Io(e) => EncryptParts::Failure(EncryptFailure::Io(e.to_string())),
        EncryptError::MissingRecipients => EncryptParts::Failure(EncryptFailure::MissingRecipients),
        EncryptError::MixedRecipientAndPassphrase => EncryptParts::Failure(EncryptFailure::MixedRecipientAndPassphrase),
    }
}

/// The words for a failed decryption.
pub open spec fn decrypt_words(failure: DecryptFailureView) -> Seq<char> {
    match failure {
        DecryptFailureView::DecryptionFailed => "decryption failed"@,
        DecryptFailureView::ExcessiveWork { required, target } => "the file asks for work factor "@
            + decimal(required as nat) + ", more than this device accepts with its target of "@
            + decimal(target as nat),
        DecryptFailureView::InvalidHeader => "the header is invalid"@,
        DecryptFailureView::InvalidMac => "the authentication code of the header is invalid"@,
        DecryptFailureView::Io(reason) => reason,
        DecryptFailureView::KeyDecryptionFailed => "an encrypted key did not decrypt"@,
        DecryptFailureView::NoMatchingKeys => "the file is not encrypted to a passphrase"@,
        DecryptFailureView::UnknownFormat => "the format of the file is not known"@,
    }
}

/// The words for a failed encryption.
pub open spec fn encrypt_words(failure: EncryptFailureView) -> Seq<char> {
    match failure {
        EncryptFailureView::EncryptedIdentities(inner) => decrypt_words(inner),
        EncryptFailureView::IncompatibleRecipients { .. } => "the recipients do not go together"@,
        EncryptFailureView::InvalidRecipientLabels(_) => "a recipient declares invalid labels"@,
        EncryptFailureView::Io(reason) => reason,
        EncryptFailureView::MissingRecipients => "no recipient was given"@,
        EncryptFailureView::MixedRecipientAndPassphrase => "a passphrase was mixed with other recipients"@,
    }
}

impl DecryptFailure {
    /// Puts the failure into words.
    pub fn words(&self) -> (r: String)
        ensures
            r@ == decrypt_words(self@),
    {
        match self {
            DecryptFailure::DecryptionFailed => String::from_str("decryption failed"),
            DecryptFailure::ExcessiveWork { required, target } => {
                let asked = render_number(*required as u32);
                let accepted = render_number(*target as u32);
                String::from_str("the file asks for work factor ").concat(asked.as_str()).concat(
                    ", more than this device accepts with its target of ",
                ).concat(accepted.as_str())
            },
            DecryptFailure::InvalidHeader => String::from_str("the header is invalid"),
            DecryptFailure::InvalidMac => String::from_str(
                "the authentication code of the header is invalid",
            ),
            DecryptFailure::Io(reason) => reason.clone(),
            DecryptFailure::KeyDecryptionFailed => String::from_str(
                "an encrypted key did not decrypt",
            ),
            DecryptFailure::NoMatchingKeys => String::from_str(
                "the file is not encrypted to a passphrase",
            ),
            DecryptFailure::UnknownFormat => String::from_str("the format of the file is not known"),
        }
    }
}

impl EncryptFailure {
    /// Puts the failure into words.
    pub fn words(&self) -> (r: String)
        ensures
            r@ == encrypt_words(self@),
    {
        match self {
            EncryptFailure::EncryptedIdentities(inner) => inner.words(),
            EncryptFailure::IncompatibleRecipients { .. } => String::from_str(
                "the recipients do not go together",
            ),
            EncryptFailure::InvalidRecipientLabels(_) => String::from_str(
                "a recipient declares invalid labels",
            ),
            EncryptFailure::Io(reason) => reason.clone(),
            EncryptFailure::MissingRecipients => String::from_str("no recipient was given"),
            EncryptFailure::MixedRecipientAndPassphrase => String::from_str(
                "a passphrase was mixed with other recipients",
            ),
        }
    }
}

/// The view of the outcome of an encryption or decryption.
pub open spec fn crypt_view(r: Result<Vec<u8>, String>) -> Result<Seq<u8>, Seq<char>> {
    match r {
        Ok(bytes) => Ok(bytes@),
        Err(reason) => Err(reason@),
    }
}

/// The failure of an encryption, with every variant told apart.
pub(crate) fn encrypt_failure(error: EncryptError) -> (r: EncryptFailure) {
    match encrypt_parts(error) {
        EncryptParts::Identities(inner) => EncryptFailure::EncryptedIdentities(
            decrypt_failure(inner),
        ),
        EncryptParts::Failure(failure) => failure,
    }
}

/// What is made of the outcome of an encryption: the ciphertext is handed
/// on as it is, and a failure is put into words.
pub fn worded_encryption(outcome: Result<Vec<u8>, EncryptFailure>) -> (r: Result<Vec<u8>, String>)
    ensures
        crypt_view(r) == (match outcome {
            Ok(ciphertext) => Ok::<Seq<u8>, Seq<char>>(ciphertext@),
            Err(failure) => Err::<Seq<u8>, Seq<char>>(encrypt_words(failure@)),
        }),
{
    match outcome {
        Ok(ciphertext) => Ok(ciphertext),
        Err(failure) => Err(failure.words()),
    }
}

/// What is made of the outcome of a decryption: the plaintext is handed on
/// as it is, and a failure is put into words.
pub fn worded_decryption(outcome: Result<Vec<u8>, DecryptFailure>) -> (r: Result<Vec<u8>, String>)
    ensures
        crypt_view(r) == (match outcome {
            Ok(plaintext) => Ok::<Seq<u8>, Seq<char>>(plaintext@),
            Err(failure) => Err::<Seq<u8>, Seq<char>>(decrypt_words(failure@)),
        }),
{
    match outcome {
        Ok(plaintext) => Ok(plaintext),
        Err(failure) => Err(failure.words()),
    }
}

/// Encrypts, and makes of the outcome what `worded_encryption` says.
/// Nothing is stated of the result: it is the outcome of the call, of
/// which nothing can be promised.
pub(crate) fn seal(plaintext: &[u8], passphrase: &str) -> (r: Result<Vec<u8>, String>) {
    match encrypt(plaintext, passphrase) {
        Ok(ciphertext) => worded_encryption(Ok(ciphertext)),
        Err(error) => worded_encryption(Err(encrypt_failure(error))),
    }
}

/// Decrypts, and makes of the outcome what `worded_decryption` says.
/// Nothing is stated of the result: it is the outcome of the call, of
/// which nothing can be promised.
pub(crate) fn unseal(ciphertext: &[u8], passphrase: &str) -> (r: Result<Vec<u8>, String>) {
    match decrypt(ciphertext, passphrase) {
        Ok(plaintext) => worded_decryption(Ok(plaintext)),
        Err(error) => worded_decryption(Err(decrypt_failure(error))),
    }
}

/// The encryption or decryption that a step of a pipeline calls for, with
/// the bytes and the passphrase to hand to it.
#[derive(Debug, Clone, PartialEq, Eq)]
pub enum CryptCall {
    /// Encrypt these bytes under this passphrase.
    Encrypt { bytes: Vec<u8>, passphrase: String },
    /// Decrypt these bytes under this passphrase.
    Decrypt { bytes: Vec<u8>, passphrase: String },
    /// The step calls for neither.
    Nothing,
}

/// What `CryptCall` holds, as mathematical values.
pub enum CryptCallView {
    Encrypt { bytes: Seq<u8>, passphrase: Seq<char> },
    Decrypt { bytes: Seq<u8>, passphrase: Seq<char> },
    Nothing,
}

impl View for CryptCall {
    type V = CryptCallView;

    open spec fn view(&self) -> CryptCallView {
        match self {
            CryptCall::Encrypt { bytes, passphrase } => CryptCallView::Encrypt {
                bytes: bytes@,
                passphrase: passphrase@,
            },
            CryptCall::Decrypt { bytes, passphrase } => CryptCallView::Decrypt {
                bytes: bytes@,
                passphrase: passphrase@,
            },
            CryptCall::Nothing => CryptCallView::Nothing,
        }
    }
}

/// The call that a step makes on content that has arrived: encryption
/// where `encrypts` holds, decryption where `decrypts` holds, of exactly
/// the bytes that the reply carries and under exactly `passphrase`; none
/// where the reply carries no bytes.
pub open spec fn call_on(
    encrypts: bool,
    decrypts: bool,
    reply: ReplyView,
    passphrase: Seq<char>,
) -> CryptCallView {
    match reply {
        ReplyView::Bytes(bytes) => if encrypts {
            CryptCallView::Encrypt { bytes, passphrase }
        } else if decrypts {
            CryptCallView::Decrypt { bytes, passphrase }
        } else {
            CryptCallView::Nothing
        },
        _ => CryptCallView::Nothing,
    }
}

/// Works out the call that a step makes on content that has arrived.
pub fn call_for(encrypts: bool, decrypts: bool, reply: &Reply, passphrase: &str) -> (r: CryptCall)
    ensures
        r@ == call_on(encrypts, decrypts, reply@, passphrase@),
{
    match reply {
        Reply::Bytes(bytes) => {
            if encrypts {
                CryptCall::Encrypt { bytes: bytes.clone(), passphrase: String::from_str(passphrase) }
            } else if decrypts {
                CryptCall::Decrypt { bytes: bytes.clone(), passphrase: String::from_str(passphrase) }
            } else {
                CryptCall::Nothing
            }
        },
        _ => CryptCall::Nothing,
    }
}

/// Makes the call, with the bytes and under the passphrase that it
/// carries. Where the step calls for neither encryption nor decryption,
/// the outcome is a failure without words, which no step reads. Of a call
/// that is made nothing is stated: it is the outcome of `encrypt` or
/// `decrypt`, of which nothing can be promised.
pub fn carry_out(call: CryptCall) -> (r: Result<Vec<u8>, String>)
    ensures
        call@ is Nothing ==> crypt_view(r) == Err::<Seq<u8>, Seq<char>>(Seq::empty()),
{
    match call {
        CryptCall::Encrypt { bytes, passphrase } => seal(bytes.as_slice(), passphrase.as_str()),
        CryptCall::Decrypt { bytes, passphrase } => unseal(bytes.as_slice(), passphrase.as_str()),
        CryptCall::Nothing => Err(String::new()),
    }
}

} // verus!
