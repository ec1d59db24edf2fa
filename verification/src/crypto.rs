//! Passphrase-based authenticated encryption of a single value.
//!
//! A key is derived from the passphrase with Argon2id under a salt that is
//! stored next to the ciphertext, and the value is sealed with AES-256-GCM
//! under a nonce that is stored there too.

use vstd::prelude::*;
use vstd::utf8::*;
use vstd::string::*;
use vstd::slice::*;
use aes_gcm::{Aes256Gcm, Key, Nonce};
use aes_gcm::aead::{Aead, KeyInit};
use rand::RngCore;
use sha2::Digest;
use crate::error::{ErrorKind, VaultError};

verus! {

/// Length in bytes of a derived key.
pub const KEY_LEN: usize = 32;

/// Length in bytes of an AES-GCM nonce.
pub const NONCE_LEN: usize = 12;

/// Length in bytes of the salt generated for each encryption.
pub const SALT_LEN: usize = 16;

/// Length in bytes of the authentication tag that AES-GCM appends.
pub const TAG_LEN: usize = 16;

/// Largest passphrase, in bytes, that the key derivation accepts.
pub const MAX_PASSPHRASE_BYTES: usize = 0xFFFF_FFFF;

/// Largest plaintext, in bytes, that AES-GCM accepts.
pub const MAX_PLAINTEXT_BYTES: u64 = 0x10_0000_0000;

/// The error type of `aes_gcm`'s `encrypt` and `decrypt`.
#[verifier::external_type_specification]
#[verifier::external_body]
pub struct ExAeadError(aes_gcm::Error);

/// The error type of `argon2`.
#[verifier::external_type_specification]
#[verifier::external_body]
pub struct ExArgon2Error(argon2::Error);

/// The error type of `String::from_utf8`.
#[verifier::external_type_specification]
#[verifier::external_body]
pub struct ExFromUtf8Error(std::string::FromUtf8Error);

/// The key that Argon2id with its default parameters derives from a
/// passphrase and a salt, or `None` where it refuses them.
pub uninterp spec fn argon2id_key(passphrase: Seq<u8>, salt: Seq<u8>) -> Option<Seq<u8>>;

/// The ciphertext with appended tag that AES-256-GCM produces, or `None`
/// where it refuses the plaintext.
pub uninterp spec fn aes256_gcm_seal(key: Seq<u8>, nonce: Seq<u8>, plaintext: Seq<u8>) -> Option<
    Seq<u8>,
>;

/// The plaintext that AES-256-GCM recovers, or `None` where the tag does
/// not verify.
pub uninterp spec fn aes256_gcm_open(key: Seq<u8>, nonce: Seq<u8>, ciphertext: Seq<u8>) -> Option<
    Seq<u8>,
>;

/// The SHA-256 digest of a byte sequence.
pub uninterp spec fn sha256(data: Seq<u8>) -> Seq<u8>;

/// Calls `sha2::Sha256::digest`. Claimed: the result is a function of the
/// input and has 32 bytes.
#[verifier::external_body]
fn sha256_digest(data: &[u8]) -> (out: Vec<u8>)
    ensures
        out@ == sha256(data@),
        out@.len() == 32,
{
    sha2::Sha256::digest(data).to_vec()
}

/// Calls `rand::rng().fill_bytes` on a fresh buffer of `len` bytes. Only
/// the length of the result is claimed.
#[verifier::external_body]
fn random_bytes(len: usize) -> (out: Vec<u8>)
    ensures
        out@.len() == len,
{
    let mut out = vec![0u8; len];
    rand::rng().fill_bytes(&mut out);
    out
}

/// Calls `argon2::Argon2::default().hash_password_into` with a 32-byte
/// output. Claimed: the result is a function of passphrase and salt; a key
/// has 32 bytes; a salt under 8 bytes is refused; a passphrase and a salt
/// of at least 8 bytes, both within 32-bit length, are accepted.
#[verifier::external_body]
fn derive_key(passphrase: &[u8], salt: &[u8]) -> (r: Result<Vec<u8>, argon2::Error>)
    ensures
        r is Ok <==> argon2id_key(passphrase@, salt@) is Some,
        r matches Ok(k) ==> argon2id_key(passphrase@, salt@) == Some(k@) && k@.len() == KEY_LEN,
        salt@.len() < 8 ==> r is Err,
        passphrase@.len() <= MAX_PASSPHRASE_BYTES && 8 <= salt@.len() <= 0xFFFF_FFFF ==> r is Ok,
{
    let mut key = vec![0u8; 32];
    match argon2::Argon2::default().hash_password_into(passphrase, salt, &mut key) {
        Ok(()) => Ok(key),
        Err(e) => Err(e),
    }
}

/// Calls `Aes256Gcm::encrypt` with an empty associated data. Claimed: the
/// result is a function of key, nonce and plaintext; it is 16 bytes longer
/// than the plaintext; decrypting it under the same key and nonce gives
/// the plaintext back; a plaintext of at most 2^36 bytes is accepted.
#[verifier::external_body]
fn aead_seal(key: &[u8], nonce: &[u8], plaintext: &[u8]) -> (r: Result<Vec<u8>, aes_gcm::Error>)
    requires
        key@.len() == KEY_LEN,
        nonce@.len() == NONCE_LEN,
    ensures
        r is Ok <==> aes256_gcm_seal(key@, nonce@, plaintext@) is Some,
        r matches Ok(c) ==> aes256_gcm_seal(key@, nonce@, plaintext@) == Some(c@) && c@.len()
            == plaintext@.len() + TAG_LEN && aes256_gcm_open(key@, nonce@, c@) == Some(
            plaintext@,
        ),
        plaintext@.len() <= MAX_PLAINTEXT_BYTES ==> r is Ok,
{
    let cipher = Aes256Gcm::new(Key::<Aes256Gcm>::from_slice(key));
    cipher.encrypt(Nonce::from_slice(nonce), plaintext)
}

/// Calls `Aes256Gcm::decrypt` with an empty associated data. Claimed: the
/// result is a function of key, nonce and ciphertext; a plaintext is 16
/// bytes shorter than the ciphertext; a ciphertext under 16 bytes is
/// refused.
#[verifier::external_body]
fn aead_open(key: &[u8], nonce: &[u8], ciphertext: &[u8]) -> (r: Result<Vec<u8>, aes_gcm::Error>)
    requires
        key@.len() == KEY_LEN,
        nonce@.len() == NONCE_LEN,
    ensures
        r is Ok <==> aes256_gcm_open(key@, nonce@, ciphertext@) is Some,
        r matches Ok(p) ==> aes256_gcm_open(key@, nonce@, ciphertext@) == Some(p@) && p@.len()
            + TAG_LEN == ciphertext@.len(),
        ciphertext@.len() < TAG_LEN ==> r is Err,
{
    let cipher = Aes256Gcm::new(Key::<Aes256Gcm>::from_slice(key));
    cipher.decrypt(Nonce::from_slice(nonce), ciphertext)
}

/// Calls `String::from_utf8`. Claimed: it succeeds exactly on valid UTF-8,
/// and the string then holds the decoded characters.
#[verifier::external_body]
pub(crate) fn string_from_utf8(bytes: Vec<u8>) -> (r: Result<String, std::string::FromUtf8Error>)
    ensures
        r is Ok <==> valid_utf8(bytes@),
        r matches Ok(s) ==> s@ == decode_utf8(bytes@),
{
    String::from_utf8(bytes)
}

/// One encrypted value with the nonce and the salt it was sealed under.
#[derive(Debug)]
pub struct EncryptedData {
    pub ciphertext: Vec<u8>,
    pub nonce: Vec<u8>,
    pub salt: Vec<u8>,
}

/// The mathematical content of an [`EncryptedData`].
pub struct EncryptedDataView {
    pub ciphertext: Seq<u8>,
    pub nonce: Seq<u8>,
    pub salt: Seq<u8>,
}

impl View for EncryptedData {
    type V = EncryptedDataView;

    open spec fn view(&self) -> EncryptedDataView {
        EncryptedDataView { ciphertext: self.ciphertext@, nonce: self.nonce@, salt: self.salt@ }
    }
}

/// A copy of a byte vector.
pub fn clone_bytes(bytes: &Vec<u8>) -> (out: Vec<u8>)
    ensures
        out@ == bytes@,
{
    let mut out: Vec<u8> = Vec::new();
    let mut i: usize = 0;
    while i < bytes.len()
        invariant
            i <= bytes.len(),
            out@ == bytes@.subrange(0, i as int),
        decreases bytes.len() - i,
    {
        out.push(bytes[i]);
        i += 1;
        assert(out@ =~= bytes@.subrange(0, i as int));
    }
    assert(bytes@.subrange(0, bytes.len() as int) =~= bytes@);
    out
}

impl Clone for EncryptedData {
    fn clone(&self) -> (r: Self)
        ensures
            r@ == self@,
    {
        EncryptedData {
            ciphertext: clone_bytes(&self.ciphertext),
            nonce: clone_bytes(&self.nonce),
            salt: clone_bytes(&self.salt),
        }
    }
}

/// The ciphertext that sealing `plaintext` under `passphrase`, `salt` and
/// `nonce` gives, or `None` where a step refuses its input.
pub open spec fn seal_spec(
    plaintext: Seq<char>,
    passphrase: Seq<char>,
    salt: Seq<u8>,
    nonce: Seq<u8>,
) -> Option<Seq<u8>> {
    if nonce.len() != NONCE_LEN {
        None
    } else {
        match argon2id_key(encode_utf8(passphrase), salt) {
            Some(key) => aes256_gcm_seal(key, nonce, encode_utf8(plaintext)),
            None => None,
        }
    }
}

/// The plaintext that opening `blob` under `passphrase` gives, or `None`
/// where the key cannot be derived, the tag does not verify or the
/// recovered bytes are no UTF-8.
pub open spec fn open_spec(blob: EncryptedDataView, passphrase: Seq<char>) -> Option<Seq<char>> {
    if blob.nonce.len() != NONCE_LEN {
        None
    } else {
        match argon2id_key(encode_utf8(passphrase), blob.salt) {
            Some(key) => match aes256_gcm_open(key, blob.nonce, blob.ciphertext) {
                Some(bytes) => if valid_utf8(bytes) {
                    Some(decode_utf8(bytes))
                } else {
                    None
                },
                None => None,
            },
            None => None,
        }
    }
}

/// `blob` is what sealing `plaintext` under `passphrase` produced: its
/// ciphertext is the sealed plaintext under the key derived with the
/// blob's own salt, and the cipher opens it again under that key.
pub open spec fn sealed_by(
    blob: EncryptedDataView,
    plaintext: Seq<char>,
    passphrase: Seq<char>,
) -> bool {
    &&& seal_spec(plaintext, passphrase, blob.salt, blob.nonce) == Some(blob.ciphertext)
    &&& blob.ciphertext.len() == encode_utf8(plaintext).len() + TAG_LEN
    &&& aes256_gcm_open(
        argon2id_key(encode_utf8(passphrase), blob.salt)->0,
        blob.nonce,
        blob.ciphertext,
    ) == Some(encode_utf8(plaintext))
}

/// Seals `plaintext` under `passphrase` with the given salt and nonce.
///
/// Fails with `CryptoFailure` exactly when the nonce has not 12 bytes, the
/// key derivation refuses passphrase or salt, or the cipher refuses the
/// plaintext; none of these happens for a 12-byte nonce, a salt of at
/// least 8 bytes, and a passphrase and a plaintext within the sizes that
/// the key derivation and the cipher accept.
pub fn encrypt_with_material(
    plaintext: &str,
    passphrase: &str,
    salt: Vec<u8>,
    nonce: Vec<u8>,
) -> (r: Result<EncryptedData, VaultError>)
    ensures
        match r {
            Ok(blob) => blob.salt@ == salt@ && blob.nonce@ == nonce@ && sealed_by(
                blob@,
                plaintext@,
                passphrase@,
            ),
            Err(e) => e.kind == ErrorKind::CryptoFailure && seal_spec(
                plaintext@,
                passphrase@,
                salt@,
                nonce@,
            ) is None,
        },
        nonce@.len() == NONCE_LEN && 8 <= salt@.len() <= 0xFFFF_FFFF && encode_utf8(
            passphrase@,
        ).len() <= MAX_PASSPHRASE_BYTES && encode_utf8(plaintext@).len() <= MAX_PLAINTEXT_BYTES
            ==> r is Ok,
{
    if nonce.len() != NONCE_LEN {
        return Err(VaultError::new(ErrorKind::CryptoFailure, "nonce must be 12 bytes"));
    }
    let key = match derive_key(passphrase.as_bytes(), salt.as_slice()) {
        Ok(key) => key,
        Err(_) => {
            return Err(VaultError::new(ErrorKind::CryptoFailure, "key derivation failed"));
        },
    };
    match aead_seal(key.as_slice(), nonce.as_slice(), plaintext.as_bytes()) {
        Ok(ciphertext) => Ok(EncryptedData { ciphertext, nonce, salt }),
        Err(_) => Err(VaultError::new(ErrorKind::CryptoFailure, "encryption failed")),
    }
}

/// Encrypts `plaintext` under `passphrase` with a fresh random salt and a
/// fresh random nonce, both stored in the result.
///
/// Succeeds whenever passphrase and plaintext are within the sizes that
/// the key derivation and the cipher accept.
pub fn encrypt_with_password(plaintext: &str, password: &str) -> (r: Result<
    EncryptedData,
    VaultError,
>)
    ensures
        match r {
            Ok(blob) => blob.salt@.len() == SALT_LEN && blob.nonce@.len() == NONCE_LEN
                && sealed_by(blob@, plaintext@, password@),
            Err(e) => e.kind == ErrorKind::CryptoFailure,
        },
        encode_utf8(password@).len() <= MAX_PASSPHRASE_BYTES && encode_utf8(plaintext@).len()
            <= MAX_PLAINTEXT_BYTES ==> r is Ok,
{
    let salt = random_bytes(SALT_LEN);
    let nonce = random_bytes(NONCE_LEN);
    encrypt_with_material(plaintext, password, salt, nonce)
}

/// The message of every failed decryption. It is the same whatever went
/// wrong, so that a failure does not tell a wrong passphrase from
/// corrupted data.
pub open spec fn decryption_failure() -> Seq<char> {
    "decryption failed"@
}

/// Decrypts `encrypted_data` under `password`, re-deriving the key with
/// the salt stored in the blob.
///
/// Fails with `CryptoFailure` exactly when [`open_spec`] is `None`; a wrong
/// passphrase and corrupted data give the same failure, with the same
/// message.
pub fn decrypt_with_password(encrypted_data: &EncryptedData, password: &str) -> (r: Result<
    String,
    VaultError,
>)
    ensures
        match r {
            Ok(s) => open_spec(encrypted_data@, password@) == Some(s@),
            Err(e) => e.kind == ErrorKind::CryptoFailure && e.message@ == decryption_failure()
                && open_spec(encrypted_data@, password@) is None,
        },
{
    if encrypted_data.nonce.len() != NONCE_LEN {
        return Err(VaultError::new(ErrorKind::CryptoFailure, "decryption failed"));
    }
    let key = match derive_key(password.as_bytes(), encrypted_data.salt.as_slice()) {
        Ok(key) => key,
        Err(_) => {
            return Err(VaultError::new(ErrorKind::CryptoFailure, "decryption failed"));
        },
    };
    let bytes = match aead_open(
        key.as_slice(),
        encrypted_data.nonce.as_slice(),
        encrypted_data.ciphertext.as_slice(),
    ) {
        Ok(bytes) => bytes,
        Err(_) => {
            return Err(VaultError::new(ErrorKind::CryptoFailure, "decryption failed"));
        },
    };
    match string_from_utf8(bytes) {
        Ok(s) => Ok(s),
        Err(_) => Err(VaultError::new(ErrorKind::CryptoFailure, "decryption failed")),
    }
}

/// A salted one-way hash of a passphrase, for a first check of a master
/// passphrase before any decryption is tried. It is a convenience, not a
/// security boundary: what gates access is the authentication of each
/// decryption.
#[derive(Debug)]
pub struct PassphraseHash {
    pub salt: Vec<u8>,
    pub digest: Vec<u8>,
}

/// The digest stored for `passphrase` under `salt`.
pub open spec fn passphrase_digest(passphrase: Seq<char>, salt: Seq<u8>) -> Seq<u8> {
    sha256(salt + encode_utf8(passphrase))
}

/// Whether two byte vectors hold the same bytes.
pub fn bytes_eq(a: &Vec<u8>, b: &Vec<u8>) -> (same: bool)
    ensures
        same == (a@ == b@),
{
    if a.len() != b.len() {
        return false;
    }
    let mut i: usize = 0;
    while i < a.len()
        invariant
            i <= a.len(),
            a.len() == b.len(),
            forall|k: int| 0 <= k < i ==> a@[k] == b@[k],
        decreases a.len() - i,
    {
        if a[i] != b[i] {
            return false;
        }
        i += 1;
    }
    assert(a@ =~= b@);
    true
}

/// The hash of `passphrase` under the given salt.
pub fn hash_passphrase_with_salt(passphrase: &str, salt: Vec<u8>) -> (h: PassphraseHash)
    ensures
        h.salt@ == salt@,
        h.digest@ == passphrase_digest(passphrase@, salt@),
{
    let mut input = clone_bytes(&salt);
    let bytes = passphrase.as_bytes();
    let mut i: usize = 0;
    while i < bytes.len()
        invariant
            i <= bytes.len(),
            bytes@ == encode_utf8(passphrase@),
            input@ == salt@ + bytes@.subrange(0, i as int),
        decreases bytes.len() - i,
    {
        input.push(bytes[i]);
        i += 1;
        assert(input@ =~= salt@ + bytes@.subrange(0, i as int));
    }
    assert(bytes@.subrange(0, bytes.len() as int) =~= bytes@);
    let digest = sha256_digest(input.as_slice());
    PassphraseHash { salt, digest }
}

/// The hash of `passphrase` under a fresh random salt, which does not
/// depend on any salt used for encryption.
pub fn hash_passphrase(passphrase: &str) -> (h: PassphraseHash)
    ensures
        h.salt@.len() == SALT_LEN,
        h.digest@ == passphrase_digest(passphrase@, h.salt@),
{
    hash_passphrase_with_salt(passphrase, random_bytes(SALT_LEN))
}

/// Whether `hash` is the hash of `passphrase` under the salt it holds.
pub fn verify_passphrase(passphrase: &str, hash: &PassphraseHash) -> (ok: bool)
    ensures
        ok == (hash.digest@ == passphrase_digest(passphrase@, hash.salt@)),
{
    let again = hash_passphrase_with_salt(passphrase, clone_bytes(&hash.salt));
    bytes_eq(&again.digest, &hash.digest)
}

/// A key for the cipher, as derived from a master passphrase.
#[derive(Debug)]
pub struct MasterKey {
    pub key: Vec<u8>,
}

impl MasterKey {
    /// A key made of the given bytes.
    pub fn new(key: Vec<u8>) -> (k: MasterKey)
        ensures
            k.key == key,
    {
        MasterKey { key }
    }

    /// The key that Argon2id derives from `password` and `salt`.
    ///
    /// Fails with `CryptoFailure` exactly when the key derivation refuses
    /// its input, which it does for a salt under 8 bytes and does not for
    /// a longer salt and a passphrase within its limits.
    pub fn from_password(password: &str, salt: &[u8]) -> (r: Result<MasterKey, VaultError>)
        ensures
            match r {
                Ok(k) => argon2id_key(encode_utf8(password@), salt@) == Some(k.key@) && k.key@.len()
                    == KEY_LEN,
                Err(e) => e.kind == ErrorKind::CryptoFailure && argon2id_key(
                    encode_utf8(password@),
                    salt@,
                ) is None,
            },
            salt@.len() < 8 ==> r is Err,
            encode_utf8(password@).len() <= MAX_PASSPHRASE_BYTES && 8 <= salt@.len() <= 0xFFFF_FFFF
                ==> r is Ok,
    {
        match derive_key(password.as_bytes(), salt) {
            Ok(key) => Ok(MasterKey { key }),
            Err(_) => Err(VaultError::new(ErrorKind::CryptoFailure, "Failed to hash password")),
        }
    }

    /// The bytes of the key.
    pub fn as_bytes(&self) -> (bytes: &[u8])
        ensures
            bytes@ == self.key@,
    {
        self.key.as_slice()
    }
}

/// The ciphertext that sealing `plaintext` directly under `key` and
/// `nonce` gives, or `None` where key or nonce have the wrong length or
/// the cipher refuses the plaintext.
pub open spec fn seal_with_key_spec(key: Seq<u8>, nonce: Seq<u8>, plaintext: Seq<char>) -> Option<
    Seq<u8>,
> {
    if key.len() != KEY_LEN || nonce.len() != NONCE_LEN {
        None
    } else {
        aes256_gcm_seal(key, nonce, encode_utf8(plaintext))
    }
}

/// The plaintext that opening `blob` directly under `key` gives, or
/// `None` where key or nonce have the wrong length, the tag does not
/// verify or the recovered bytes are no UTF-8.
pub open spec fn open_with_key_spec(key: Seq<u8>, blob: EncryptedDataView) -> Option<Seq<char>> {
    if key.len() != KEY_LEN || blob.nonce.len() != NONCE_LEN {
        None
    } else {
        match aes256_gcm_open(key, blob.nonce, blob.ciphertext) {
            Some(bytes) => if valid_utf8(bytes) {
                Some(decode_utf8(bytes))
            } else {
                None
            },
            None => None,
        }
    }
}

/// `blob` is what sealing `plaintext` directly under `key` produced.
pub open spec fn sealed_with_key(key: Seq<u8>, blob: EncryptedDataView, plaintext: Seq<char>) -> bool {
    &&& seal_with_key_spec(key, blob.nonce, plaintext) == Some(blob.ciphertext)
    &&& aes256_gcm_open(key, blob.nonce, blob.ciphertext) == Some(encode_utf8(plaintext))
}

/// Seals `plaintext` directly under `key` with the given nonce, and
/// stores `salt` beside it.
///
/// Fails with `CryptoFailure` exactly when [`seal_with_key_spec`] is
/// `None`.
pub fn seal_with_key(key: &[u8], nonce: Vec<u8>, salt: Vec<u8>, plaintext: &str) -> (r: Result<
    EncryptedData,
    VaultError,
>)
    ensures
        match r {
            Ok(blob) => blob.nonce@ == nonce@ && blob.salt@ == salt@ && sealed_with_key(
                key@,
                blob@,
                plaintext@,
            ),
            Err(e) => e.kind == ErrorKind::CryptoFailure && seal_with_key_spec(
                key@,
                nonce@,
                plaintext@,
            ) is None,
        },
        key@.len() == KEY_LEN && nonce@.len() == NONCE_LEN && encode_utf8(plaintext@).len()
            <= MAX_PLAINTEXT_BYTES ==> r is Ok,
{
    if key.len() != KEY_LEN || nonce.len() != NONCE_LEN {
        return Err(VaultError::new(ErrorKind::CryptoFailure, "Encryption failed"));
    }
    match aead_seal(key, nonce.as_slice(), plaintext.as_bytes()) {
        Ok(ciphertext) => Ok(EncryptedData { ciphertext, nonce, salt }),
        Err(_) => Err(VaultError::new(ErrorKind::CryptoFailure, "Encryption failed")),
    }
}

/// Opens `blob` directly under `key`.
///
/// Fails with `CryptoFailure` exactly when [`open_with_key_spec`] is
/// `None`.
pub fn open_with_key(key: &[u8], blob: &EncryptedData) -> (r: Result<String, VaultError>)
    ensures
        match r {
            Ok(s) => open_with_key_spec(key@, blob@) == Some(s@),
            Err(e) => e.kind == ErrorKind::CryptoFailure && e.message@ == decryption_failure()
                && open_with_key_spec(key@, blob@) is None,
        },
{
    if key.len() != KEY_LEN || blob.nonce.len() != NONCE_LEN {
        return Err(VaultError::new(ErrorKind::CryptoFailure, "decryption failed"));
    }
    let bytes = match aead_open(key, blob.nonce.as_slice(), blob.ciphertext.as_slice()) {
        Ok(bytes) => bytes,
        Err(_) => {
            return Err(VaultError::new(ErrorKind::CryptoFailure, "decryption failed"));
        },
    };
    match string_from_utf8(bytes) {
        Ok(s) => Ok(s),
        Err(_) => Err(VaultError::new(ErrorKind::CryptoFailure, "decryption failed")),
    }
}

/// Encryption under two keys held in memory: the master key, for secrets,
/// and a key drawn at random when the service is made, for the rest.
#[derive(Debug)]
pub struct CryptoService {
    pub master_key: MasterKey,
    pub simple_key: Vec<u8>,
}

impl CryptoService {
    /// A service for `master_key`, with a fresh random simple key.
    pub fn new(master_key: MasterKey) -> (s: CryptoService)
        ensures
            s.master_key == master_key,
            s.simple_key@.len() == KEY_LEN,
    {
        CryptoService { master_key, simple_key: random_bytes(KEY_LEN) }
    }

    /// Seals `plaintext` under the master key with a fresh random nonce;
    /// a fresh random salt of 32 bytes is stored beside it.
    ///
    /// Fails with `CryptoFailure` when the master key has not 32 bytes,
    /// and succeeds when it has and the plaintext is within the cipher's
    /// limit.
    pub fn encrypt_with_master_key(&self, plaintext: &str) -> (r: Result<EncryptedData, VaultError>)
        ensures
            match r {
                Ok(blob) => blob.nonce@.len() == NONCE_LEN && blob.salt@.len() == 32
                    && sealed_with_key(self.master_key.key@, blob@, plaintext@),
                Err(e) => e.kind == ErrorKind::CryptoFailure,
            },
            self.master_key.key@.len() != KEY_LEN ==> r is Err,
            self.master_key.key@.len() == KEY_LEN && encode_utf8(plaintext@).len()
                <= MAX_PLAINTEXT_BYTES ==> r is Ok,
    {
        let salt = random_bytes(32);
        let nonce = random_bytes(NONCE_LEN);
        seal_with_key(self.master_key.as_bytes(), nonce, salt, plaintext)
    }

    /// Opens `encrypted` under the master key.
    pub fn decrypt_with_master_key(&self, encrypted: &EncryptedData) -> (r: Result<
        String,
        VaultError,
    >)
        ensures
            match r {
                Ok(s) => open_with_key_spec(self.master_key.key@, encrypted@) == Some(s@),
                Err(e) => e.kind == ErrorKind::CryptoFailure && e.message@
                    == decryption_failure() && open_with_key_spec(
                    self.master_key.key@,
                    encrypted@,
                ) is None,
            },
    {
        open_with_key(self.master_key.as_bytes(), encrypted)
    }

    /// Seals `plaintext` under the simple key with a fresh random nonce
    /// and no salt.
    pub fn encrypt_with_simple_key(&self, plaintext: &str) -> (r: Result<EncryptedData, VaultError>)
        ensures
            match r {
                Ok(blob) => blob.nonce@.len() == NONCE_LEN && blob.salt@.len() == 0
                    && sealed_with_key(self.simple_key@, blob@, plaintext@),
                Err(e) => e.kind == ErrorKind::CryptoFailure,
            },
            self.simple_key@.len() == KEY_LEN && encode_utf8(plaintext@).len()
                <= MAX_PLAINTEXT_BYTES ==> r is Ok,
    {
        let nonce = random_bytes(NONCE_LEN);
        seal_with_key(self.simple_key.as_slice(), nonce, Vec::new(), plaintext)
    }

    /// Opens `encrypted` under the simple key.
    pub fn decrypt_with_simple_key(&self, encrypted: &EncryptedData) -> (r: Result<
        String,
        VaultError,
    >)
        ensures
            match r {
                Ok(s) => open_with_key_spec(self.simple_key@, encrypted@) == Some(s@),
                Err(e) => e.kind == ErrorKind::CryptoFailure && e.message@
                    == decryption_failure() && open_with_key_spec(
                    self.simple_key@,
                    encrypted@,
                ) is None,
            },
    {
        open_with_key(self.simple_key.as_slice(), encrypted)
    }
}

/// Opening under a key inverts sealing under it.
pub proof fn lemma_open_with_key_inverts_seal(
    key: Seq<u8>,
    blob: EncryptedDataView,
    plaintext: Seq<char>,
)
    requires
        sealed_with_key(key, blob, plaintext),
    ensures
        open_with_key_spec(key, blob) == Some(plaintext),
{
    encode_utf8_valid_utf8(plaintext);
    encode_utf8_decode_utf8(plaintext);
}

/// Decryption inverts encryption: a blob sealed from `plaintext` under
/// `passphrase` opens under the same passphrase to `plaintext`.
pub proof fn lemma_decrypt_inverts_encrypt(
    blob: EncryptedDataView,
    plaintext: Seq<char>,
    passphrase: Seq<char>,
)
    requires
        sealed_by(blob, plaintext, passphrase),
    ensures
        open_spec(blob, passphrase) == Some(plaintext),
{
    encode_utf8_valid_utf8(plaintext);
    encode_utf8_decode_utf8(plaintext);
}

/// A sealed value never equals the bytes it was sealed from.
pub proof fn lemma_ciphertext_differs_from_plaintext(
    blob: EncryptedDataView,
    plaintext: Seq<char>,
    passphrase: Seq<char>,
)
    requires
        sealed_by(blob, plaintext, passphrase),
    ensures
        blob.ciphertext != encode_utf8(plaintext),
{
}

} // verus!
