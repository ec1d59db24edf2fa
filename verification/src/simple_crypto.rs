//! Obfuscation by a one-byte XOR key, with a checksum beside the data.
//!
//! This hides data from a casual look and protects nothing: the key is
//! built in. Secrets are encrypted by the `crypto` module.

use vstd::prelude::*;
use vstd::utf8::*;
use vstd::string::*;
use vstd::slice::*;
use crate::crypto::{clone_bytes, string_from_utf8};
use crate::error::{ErrorKind, VaultError};

verus! {

/// The XOR obfuscator.
#[derive(Debug)]
pub struct SimpleCrypto {
    pub key: u8,
}

/// Obfuscated data with the checksum of its bytes.
#[derive(Debug)]
pub struct RobustEncryptedData {
    pub data: Vec<u8>,
    pub checksum: u32,
}

impl Clone for RobustEncryptedData {
    fn clone(&self) -> (r: Self)
        ensures
            r.data@ == self.data@,
            r.checksum == self.checksum,
    {
        RobustEncryptedData { data: clone_bytes(&self.data), checksum: self.checksum }
    }
}

/// Each byte of `data` XORed with `key`.
pub open spec fn xor_bytes(data: Seq<u8>, key: u8) -> Seq<u8> {
    data.map_values(|b: u8| b ^ key)
}

/// The sum of the bytes of `data`.
pub open spec fn byte_sum(data: Seq<u8>) -> nat
    decreases data.len(),
{
    if data.len() == 0 {
        0
    } else {
        byte_sum(data.drop_last()) + data.last() as nat
    }
}

/// The checksum of `data`: the sum of its bytes modulo 2^32 - 1.
pub open spec fn checksum_spec(data: Seq<u8>) -> u32 {
    (byte_sum(data) % 0xFFFF_FFFF) as u32
}

/// XORing twice with one key gives the data back.
pub proof fn lemma_xor_twice(data: Seq<u8>, key: u8)
    ensures
        xor_bytes(xor_bytes(data, key), key) == data,
{
    assert forall|i: int| 0 <= i < data.len() implies xor_bytes(xor_bytes(data, key), key)[i]
        == data[i] by {
        let b = data[i];
        assert((b ^ key) ^ key == b) by (bit_vector);
    }
    assert(xor_bytes(xor_bytes(data, key), key) =~= data);
}

impl SimpleCrypto {
    /// The obfuscator with the built-in key `0x88`.
    pub fn new() -> (c: SimpleCrypto)
        ensures
            c.key == 0x88,
    {
        SimpleCrypto { key: 0x88 }
    }

    /// Each byte of `data` XORed with the key.
    pub fn encrypt(&self, data: &[u8]) -> (out: Vec<u8>)
        ensures
            out@ == xor_bytes(data@, self.key),
    {
        let mut out: Vec<u8> = Vec::new();
        let mut i: usize = 0;
        while i < data.len()
            invariant
                i <= data.len(),
                out@ == xor_bytes(data@.subrange(0, i as int), self.key),
            decreases data.len() - i,
        {
            out.push(data[i] ^ self.key);
            i += 1;
            assert(out@ =~= xor_bytes(data@.subrange(0, i as int), self.key));
        }
        assert(data@.subrange(0, data.len() as int) =~= data@);
        out
    }

    /// Undoes [`SimpleCrypto::encrypt`], which is its own inverse.
    pub fn decrypt(&self, encrypted: &[u8]) -> (out: Vec<u8>)
        ensures
            out@ == xor_bytes(encrypted@, self.key),
    {
        self.encrypt(encrypted)
    }

    /// The checksum of `data`.
    pub fn calculate_checksum(&self, data: &[u8]) -> (sum: u32)
        ensures
            sum == checksum_spec(data@),
    {
        let mut acc: u64 = 0;
        let mut i: usize = 0;
        while i < data.len()
            invariant
                i <= data.len(),
                acc == byte_sum(data@.subrange(0, i as int)) % 0xFFFF_FFFF,
            decreases data.len() - i,
        {
            proof {
                assert(data@.subrange(0, i + 1).drop_last() =~= data@.subrange(0, i as int));
            }
            acc = (acc + data[i] as u64) % 0xFFFF_FFFF;
            i += 1;
        }
        assert(data@.subrange(0, data.len() as int) =~= data@);
        acc as u32
    }

    /// Obfuscates the bytes of `plaintext` and computes the checksum of the
    /// result. Never fails.
    pub fn encrypt_with_checksum(&self, plaintext: &str) -> (r: Result<
        RobustEncryptedData,
        VaultError,
    >)
        ensures
            r matches Ok(e) && e.data@ == xor_bytes(encode_utf8(plaintext@), self.key) && e.checksum
                == checksum_spec(e.data@),
    {
        let encrypted = self.encrypt(plaintext.as_bytes());
        let checksum = self.calculate_checksum(encrypted.as_slice());
        Ok(RobustEncryptedData { data: encrypted, checksum })
    }

    /// Whether the stored checksum is that of the stored data.
    pub fn checksum_matches(&self, encrypted: &RobustEncryptedData) -> (ok: bool)
        ensures
            ok == (encrypted.checksum == checksum_spec(encrypted.data@)),
    {
        self.calculate_checksum(encrypted.data.as_slice()) == encrypted.checksum
    }

    /// Recovers the text from obfuscated data. The checksum is not
    /// consulted: damaged data is still decoded as far as it is text.
    ///
    /// Fails with `CryptoFailure` exactly when the recovered bytes are no
    /// UTF-8.
    pub fn decrypt_with_checksum(&self, encrypted: &RobustEncryptedData) -> (r: Result<
        String,
        VaultError,
    >)
        ensures
            match r {
                Ok(s) => valid_utf8(xor_bytes(encrypted.data@, self.key)) && s@ == decode_utf8(
                    xor_bytes(encrypted.data@, self.key),
                ),
                Err(e) => e.kind == ErrorKind::CryptoFailure && !valid_utf8(
                    xor_bytes(encrypted.data@, self.key),
                ),
            },
    {
        let decrypted = self.decrypt(encrypted.data.as_slice());
        match string_from_utf8(decrypted) {
            Ok(s) => Ok(s),
            Err(_) => Err(VaultError::new(ErrorKind::CryptoFailure, "Invalid UTF-8")),
        }
    }
}

/// Recovering inverts obfuscating: the text comes back, whatever the key.
pub proof fn lemma_deobfuscate_inverts_obfuscate(plaintext: Seq<char>, key: u8)
    ensures
        valid_utf8(xor_bytes(xor_bytes(encode_utf8(plaintext), key), key)),
        decode_utf8(xor_bytes(xor_bytes(encode_utf8(plaintext), key), key)) == plaintext,
{
    lemma_xor_twice(encode_utf8(plaintext), key);
    encode_utf8_valid_utf8(plaintext);
    encode_utf8_decode_utf8(plaintext);
}

} // verus!
