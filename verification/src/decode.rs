//! How addresses and the data of accounts are read.

use crate::codec::{
    base58_bytes, base58_decode, base64_bytes, base64_decode, zstd_bytes, zstd_decode,
};
use crate::types::{AccountData, Encoding, Pubkey};
use vstd::prelude::*;
use vstd::utf8::encode_utf8;

verus! {

/// The bytes that a text stands for in an encoding, or `None` where it stands for none. A text in
/// base 58 is read with a byte of room for each of its own.
pub open spec fn decoded_bytes(encoding: Encoding, text: Seq<char>) -> Option<Seq<u8>> {
    match encoding {
        Encoding::Default | Encoding::Base58 => base58_bytes(text, encode_utf8(text).len()),
        Encoding::Base64 => base64_bytes(text),
        Encoding::Base64Zstd => match base64_bytes(text) {
            Some(frame) => zstd_bytes(frame).0,
            None => None,
        },
    }
}

/// The address that a text stands for, or `None` where it stands for none.
pub open spec fn decoded_pubkey(text: Seq<char>) -> Option<Seq<u8>> {
    match base58_bytes(text, 32) {
        Some(bytes) => if bytes.len() == 32 {
            Some(bytes)
        } else {
            None
        },
        None => None,
    }
}

/// A text takes a byte for every character at least.
pub proof fn lemma_utf8_len(text: Seq<char>)
    ensures
        text.len() <= encode_utf8(text).len(),
    decreases text.len(),
{
    if text.len() > 0 {
        lemma_utf8_len(text.drop_first());
    }
}

/// Reads bytes in base 58.
fn decode_base58(text: &str) -> (r: Option<Vec<u8>>)
    ensures
        match r {
            Some(data) => base58_bytes(text@, encode_utf8(text@).len()) == Some(data@),
            None => base58_bytes(text@, encode_utf8(text@).len()) is None,
        },
{
    let mut buf: Vec<u8> = vec![0u8; text.as_bytes().len()];
    match base58_decode(text, buf.as_mut_slice()) {
        Some(len) => {
            buf.truncate(len);
            Some(buf)
        },
        None => None,
    }
}

impl Pubkey {
    /// Reads an address.
    pub fn decode(text: &str) -> (r: Option<Pubkey>)
        ensures
            match r {
                Some(key) => decoded_pubkey(text@) == Some(key@),
                None => decoded_pubkey(text@) is None,
            },
    {
        let mut key: [u8; 32] = [0u8; 32];
        match base58_decode(text, &mut key) {
            Some(len) => if len == 32 {
                Some(Pubkey(key))
            } else {
                None
            },
            None => None,
        }
    }
}

impl AccountData {
    /// The data, given the bytes that were read, if they could be.
    pub fn from_bytes(bytes: Option<Vec<u8>>) -> (r: Option<AccountData>)
        ensures
            match bytes {
                Some(bytes) => r is Some && r->0.data@ == bytes@,
                None => r is None,
            },
    {
        match bytes {
            Some(data) => Some(AccountData { data }),
            None => None,
        }
    }

    /// Reads the data of an account. The text decides whether that can be done, except that
    /// unpacking a frame can fail too.
    pub fn decode(encoding: Encoding, text: &str) -> (r: Option<AccountData>)
        ensures
            match r {
                Some(data) => decoded_bytes(encoding, text@) == Some(data.data@),
                None => {
                    ||| decoded_bytes(encoding, text@) is None
                    ||| {
                        &&& encoding == Encoding::Base64Zstd
                        &&& base64_bytes(text@) matches Some(frame)
                        &&& zstd_bytes(frame).1
                    }
                },
            },
    {
        let bytes = match encoding {
            Encoding::Default | Encoding::Base58 => decode_base58(text),
            Encoding::Base64 => base64_decode(text),
            Encoding::Base64Zstd => match base64_decode(text) {
                Some(frame) => zstd_decode(frame.as_slice()),
                None => None,
            },
        };
        AccountData::from_bytes(bytes)
    }
}

} // verus!
