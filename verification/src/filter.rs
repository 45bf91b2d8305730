//! What a client may ask of the accounts of a program.

use crate::codec::{base58_bytes, base58_decode};
use crate::types::AccountData;
use vstd::prelude::*;

verus! {

/// The most bytes that a filter can compare.
pub const MAX_COMPARED_BYTES: usize = 128;

/// A condition on the data of an account.
#[derive(Debug)]
pub enum Filter {
    /// The data holds some bytes, given in base 58, at an offset.
    Memcmp { offset: usize, bytes: String },
    /// The data has a length.
    DataSize(usize),
}

/// Whether `data` holds `bytes` at an offset.
pub open spec fn holds_at(data: Seq<u8>, offset: int, bytes: Seq<u8>) -> bool {
    &&& offset + bytes.len() <= data.len()
    &&& data.subrange(offset, offset + bytes.len()) == bytes
}

/// Whether `data` holds at an offset the bytes that a text in base 58 stands for. Bytes that
/// are not in base 58, or are too many, are held by no data.
pub open spec fn holds_base58_at(data: Seq<u8>, offset: usize, text: Seq<char>) -> bool {
    match base58_bytes(text, MAX_COMPARED_BYTES as nat) {
        Some(bytes) => holds_at(data, offset as int, bytes),
        None => false,
    }
}

/// Whether data holds some bytes at an offset.
pub fn compare_at(data: &AccountData, offset: usize, bytes: &[u8]) -> (r: bool)
    ensures
        r == holds_at(data.data@, offset as int, bytes@),
{
    let data_len = data.data.len();
    let len = bytes.len();
    if offset > data_len || len > data_len - offset {
        return false;
    }
    let mut i: usize = 0;
    while i < len
        invariant
            i <= len,
            len == bytes@.len(),
            data_len == data.data@.len(),
            offset + len <= data_len,
            forall|j: int| 0 <= j < i ==> data.data@[offset + j] == #[trigger] bytes@[j],
        decreases len - i,
    {
        if data.data[offset + i] != bytes[i] {
            assert(data.data@.subrange(offset as int, offset + len)[i as int] != bytes@[i as int]);
            return false;
        }
        i += 1;
    }
    assert(data.data@.subrange(offset as int, offset + len) =~= bytes@);
    true
}

/// Whether data holds at an offset the bytes that a text in base 58 stands for.
pub fn compare_base58_at(data: &AccountData, offset: usize, text: &str) -> (r: bool)
    ensures
        r == holds_base58_at(data.data@, offset, text@),
{
    let mut buf: [u8; MAX_COMPARED_BYTES] = [0; MAX_COMPARED_BYTES];
    match base58_decode(text, &mut buf) {
        Some(len) => compare_at(
            data,
            offset,
            vstd::slice::slice_subrange(buf.as_slice(), 0, len),
        ),
        None => false,
    }
}

impl Filter {
    /// Whether the condition holds of some data.
    pub open spec fn accepts(self, data: Seq<u8>) -> bool {
        match self {
            Filter::DataSize(len) => data.len() == len,
            Filter::Memcmp { offset, bytes } => holds_base58_at(data, offset, bytes@),
        }
    }

    /// Whether the condition holds of an account's data.
    pub fn matches(&self, data: &AccountData) -> (r: bool)
        ensures
            r == self.accepts(data.data@),
    {
        match self {
            Filter::DataSize(len) => data.data.len() == *len,
            Filter::Memcmp { offset, bytes } => compare_base58_at(data, *offset, bytes.as_str()),
        }
    }
}

/// Whether all of some filters accept some data.
pub open spec fn all_accept(filters: Seq<Filter>, data: Seq<u8>) -> bool {
    forall|i: int| 0 <= i < filters.len() ==> (#[trigger] filters[i]).accepts(data)
}

/// Whether all of some filters accept an account's data.
pub fn all_match(filters: &Vec<Filter>, data: &AccountData) -> (r: bool)
    ensures
        r == all_accept(filters@, data.data@),
{
    let mut i: usize = 0;
    while i < filters.len()
        invariant
            i <= filters@.len(),
            forall|j: int| 0 <= j < i ==> (#[trigger] filters@[j]).accepts(data.data@),
        decreases filters@.len() - i,
    {
        if !filters[i].matches(data) {
            return false;
        }
        i += 1;
    }
    true
}

} // verus!
