//! The calls into `bs58`, `base64` and `zstd`.

use vstd::prelude::*;

verus! {

/// The text of some bytes in base 58, in the alphabet that `bs58` uses by default.
pub uninterp spec fn base58_text(data: Seq<u8>) -> Seq<char>;

/// The bytes that `bs58` reads from a text in base 58 into a buffer of `room` bytes, or
/// `None` where the text is not in base 58 or its bytes do not fit.
pub uninterp spec fn base58_bytes(text: Seq<char>, room: nat) -> Option<Seq<u8>>;

/// The text of some bytes in base 64, in the standard alphabet and padded.
pub uninterp spec fn base64_text(data: Seq<u8>) -> Seq<char>;

/// The bytes that `base64` reads from a text in the standard alphabet, padded or not, or `None`
/// where it cannot read the text.
pub uninterp spec fn base64_bytes(text: Seq<char>) -> Option<Seq<u8>>;

/// The frame that `zstd` packs some bytes into at a compression level, whenever it makes one, and
/// whether it can fail to make one of them.
pub uninterp spec fn zstd_frame(data: Seq<u8>, level: int) -> (Seq<u8>, bool);

/// The bytes that `zstd` unpacks from a frame, or `None` where there is no frame, and whether it
/// can fail to unpack it.
pub uninterp spec fn zstd_bytes(frame: Seq<u8>) -> (Option<Seq<u8>>, bool);

/// `bs58::encode(..).into_string()`: a text that depends on the bytes alone. It has a digit for
/// every byte at least, and reads back to those bytes wherever there is room for them.
#[verifier::external_body]
pub(crate) fn base58_encode(data: &[u8]) -> (r: String)
    ensures
        r@ == base58_text(data@),
        data@.len() <= r@.len(),
        forall|room: nat|
            data@.len() <= room ==> #[trigger] base58_bytes(r@, room) == Some(data@),
{
    bs58::encode(data).into_string()
}

/// `bs58::decode(..).into(..)`: how many bytes were written to the front of the buffer, or
/// `None` for an error. What is written depends on the text and on the room in the buffer.
#[verifier::external_body]
pub(crate) fn base58_decode(text: &str, buf: &mut [u8]) -> (r: Option<usize>)
    ensures
        final(buf)@.len() == old(buf)@.len(),
        match r {
            Some(len) => {
                &&& len <= old(buf)@.len()
                &&& base58_bytes(text@, old(buf)@.len()) == Some(
                    final(buf)@.subrange(0, len as int),
                )
            },
            None => base58_bytes(text@, old(buf)@.len()) is None,
        },
{
    bs58::decode(text).into(buf).ok()
}

/// `base64::encode`: a text that depends on the bytes alone, and reads back to them.
#[verifier::external_body]
pub(crate) fn base64_encode(data: &[u8]) -> (r: String)
    ensures
        r@ == base64_text(data@),
        base64_bytes(r@) == Some(data@),
{
    base64::encode(data)
}

/// `base64::decode`: bytes that depend on the text alone, or `None` for an error.
#[verifier::external_body]
pub(crate) fn base64_decode(text: &str) -> (r: Option<Vec<u8>>)
    ensures
        match r {
            Some(data) => base64_bytes(text@) == Some(data@),
            None => base64_bytes(text@) is None,
        },
{
    base64::decode(text).ok()
}

/// `zstd::encode_all`: a frame that depends on the bytes and the level alone, and unpacks to the
/// bytes; or `None`, which shows that `zstd` can fail on these bytes at this level (when it does,
/// is not stated: memory may run out).
#[verifier::external_body]
pub(crate) fn zstd_encode(data: &[u8], level: i32) -> (r: Option<Vec<u8>>)
    ensures
        match r {
            Some(frame) => {
                &&& frame@ == zstd_frame(data@, level as int).0
                &&& zstd_bytes(frame@).0 == Some(data@)
            },
            None => zstd_frame(data@, level as int).1,
        },
{
    zstd::encode_all(std::io::Cursor::new(data), level).ok()
}

/// `zstd::decode_all`: bytes that depend on the frame alone; or `None` for an error, which shows
/// that `zstd` can fail on this frame (when it does, is not stated: memory may run out).
#[verifier::external_body]
pub(crate) fn zstd_decode(frame: &[u8]) -> (r: Option<Vec<u8>>)
    ensures
        match r {
            Some(data) => zstd_bytes(frame@).0 == Some(data@),
            None => zstd_bytes(frame@).1,
        },
{
    zstd::decode_all(frame).ok()
}

} // verus!
