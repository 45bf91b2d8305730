//! How an account is written in a reply.

use crate::codec::{
    base58_encode, base58_text, base64_bytes, base64_encode, base64_text, zstd_encode, zstd_frame,
};
use crate::decode::{decoded_bytes, decoded_pubkey, lemma_utf8_len};
use crate::json::{
    bool_value, field_trees, item_trees, list_value, null_value, object_value, text_value,
    unsigned_value, value_tree, Tree,
};
use crate::types::{AccountData, AccountInfo, Encoding, Pubkey, Slice, SolanaContext};
use vstd::prelude::*;

verus! {

/// Why an account cannot be written.
#[derive(Clone, Copy, Debug, PartialEq, Eq, Structural)]
pub enum SerializeError {
    /// The client asked for a part that is not in the data.
    BadSlice,
    /// The data could not be compressed.
    CannotCompress,
}

impl SerializeError {
    pub open spec fn spec_message(self) -> Seq<char> {
        match self {
            SerializeError::BadSlice => "bad slice"@,
            SerializeError::CannotCompress => "can't compress"@,
        }
    }

    /// The error in words.
    pub fn message(&self) -> (r: &'static str)
        ensures
            r@ == self.spec_message(),
    {
        match self {
            SerializeError::BadSlice => "bad slice",
            SerializeError::CannotCompress => "can't compress",
        }
    }
}

/// The part of `data` that `slice` asks for: all of it where it asks for none, and nothing
/// where it reaches past the end.
pub open spec fn selected_bytes(data: Seq<u8>, slice: Option<Slice>) -> Option<Seq<u8>> {
    match slice {
        None => Some(data),
        Some(s) => if s.offset + s.length <= data.len() {
            Some(data.subrange(s.offset as int, s.offset + s.length))
        } else {
            None
        },
    }
}

/// The name of an encoding on the wire. The default encoding is never named.
pub open spec fn encoding_name(encoding: Encoding) -> Seq<char> {
    match encoding {
        Encoding::Default => ""@,
        Encoding::Base58 => "base58"@,
        Encoding::Base64 => "base64"@,
        Encoding::Base64Zstd => "base64+zstd"@,
    }
}

/// The compression level that account data is packed at: `zstd`'s own default.
pub const ZSTD_LEVEL: i32 = 0;

/// The text that stands for account data in a reply.
pub open spec fn encoded_text(encoding: Encoding, bytes: Seq<u8>) -> Seq<char> {
    match encoding {
        Encoding::Default | Encoding::Base58 => base58_text(bytes),
        Encoding::Base64 => base64_text(bytes),
        Encoding::Base64Zstd => base64_text(zstd_frame(bytes, ZSTD_LEVEL as int).0),
    }
}

/// How account data is written: a bare text in the default encoding, and otherwise a pair of
/// the text and the name of the encoding.
pub open spec fn data_tree(encoding: Encoding, text: Seq<char>) -> Tree {
    if encoding == Encoding::Default {
        Tree::Text(text)
    } else {
        Tree::List(seq![Tree::Text(text), Tree::Text(encoding_name(encoding))])
    }
}

/// How an address is written.
pub open spec fn pubkey_tree(key: Pubkey) -> Tree {
    Tree::Text(base58_text(key@))
}

/// How an account is written, given how its data is.
pub open spec fn info_tree(info: AccountInfo, data: Tree) -> Tree {
    Tree::Object(
        seq![
            ("data"@, data),
            ("lamports"@, Tree::Number(info.lamports as int)),
            ("owner"@, pubkey_tree(info.owner)),
            ("executable"@, Tree::Bool(info.executable)),
            ("rentEpoch"@, Tree::Number(info.rent_epoch as int)),
        ],
    )
}

/// How an account is written in an encoding, cut to a slice; `None` where the slice reaches
/// past the end of the data.
pub open spec fn encoded_info_tree(
    info: AccountInfo,
    encoding: Encoding,
    slice: Option<Slice>,
) -> Option<Tree> {
    match selected_bytes(info.data.data@, slice) {
        None => None,
        Some(bytes) => Some(info_tree(info, data_tree(encoding, encoded_text(encoding, bytes)))),
    }
}

/// How a slot is written as the context of an answer.
pub open spec fn context_tree(context: SolanaContext) -> Tree {
    Tree::Object(seq![("slot"@, Tree::Number(context.slot as int))])
}

/// How an account is written with its context.
pub open spec fn account_context_tree(context: SolanaContext, value: Tree) -> Tree {
    Tree::Object(seq![("context"@, context_tree(context)), ("value"@, value)])
}

/// Whether the text that bytes are written as reads back to them.
pub open spec fn reads_back(encoding: Encoding, bytes: Seq<u8>) -> bool {
    decoded_bytes(encoding, encoded_text(encoding, bytes)) == Some(bytes)
}

/// Whether the data of an account, cut to a slice, reads back to what the slice selects once it is
/// written in an encoding.
pub open spec fn info_reads_back(
    info: AccountInfo,
    encoding: Encoding,
    slice: Option<Slice>,
) -> bool {
    selected_bytes(info.data.data@, slice) matches Some(bytes) && reads_back(encoding, bytes)
}

/// Whether the data of an account, cut to a slice, has to be packed for an encoding, and `zstd` can
/// fail to do that.
pub open spec fn packing_can_fail(
    info: AccountInfo,
    encoding: Encoding,
    slice: Option<Slice>,
) -> bool {
    &&& encoding == Encoding::Base64Zstd
    &&& selected_bytes(info.data.data@, slice) matches Some(bytes)
    &&& zstd_frame(bytes, ZSTD_LEVEL as int).1
}

/// Writes an address. What is written reads back to it.
pub fn serialize_pubkey(key: &Pubkey) -> (r: serde_json::Value)
    ensures
        value_tree(r) == pubkey_tree(*key),
        decoded_pubkey(base58_text(key@)) == Some(key@),
{
    text_value(base58_encode(key.0.as_slice()).as_str())
}

impl SolanaContext {
    /// Writes the context of an answer.
    pub fn serialize(&self) -> (r: serde_json::Value)
        ensures
            value_tree(r) == context_tree(*self),
    {
        let fields = vec![("slot", unsigned_value(self.slot))];
        assert(field_trees(fields@) =~= seq![("slot"@, Tree::Number(self.slot as int))]);
        object_value(fields)
    }
}

/// How an answer that reports a result is written.
pub open spec fn response_tree(result: Tree, id: u64) -> Tree {
    Tree::Object(
        seq![
            ("jsonrpc"@, Tree::Text("2.0"@)),
            ("result"@, result),
            ("id"@, Tree::Number(id as int)),
        ],
    )
}

/// Writes an answer that reports a result.
pub fn serialize_response(result: serde_json::Value, id: u64) -> (r: serde_json::Value)
    ensures
        value_tree(r) == response_tree(value_tree(result), id),
{
    let fields = vec![
        ("jsonrpc", text_value("2.0")),
        ("result", result),
        ("id", unsigned_value(id)),
    ];
    proof {
        reveal_strlit("jsonrpc");
        reveal_strlit("result");
        reveal_strlit("id");
        assert("jsonrpc"@.len() == 7 && "result"@.len() == 6 && "id"@.len() == 2);
        assert(field_trees(fields@) =~= response_tree(value_tree(result), id)->Object_0);
    }
    object_value(fields)
}

/// The data of an account, with the encoding and the slice that a client asked for.
pub struct EncodedAccountData<'a> {
    pub encoding: Encoding,
    pub data: &'a AccountData,
    pub slice: Option<Slice>,
}

impl<'a> EncodedAccountData<'a> {
    /// The part of the data that the slice asks for.
    pub fn selected(&self) -> (r: Option<&'a [u8]>)
        ensures
            match r {
                Some(bytes) => selected_bytes(self.data.data@, self.slice) == Some(bytes@),
                None => selected_bytes(self.data.data@, self.slice) is None,
            },
    {
        let data = self.data.data.as_slice();
        let slice = match self.slice {
            Some(slice) => slice,
            None => {
                return Some(data);
            },
        };
        let len = data.len();
        match slice.offset.checked_add(slice.length) {
            Some(end) => if end <= len {
                Some(vstd::slice::slice_subrange(data, slice.offset, end))
            } else {
                None
            },
            None => None,
        }
    }

    /// Writes the data, given the bytes that the slice selects and what compressing them
    /// came to. Only `Encoding::Base64Zstd` looks at the latter.
    pub fn serialize_packed(encoding: Encoding, bytes: &[u8], packed: Option<Vec<u8>>) -> (r:
        Result<serde_json::Value, SerializeError>)
        ensures
            match (encoding, packed) {
                (Encoding::Base64Zstd, None) => r == Err::<serde_json::Value, SerializeError>(
                    SerializeError::CannotCompress,
                ),
                (Encoding::Base64Zstd, Some(frame)) => {
                    &&& r is Ok
                    &&& value_tree(r->Ok_0) == data_tree(encoding, base64_text(frame@))
                    &&& base64_bytes(base64_text(frame@)) == Some(frame@)
                },
                _ => {
                    &&& r is Ok
                    &&& value_tree(r->Ok_0) == data_tree(encoding, encoded_text(encoding, bytes@))
                    &&& reads_back(encoding, bytes@)
                },
            },
    {
        proof {
            lemma_utf8_len(base58_text(bytes@));
        }
        let (text, name): (String, &str) = match encoding {
            Encoding::Default => {
                return Ok(text_value(base58_encode(bytes).as_str()));
            },
            Encoding::Base58 => (base58_encode(bytes), "base58"),
            Encoding::Base64 => (base64_encode(bytes), "base64"),
            Encoding::Base64Zstd => match packed {
                Some(frame) => (base64_encode(frame.as_slice()), "base64+zstd"),
                None => {
                    return Err(SerializeError::CannotCompress);
                },
            },
        };
        let items = vec![text_value(text.as_str()), text_value(name)];
        assert(item_trees(items@) =~= seq![Tree::Text(text@), Tree::Text(name@)]);
        Ok(list_value(items))
    }

    /// Writes the data. The slice decides whether that can be done, except that compressing
    /// can fail too. What is written reads back to the bytes that the slice selects.
    pub fn serialize(&self) -> (r: Result<serde_json::Value, SerializeError>)
        ensures
            match selected_bytes(self.data.data@, self.slice) {
                None => r == Err::<serde_json::Value, SerializeError>(SerializeError::BadSlice),
                Some(bytes) => match r {
                    Ok(value) => {
                        &&& value_tree(value) == data_tree(
                            self.encoding,
                            encoded_text(self.encoding, bytes),
                        )
                        &&& reads_back(self.encoding, bytes)
                    },
                    Err(e) => {
                        &&& e == SerializeError::CannotCompress
                        &&& self.encoding == Encoding::Base64Zstd
                        &&& zstd_frame(bytes, ZSTD_LEVEL as int).1
                    },
                },
            },
    {
        let bytes = match self.selected() {
            Some(bytes) => bytes,
            None => {
                return Err(SerializeError::BadSlice);
            },
        };
        let packed = match self.encoding {
            Encoding::Base64Zstd => zstd_encode(bytes, ZSTD_LEVEL),
            _ => None,
        };
        Self::serialize_packed(self.encoding, bytes, packed)
    }
}

/// An account, with the encoding and the slice that a client asked for.
pub struct EncodedAccountInfo<'a> {
    pub encoding: Encoding,
    pub slice: Option<Slice>,
    pub account_info: &'a AccountInfo,
}

impl AccountInfo {
    /// The account as a client asked to see it.
    pub fn encode(&self, encoding: Encoding, slice: Option<Slice>) -> (r: EncodedAccountInfo<'_>)
        ensures
            r.encoding == encoding,
            r.slice == slice,
            *r.account_info == *self,
    {
        EncodedAccountInfo { account_info: self, slice, encoding }
    }
}

impl<'a> EncodedAccountInfo<'a> {
    /// How the account is written, or `None` where its slice reaches past the data.
    pub open spec fn tree(self) -> Option<Tree> {
        encoded_info_tree(*self.account_info, self.encoding, self.slice)
    }

    /// Puts the account in its context.
    pub fn with_context(self, ctx: &'a SolanaContext) -> (r: EncodedAccountContext<'a>)
        ensures
            *r.context == *ctx,
            r.value == Some(self),
    {
        EncodedAccountContext { value: Some(self), context: ctx }
    }

    /// Writes the account, given what writing its data came to.
    pub fn serialize_with(&self, data: Result<serde_json::Value, SerializeError>) -> (r: Result<
        serde_json::Value,
        SerializeError,
    >)
        ensures
            match data {
                Ok(data) => r is Ok && value_tree(r->Ok_0) == info_tree(
                    *self.account_info,
                    value_tree(data),
                ),
                Err(e) => r == Err::<serde_json::Value, SerializeError>(e),
            },
    {
        let data = match data {
            Ok(data) => data,
            Err(e) => {
                return Err(e);
            },
        };
        let info = self.account_info;
        let fields = vec![
            ("data", data),
            ("lamports", unsigned_value(info.lamports)),
            ("owner", serialize_pubkey(&info.owner)),
            ("executable", bool_value(info.executable)),
            ("rentEpoch", unsigned_value(info.rent_epoch)),
        ];
        proof {
            reveal_strlit("data");
            reveal_strlit("lamports");
            reveal_strlit("owner");
            reveal_strlit("executable");
            reveal_strlit("rentEpoch");
            assert("data"@.len() == 4 && "lamports"@.len() == 8 && "owner"@.len() == 5);
            assert("executable"@.len() == 10 && "rentEpoch"@.len() == 9);
            assert(Tree::Object(field_trees(fields@)) == info_tree(*info, value_tree(data))) by {
                assert(field_trees(fields@) =~= info_tree(*info, value_tree(data))->Object_0);
            }
        }
        Ok(object_value(fields))
    }

    /// Writes the account.
    pub fn serialize(&self) -> (r: Result<serde_json::Value, SerializeError>)
        ensures
            match self.tree() {
                None => r == Err::<serde_json::Value, SerializeError>(SerializeError::BadSlice),
                Some(tree) => match r {
                    Ok(value) => {
                        &&& value_tree(value) == tree
                        &&& info_reads_back(*self.account_info, self.encoding, self.slice)
                    },
                    Err(e) => {
                        &&& e == SerializeError::CannotCompress
                        &&& packing_can_fail(*self.account_info, self.encoding, self.slice)
                    },
                },
            },
    {
        let encoded_data = EncodedAccountData {
            encoding: self.encoding,
            data: &self.account_info.data,
            slice: self.slice,
        };
        self.serialize_with(encoded_data.serialize())
    }
}

/// An answer about an account: the account as a client asked to see it, and the slot.
pub struct EncodedAccountContext<'a> {
    pub context: &'a SolanaContext,
    pub value: Option<EncodedAccountInfo<'a>>,
}

impl<'a> EncodedAccountContext<'a> {
    /// The answer where there is no such account.
    pub fn empty(ctx: &'a SolanaContext) -> (r: EncodedAccountContext<'a>)
        ensures
            *r.context == *ctx,
            r.value is None,
    {
        EncodedAccountContext { context: ctx, value: None }
    }

    /// How the answer is written, or `None` where the slice reaches past the data.
    pub open spec fn tree(self) -> Option<Tree> {
        match self.value {
            None => Some(account_context_tree(*self.context, Tree::Null)),
            Some(info) => match info.tree() {
                None => None,
                Some(tree) => Some(account_context_tree(*self.context, tree)),
            },
        }
    }

    /// Writes the answer, given what writing the account, or that there is none, came to.
    pub fn serialize_with(&self, value: Result<serde_json::Value, SerializeError>) -> (r: Result<
        serde_json::Value,
        SerializeError,
    >)
        ensures
            match value {
                Ok(value) => r is Ok && value_tree(r->Ok_0) == account_context_tree(
                    *self.context,
                    value_tree(value),
                ),
                Err(e) => r == Err::<serde_json::Value, SerializeError>(e),
            },
    {
        let value = match value {
            Ok(value) => value,
            Err(e) => {
                return Err(e);
            },
        };
        let fields = vec![("context", self.context.serialize()), ("value", value)];
        proof {
            reveal_strlit("context");
            reveal_strlit("value");
            assert("context"@.len() == 7 && "value"@.len() == 5);
            assert(field_trees(fields@) =~= account_context_tree(
                *self.context,
                value_tree(value),
            )->Object_0);
        }
        Ok(object_value(fields))
    }

    /// Writes the answer.
    pub fn serialize(&self) -> (r: Result<serde_json::Value, SerializeError>)
        ensures
            match self.tree() {
                None => r == Err::<serde_json::Value, SerializeError>(SerializeError::BadSlice),
                Some(tree) => match r {
                    Ok(value) => {
                        &&& value_tree(value) == tree
                        &&& self.value matches Some(info) ==> info_reads_back(
                            *info.account_info,
                            info.encoding,
                            info.slice,
                        )
                    },
                    Err(e) => {
                        &&& e == SerializeError::CannotCompress
                        &&& self.value matches Some(info)
                        &&& packing_can_fail(*info.account_info, info.encoding, info.slice)
                    },
                },
            },
    {
        let value = match &self.value {
            None => Ok(null_value()),
            Some(info) => info.serialize(),
        };
        self.serialize_with(value)
    }
}

} // verus!
