//! What is written, and what it stands for.

use crate::codec::{
    base58_bytes, base58_text, base64_bytes, base64_text, zstd_bytes, zstd_frame,
};
use crate::decode::{decoded_bytes, decoded_pubkey};
use crate::encode::{
    account_context_tree, context_tree, data_tree, encoded_info_tree, encoded_text, encoding_name,
    info_reads_back, info_tree, packing_can_fail, pubkey_tree, reads_back, response_tree,
    selected_bytes, EncodedAccountContext, EncodedAccountInfo, SerializeError,
};
use crate::error::{
    error_of_text, error_response_tree, error_tree, id_tree, Error, ErrorResponse, Reply,
};
use crate::json::{error_is_data, field_trees, item_trees, value_tree, Tree};
use crate::types::{AccountInfo, Encoding, Pubkey, Slice, SolanaContext};
use vstd::prelude::*;
use vstd::std_specs::convert::FromSpec;
use vstd::utf8::encode_utf8;

verus! {

/// A slice selects as many bytes as it asks for, from its offset on, and nothing if that reaches
/// past the end of the data. Without a slice all of the data is selected.
pub proof fn law_slice_selects_from_its_offset(data: Seq<u8>, slice: Option<Slice>)
    ensures
        slice is None ==> selected_bytes(data, slice) == Some(data),
        slice matches Some(s) ==> (selected_bytes(data, slice) is Some <==> s.offset + s.length
            <= data.len()),
        slice matches Some(s) ==> (selected_bytes(data, slice) matches Some(bytes) ==> {
            &&& bytes.len() == s.length
            &&& forall|i: int|
                0 <= i < bytes.len() ==> #[trigger] bytes[i] == data[s.offset + i]
        }),
{
}

/// What a slice selects is the only run of bytes of its length that stands at its offset.
proof fn lemma_selected(data: Seq<u8>, slice: Option<Slice>, bytes: Seq<u8>)
    requires
        slice is None ==> bytes == data,
        slice matches Some(s) ==> {
            &&& bytes.len() == s.length
            &&& s.offset + s.length <= data.len()
            &&& forall|i: int|
                0 <= i < bytes.len() ==> #[trigger] bytes[i] == data[s.offset + i]
        },
    ensures
        selected_bytes(data, slice) == Some(bytes),
{
    if let Some(s) = slice {
        assert(data.subrange(s.offset as int, s.offset + s.length) =~= bytes);
    }
}

/// Account data is written as a bare text if and only if no encoding was named. Otherwise it is a
/// pair of the text and the name of the encoding that was asked for.
pub proof fn law_data_has_the_shape_of_its_encoding(encoding: Encoding, text: Seq<char>)
    ensures
        data_tree(encoding, text) is Text <==> encoding == Encoding::Default,
        data_tree(encoding, text) matches Tree::Text(bare) ==> bare == text,
        encoding != Encoding::Default ==> (data_tree(encoding, text) matches Tree::List(pair) && {
            &&& pair.len() == 2
            &&& pair[0] == Tree::Text(text)
            &&& pair[1] == Tree::Text(encoding_name(encoding))
        }),
        encoding_name(Encoding::Base58) == "base58"@,
        encoding_name(Encoding::Base64) == "base64"@,
        encoding_name(Encoding::Base64Zstd) == "base64+zstd"@,
{
}

/// The text of account data comes from `bs58` where no encoding or base 58 was asked for, from
/// `base64` where base 64 was, and from `base64` on the frame of `zstd`'s default level where that
/// was.
pub proof fn law_text_comes_from_the_encoding_asked_for(bytes: Seq<u8>)
    ensures
        encoded_text(Encoding::Default, bytes) == base58_text(bytes),
        encoded_text(Encoding::Base58, bytes) == base58_text(bytes),
        encoded_text(Encoding::Base64, bytes) == base64_text(bytes),
        encoded_text(Encoding::Base64Zstd, bytes) == base64_text(zstd_frame(bytes, 0).0),
{
}

/// A text is read by the crate that writes its encoding: base 58 with a byte of room for each
/// byte of the text, and a packed text by way of the frame that it holds.
pub proof fn law_text_is_read_in_the_encoding_named(text: Seq<char>)
    ensures
        decoded_bytes(Encoding::Default, text) == base58_bytes(text, encode_utf8(text).len()),
        decoded_bytes(Encoding::Base58, text) == base58_bytes(text, encode_utf8(text).len()),
        decoded_bytes(Encoding::Base64, text) == base64_bytes(text),
        base64_bytes(text) is None ==> decoded_bytes(Encoding::Base64Zstd, text) is None,
        base64_bytes(text) matches Some(frame) ==> decoded_bytes(Encoding::Base64Zstd, text)
            == zstd_bytes(frame).0,
{
}

/// A text is an address if and only if it stands for exactly 32 bytes in base 58, and those are the
/// address.
pub proof fn law_address_is_32_bytes_in_base58(text: Seq<char>, bytes: Seq<u8>)
    ensures
        decoded_pubkey(text) == Some(bytes) <==> bytes.len() == 32 && base58_bytes(text, 32)
            == Some(bytes),
{
}

/// An address is its 32 bytes: two addresses with the same bytes are the same, and each is written
/// as those bytes in base 58.
pub proof fn law_address_is_its_bytes(a: Pubkey, b: Pubkey)
    ensures
        a@ == a.0@,
        a@.len() == 32,
        a@ == b@ ==> pubkey_tree(a) == pubkey_tree(b),
        pubkey_tree(a) == Tree::Text(base58_text(a.0@)),
{
}

/// Where written data reads back, different bytes are written as different texts.
pub proof fn law_different_bytes_are_written_differently(
    encoding: Encoding,
    a: Seq<u8>,
    b: Seq<u8>,
)
    requires
        reads_back(encoding, a),
        reads_back(encoding, b),
        a != b,
    ensures
        encoded_text(encoding, a) != encoded_text(encoding, b),
        data_tree(encoding, encoded_text(encoding, a)) != data_tree(
            encoding,
            encoded_text(encoding, b),
        ),
{
    let first = encoded_text(encoding, a);
    let second = encoded_text(encoding, b);
    if encoding != Encoding::Default && data_tree(encoding, first) == data_tree(encoding, second) {
        assert(data_tree(encoding, first)->List_0[0] == data_tree(encoding, second)->List_0[0]);
    }
}

/// What reads back is what the crates of the encoding read from what they have written.
pub proof fn law_reading_back_undoes_writing(encoding: Encoding, bytes: Seq<u8>)
    requires
        reads_back(encoding, bytes),
    ensures
        encoding == Encoding::Default || encoding == Encoding::Base58 ==> base58_bytes(
            base58_text(bytes),
            encode_utf8(base58_text(bytes)).len(),
        ) == Some(bytes),
        encoding == Encoding::Base64 ==> base64_bytes(base64_text(bytes)) == Some(bytes),
        encoding == Encoding::Base64Zstd ==> (base64_bytes(base64_text(zstd_frame(bytes, 0).0))
            matches Some(frame) && zstd_bytes(frame).0 == Some(bytes)),
{
}

/// An account is written with its own fields under their names, in their order; its data is what
/// the slice selects, in the encoding that was asked for.
pub proof fn law_account_is_written_with_its_fields(
    info: AccountInfo,
    encoding: Encoding,
    slice: Option<Slice>,
    bytes: Seq<u8>,
    data: Tree,
)
    requires
        slice is None ==> bytes == info.data.data@,
        slice matches Some(s) ==> {
            &&& bytes.len() == s.length
            &&& s.offset + s.length <= info.data.data@.len()
            &&& forall|i: int|
                0 <= i < bytes.len() ==> #[trigger] bytes[i] == info.data.data@[s.offset + i]
        },
        data == match encoding {
            Encoding::Default => Tree::Text(base58_text(bytes)),
            Encoding::Base58 => Tree::List(
                seq![Tree::Text(base58_text(bytes)), Tree::Text("base58"@)],
            ),
            Encoding::Base64 => Tree::List(
                seq![Tree::Text(base64_text(bytes)), Tree::Text("base64"@)],
            ),
            Encoding::Base64Zstd => Tree::List(
                seq![
                    Tree::Text(base64_text(zstd_frame(bytes, 0).0)),
                    Tree::Text("base64+zstd"@),
                ],
            ),
        },
    ensures
        encoded_info_tree(info, encoding, slice) matches Some(Tree::Object(fields)) && {
            &&& fields.len() == 5
            &&& fields[0] == ("data"@, data)
            &&& fields[1] == ("lamports"@, Tree::Number(info.lamports as int))
            &&& fields[2] == ("owner"@, Tree::Text(base58_text(info.owner.0@)))
            &&& fields[3] == ("executable"@, Tree::Bool(info.executable))
            &&& fields[4] == ("rentEpoch"@, Tree::Number(info.rent_epoch as int))
        },
{
    lemma_selected(info.data.data@, slice, bytes);
}

/// An account can be written if and only if its slice is in its data.
pub proof fn law_account_is_written_where_its_slice_is_in_the_data(
    info: AccountInfo,
    encoding: Encoding,
    slice: Option<Slice>,
)
    ensures
        encoded_info_tree(info, encoding, slice) is Some <==> (slice matches Some(s) ==> s.offset
            + s.length <= info.data.data@.len()),
{
}

/// Writing an account puts the data as it was written beside the account's other fields.
pub proof fn law_account_holds_the_data_given(info: AccountInfo, data: Tree)
    ensures
        info_tree(info, data) matches Tree::Object(fields) && {
            &&& fields.len() == 5
            &&& fields[0] == ("data"@, data)
            &&& fields[1] == ("lamports"@, Tree::Number(info.lamports as int))
            &&& fields[2] == ("owner"@, Tree::Text(base58_text(info.owner.0@)))
            &&& fields[3] == ("executable"@, Tree::Bool(info.executable))
            &&& fields[4] == ("rentEpoch"@, Tree::Number(info.rent_epoch as int))
        },
{
}

/// What a client asked to see is the account that it asked for, in its encoding and slice; and in
/// its context there is that account or none, with the slot of that context.
pub proof fn law_encoded_account_is_the_one_asked_for(
    info: EncodedAccountInfo,
    context: EncodedAccountContext,
)
    ensures
        info.tree() == encoded_info_tree(*info.account_info, info.encoding, info.slice),
        context.value is None ==> context.tree() == Some(
            account_context_tree(*context.context, Tree::Null),
        ),
        context.value matches Some(value) ==> (context.tree() is Some <==> encoded_info_tree(
            *value.account_info,
            value.encoding,
            value.slice,
        ) is Some),
        context.value matches Some(value) ==> (encoded_info_tree(
            *value.account_info,
            value.encoding,
            value.slice,
        ) matches Some(tree) ==> context.tree() == Some(
            account_context_tree(*context.context, tree),
        )),
{
}

/// An answer that reports a result holds the version of the protocol, that result, and the number
/// of its request. The result about an account holds the slot and the account.
pub proof fn law_answers_hold_their_parts(
    result: Tree,
    id: u64,
    context: SolanaContext,
    value: Tree,
)
    ensures
        response_tree(result, id) matches Tree::Object(fields) && {
            &&& fields.len() == 3
            &&& fields[0] == ("jsonrpc"@, Tree::Text("2.0"@))
            &&& fields[1] == ("result"@, result)
            &&& fields[2] == ("id"@, Tree::Number(id as int))
        },
        account_context_tree(context, value) matches Tree::Object(fields) && {
            &&& fields.len() == 2
            &&& fields[0] == ("context"@, context_tree(context))
            &&& fields[1] == ("value"@, value)
        },
        context_tree(context) matches Tree::Object(fields) && {
            &&& fields.len() == 1
            &&& fields[0] == ("slot"@, Tree::Number(context.slot as int))
        },
{
}

/// Answers to requests with different numbers, or with different results, are different.
pub proof fn law_answers_tell_their_requests_apart(
    result: Tree,
    id: u64,
    other_result: Tree,
    other_id: u64,
)
    ensures
        response_tree(result, id) == response_tree(other_result, other_id) <==> result
            == other_result && id == other_id,
{
    if response_tree(result, id) == response_tree(other_result, other_id) {
        let fields = response_tree(result, id)->Object_0;
        let other_fields = response_tree(other_result, other_id)->Object_0;
        assert(fields[1] == other_fields[1]);
        assert(fields[2] == other_fields[2]);
    }
}

/// Data reads back if what the slice selects of it does, and packing it can fail only in the
/// packed encoding and only where `zstd` can fail on exactly the bytes that the slice selects, at
/// its default level.
pub proof fn law_only_zstd_can_refuse_data_that_the_slice_is_in(
    info: AccountInfo,
    encoding: Encoding,
    slice: Option<Slice>,
    bytes: Seq<u8>,
)
    requires
        slice is None ==> bytes == info.data.data@,
        slice matches Some(s) ==> {
            &&& bytes.len() == s.length
            &&& s.offset + s.length <= info.data.data@.len()
            &&& forall|i: int|
                0 <= i < bytes.len() ==> #[trigger] bytes[i] == info.data.data@[s.offset + i]
        },
    ensures
        packing_can_fail(info, encoding, slice) <==> encoding == Encoding::Base64Zstd
            && zstd_frame(bytes, 0).1,
        info_reads_back(info, encoding, slice) <==> decoded_bytes(
            encoding,
            encoded_text(encoding, bytes),
        ) == Some(bytes),
{
    lemma_selected(info.data.data@, slice, bytes);
}

/// A text that could not be read fails a request as an invalid one if it was JSON, and as a parse
/// error if it was not; an account that could not be written fails it as an invalid one. The number
/// of the request is not told.
pub proof fn law_failures_to_read_and_write(err: serde_json::Error, unwritten: SerializeError)
    ensures
        error_is_data(err) ==> error_of_text(error_is_data(err)) == Error::InvalidRequest(None),
        !error_is_data(err) ==> error_of_text(error_is_data(err)) == Error::Parsing(None),
        <Error as FromSpec<serde_json::Error>>::from_spec(err) == error_of_text(error_is_data(err)),
        <Error as FromSpec<SerializeError>>::from_spec(unwritten) == Error::InvalidRequest(None),
        <Error as FromSpec<serde_json::Error>>::obeys_from_spec(),
        <Error as FromSpec<SerializeError>>::obeys_from_spec(),
{
}

/// An error is reported by an object with the version of the protocol, the number and the words of
/// the error, and the number of the request, or null where that is not known.
pub proof fn law_error_report_holds_its_parts(
    jsonrpc: Seq<char>,
    code: int,
    message: Seq<char>,
    id: Option<u64>,
)
    ensures
        error_response_tree(jsonrpc, code, message, id) matches Tree::Object(fields) && {
            &&& fields.len() == 3
            &&& fields[0] == ("jsonrpc"@, Tree::Text(jsonrpc))
            &&& fields[1].0 == "error"@
            &&& fields[1].1 matches Tree::Object(parts) && {
                &&& parts.len() == 2
                &&& parts[0] == ("code"@, Tree::Number(code))
                &&& parts[1] == ("message"@, Tree::Text(message))
            }
            &&& fields[2].0 == "id"@
            &&& id is None <==> fields[2].1 is Null
            &&& id matches Some(n) ==> fields[2].1 == Tree::Number(n as int)
        },
        error_tree(code, message, id) == error_response_tree("2.0"@, code, message, id),
        id_tree(None) == Tree::Null,
{
}

/// Each failure is answered with the number that the protocol gives it and with the number of the
/// request, as far as that is known. Only where the backend could not be asked is there no body.
pub proof fn law_failures_are_answered_by_their_code(error: Error)
    ensures
        error.tree() is None <==> error == Error::Client,
        error matches Error::InvalidRequest(id) ==> error.tree() == Some(
            error_response_tree("2.0"@, -32600, "Invalid request"@, id),
        ),
        error matches Error::Parsing(id) ==> error.tree() == Some(
            error_response_tree("2.0"@, -32700, "Parse error"@, id),
        ),
        error matches Error::NotEnoughArguments(id) ==> error.tree() == Some(
            error_response_tree(
                "2.0"@,
                -32602,
                "`params` should have at least 1 argument(s)"@,
                Some(id),
            ),
        ),
        error.spec_message() == match error {
            Error::InvalidRequest(_) => "invalid request"@,
            Error::Parsing(_) => "parsing request"@,
            Error::NotEnoughArguments(_) => "not enough arguments"@,
            Error::Client => "client error"@,
        },
{
}

/// An answer reports exactly the error that it holds, and a reply has exactly the body that it
/// holds.
pub proof fn law_reports_and_replies_hold_what_they_say(
    response: ErrorResponse,
    code: int,
    message: Seq<char>,
    id: Option<u64>,
    reply: Reply,
    body: Seq<u8>,
)
    ensures
        response.reports(code, message, id) <==> {
            &&& response.jsonrpc@ == "2.0"@
            &&& response.error.code == code
            &&& response.error.message@ == message
            &&& response.id == id
        },
        reply is GatewayTimeout ==> !reply.is_json(body),
        reply matches Reply::Json(held) ==> (reply.is_json(body) <==> held@ == body),
{
}

/// The words for an account that cannot be written.
pub proof fn law_unwritten_accounts_have_words(error: SerializeError)
    ensures
        error == SerializeError::BadSlice ==> error.spec_message() == "bad slice"@,
        error == SerializeError::CannotCompress ==> error.spec_message() == "can't compress"@,
{
}

/// The fields of an object and the items of a list are those given, each in its place.
pub proof fn law_objects_and_lists_hold_what_they_are_given(
    fields: Seq<(&str, serde_json::Value)>,
    items: Seq<serde_json::Value>,
)
    ensures
        field_trees(fields).len() == fields.len(),
        forall|i: int|
            0 <= i < fields.len() ==> #[trigger] field_trees(fields)[i] == (
                fields[i].0@,
                value_tree(fields[i].1),
            ),
        item_trees(items).len() == items.len(),
        forall|i: int|
            0 <= i < items.len() ==> #[trigger] item_trees(items)[i] == value_tree(items[i]),
{
}

} // verus!
