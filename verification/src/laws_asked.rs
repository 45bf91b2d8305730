//! What a client asks for, and what that means.

use crate::codec::base58_bytes;
use crate::filter::{all_accept, holds_at, holds_base58_at, Filter};
use crate::request::{route_of, AccountInfoConfig, Params, ProgramAccountsConfig, Route};
use crate::types::{commitment_or_default, Commitment};
use vstd::prelude::*;

verus! {

/// A request that names a commitment means that one, and one that names none means the most
/// settled state.
pub proof fn law_named_commitment_is_meant(commitment: Commitment)
    ensures
        commitment_or_default(Some(commitment)) == commitment,
        commitment_or_default(None) == Commitment::Finalized,
{
}

/// The same holds of what a request for an account, or for the accounts of a program, names.
pub proof fn law_configured_commitment_is_meant(
    account: AccountInfoConfig,
    program: ProgramAccountsConfig,
    commitment: Commitment,
)
    ensures
        account.commitment == Some(commitment) ==> account.spec_commitment() == commitment,
        account.commitment is None ==> account.spec_commitment() == Commitment::Finalized,
        program.commitment == Some(commitment) ==> program.spec_commitment() == commitment,
        program.commitment is None ==> program.spec_commitment() == Commitment::Finalized,
{
}

/// Data holds bytes at an offset if and only if it reaches that far and agrees with them at every
/// place.
pub proof fn law_bytes_are_compared_one_by_one(data: Seq<u8>, offset: usize, bytes: Seq<u8>)
    ensures
        holds_at(data, offset as int, bytes) <==> {
            &&& offset + bytes.len() <= data.len()
            &&& forall|i: int| 0 <= i < bytes.len() ==> data[offset + i] == #[trigger] bytes[i]
        },
{
    if offset + bytes.len() <= data.len() {
        let part = data.subrange(offset as int, offset + bytes.len());
        assert forall|i: int| 0 <= i < bytes.len() implies part[i] == data[offset + i] by {}
        if forall|i: int| 0 <= i < bytes.len() ==> data[offset + i] == #[trigger] bytes[i] {
            assert(part =~= bytes);
        }
        if part == bytes {
            assert forall|i: int| 0 <= i < bytes.len() implies data[offset + i]
                == #[trigger] bytes[i] by {
                assert(part[i] == data[offset + i]);
            }
        }
    }
}

/// A filter that compares accepts data if and only if its text stands for at most 128 bytes in base
/// 58, the data reaches as far as they do from the offset on, and it agrees with them at every
/// place.
pub proof fn law_memcmp_compares_every_byte(offset: usize, text: String, data: Seq<u8>)
    ensures
        base58_bytes(text@, 128) is None ==> !(Filter::Memcmp { offset, bytes: text }).accepts(
            data,
        ),
        base58_bytes(text@, 128) matches Some(bytes) ==> ((Filter::Memcmp {
            offset,
            bytes: text,
        }).accepts(data) <==> {
            &&& offset + bytes.len() <= data.len()
            &&& forall|i: int| 0 <= i < bytes.len() ==> data[offset + i] == #[trigger] bytes[i]
        }),
        holds_base58_at(data, offset, text@) <==> (Filter::Memcmp { offset, bytes: text }).accepts(
            data,
        ),
{
    if let Some(bytes) = base58_bytes(text@, 128) {
        law_bytes_are_compared_one_by_one(data, offset, bytes);
    }
}

/// A filter on the size accepts exactly the data that has that many bytes.
pub proof fn law_data_size_is_exact(len: usize, data: Seq<u8>)
    ensures
        Filter::DataSize(len).accepts(data) <==> data.len() == len,
{
}

/// Data passes a list of filters if and only if each of them accepts it: none is asked, it passes;
/// one refuses it, it does not.
pub proof fn law_every_filter_is_asked(filters: Seq<Filter>, data: Seq<u8>)
    ensures
        filters.len() == 0 ==> all_accept(filters, data),
        forall|i: int|
            0 <= i < filters.len() && !(#[trigger] filters[i]).accepts(data) ==> !all_accept(
                filters,
                data,
            ),
        filters.len() > 0 ==> (all_accept(filters, data) <==> filters.last().accepts(data)
            && all_accept(filters.drop_last(), data)),
{
    if filters.len() > 0 {
        let front = filters.drop_last();
        let last = filters.len() - 1;
        assert(filters[last] == filters.last());
        assert forall|i: int| 0 <= i < front.len() implies filters[i] == #[trigger] front[i] by {}
        if all_accept(filters, data) {
            assert forall|i: int| 0 <= i < front.len() implies (#[trigger] front[i]).accepts(
                data,
            ) by {
                assert(filters[i].accepts(data));
            }
        }
        if filters.last().accepts(data) && all_accept(front, data) {
            assert forall|i: int| 0 <= i < filters.len() implies (#[trigger] filters[i]).accepts(
                data,
            ) by {
                if i < last {
                    assert(front[i].accepts(data));
                }
            }
        }
    }
}

/// The first of the parameters is the address and the second, if there is one, says how the answer
/// is to look. Without any there is nothing to take.
pub proof fn law_parameters_are_taken_by_their_place(params: Params, items: Seq<Seq<char>>)
    ensures
        items.len() == 0 ==> !params.are_from(items),
        items.len() == 1 ==> (params.are_from(items) <==> params.key@ == items[0]
            && params.config is None),
        items.len() >= 2 ==> (params.are_from(items) <==> params.key@ == items[0] && (
        params.config matches Some(config) && config@ == items[1])),
{
}

/// Only the two methods that are answered here are kept from the backend, each by its exact name.
pub proof fn law_methods_are_told_by_their_names(method: Seq<char>)
    ensures
        route_of(method) == Route::AccountInfo <==> method == "getAccountInfo"@,
        route_of(method) == Route::ProgramAccounts <==> method == "getProgramAccounts"@,
        route_of(method) != Route::Other ==> route_of(method).spec_label() == method,
        Route::Other.spec_label() == "other"@,
{
    reveal_strlit("getAccountInfo");
    reveal_strlit("getProgramAccounts");
    assert("getAccountInfo"@.len() == 14 && "getProgramAccounts"@.len() == 18);
}

} // verus!
