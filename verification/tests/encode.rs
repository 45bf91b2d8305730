use rpc_cache::encode::{
    serialize_pubkey, serialize_response, EncodedAccountContext, EncodedAccountData, SerializeError,
};
use rpc_cache::types::{AccountData, AccountInfo, Encoding, Pubkey, Slice, SolanaContext};

const DATA: [u8; 8] = [0x04, 0x30, 0x5e, 0x2b, 0x24, 0x73, 0xf0, 0x58];

fn account(data: &[u8]) -> AccountInfo {
    AccountInfo {
        data: AccountData { data: data.to_vec() },
        lamports: 42,
        owner: Pubkey([0; 32]),
        executable: true,
        rent_epoch: u64::MAX,
    }
}

fn data_text(data: &[u8], encoding: Encoding, slice: Option<Slice>) -> Result<String, SerializeError> {
    let data = AccountData { data: data.to_vec() };
    let encoded = EncodedAccountData { encoding, data: &data, slice };
    encoded.serialize().map(|value| serde_json::to_string(&value).unwrap())
}

#[test]
fn default_encoding_is_a_bare_text() {
    assert_eq!(data_text(&DATA, Encoding::Default, None).unwrap(), "\"he11owor1d\"");
}

#[test]
fn base58_is_a_pair() {
    assert_eq!(data_text(&DATA, Encoding::Base58, None).unwrap(), "[\"he11owor1d\",\"base58\"]");
}

#[test]
fn base64_is_a_pair() {
    assert_eq!(
        data_text(b"hello", Encoding::Base64, None).unwrap(),
        "[\"aGVsbG8=\",\"base64\"]"
    );
    assert_eq!(data_text(b"", Encoding::Base64, None).unwrap(), "[\"\",\"base64\"]");
}

#[test]
fn zstd_packs_before_base64() {
    let data: Vec<u8> = (0..2000u32).map(|i| (i % 7) as u8).collect();
    let account_data = AccountData { data: data.clone() };
    let encoded =
        EncodedAccountData { encoding: Encoding::Base64Zstd, data: &account_data, slice: None };
    let value = encoded.serialize().unwrap();
    assert_eq!(value[1], "base64+zstd");
    let frame = base64::decode(value[0].as_str().unwrap()).unwrap();
    assert!(frame.len() < data.len());
    assert_eq!(zstd::decode_all(&frame[..]).unwrap(), data);
}

#[test]
fn failed_compression_is_an_error() {
    let r = EncodedAccountData::serialize_packed(Encoding::Base64Zstd, b"hello", None);
    assert_eq!(r.unwrap_err(), SerializeError::CannotCompress);
    let r = EncodedAccountData::serialize_packed(Encoding::Base64Zstd, b"x", Some(b"hello".to_vec()));
    assert_eq!(serde_json::to_string(&r.unwrap()).unwrap(), "[\"aGVsbG8=\",\"base64+zstd\"]");
    let r = EncodedAccountData::serialize_packed(Encoding::Base64, b"hello", None);
    assert_eq!(serde_json::to_string(&r.unwrap()).unwrap(), "[\"aGVsbG8=\",\"base64\"]");
}

#[test]
fn slices_are_cut_out() {
    let text = |offset, length| {
        data_text(b"hello", Encoding::Base64, Some(Slice { offset, length }))
    };
    assert_eq!(text(0, 5).unwrap(), "[\"aGVsbG8=\",\"base64\"]");
    assert_eq!(text(1, 3).unwrap(), "[\"ZWxs\",\"base64\"]");
    assert_eq!(text(5, 0).unwrap(), "[\"\",\"base64\"]");
}

#[test]
fn slices_past_the_end_are_refused() {
    let text = |offset, length| {
        data_text(b"hello", Encoding::Base64, Some(Slice { offset, length }))
    };
    assert_eq!(text(0, 6).unwrap_err(), SerializeError::BadSlice);
    assert_eq!(text(6, 0).unwrap_err(), SerializeError::BadSlice);
    assert_eq!(text(usize::MAX, 2).unwrap_err(), SerializeError::BadSlice);
    assert_eq!(SerializeError::BadSlice.message(), "bad slice");
    assert_eq!(SerializeError::CannotCompress.message(), "can't compress");
}

#[test]
fn accounts_are_written_field_by_field() {
    let info = account(b"hello");
    let value = info.encode(Encoding::Base64, None).serialize().unwrap();
    assert_eq!(
        serde_json::to_string(&value).unwrap(),
        "{\"data\":[\"aGVsbG8=\",\"base64\"],\"lamports\":42,\
         \"owner\":\"11111111111111111111111111111111\",\"executable\":true,\
         \"rentEpoch\":18446744073709551615}"
    );
}

#[test]
fn answers_have_a_context() {
    let info = account(b"hello");
    let ctx = SolanaContext { slot: 7 };
    let answer = info.encode(Encoding::Default, Some(Slice { offset: 0, length: 0 }));
    let value = answer.with_context(&ctx).serialize().unwrap();
    assert_eq!(
        serde_json::to_string(&value).unwrap(),
        "{\"context\":{\"slot\":7},\"value\":{\"data\":\"\",\"lamports\":42,\
         \"owner\":\"11111111111111111111111111111111\",\"executable\":true,\
         \"rentEpoch\":18446744073709551615}}"
    );
    let value = EncodedAccountContext::empty(&ctx).serialize().unwrap();
    assert_eq!(serde_json::to_string(&value).unwrap(), "{\"context\":{\"slot\":7},\"value\":null}");
    let answer = info.encode(Encoding::Default, Some(Slice { offset: 9, length: 0 }));
    assert_eq!(answer.with_context(&ctx).serialize().unwrap_err(), SerializeError::BadSlice);
}

#[test]
fn addresses_and_responses_are_written() {
    let mut key = [0u8; 32];
    key[31] = 1;
    let value = serialize_pubkey(&Pubkey(key));
    assert_eq!(value, "11111111111111111111111111111112");
    assert_eq!(
        serde_json::to_string(&serialize_response(value, 3)).unwrap(),
        "{\"jsonrpc\":\"2.0\",\"result\":\"11111111111111111111111111111112\",\"id\":3}"
    );
}

#[test]
fn the_whole_as_a_slice_is_no_slice() {
    let whole = Some(Slice { offset: 0, length: 5 });
    for encoding in vec![Encoding::Default, Encoding::Base58, Encoding::Base64] {
        assert_eq!(
            data_text(b"hello", encoding, whole).unwrap(),
            data_text(b"hello", encoding, None).unwrap()
        );
    }
}

#[test]
fn accounts_and_answers_are_put_together_from_what_was_written() {
    let info = account(b"hello");
    let ctx = SolanaContext { slot: 7 };
    let encoded = info.encode(Encoding::Base64Zstd, None);
    let value = encoded.serialize_with(Ok(serde_json::Value::from("x"))).unwrap();
    assert_eq!(
        serde_json::to_string(&value).unwrap(),
        "{\"data\":\"x\",\"lamports\":42,\
         \"owner\":\"11111111111111111111111111111111\",\"executable\":true,\
         \"rentEpoch\":18446744073709551615}"
    );
    let failed = encoded.serialize_with(Err(SerializeError::CannotCompress));
    assert_eq!(failed.unwrap_err(), SerializeError::CannotCompress);

    let answer = encoded.with_context(&ctx);
    let value = answer.serialize_with(Ok(serde_json::Value::from("y"))).unwrap();
    assert_eq!(serde_json::to_string(&value).unwrap(), "{\"context\":{\"slot\":7},\"value\":\"y\"}");
    let failed = answer.serialize_with(Err(SerializeError::BadSlice));
    assert_eq!(failed.unwrap_err(), SerializeError::BadSlice);
}
