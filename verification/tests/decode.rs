use rpc_cache::encode::{serialize_pubkey, EncodedAccountData};
use rpc_cache::types::{AccountData, Encoding, Pubkey, Slice};

const ENCODINGS: [Encoding; 4] =
    [Encoding::Default, Encoding::Base58, Encoding::Base64, Encoding::Base64Zstd];

fn decode(encoding: Encoding, text: &str) -> Option<Vec<u8>> {
    AccountData::decode(encoding, text).map(|data| data.data)
}

fn written(data: &AccountData, encoding: Encoding, slice: Option<Slice>) -> String {
    let value = EncodedAccountData { encoding, data, slice }.serialize().unwrap();
    let text = if encoding == Encoding::Default { &value } else { &value[0] };
    text.as_str().unwrap().to_string()
}

#[test]
fn what_is_written_reads_back() {
    let samples = vec![
        vec![],
        vec![0],
        vec![0, 0, 0],
        vec![0, 0, 7, 255],
        vec![255; 40],
        (0..300u32).map(|i| (i * i % 251) as u8).collect(),
    ];
    for sample in samples {
        let data = AccountData { data: sample.clone() };
        for encoding in ENCODINGS {
            let text = written(&data, encoding, None);
            assert_eq!(decode(encoding, &text), Some(sample.clone()));
        }
    }
}

#[test]
fn a_written_slice_reads_back_to_the_slice() {
    let data = AccountData { data: b"hello, world".to_vec() };
    let slice = Some(Slice { offset: 7, length: 5 });
    for encoding in ENCODINGS {
        assert_eq!(decode(encoding, &written(&data, encoding, slice)), Some(b"world".to_vec()));
    }
}

#[test]
fn data_is_read() {
    let bytes = vec![0x04, 0x30, 0x5e, 0x2b, 0x24, 0x73, 0xf0, 0x58];
    assert_eq!(decode(Encoding::Default, "he11owor1d"), Some(bytes.clone()));
    assert_eq!(decode(Encoding::Base58, "he11owor1d"), Some(bytes));
    assert_eq!(decode(Encoding::Base64, "aGVsbG8="), Some(b"hello".to_vec()));
    assert_eq!(decode(Encoding::Base64, "aGVsbG8"), Some(b"hello".to_vec()));
    assert_eq!(decode(Encoding::Base58, ""), Some(vec![]));
}

#[test]
fn data_that_is_not_in_the_encoding_is_refused() {
    assert_eq!(decode(Encoding::Default, "0"), None);
    assert_eq!(decode(Encoding::Base58, "\u{e9}"), None);
    assert_eq!(decode(Encoding::Base64, "aGVsb"), None);
    assert_eq!(decode(Encoding::Base64, "aGV_"), None);
    assert_eq!(decode(Encoding::Base64Zstd, "aGVsb"), None);
    assert_eq!(decode(Encoding::Base64Zstd, "aGVsbG8="), None);
    assert!(AccountData::from_bytes(None).is_none());
    assert_eq!(AccountData::from_bytes(Some(vec![1])).unwrap().data, vec![1]);
}

#[test]
fn addresses_read_back() {
    let mut samples = vec![[0u8; 32], [255u8; 32], [7u8; 32]];
    samples[2][0] = 0;
    for sample in samples {
        let value = serialize_pubkey(&Pubkey(sample));
        assert_eq!(Pubkey::decode(value.as_str().unwrap()), Some(Pubkey(sample)));
    }
}

#[test]
fn addresses_of_another_length_are_refused() {
    assert_eq!(Pubkey::decode(""), None);
    assert_eq!(Pubkey::decode("1111111111111111111111111111111"), None);
    assert_eq!(Pubkey::decode("111111111111111111111111111111111"), None);
    assert_eq!(Pubkey::decode("0"), None);
}
