use rpc_cache::filter::{all_match, compare_at, Filter};
use rpc_cache::types::AccountData;

fn data(bytes: &[u8]) -> AccountData {
    AccountData { data: bytes.to_vec() }
}

fn holding(offset: usize, bytes: &[u8]) -> Filter {
    Filter::Memcmp { offset, bytes: bs58::encode(bytes).into_string() }
}

#[test]
fn data_size_must_be_met() {
    assert!(Filter::DataSize(5).matches(&data(b"hello")));
    assert!(!Filter::DataSize(4).matches(&data(b"hello")));
    assert!(Filter::DataSize(0).matches(&data(b"")));
}

#[test]
fn bytes_are_compared_at_their_offset() {
    let hay = data(&[9, 0x04, 0x30, 0x5e, 0x2b, 0x24, 0x73, 0xf0, 0x58]);
    let he11owor1d = |offset| Filter::Memcmp { offset, bytes: "he11owor1d".to_string() };
    assert!(he11owor1d(1).matches(&hay));
    assert!(!he11owor1d(0).matches(&hay));
    assert!(!he11owor1d(2).matches(&hay));
    assert!(!he11owor1d(usize::MAX).matches(&hay));
}

#[test]
fn no_bytes_are_held_up_to_the_end() {
    assert!(holding(5, b"").matches(&data(b"hello")));
    assert!(!holding(6, b"").matches(&data(b"hello")));
}

#[test]
fn bytes_that_are_not_base58_match_nothing() {
    let bad = |s: &str| Filter::Memcmp { offset: 0, bytes: s.to_string() };
    assert!(!bad("0").matches(&data(&[0; 8])));
    assert!(!bad("\u{fc}").matches(&data(&[0; 8])));
    assert!(bad("1").matches(&data(&[0; 8])));
}

#[test]
fn at_most_128_bytes_are_compared() {
    let hay: Vec<u8> = (0..200u32).map(|i| (i + 1) as u8).collect();
    assert!(holding(3, &hay[3..131]).matches(&data(&hay)));
    assert!(!holding(3, &hay[3..132]).matches(&data(&hay)));
}

#[test]
fn all_filters_are_asked() {
    let hay = data(b"hello");
    assert!(all_match(&vec![], &hay));
    assert!(all_match(&vec![Filter::DataSize(5), holding(1, b"ell")], &hay));
    assert!(!all_match(&vec![Filter::DataSize(5), holding(1, b"elk")], &hay));
    assert!(!all_match(&vec![Filter::DataSize(6), holding(1, b"ell")], &hay));
}

#[test]
fn plain_bytes_are_compared() {
    let hay = data(b"hello");
    assert!(compare_at(&hay, 2, b"llo"));
    assert!(!compare_at(&hay, 2, b"lloo"));
    assert!(!compare_at(&hay, 2, b"lla"));
}
