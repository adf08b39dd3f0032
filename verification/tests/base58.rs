use swaply_identity::base58::{decode, encode};

#[test]
fn base58_encode_known_text() {
    assert_eq!(encode(&[0x04, 0x30, 0x5e, 0x2b, 0x24, 0x73, 0xf0, 0x58]), "he11owor1d");
    assert_eq!(encode(b"Hello World!"), "2NEpo7TZRRrLZSi2U");
    assert_eq!(encode(&[]), "");
    assert_eq!(encode(&[0x61]), "2g");
    assert_eq!(encode(&[57]), "z");
    assert_eq!(encode(&[58]), "21");
}

#[test]
fn base58_encode_writes_a_one_for_each_leading_zero_byte() {
    assert_eq!(encode(&[0]), "1");
    assert_eq!(encode(&[0, 0, 0]), "111");
    assert_eq!(encode(&[0, 0, 1]), "112");
    assert_eq!(encode(&[0, 0x61]), "12g");
    assert_eq!(encode(&[0u8; 32]), "1".repeat(32));
}

#[test]
fn base58_decode_known_text() {
    assert_eq!(
        decode("he11owor1d").unwrap(),
        vec![0x04, 0x30, 0x5e, 0x2b, 0x24, 0x73, 0xf0, 0x58]
    );
    assert_eq!(decode("2NEpo7TZRRrLZSi2U").unwrap(), b"Hello World!".to_vec());
    assert_eq!(decode("").unwrap(), Vec::<u8>::new());
    assert_eq!(decode("111").unwrap(), vec![0, 0, 0]);
    assert_eq!(decode("112").unwrap(), vec![0, 0, 1]);
    assert_eq!(decode("21").unwrap(), vec![58]);
}

#[test]
fn base58_round_trip_of_32_bytes() {
    let mut hashes: Vec<[u8; 32]> = vec![[0u8; 32], [0xff; 32], [1; 32]];
    let mut counting = [0u8; 32];
    for (i, b) in counting.iter_mut().enumerate() {
        *b = (i * 37 + 11) as u8;
    }
    hashes.push(counting);
    let mut zeros_in_front = counting;
    zeros_in_front[0] = 0;
    zeros_in_front[1] = 0;
    hashes.push(zeros_in_front);
    for hash in hashes {
        let text = encode(&hash);
        assert!(text.chars().all(|c| {
            "123456789ABCDEFGHJKLMNPQRSTUVWXYZabcdefghijkmnopqrstuvwxyz".contains(c)
        }));
        assert_eq!(decode(&text).unwrap(), hash.to_vec());
    }
}

#[test]
fn base58_decode_reports_the_first_foreign_character() {
    assert_eq!(
        decode("hello world").unwrap_err(),
        bs58::decode::Error::InvalidCharacter { character: 'l', index: 2 }
    );
    assert_eq!(
        decode("0").unwrap_err(),
        bs58::decode::Error::InvalidCharacter { character: '0', index: 0 }
    );
    assert_eq!(
        decode("abcO").unwrap_err(),
        bs58::decode::Error::InvalidCharacter { character: 'O', index: 3 }
    );
    assert_eq!(
        decode("11I1l").unwrap_err(),
        bs58::decode::Error::InvalidCharacter { character: 'I', index: 2 }
    );
}

#[test]
fn base58_decode_reports_a_character_beyond_ascii_by_its_place() {
    assert_eq!(
        decode("he11o\u{1f1f3}\u{1f1ff}").unwrap_err(),
        bs58::decode::Error::NonAsciiCharacter { index: 5 }
    );
    assert_eq!(decode("\u{e9}").unwrap_err(), bs58::decode::Error::NonAsciiCharacter { index: 0 });
    assert_eq!(
        decode("ab\u{e9}0").unwrap_err(),
        bs58::decode::Error::NonAsciiCharacter { index: 2 }
    );
    assert_eq!(
        decode("a0\u{e9}").unwrap_err(),
        bs58::decode::Error::InvalidCharacter { character: '0', index: 1 }
    );
}
