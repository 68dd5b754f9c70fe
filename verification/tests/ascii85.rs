use skool::ascii85::{decode, encode, Ascii85Error};

#[test]
fn encode_empty() {
    assert_eq!(encode(&[]), "");
}

#[test]
fn encode_zero_group() {
    assert_eq!(encode(&[0, 0, 0, 0]), "!!!!!");
}

#[test]
fn encode_partial_group() {
    // one byte becomes two digits
    assert_eq!(encode(&[0]).len(), 2);
    assert_eq!(encode(&[1, 2, 3]).len(), 4);
}

#[test]
fn decode_zero_group() {
    assert_eq!(decode("!!!!!").unwrap(), vec![0, 0, 0, 0]);
}

#[test]
fn round_trip_various() {
    let cases: Vec<Vec<u8>> = vec![
        vec![],
        vec![0],
        vec![255],
        vec![1, 2],
        vec![1, 2, 3],
        vec![1, 2, 3, 4],
        vec![1, 2, 3, 4, 5],
        b"hello world, this is a longer byte string".to_vec(),
    ];
    for case in cases {
        let text = encode(&case);
        let back = decode(&text).unwrap();
        assert_eq!(back, case);
    }
}

#[test]
fn decode_rejects_z() {
    assert!(matches!(decode("z"), Err(Ascii85Error::OutOfRange)));
}

#[test]
fn decode_rejects_misaligned_z() {
    assert!(matches!(decode("!z"), Err(Ascii85Error::MisalignedZ)));
}

#[test]
fn decode_rejects_out_of_range() {
    assert!(matches!(decode("abc\u{7f}"), Err(Ascii85Error::OutOfRange)));
    assert!(matches!(decode(" "), Err(Ascii85Error::OutOfRange)));
}
