use libsql_plugin::base64::{base64_decode, base64_encode};

#[test]
fn encodes_hello() {
    assert_eq!(base64_encode(b"hello"), "aGVsbG8=");
}

#[test]
fn encodes_every_length_of_last_group() {
    assert_eq!(base64_encode(b""), "");
    assert_eq!(base64_encode(b"f"), "Zg==");
    assert_eq!(base64_encode(b"fo"), "Zm8=");
    assert_eq!(base64_encode(b"foo"), "Zm9v");
    assert_eq!(base64_encode(b"foob"), "Zm9vYg==");
    assert_eq!(base64_encode(b"fooba"), "Zm9vYmE=");
    assert_eq!(base64_encode(b"foobar"), "Zm9vYmFy");
}

#[test]
fn encodes_the_last_two_symbols() {
    assert_eq!(base64_encode(&[0xfb, 0xff, 0xbf]), "+/+/");
}

#[test]
fn decodes_what_was_encoded() {
    let data: Vec<u8> = (0..=255u8).collect();
    for n in 0..data.len() {
        let text = base64_encode(&data[..n]);
        assert_eq!(text.len(), (n + 2) / 3 * 4);
        assert_eq!(base64_decode(&text), Ok(data[..n].to_vec()));
    }
}

#[test]
fn passes_over_padding_and_white_space() {
    assert_eq!(base64_decode("Zm 9v\nYm\tFy\r\n"), Ok(b"foobar".to_vec()));
    assert_eq!(base64_decode("Z=m=9=v"), Ok(b"foo".to_vec()));
    assert_eq!(base64_decode(" \x0c=="), Ok(vec![]));
}

#[test]
fn decodes_short_last_groups() {
    assert_eq!(base64_decode("Zm8"), Ok(b"fo".to_vec()));
    assert_eq!(base64_decode("Zg"), Ok(b"f".to_vec()));
    assert_eq!(base64_decode("Z"), Ok(vec![0x64]));
}

#[test]
fn refuses_other_bytes() {
    let refused: Result<Vec<u8>, String> = Err("invalid base64 input".to_string());
    assert_eq!(base64_decode("Zm9-"), refused);
    assert_eq!(base64_decode("\x0b"), refused);
    assert_eq!(base64_decode("Zm9v\u{e9}"), refused);
}
