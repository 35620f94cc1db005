use esp_nvs::Key;

#[test]
fn from_array_pads_with_nul() {
    let key = Key::from_array(b"my_key");
    let mut expected = [0u8; 16];
    expected[..6].copy_from_slice(b"my_key");
    assert_eq!(key.as_bytes(), &expected);
}

#[test]
fn from_slice_pads_with_nul() {
    let key = Key::from_slice(b"abc");
    assert_eq!(key.as_bytes(), &[b'a', b'b', b'c', 0, 0, 0, 0, 0, 0, 0, 0, 0, 0, 0, 0, 0]);
}

#[test]
fn from_str_agrees_with_from_slice_and_from_array() {
    assert!(Key::from_str("namespace") == Key::from_slice(b"namespace"));
    assert!(Key::from_str("namespace") == Key::from_array(b"namespace"));
}

#[test]
fn fifteen_bytes_fill_the_key_and_keep_the_terminator() {
    let key = Key::from_str("abcdefghijklmno");
    assert_eq!(&key.as_bytes()[..15], b"abcdefghijklmno");
    assert_eq!(key.as_bytes()[15], 0);
    assert!(key.is_nul_terminated());
}

#[test]
fn empty_key_is_all_nul() {
    let key = Key::from_str("");
    assert_eq!(key.as_bytes(), &[0u8; 16]);
}

#[test]
fn as_str_keeps_the_padding() {
    let key = Key::from_str("test");
    assert_eq!(key.as_str(), "test\0\0\0\0\0\0\0\0\0\0\0");
    assert_eq!(key.as_str().len(), 15);
}

#[test]
fn as_ref_is_all_sixteen_bytes() {
    let key = Key::from_str("x");
    let bytes: &[u8] = key.as_ref();
    assert_eq!(bytes.len(), 16);
    assert_eq!(bytes[0], b'x');
}

#[test]
fn debug_string_escapes_and_shows_nul() {
    let key = Key::from_str("my_key");
    assert_eq!(key.debug_string(), "Key(b\"my_key\\0\\0\\0\\0\\0\\0\\0\\0\\0\")");
}

#[test]
fn debug_string_uses_ascii_escapes() {
    let key = Key::from_slice(&[b'\t', b'"', b'\\', 0xff, b'\'', b'\n', b'\r', 0x7f, b'a', b'b', b'c', b'd', b'e', b'f', b'g']);
    assert_eq!(
        key.debug_string(),
        "Key(b\"\\t\\\"\\\\\\xff\\'\\n\\r\\x7fabcdefg\")"
    );
}

#[test]
fn code_orders_keys_like_their_bytes() {
    let a = Key::from_str("a");
    let b = Key::from_str("b");
    assert!(a.code() < b.code());
    assert_eq!(a.code() >> 120, b'a' as u128);
    assert!(a < b);
}

#[test]
fn distinct_keys_have_distinct_codes() {
    let names = ["", "a", "b", "ab", "ba", "abcdefghijklmno", "abcdefghijklmnp"];
    for (i, x) in names.iter().enumerate() {
        for (j, y) in names.iter().enumerate() {
            assert_eq!(i == j, Key::from_str(x).code() == Key::from_str(y).code());
        }
    }
}

#[test]
fn multi_byte_characters_count_by_bytes() {
    let key = Key::from_str("ééééééé");
    assert_eq!(&key.as_bytes()[..14], "ééééééé".as_bytes());
    assert_eq!(key.as_str(), "ééééééé\0");
}

#[test]
fn keys_of_nul_free_slices_compare_like_the_slices() {
    let names: [&[u8]; 6] = [b"", b"a", b"ab", b"abc", b"b", b"\xff"];
    for x in names {
        for y in names {
            let kx = Key::from_slice(x);
            let ky = Key::from_slice(y);
            assert_eq!(kx.code() < ky.code(), x < y);
            assert_eq!(kx.code() == ky.code(), x == y);
        }
    }
}
