use arg_proxy::text::{read_hex_bytes, read_hex_i64, read_u64};
use arg_proxy::web::percent_decode;

#[test]
fn reads_decimal() {
    assert_eq!(read_u64("0"), Some(0));
    assert_eq!(read_u64("+12"), Some(12));
    assert_eq!(read_u64("18446744073709551615"), Some(u64::MAX));
    assert_eq!(read_u64("18446744073709551616"), None);
    assert_eq!(read_u64(""), None);
    assert_eq!(read_u64("+"), None);
    assert_eq!(read_u64("1a"), None);
}

#[test]
fn reads_signed_hex() {
    assert_eq!(read_hex_i64("65a0"), Some(0x65a0));
    assert_eq!(read_hex_i64("-FF"), Some(-255));
    assert_eq!(read_hex_i64("+7fffffffffffffff"), Some(i64::MAX));
    assert_eq!(read_hex_i64("8000000000000000"), None);
    assert_eq!(read_hex_i64("-8000000000000000"), Some(i64::MIN));
    assert_eq!(read_hex_i64("-8000000000000001"), None);
    assert_eq!(read_hex_i64("-"), None);
    assert_eq!(read_hex_i64("g"), None);
}

#[test]
fn reads_hex_bytes() {
    assert_eq!(read_hex_bytes("aabbcc"), Some(vec![0xaa, 0xbb, 0xcc]));
    assert_eq!(read_hex_bytes("AbCd"), Some(vec![0xab, 0xcd]));
    assert_eq!(read_hex_bytes(""), Some(vec![]));
    assert_eq!(read_hex_bytes("abc"), None);
    assert_eq!(read_hex_bytes("+a"), None);
}

#[test]
fn decodes_ascii_escapes_only() {
    assert_eq!(percent_decode("/%2Fa%2fb", 1), "/a/b");
    assert_eq!(percent_decode("%C3%A9%2", 0), "%C3%A9%2");
    assert_eq!(percent_decode("%41%zz", 0), "A%zz");
}
