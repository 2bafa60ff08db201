use nl_host::bytes::{i64_to_dec, read_be_u32, read_be_u64, u32_to_dec, u64_to_dec, vec_subrange};

#[test]
fn big_endian_readers_match_the_wire() {
    let b = [0xff, 0x01, 0x02, 0x03, 0x04, 0x05, 0x06, 0x07, 0x08, 0x09];
    assert_eq!(read_be_u32(&b, 1), 0x01020304);
    assert_eq!(read_be_u32(&b, 0), 0xff010203);
    assert_eq!(read_be_u64(&b, 1), 0x0102030405060708);
    assert_eq!(read_be_u64(&b, 2), 0x0203040506070809);
}

#[test]
fn decimal_rendering_is_exact() {
    assert_eq!(u64_to_dec(0), b"0".to_vec());
    assert_eq!(u64_to_dec(7), b"7".to_vec());
    assert_eq!(u64_to_dec(120), b"120".to_vec());
    assert_eq!(u64_to_dec(u64::MAX), b"18446744073709551615".to_vec());
    assert_eq!(u32_to_dec(u32::MAX), b"4294967295".to_vec());
    assert_eq!(i64_to_dec(-5), b"-5".to_vec());
    assert_eq!(i64_to_dec(0), b"0".to_vec());
    assert_eq!(i64_to_dec(i64::MAX), b"9223372036854775807".to_vec());
}

#[test]
fn subrange_copies_the_requested_window() {
    let v = vec![1u8, 2, 3, 4, 5];
    assert_eq!(vec_subrange(&v, 1, 4), vec![2, 3, 4]);
    assert_eq!(vec_subrange(&v, 0, 0), Vec::<u8>::new());
    assert_eq!(vec_subrange(&v, 5, 5), Vec::<u8>::new());
}
