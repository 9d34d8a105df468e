use bm_client::clock::Timespec;
use bm_client::message::fields::{
    read_address_and_port, read_timestamp, read_var_str, write_address_and_port, write_timestamp,
    write_var_str,
};
use bm_client::message::var_int::{
    read_var_int, read_var_int_usize, write_var_int_16, write_var_int_64,
};
use bm_client::message::wire::Cursor;
use bm_client::message::ParseError;
use bm_client::net::Endpoint;

fn encoded(n: u64) -> Vec<u8> {
    let mut out = vec![];
    write_var_int_64(&mut out, n);
    out
}

fn decoded(bytes: &[u8], max: u64) -> Result<u64, ParseError> {
    let mut cursor = Cursor::new(bytes);
    read_var_int(&mut cursor, max)
}

#[test]
fn var_int_below_fd_is_one_byte() {
    assert_eq!(vec![0u8], encoded(0));
    assert_eq!(vec![1u8], encoded(1));
    assert_eq!(vec![0xfcu8], encoded(0xfc));
}

#[test]
fn var_int_up_to_16_bits_has_tag_fd() {
    assert_eq!(vec![0xfdu8, 0x00, 0xfd], encoded(0xfd));
    assert_eq!(vec![0xfdu8, 0x00, 0xfe], encoded(254));
    assert_eq!(vec![0xfdu8, 0x12, 0x34], encoded(0x1234));
    assert_eq!(vec![0xfdu8, 0xff, 0xff], encoded(0xffff));
}

#[test]
fn var_int_up_to_32_bits_has_tag_fe() {
    assert_eq!(vec![0xfeu8, 0x00, 0x01, 0x00, 0x00], encoded(0x1_0000));
    assert_eq!(vec![0xfeu8, 0x12, 0x34, 0x56, 0x78], encoded(0x1234_5678));
    assert_eq!(vec![0xfeu8, 0xff, 0xff, 0xff, 0xff], encoded(0xffff_ffff));
}

#[test]
fn var_int_over_32_bits_has_tag_ff() {
    assert_eq!(vec![0xffu8, 0, 0, 0, 1, 0, 0, 0, 0], encoded(0x1_0000_0000));
    assert_eq!(
        vec![0xffu8, 0x01, 0x23, 0x45, 0x67, 0x89, 0xab, 0xcd, 0xef],
        encoded(0x0123_4567_89ab_cdef)
    );
    assert_eq!(vec![0xffu8; 9], encoded(u64::MAX));
}

#[test]
fn var_int_16_writes_the_same_as_var_int_64() {
    for n in [0u16, 0xfc, 0xfd, 1000, 0xffff] {
        let mut out = vec![];
        write_var_int_16(&mut out, n);
        assert_eq!(encoded(n as u64), out);
    }
}

#[test]
fn var_int_round_trip_on_boundaries() {
    let values = [
        0u64,
        1,
        0xfc,
        0xfd,
        0xfe,
        0xff,
        0x100,
        0xffff,
        0x1_0000,
        0xffff_ffff,
        0x1_0000_0000,
        0x8000_0000_0000_0000,
        u64::MAX,
    ];
    for n in values {
        assert_eq!(Ok(n), decoded(&encoded(n), u64::MAX));
        assert_eq!(Ok(n), decoded(&encoded(n), n));
    }
}

#[test]
fn var_int_encoding_is_shortest() {
    assert_eq!(1, encoded(0xfc).len());
    assert_eq!(3, encoded(0xfd).len());
    assert_eq!(3, encoded(0xffff).len());
    assert_eq!(5, encoded(0x1_0000).len());
    assert_eq!(5, encoded(0xffff_ffff).len());
    assert_eq!(9, encoded(0x1_0000_0000).len());
}

#[test]
fn var_int_longer_forms_are_read_as_their_number() {
    assert_eq!(Ok(1), decoded(&[0xfd, 0x00, 0x01], u64::MAX));
    assert_eq!(Ok(1), decoded(&[0xfe, 0, 0, 0, 1], u64::MAX));
    assert_eq!(Ok(1), decoded(&[0xff, 0, 0, 0, 0, 0, 0, 0, 1], u64::MAX));
}

#[test]
fn var_int_over_the_limit_is_too_large() {
    assert_eq!(Err(ParseError::VarIntTooLarge), decoded(&encoded(1001), 1000));
    assert_eq!(Ok(1000), decoded(&encoded(1000), 1000));
    assert_eq!(Err(ParseError::VarIntTooLarge), decoded(&[1], 0));
    assert_eq!(Err(ParseError::VarIntTooLarge), decoded(&encoded(u64::MAX), u64::MAX - 1));
}

#[test]
fn var_int_cut_short_is_a_short_read() {
    assert_eq!(Err(ParseError::ShortRead), decoded(&[], u64::MAX));
    assert_eq!(Err(ParseError::ShortRead), decoded(&[0xfd], u64::MAX));
    assert_eq!(Err(ParseError::ShortRead), decoded(&[0xfd, 1], u64::MAX));
    assert_eq!(Err(ParseError::ShortRead), decoded(&[0xfe, 1, 2, 3], u64::MAX));
    assert_eq!(Err(ParseError::ShortRead), decoded(&[0xff, 1, 2, 3, 4, 5, 6, 7], u64::MAX));
}

#[test]
fn var_int_leaves_what_follows() {
    let bytes = [0xfd, 0x01, 0x00, 7, 8];
    let mut cursor = Cursor::new(&bytes);
    assert_eq!(Ok(256), read_var_int(&mut cursor, u64::MAX));
    assert_eq!(2, cursor.remaining_len());
    assert_eq!(Ok(7), cursor.read_u8());
    assert_eq!(Ok(8usize), read_var_int_usize(&mut cursor, 8));
    assert_eq!(Ok(()), cursor.check_no_more_data());
}

#[test]
fn cursor_reads_big_endian() {
    let bytes = [
        0x01, 0x02, // u16
        0x03, 0x04, 0x05, 0x06, // u32
        0x07, 0x08, 0x09, 0x0a, 0x0b, 0x0c, 0x0d, 0x0e, // u64
        0xff, 0xff, 0xff, 0xff, 0xff, 0xff, 0xff, 0xfe, // i64
        0xaa, 0xbb, 0xcc,
    ];
    let mut cursor = Cursor::new(&bytes);
    assert_eq!(Ok(0x0102), cursor.read_u16());
    assert_eq!(Ok(0x0304_0506), cursor.read_u32());
    assert_eq!(Ok(0x0708_090a_0b0c_0d0e), cursor.read_u64());
    assert_eq!(Ok(-2), cursor.read_i64());
    assert_eq!(Err(ParseError::TrailingBytes), cursor.check_no_more_data());
    assert_eq!(Ok(vec![0xaa, 0xbb]), cursor.read_bytes(2));
    assert_eq!(Err(ParseError::ShortRead), cursor.read_bytes(2));
    assert_eq!(Err(ParseError::ShortRead), cursor.read_u16());
    assert_eq!(Ok(0xcc), cursor.read_u8());
    assert_eq!(Err(ParseError::ShortRead), cursor.read_u8());
    assert_eq!(Ok(()), cursor.check_no_more_data());
}

#[test]
fn cursor_short_reads() {
    let bytes = [1, 2, 3, 4, 5, 6, 7];
    assert_eq!(Err(ParseError::ShortRead), Cursor::new(&bytes).read_u64());
    assert_eq!(Err(ParseError::ShortRead), Cursor::new(&bytes).read_i64());
    assert_eq!(Err(ParseError::ShortRead), Cursor::new(&bytes[..3]).read_u32());
    assert_eq!(Err(ParseError::ShortRead), Cursor::new(&bytes[..1]).read_u16());
}

#[test]
fn timestamp_is_signed_seconds() {
    let mut out = vec![];
    write_timestamp(&mut out, Timespec::new(0x0007_0605_0403_0201, 999));
    assert_eq!(vec![0u8, 7, 6, 5, 4, 3, 2, 1], out);
    let mut cursor = Cursor::new(&out);
    assert_eq!(Ok(Timespec::new(0x0007_0605_0403_0201, 0)), read_timestamp(&mut cursor));

    let mut out = vec![];
    write_timestamp(&mut out, Timespec::new(-1, 0));
    assert_eq!(vec![0xffu8; 8], out);
    let mut cursor = Cursor::new(&out);
    assert_eq!(Ok(Timespec::new(-1, 0)), read_timestamp(&mut cursor));
    assert_eq!(Err(ParseError::ShortRead), read_timestamp(&mut Cursor::new(&out[..7])));
}

#[test]
fn endpoint_is_sixteen_bytes_and_a_port() {
    let endpoint = Endpoint::from_ipv4(12, 13, 14, 15, 1617);
    assert_eq!(0x0000_0000_0000_0000_0000_ffff_0c0d_0e0f, endpoint.address);
    let mut out = vec![];
    write_address_and_port(&mut out, &endpoint);
    assert_eq!(
        vec![0u8, 0, 0, 0, 0, 0, 0, 0, 0, 0, 0xff, 0xff, 12, 13, 14, 15, 6, 81],
        out
    );
    let mut cursor = Cursor::new(&out);
    assert_eq!(Ok(endpoint), read_address_and_port(&mut cursor));
    assert_eq!(0, cursor.remaining_len());
    assert_eq!(
        Err(ParseError::ShortRead),
        read_address_and_port(&mut Cursor::new(&out[..17]))
    );
}

#[test]
fn endpoint_with_ipv6_address() {
    let endpoint = Endpoint::new(0x2001_0db8_0000_0000_0000_ff00_0042_8329, 8444);
    let mut out = vec![];
    write_address_and_port(&mut out, &endpoint);
    assert_eq!(
        vec![
            0x20u8, 0x01, 0x0d, 0xb8, 0, 0, 0, 0, 0, 0, 0xff, 0x00, 0x00, 0x42, 0x83, 0x29, 0x20,
            0xfc
        ],
        out
    );
    assert_eq!(Ok(endpoint), read_address_and_port(&mut Cursor::new(&out)));
}

#[test]
fn endpoint_validity_is_a_port_that_is_not_zero() {
    assert!(Endpoint::from_ipv4(127, 0, 0, 1, 8444).check_valid());
    assert!(!Endpoint::from_ipv4(127, 0, 0, 1, 0).check_valid());
}

#[test]
fn var_str_is_length_and_ascii_bytes() {
    let mut out = vec![];
    write_var_str(&mut out, "/bm:1/");
    assert_eq!(vec![6u8, b'/', b'b', b'm', b':', b'1', b'/'], out);
    let mut cursor = Cursor::new(&out);
    assert_eq!(Ok("/bm:1/".to_string()), read_var_str(&mut cursor, 5000));
    assert_eq!(0, cursor.remaining_len());

    let mut out = vec![];
    write_var_str(&mut out, "");
    assert_eq!(vec![0u8], out);
    assert_eq!(Ok(String::new()), read_var_str(&mut Cursor::new(&out), 5000));
}

#[test]
fn var_str_errors() {
    assert_eq!(
        Err(ParseError::BadString),
        read_var_str(&mut Cursor::new(&[2, b'a', 0x80]), 5000)
    );
    assert_eq!(
        Err(ParseError::ShortRead),
        read_var_str(&mut Cursor::new(&[3, b'a', b'b']), 5000)
    );
    assert_eq!(
        Err(ParseError::VarIntTooLarge),
        read_var_str(&mut Cursor::new(&[3, b'a', b'b', b'c']), 2)
    );
    assert_eq!(Err(ParseError::ShortRead), read_var_str(&mut Cursor::new(&[]), 5000));
}
