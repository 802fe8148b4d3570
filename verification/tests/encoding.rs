use anchor_discriminator::bytes_to_hex;
use anchor_discriminator::encoding::{bytes_to_decimal_array, encode_discriminator};

#[test]
fn test_bytes_to_hex() {
    let bytes = [181, 16, 140, 34, 85, 113, 210, 20];
    let hex = bytes_to_hex(&bytes);
    assert_eq!(hex, "b5108c225571d214");
}

#[test]
fn hex_pads_each_byte_to_two_digits() {
    assert_eq!(bytes_to_hex(&[0, 255, 9, 10, 99, 100, 1, 200]), "00ff090a636401c8");
    assert_eq!(bytes_to_hex(&[0; 8]), "0000000000000000");
    assert_eq!(bytes_to_hex(&[255; 8]), "ffffffffffffffff");
    assert_eq!(bytes_to_hex(&[0x0a, 0xa0, 0x1b, 0xb1, 0xcd, 0xdc, 0xef, 0xfe]), "0aa01bb1cddceffe");
}

#[test]
fn hex_matches_std_formatting_for_every_byte() {
    for value in 0..=255u8 {
        let bytes = [value, 0, 0, 0, 0, 0, 0, value];
        let expected = format!("{:02x}000000000000{:02x}", value, value);
        assert_eq!(bytes_to_hex(&bytes), expected);
    }
}

#[test]
fn decimal_array_has_no_leading_zeros() {
    assert_eq!(
        bytes_to_decimal_array(&[181, 16, 140, 34, 85, 113, 210, 20]),
        "[181, 16, 140, 34, 85, 113, 210, 20]"
    );
    assert_eq!(
        bytes_to_decimal_array(&[0, 255, 9, 10, 99, 100, 1, 200]),
        "[0, 255, 9, 10, 99, 100, 1, 200]"
    );
}

#[test]
fn decimal_array_matches_std_formatting_for_every_byte() {
    for value in 0..=255u8 {
        let bytes = [value, 1, 2, 3, 4, 5, 6, value];
        assert_eq!(bytes_to_decimal_array(&bytes), format!("{:?}", bytes));
    }
}

#[test]
fn all_three_encodings() {
    let out = encode_discriminator(&[181, 16, 140, 34, 85, 113, 210, 20]);
    assert_eq!(out.decimal, "[181, 16, 140, 34, 85, 113, 210, 20]");
    assert_eq!(out.hex, "0xb5108c225571d214");
    assert_eq!(out.base64, "tRCMIlVx0hQ=");

    let out = encode_discriminator(&[0, 255, 9, 10, 99, 100, 1, 200]);
    assert_eq!(out.decimal, "[0, 255, 9, 10, 99, 100, 1, 200]");
    assert_eq!(out.hex, "0x00ff090a636401c8");
    assert_eq!(out.base64, "AP8JCmNkAcg=");
}
