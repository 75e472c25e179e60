use address_proofs::encoder::{
    encode_address, hex_digit, remove_leading_zeros, split_decimal, toolchain_argument,
    AddressDecodeFailure, CircuitInputs,
};

fn inputs(a: &str, b: &str) -> CircuitInputs {
    CircuitInputs { a: a.to_string(), b: b.to_string(), c: a.to_string(), d: b.to_string() }
}

#[test]
fn test_remove_leading_zeros() {
    let input = "000123456";
    let result = remove_leading_zeros(input);
    assert_eq!(result, "123456");
}

#[test]
fn stripping_keeps_inner_and_trailing_zeros() {
    assert_eq!(remove_leading_zeros("0010200"), "10200");
    assert_eq!(remove_leading_zeros("7"), "7");
    assert_eq!(remove_leading_zeros(""), "");
}

#[test]
fn stripping_only_zeros_gives_the_empty_string() {
    assert_eq!(remove_leading_zeros("000"), "");
    assert_eq!(remove_leading_zeros("0"), "");
}

#[test]
fn stripping_twice_is_stripping_once() {
    for text in ["000123456", "123456", "000", "", "0x00", "00a0"] {
        let once = remove_leading_zeros(text);
        assert_eq!(remove_leading_zeros(once), once);
    }
}

#[test]
fn toolchain_argument_drops_leading_zeros() {
    assert_eq!(toolchain_argument("0005"), "5");
    assert_eq!(toolchain_argument("100"), "100");
    assert_eq!(toolchain_argument("005768867555183150817721"), "5768867555183150817721");
}

#[test]
fn toolchain_argument_is_zero_where_nothing_is_left() {
    assert_eq!(toolchain_argument("00"), "0");
    assert_eq!(toolchain_argument("0"), "0");
    assert_eq!(toolchain_argument(""), "0");
}

#[test]
fn hex_digits_are_recognised() {
    for c in "0123456789abcdefABCDEF".chars() {
        assert!(hex_digit(c));
    }
    for c in "gGxX+-_ /:@`".chars() {
        assert!(!hex_digit(c));
    }
}

#[test]
fn split_decimal_halves_an_even_length() {
    assert_eq!(split_decimal("1000"), inputs("10", "00"));
}

#[test]
fn split_decimal_gives_the_odd_character_to_the_second_half() {
    assert_eq!(split_decimal("255"), inputs("2", "55"));
    assert_eq!(split_decimal("5"), inputs("", "5"));
    assert_eq!(split_decimal(""), inputs("", ""));
}

#[test]
fn encode_small_address() {
    assert_eq!(encode_address("0xff"), Ok(inputs("2", "55")));
    assert_eq!(encode_address("0xFF"), Ok(inputs("2", "55")));
    assert_eq!(encode_address("0xF4245"), Ok(inputs("100", "0005")));
}

#[test]
fn encode_full_length_addresses() {
    assert_eq!(
        encode_address("0xffffffffffffffffffffffffffffffffffffffff"),
        Ok(inputs("146150163733090291820368", "4832716283019655932542975"))
    );
    assert_eq!(
        encode_address("0xd8da6bf26964af9d7eed9e03e53415d37aa96045"),
        Ok(inputs("123801297245424823743576", "7387143779415173800484933"))
    );
    assert_eq!(
        encode_address("0x00000000000000000000000000000000000000ff"),
        Ok(inputs("2", "55"))
    );
}

#[test]
fn encoded_halves_rejoin_to_the_decimal_string() {
    let decimal = "303566063045405992527491005768867555183150817721";
    let encoded = encode_address("0x352c5f80873116f03579c67e4ded5faa9ae0e1b9").unwrap();
    assert_eq!(format!("{}{}", encoded.a, encoded.b), decimal);
    assert_eq!(encoded.a.len(), decimal.len() / 2);
    assert_eq!(encoded.a.len() + encoded.b.len(), decimal.len());
    assert_eq!(encoded.c, encoded.a);
    assert_eq!(encoded.d, encoded.b);
    assert_eq!(encoded.b, "005768867555183150817721");
}

#[test]
fn encode_zero() {
    assert_eq!(encode_address("0x0"), Ok(inputs("", "0")));
    assert_eq!(encode_address("0x0000"), Ok(inputs("", "0")));
}

#[test]
fn encode_takes_any_two_characters_for_the_prefix() {
    assert_eq!(encode_address("0X3e8"), Ok(inputs("10", "00")));
    assert_eq!(encode_address("ab3e8"), Ok(inputs("10", "00")));
}

#[test]
fn encode_rejects_an_address_without_prefix() {
    assert_eq!(encode_address(""), Err(AddressDecodeFailure::MissingPrefix));
    assert_eq!(encode_address("0"), Err(AddressDecodeFailure::MissingPrefix));
}

#[test]
fn encode_rejects_an_address_without_digits() {
    assert_eq!(encode_address("0x"), Err(AddressDecodeFailure::NoDigits));
}

#[test]
fn encode_rejects_the_first_character_that_is_no_digit() {
    assert_eq!(encode_address("0xzz"), Err(AddressDecodeFailure::InvalidDigit { position: 2 }));
    assert_eq!(encode_address("0x12g4h"), Err(AddressDecodeFailure::InvalidDigit { position: 4 }));
    assert_eq!(encode_address("0xff "), Err(AddressDecodeFailure::InvalidDigit { position: 4 }));
}

#[test]
fn encode_rejects_signs_and_separators() {
    assert_eq!(encode_address("0x+ff"), Err(AddressDecodeFailure::InvalidDigit { position: 2 }));
    assert_eq!(encode_address("0xf_f"), Err(AddressDecodeFailure::InvalidDigit { position: 3 }));
    assert_eq!(encode_address("0x-1"), Err(AddressDecodeFailure::InvalidDigit { position: 2 }));
}
