use pulse_core::stellar::base32_decode;
use pulse_core::stellar::crc16_xmodem;
use pulse_core::stellar::decode_stellar_address;
use pulse_core::stellar::encode_stellar_address;
use pulse_core::stellar::AddressDecodeError;

#[test]
fn test_decode_stellar_address() {
    // Known Stellar test address
    let address = "GAAZI4TCR3TY5OJHCTJC2A4QSY6CJWJH5IAJTGKIN2ER7LBNVKOCCWN7";
    let result = decode_stellar_address(address);
    assert!(result.is_ok());
    assert_eq!(result.unwrap().len(), 32);
}

#[test]
fn test_invalid_address() {
    assert!(decode_stellar_address("INVALID").is_err());
    assert!(
        decode_stellar_address("S1234567890123456789012345678901234567890123456789012345")
            .is_err()
    );
}

#[test]
fn test_crc16_xmodem_check_value() {
    // The standard CRC-16/XMODEM check value
    assert_eq!(crc16_xmodem(b"123456789"), 0x31C3);
    assert_eq!(crc16_xmodem(b""), 0);
}

#[test]
fn test_encode_decode_round_trip() {
    let address = "GAAZI4TCR3TY5OJHCTJC2A4QSY6CJWJH5IAJTGKIN2ER7LBNVKOCCWN7";
    let pk = decode_stellar_address(address).unwrap();
    let pk_array: [u8; 32] = pk.try_into().unwrap();
    let encoded = encode_stellar_address(&pk_array);
    assert_eq!(encoded, address);
    assert_eq!(encoded.len(), 56);
}

#[test]
fn test_encode_starts_with_g() {
    let encoded = encode_stellar_address(&[0u8; 32]);
    assert_eq!(encoded.len(), 56);
    assert!(encoded.starts_with('G'));
    let decoded = decode_stellar_address(&encoded).unwrap();
    assert_eq!(decoded, vec![0u8; 32]);
}

#[test]
fn test_decode_error_variants() {
    // Wrong length / leading character
    assert_eq!(
        decode_stellar_address("GAAA"),
        Err(AddressDecodeError::BadFormat)
    );
    // 56 characters starting with G but with a byte outside the alphabet
    let bad_alphabet = "G1AZI4TCR3TY5OJHCTJC2A4QSY6CJWJH5IAJTGKIN2ER7LBNVKOCCWN7";
    assert_eq!(
        decode_stellar_address(bad_alphabet),
        Err(AddressDecodeError::BadEncoding)
    );
    // Valid alphabet, but the version byte is not the account version
    let bad_version = "GZAZI4TCR3TY5OJHCTJC2A4QSY6CJWJH5IAJTGKIN2ER7LBNVKOCCWN7";
    assert_eq!(
        decode_stellar_address(bad_version),
        Err(AddressDecodeError::BadVersion)
    );
    // Corrupt the trailing checksum characters of a valid address
    let good = "GAAZI4TCR3TY5OJHCTJC2A4QSY6CJWJH5IAJTGKIN2ER7LBNVKOCCWN7";
    let mut corrupted: Vec<char> = good.chars().collect();
    let last = corrupted[55];
    corrupted[55] = if last == 'A' { 'B' } else { 'A' };
    let corrupted: String = corrupted.into_iter().collect();
    assert_eq!(
        decode_stellar_address(&corrupted),
        Err(AddressDecodeError::BadChecksum)
    );
}

#[test]
fn test_base32_decode_vectors() {
    // "MY======" decodes to "f" (RFC 4648 test vector, with padding)
    assert_eq!(base32_decode("MY======"), Some(vec![0x66]));
    // "MZXW6YTB" decodes to "fooba"
    assert_eq!(base32_decode("MZXW6YTB"), Some(vec![0x66, 0x6F, 0x6F, 0x62, 0x61]));
    // "MZXW6YTBOI======" decodes to "foobar"
    assert_eq!(
        base32_decode("MZXW6YTBOI======"),
        Some(vec![0x66, 0x6F, 0x6F, 0x62, 0x61, 0x72])
    );
    // Empty input decodes to nothing
    assert_eq!(base32_decode(""), Some(Vec::new()));
    // Lowercase and digits outside 2-7 are rejected
    assert_eq!(base32_decode("mzxw6ytb"), None);
    assert_eq!(base32_decode("MZXW1YTB"), None);
}
