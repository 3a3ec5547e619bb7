use ed25519_dalek::Signer;
use ed25519_dalek::SigningKey;

use pulse_core::session::generate_token;
use pulse_core::session::verify_stellar_signature;
use pulse_core::session::AuthError;
use pulse_core::session::AuthPayload;
use pulse_core::stellar::encode_stellar_address;

fn make_keypair() -> (SigningKey, String) {
    let secret = [7u8; 32];
    let signing_key = SigningKey::from_bytes(&secret);
    let public_key: [u8; 32] = signing_key.verifying_key().to_bytes();
    let address = encode_stellar_address(&public_key);
    (signing_key, address)
}

#[test]
fn test_verify_stellar_signature_valid() {
    let (signing_key, address) = make_keypair();
    let message = "pulse-auth:1234567890";
    let signature = signing_key.sign(message.as_bytes());
    let signature_hex = hex::encode(signature.to_bytes());

    let result = verify_stellar_signature(&address, message, &signature_hex);
    assert_eq!(result, Ok(true));
}

#[test]
fn test_verify_stellar_signature_wrong_message() {
    let (signing_key, address) = make_keypair();
    let signature = signing_key.sign(b"pulse-auth:1234567890");
    let signature_hex = hex::encode(signature.to_bytes());

    // Same signature over a different message must not verify
    let result = verify_stellar_signature(&address, "another message", &signature_hex);
    assert_eq!(result, Ok(false));
}

#[test]
fn test_verify_stellar_signature_errors() {
    let (signing_key, address) = make_keypair();
    let message = "pulse-auth:1234567890";
    let signature = signing_key.sign(message.as_bytes());
    let signature_hex = hex::encode(signature.to_bytes());

    // Bad address
    assert_eq!(
        verify_stellar_signature("INVALID", message, &signature_hex),
        Err(AuthError::InvalidAddress)
    );
    // Signature not hex
    assert_eq!(
        verify_stellar_signature(&address, message, "zz"),
        Err(AuthError::InvalidSignatureHex)
    );
    // Hex but not 64 bytes (would only pass if hex were left undecoded)
    assert_eq!(
        verify_stellar_signature(&address, message, "deadbeef"),
        Err(AuthError::InvalidSignatureLength)
    );
}

#[test]
fn test_auth_payload_verify() {
    let (signing_key, address) = make_keypair();
    let message = "pulse-auth:42";
    let signature = signing_key.sign(message.as_bytes());

    let payload = AuthPayload {
        stellar_address: address,
        message: String::from(message),
        signature: hex::encode(signature.to_bytes()),
    };
    assert_eq!(payload.verify(), Ok(true));

    let tampered = AuthPayload {
        stellar_address: payload.stellar_address.clone(),
        message: String::from("pulse-auth:43"),
        signature: payload.signature.clone(),
    };
    assert_eq!(tampered.verify(), Ok(false));
}

#[test]
fn test_generate_token_shape() {
    let t1 = generate_token();
    let t2 = generate_token();
    assert_eq!(t1.len(), 64);
    assert_eq!(t2.len(), 64);
    assert!(t1.chars().all(|c| c.is_ascii_hexdigit() && !c.is_ascii_uppercase()));
    // Two fresh tokens virtually never coincide
    assert_ne!(t1, t2);
}
