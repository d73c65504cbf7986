//! Detached Ed25519 signatures over canonical certificate bytes.

use wipestation::cert::{sign_canonical, verify_all, verify_canonical, CertError, SigningKey, VerifyingKey};

/// RFC 8032, test 1.
const SEED: &str = "9d61b19deffd5a60ba844af492ec2cc44449c5697b326919703bac031cae7f60";
const PUBLIC: &str = "d75a980182b10ab7d54bfed3c964073a0ee172f3daa62325af021a68f707511a";

fn bytes32(hex_text: &str) -> [u8; 32] {
    let mut out = [0u8; 32];
    for (i, b) in out.iter_mut().enumerate() {
        *b = u8::from_str_radix(&hex_text[2 * i..2 * i + 2], 16).unwrap();
    }
    out
}

const PAYLOAD: &[u8] = br#"{"asset_tag":"A-1","disposition":"erased"}"#;

#[test]
fn sign_then_verify_with_correct_key() {
    let key = SigningKey::generate();
    let block = sign_canonical(PAYLOAD, &key);
    let trusted = [key.verifying_key()];
    let matched = verify_canonical(PAYLOAD, &block, &trusted).unwrap();
    assert_eq!(matched, key.verifying_key().public_key_id());
}

#[test]
fn verify_fails_with_unknown_key() {
    let key = SigningKey::generate();
    let other = SigningKey::generate();
    let block = sign_canonical(PAYLOAD, &key);
    let trusted = [other.verifying_key()];
    let err = verify_canonical(PAYLOAD, &block, &trusted).unwrap_err();
    assert!(err.message().contains("no trusted key"), "{}", err.message());
}

#[test]
fn tampered_cert_fails_verification() {
    let key = SigningKey::generate();
    let block = sign_canonical(PAYLOAD, &key);
    let tampered = br#"{"asset_tag":"DIFFERENT","disposition":"erased"}"#;
    let trusted = [key.verifying_key()];
    let err = verify_canonical(tampered, &block, &trusted).unwrap_err();
    let msg = err.message();
    assert!(
        msg.contains("SHA-256 mismatch") || msg.contains("signature"),
        "unexpected error: {msg}"
    );
}

#[test]
fn a_forged_signature_over_the_right_digest_is_rejected() {
    let key = SigningKey::generate();
    let mut block = sign_canonical(PAYLOAD, &key);
    let other = sign_canonical(b"something else", &key);
    block.signature_b64 = other.signature_b64;
    let err = verify_canonical(PAYLOAD, &block, &[key.verifying_key()]).unwrap_err();
    assert!(matches!(err, CertError::Verification(_)), "{err:?}");
}

#[test]
fn an_unknown_algorithm_is_refused() {
    let key = SigningKey::generate();
    let mut block = sign_canonical(PAYLOAD, &key);
    block.algorithm = "rsa".into();
    let err = verify_canonical(PAYLOAD, &block, &[key.verifying_key()]).unwrap_err();
    assert_eq!(err.message(), "verification failed: unsupported algorithm: rsa");
}

#[test]
fn co_signatures_verify_independently() {
    let station_key = SigningKey::generate();
    let supervisor_key = SigningKey::generate();
    let primary = sign_canonical(PAYLOAD, &station_key);
    let co = sign_canonical(PAYLOAD, &supervisor_key);

    let ids = verify_all(PAYLOAD, std::slice::from_ref(&co), &[supervisor_key.verifying_key()]).unwrap();
    assert_eq!(ids, vec![supervisor_key.verifying_key().public_key_id()]);

    // Primary still verifies with the station key alone.
    verify_canonical(PAYLOAD, &primary, &[station_key.verifying_key()]).unwrap();
    // And a co-signature from a key nobody trusts fails the whole set.
    assert!(verify_all(PAYLOAD, &[primary, co], &[station_key.verifying_key()]).is_err());
}

#[test]
fn public_key_id_stable_across_runs() {
    let seed = [42u8; 32];
    let a = SigningKey::from_seed(seed);
    let b = SigningKey::from_seed(seed);
    assert_eq!(a.public_key_id(), b.public_key_id());
}

#[test]
fn verifying_key_round_trip() {
    let key = SigningKey::generate();
    let vk = key.verifying_key();
    let bytes = vk.to_bytes();
    let restored = VerifyingKey::from_bytes(&bytes).unwrap();
    assert_eq!(vk.public_key_id(), restored.public_key_id());
}

#[test]
fn a_known_seed_gives_the_known_public_key() {
    let key = SigningKey::from_seed(bytes32(SEED));
    assert_eq!(key.verifying_key().to_bytes(), bytes32(PUBLIC));
    assert_eq!(key.seed_bytes(), bytes32(SEED));
}

#[test]
fn key_ids_and_base64_have_their_documented_form() {
    let vk = VerifyingKey::from_bytes(&bytes32(PUBLIC)).unwrap();
    assert_eq!(vk.to_base64(), "11qYAYKxCrfVS/7TyWQHOg7hcvPapiMlrwIaaPcHURo");
    assert_eq!(vk.public_key_id(), "ed25519:If4x36FUomFia/hUBG/SJw");
}

#[test]
fn a_signature_block_names_the_payload_digest() {
    let key = SigningKey::from_seed(bytes32(SEED));
    let block = sign_canonical(b"hello", &key);
    assert_eq!(block.algorithm, "ed25519");
    assert_eq!(
        block.canonical_sha256_hex,
        "2cf24dba5fb0a30e26e83b2ac5b9e29e1b161e5c1fa7425e73043362938b9824"
    );
    assert_eq!(block.public_key_id, "ed25519:If4x36FUomFia/hUBG/SJw");
    // Ed25519 signatures are deterministic.
    assert_eq!(block, sign_canonical(b"hello", &key));
}

#[test]
fn bytes_that_are_not_a_curve_point_are_refused_as_a_key() {
    // The y-coordinate 2 has no matching x on the curve.
    let mut bad = [0u8; 32];
    bad[0] = 2;
    match VerifyingKey::from_bytes(&bad) {
        Err(CertError::Invalid(_)) => {}
        other => panic!("expected Invalid, got {:?}", other.map(|k| k.to_bytes())),
    }
}

#[test]
fn an_undecodable_signature_reports_the_decoders_reason() {
    let key = SigningKey::generate();
    let mut block = sign_canonical(PAYLOAD, &key);
    block.signature_b64 = "!!!!".into();
    let err = verify_canonical(PAYLOAD, &block, &[key.verifying_key()]).unwrap_err();
    assert_eq!(err.message(), "verification failed: base64: Invalid symbol 33, offset 0.");
}

#[test]
fn a_rejected_signature_reports_the_librarys_reason() {
    let key = SigningKey::generate();
    let mut block = sign_canonical(PAYLOAD, &key);
    block.signature_b64 = sign_canonical(b"something else", &key).signature_b64;
    let err = verify_canonical(PAYLOAD, &block, &[key.verifying_key()]).unwrap_err();
    assert_eq!(
        err.message(),
        "verification failed: signature: signature error: Verification equation was not satisfied"
    );
}
