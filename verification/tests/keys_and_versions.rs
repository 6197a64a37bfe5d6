use comet_plugin::digest::digest;
use comet_plugin::keyfile::KeyFileError;
use comet_plugin::signature::{Signature, SigningKey, VerifyingKey};
use comet_plugin::version::{api_version, judge, Compatibility, Version};

fn unhex(text: &str) -> Vec<u8> {
    hex::decode(text).unwrap()
}

#[test]
fn digest_matches_published_values() {
    assert_eq!(
        digest(b"").to_vec(),
        unhex(
            "a8cfbbd73726062df0c6864dda65defe58ef0cc52a5625090fa17601e1eecd1b\
             628e94f396ae402a00acc9eab77b4d4c2e852aaaa25a636d80af3fc7913ef5b8"
        )
    );
    assert_eq!(
        digest(b"The lazy fox jumps over the lazy dog.").to_vec(),
        unhex(
            "9ad466cf818b469d298c6200acd306f9a2f4a49e268ca117b58f378486351b0a\
             711b60d41b687fd35f30be2e00a825d6666d9c4c23a523d310a0583f1e7cccfe"
        )
    );
    assert_ne!(digest(b"a"), digest(b"b"));
    assert_eq!(digest(b"abc"), digest(b"abc"));
}

#[test]
fn signing_matches_the_standard_test_vector() {
    let seed: [u8; 32] =
        unhex("9d61b19deffd5a60ba844af492ec2cc44449c5697b326919703bac031cae7f60")
            .try_into()
            .unwrap();
    let key = SigningKey::from_bytes(seed);
    assert_eq!(
        key.verifying_key().bytes.to_vec(),
        unhex("d75a980182b10ab7d54bfed3c964073a0ee172f3daa62325af021a68f707511a")
    );
    let signature = key.sign(b"");
    assert_eq!(
        signature.bytes.to_vec(),
        unhex(
            "e5564300c360ac729086e2cc806e828a84877f1eb8e5d974d873e06522490155\
             5fb8821590a33bacc61e39701cf9b46bd25bf5f0595bbe24655141438e7a100b"
        )
    );
    assert!(key.verifying_key().verify(b"", &signature));
}

#[test]
fn a_signature_verifies_for_its_key_and_message_only() {
    let key = SigningKey::from_bytes([5; 32]);
    let other = SigningKey::from_bytes([6; 32]);
    let signature = key.sign(b"message");
    assert_eq!(signature.bytes, key.sign(b"message").bytes);
    assert!(key.verifying_key().verify(b"message", &signature));
    assert!(!key.verifying_key().verify(b"messagf", &signature));
    assert!(!other.verifying_key().verify(b"message", &signature));
    let mut bent = signature;
    bent.bytes[0] ^= 1;
    assert!(!key.verifying_key().verify(b"message", &bent));
    assert!(!key.verifying_key().verify(b"message", &Signature { bytes: [0; 64] }));
    assert_ne!(key.verifying_key().bytes, other.verifying_key().bytes);
    assert_ne!(key.verifying_key().bytes, key.seed);
}

#[test]
fn bytes_that_are_no_key_verify_nothing() {
    let key = SigningKey::from_bytes([5; 32]);
    let signature = key.sign(b"message");
    let no_key = VerifyingKey::from_bytes([2; 32]);
    assert!(ed25519_dalek::VerifyingKey::from_bytes(&[2; 32]).is_err());
    assert!(!no_key.verify(b"message", &signature));
}

#[test]
fn caret_requirement_follows_semantic_versioning() {
    assert_eq!(Version::new(0, 1, 5).check("^0.1.0"), Compatibility::Compatible);
    assert_eq!(Version::new(0, 2, 0).check("^0.1.0"), Compatibility::Unmet);
    assert_eq!(Version::new(1, 0, 0).check("^0.1.0"), Compatibility::Unmet);
    assert_eq!(Version::new(0, 1, 0).check("^0.1.0"), Compatibility::Compatible);
    assert_eq!(Version::new(0, 0, 9).check("^0.1.0"), Compatibility::Unmet);
    assert_eq!(Version::new(1, 0, 0).check("^1.0.0"), Compatibility::Compatible);
    assert_eq!(Version::new(1, 9, 3).check("^1.0.0"), Compatibility::Compatible);
    assert_eq!(Version::new(1, 0, 0).check("^2.0.0"), Compatibility::Unmet);
    assert_eq!(Version::new(2, 0, 0).check("^1.0.0"), Compatibility::Unmet);
}

#[test]
fn other_requirements_are_understood_too() {
    assert_eq!(Version::new(1, 2, 3).check(">=1.2.3, <2"), Compatibility::Compatible);
    assert_eq!(Version::new(2, 0, 0).check(">=1.2.3, <2"), Compatibility::Unmet);
    assert_eq!(Version::new(7, 7, 7).check("*"), Compatibility::Compatible);
    assert_eq!(Version::new(1, 4, 0).check("~1.4"), Compatibility::Compatible);
    assert_eq!(Version::new(1, 5, 0).check("~1.4"), Compatibility::Unmet);
    assert_eq!(Version::new(1, 4, 0).check("=1.4.0"), Compatibility::Compatible);
    assert_eq!(Version::new(1, 4, 1).check("1.4.0"), Compatibility::Compatible);
}

#[test]
fn text_that_is_no_requirement_is_invalid() {
    for text in ["", "not a requirement", "@1.0.0", "^1.0.0, ", ">=1.0 <2.0", "*.*", ">a.b"] {
        assert_eq!(Version::new(1, 0, 0).check(text), Compatibility::Invalid, "{:?}", text);
    }
}

#[test]
fn judge_puts_a_malformed_requirement_first() {
    assert_eq!(judge(true, true), Compatibility::Compatible);
    assert_eq!(judge(true, false), Compatibility::Unmet);
    assert_eq!(judge(false, false), Compatibility::Invalid);
    assert_eq!(judge(false, true), Compatibility::Invalid);
}

#[test]
fn the_interface_version_is_this_release_line() {
    let version = api_version();
    assert_eq!(version, Version { major: 0, minor: 1, patch: 0 });
    assert_eq!(version, Version::new(0, 1, 0));
    assert_eq!(
        version.check(comet_plugin::registry::DEFAULT_API_REQUIREMENT),
        Compatibility::Compatible
    );
}

#[test]
fn a_key_file_is_the_key_in_pem_armour() {
    let seed: [u8; 32] =
        unhex("9d61b19deffd5a60ba844af492ec2cc44449c5697b326919703bac031cae7f60")
            .try_into()
            .unwrap();
    let key = SigningKey::from_bytes(seed);
    assert_eq!(
        key.verifying_key().to_pem(),
        "-----BEGIN ED25519 DALEK PUBLIC KEY-----\r\n\
         11qYAYKxCrfVS/7TyWQHOg7hcvPapiMlrwIaaPcHURo=\r\n\
         -----END ED25519 DALEK PUBLIC KEY-----\r\n"
    );
    assert_eq!(
        key.to_pem(),
        "-----BEGIN ED25519 DALEK KEY-----\r\n\
         nWGxne/9WmC6hEr0kuwsxERJxWl7MmkZcDusAxyuf2A=\r\n\
         -----END ED25519 DALEK KEY-----\r\n"
    );
    assert_eq!(comet_plugin::keyfile::PUBLIC_KEY_TAG, "ED25519 DALEK PUBLIC KEY");
    assert_eq!(comet_plugin::keyfile::PRIVATE_KEY_TAG, "ED25519 DALEK KEY");
    assert_eq!(comet_plugin::keyfile::PUBLIC_KEY_FILE, "public-key.pem");
    assert_eq!(comet_plugin::keyfile::PRIVATE_KEY_FILE, "key.pem");
}

#[test]
fn keys_are_read_back_from_their_files() {
    let key = SigningKey::from_bytes([5; 32]);
    let read = SigningKey::from_pem(key.to_pem().as_bytes()).unwrap();
    assert_eq!(read.seed, [5; 32]);
    let public = key.verifying_key();
    assert_eq!(VerifyingKey::from_pem(public.to_pem().as_bytes()), Ok(public));
    // Line feeds alone do as well, and the tag is not examined.
    let text = "-----BEGIN SOMETHING-----\nBQUFBQUFBQUFBQUFBQUFBQUFBQUFBQUFBQUFBQUFBQU=\n-----END SOMETHING-----\n";
    assert_eq!(SigningKey::from_pem(text.as_bytes()).unwrap().seed, [5; 32]);
}

#[test]
fn what_is_no_key_file_is_refused() {
    assert_eq!(SigningKey::from_pem(b"").err(), Some(KeyFileError::Malformed));
    assert_eq!(SigningKey::from_pem(b"no armour").err(), Some(KeyFileError::Malformed));
    assert_eq!(VerifyingKey::from_pem(b"no armour"), Err(KeyFileError::Malformed));
    // 31 bytes and 33 bytes.
    let short = pem::encode(&pem::Pem { tag: String::from("ED25519 DALEK KEY"), contents: vec![5; 31] });
    let long = pem::encode(&pem::Pem { tag: String::from("ED25519 DALEK KEY"), contents: vec![5; 33] });
    assert_eq!(SigningKey::from_pem(short.as_bytes()).err(), Some(KeyFileError::WrongLength));
    assert_eq!(SigningKey::from_pem(long.as_bytes()).err(), Some(KeyFileError::WrongLength));
    assert_eq!(VerifyingKey::from_pem(short.as_bytes()), Err(KeyFileError::WrongLength));
    // 32 bytes that are no point of the curve.
    let no_key = VerifyingKey::from_bytes([2; 32]);
    assert!(!no_key.is_valid());
    assert_eq!(VerifyingKey::from_pem(no_key.to_pem().as_bytes()), Err(KeyFileError::NotAKey));
    assert!(SigningKey::from_pem(no_key.to_pem().as_bytes()).is_ok());
    assert!(SigningKey::from_bytes([1; 32]).verifying_key().is_valid());
    assert_eq!(comet_plugin::keyfile::key_bytes(&[7; 32]), Some([7; 32]));
    assert_eq!(comet_plugin::keyfile::key_bytes(&[7; 31]), None);
    assert_eq!(comet_plugin::keyfile::key_bytes(&[]), None);
}

#[test]
fn generated_keys_differ_and_sign() {
    let a = SigningKey::generate();
    let b = SigningKey::generate();
    assert_ne!(a.seed, b.seed);
    let signature = a.sign(b"message");
    assert!(a.verifying_key().verify(b"message", &signature));
    assert!(!b.verifying_key().verify(b"message", &signature));
    assert!(a.verifying_key().is_valid());
}
