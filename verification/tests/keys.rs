use base64::{engine::general_purpose::STANDARD as engine, Engine as _};
use ed25519_consensus::SigningKey as Ed25519SigningKey;
use prism_prover::keys::{KeyError, Secp256k1Secret, Signature, SigningKey, VerifyingKey};
use rand::rngs::OsRng;
use secp256k1::SecretKey as Secp256k1SigningKey;

fn fresh_ed25519() -> SigningKey {
    SigningKey::Ed25519(Ed25519SigningKey::new(OsRng).to_bytes())
}

fn fresh_secp256k1() -> SigningKey {
    let secret = Secp256k1SigningKey::new(&mut OsRng).secret_bytes();
    SigningKey::Secp256k1(Secp256k1Secret::new(secret).expect("a generated key is valid"))
}

#[test]
fn test_verifying_key_from_string_ed25519() {
    let original_key = fresh_ed25519().verifying_key();
    let encoded = engine.encode(original_key.as_bytes());

    let result = VerifyingKey::try_from(encoded);
    assert!(result.is_ok());

    let decoded_key = result.unwrap();
    assert_eq!(decoded_key.as_bytes(), original_key.as_bytes());
}

#[test]
fn test_verifying_key_from_string_secp256k1() {
    let original_key = fresh_secp256k1().verifying_key();
    let encoded = engine.encode(original_key.as_bytes());

    let result = VerifyingKey::try_from(encoded);
    assert!(result.is_ok());

    let decoded_key = result.unwrap();
    assert_eq!(decoded_key.as_bytes(), original_key.as_bytes());
}

#[test]
fn test_verifying_key_from_string_invalid_length() {
    let invalid_bytes: [u8; 31] = [1; 31];
    let encoded = engine.encode(invalid_bytes);

    let result = VerifyingKey::try_from(encoded);
    assert!(result.is_err());
}

#[test]
fn invalid_length_is_reported_as_such() {
    for len in [0usize, 1, 31, 34, 64, 66, 100] {
        let bytes = vec![7u8; len];
        assert_eq!(VerifyingKey::from_bytes(&bytes).err(), Some(KeyError::InvalidLength));
        let encoded = engine.encode(&bytes);
        assert_eq!(VerifyingKey::try_from(encoded).err(), Some(KeyError::InvalidLength));
    }
}

#[test]
fn text_that_is_not_base64_is_refused() {
    let result = VerifyingKey::try_from("not base64 at all!".to_string());
    assert_eq!(result.err(), Some(KeyError::InvalidBase64));
    let unpadded = "11qYAYKxCrfVS/7TyWQHOg7hcvPapiMlrwIaaPcHURo".to_string();
    assert_eq!(VerifyingKey::try_from(unpadded).err(), Some(KeyError::InvalidBase64));
}

#[test]
fn cross_scheme_signature_is_refused() {
    let ed = fresh_ed25519();
    let secp = fresh_secp256k1();
    let message = b"cross";
    let ed_sig = ed.sign(message);
    let secp_sig = secp.sign(message);
    assert_eq!(
        ed.verifying_key().verify_signature(message, &secp_sig),
        Err(KeyError::InvalidSignatureType)
    );
    assert_eq!(
        secp.verifying_key().verify_signature(message, &ed_sig),
        Err(KeyError::InvalidSignatureType)
    );
    assert_eq!(
        ed.verifying_key().verify_signature(message, &Signature::Placeholder),
        Err(KeyError::InvalidSignatureType)
    );
}

fn hex(text: &str) -> Vec<u8> {
    let digits: Vec<u8> = text
        .bytes()
        .map(|c| match c {
            b'0'..=b'9' => c - b'0',
            b'a'..=b'f' => c - b'a' + 10,
            _ => panic!("not a hex digit"),
        })
        .collect();
    digits.chunks(2).map(|pair| pair[0] * 16 + pair[1]).collect()
}

fn array32(bytes: &[u8]) -> [u8; 32] {
    let mut out = [0u8; 32];
    out.copy_from_slice(bytes);
    out
}

#[test]
fn ed25519_known_key_and_signature() {
    let seed = array32(&hex("9d61b19deffd5a60ba844af492ec2cc44449c5697b326919703bac031cae7f60"));
    let key = SigningKey::Ed25519(seed);
    let public = key.verifying_key();
    assert_eq!(
        public.as_bytes(),
        hex("d75a980182b10ab7d54bfed3c964073a0ee172f3daa62325af021a68f707511a")
    );
    assert!(matches!(public, VerifyingKey::Ed25519(_)));
    let signature = key.sign(b"");
    match signature {
        Signature::Ed25519(bytes) => assert_eq!(
            bytes.to_vec(),
            hex(
                "e5564300c360ac729086e2cc806e828a84877f1eb8e5d974d873e06522490155\
                 5fb8821590a33bacc61e39701cf9b46bd25bf5f0595bbe24655141438e7a100b"
            )
        ),
        _ => panic!("an Ed25519 key signs with Ed25519"),
    }
    assert_eq!(public.verify_signature(b"", &signature), Ok(()));
}

#[test]
fn canonical_text_is_standard_padded_base64() {
    let seed = array32(&hex("9d61b19deffd5a60ba844af492ec2cc44449c5697b326919703bac031cae7f60"));
    let public = SigningKey::Ed25519(seed).verifying_key();
    assert_eq!(public.to_string(), "11qYAYKxCrfVS/7TyWQHOg7hcvPapiMlrwIaaPcHURo=");
    let decoded = VerifyingKey::try_from("11qYAYKxCrfVS/7TyWQHOg7hcvPapiMlrwIaaPcHURo=".to_string());
    assert_eq!(decoded, Ok(public));
}

#[test]
fn secp256k1_known_public_key() {
    let mut secret = [0u8; 32];
    secret[31] = 1;
    let key = SigningKey::Secp256k1(Secp256k1Secret::new(secret).unwrap());
    let public = key.verifying_key();
    assert_eq!(
        public.as_bytes(),
        hex("0279be667ef9dcbbac55a06295ce870b07029bfcdb2dce28d959f2815b16f81798")
    );
    assert_eq!(public.to_string(), "Anm+Zn753LusVaBilc6HCwcCm/zbLc4o2VnygVsW+BeY");
}

#[test]
fn secp256k1_uncompressed_form_reads_as_the_same_key() {
    let uncompressed = hex(
        "0479be667ef9dcbbac55a06295ce870b07029bfcdb2dce28d959f2815b16f81798\
         483ada7726a3c4655da4fbfc0e1108a8fd17b448a68554199c47d08ffb10d4b8",
    );
    assert_eq!(uncompressed.len(), 65);
    let key = VerifyingKey::from_bytes(&uncompressed).unwrap();
    assert!(matches!(key, VerifyingKey::Secp256k1(_)));
    assert_eq!(
        key.as_bytes(),
        hex("0279be667ef9dcbbac55a06295ce870b07029bfcdb2dce28d959f2815b16f81798")
    );
    let from_text = VerifyingKey::try_from(engine.encode(&uncompressed)).unwrap();
    assert_eq!(from_text, key);
}

#[test]
fn secp256k1_secret_out_of_range_is_refused() {
    assert!(Secp256k1Secret::new([0u8; 32]).is_none());
    assert!(Secp256k1Secret::new([0xffu8; 32]).is_none());
    let mut one = [0u8; 32];
    one[31] = 1;
    let secret = Secp256k1Secret::new(one).unwrap();
    assert_eq!(secret.secret_bytes(), one);
}

#[test]
fn bytes_that_are_no_curve_point_are_refused() {
    assert_eq!(
        VerifyingKey::from_bytes(&[5u8; 33]).err(),
        Some(KeyError::InvalidSecp256k1Key)
    );
    assert_eq!(
        VerifyingKey::from_bytes(&[4u8; 65]).err(),
        Some(KeyError::InvalidSecp256k1Key)
    );
    let no_point = (0u8..=255)
        .map(|fill| [fill; 32])
        .find(|candidate| VerifyingKey::from_bytes(candidate).is_err())
        .expect("some constant filling is not the encoding of a point");
    assert_eq!(
        VerifyingKey::from_bytes(&no_point).err(),
        Some(KeyError::InvalidEd25519Key)
    );
    assert_eq!(
        VerifyingKey::Ed25519(no_point).verify_signature(b"m", &Signature::Ed25519([0u8; 64])),
        Err(KeyError::VerificationFailed)
    );
}

#[test]
fn signature_verifies_under_the_matching_key_only() {
    for key in [fresh_ed25519(), fresh_secp256k1()] {
        let public = key.verifying_key();
        let message = b"the message".to_vec();
        let signature = key.sign(&message);
        assert_eq!(public.verify_signature(&message, &signature), Ok(()));

        let mut other_message = message.clone();
        other_message[0] ^= 1;
        assert_eq!(
            public.verify_signature(&other_message, &signature),
            Err(KeyError::VerificationFailed)
        );

        let flipped = match signature {
            Signature::Ed25519(mut bytes) => {
                bytes[10] ^= 0x20;
                Signature::Ed25519(bytes)
            }
            Signature::Secp256k1(mut bytes) => {
                bytes[10] ^= 0x20;
                Signature::Secp256k1(bytes)
            }
            Signature::Placeholder => panic!("a key does not sign with the placeholder"),
        };
        assert_eq!(
            public.verify_signature(&message, &flipped),
            Err(KeyError::VerificationFailed)
        );
    }
    let stranger = fresh_ed25519().verifying_key();
    let signature = fresh_ed25519().sign(b"m");
    assert_eq!(
        stranger.verify_signature(b"m", &signature),
        Err(KeyError::VerificationFailed)
    );
}

#[test]
fn signing_is_deterministic() {
    for key in [fresh_ed25519(), fresh_secp256k1()] {
        let a = key.sign(b"twice");
        let b = key.sign(b"twice");
        match (a, b) {
            (Signature::Ed25519(x), Signature::Ed25519(y)) => assert_eq!(x, y),
            (Signature::Secp256k1(x), Signature::Secp256k1(y)) => assert_eq!(x, y),
            _ => panic!("one key signs in one scheme"),
        }
    }
}

#[test]
fn secp256k1_signs_the_sha256_digest_of_the_message() {
    let secret = Secp256k1SigningKey::new(&mut OsRng);
    let key = SigningKey::Secp256k1(Secp256k1Secret::new(secret.secret_bytes()).unwrap());
    let message = b"hashed before signing";
    let digest = prism_prover::digest::Digest::hash(message).to_bytes();
    let expected = secp256k1::SECP256K1
        .sign_ecdsa(&secp256k1::Message::from_digest(digest), &secret)
        .serialize_compact();
    match key.sign(message) {
        Signature::Secp256k1(bytes) => assert_eq!(bytes, expected),
        _ => panic!("a secp256k1 key signs with secp256k1"),
    }
}

#[test]
fn keys_compare_by_their_bytes() {
    let a = fresh_ed25519().verifying_key();
    let b = fresh_ed25519().verifying_key();
    let again = VerifyingKey::from_bytes(&a.as_bytes()).unwrap();
    assert_eq!(a, again);
    assert_ne!(a, b);
    assert_ne!(a, fresh_secp256k1().verifying_key());
    assert!(matches!(Signature::default(), Signature::Placeholder));
}

#[test]
fn every_generated_key_survives_the_round_trip() {
    for _ in 0..20 {
        for key in [fresh_ed25519(), fresh_secp256k1()] {
            let public = key.verifying_key();
            let decoded = VerifyingKey::try_from(public.to_string()).unwrap();
            assert_eq!(decoded, public);
            assert_eq!(decoded.to_string(), engine.encode(public.as_bytes()));
        }
    }
}

#[test]
fn signatures_compare_by_scheme_and_bytes() {
    assert_eq!(Signature::Ed25519([1; 64]), Signature::Ed25519([1; 64]));
    assert_ne!(Signature::Ed25519([1; 64]), Signature::Ed25519([2; 64]));
    assert_ne!(Signature::Ed25519([1; 64]), Signature::Secp256k1([1; 64]));
    assert_ne!(Signature::Placeholder, Signature::Secp256k1([0; 64]));
    assert_eq!(Signature::Placeholder, Signature::default());
}
