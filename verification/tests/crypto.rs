use rsa::pkcs1v15::SigningKey;
use rsa::signature::{Signature, Signer, Verifier};
use rsa::{BigUint, PaddingScheme, PublicKey, PublicKeyParts, RsaPrivateKey, RsaPublicKey};
use shovel::crypto::{
    key_from_der, new_key, private_key_to_der, public_key, sha1_message, verify_signature,
    CapturedRsaError, MCPrivateKey, MCPublicKey, MessageHash, Padding, VerifyingKey,
    VerifySignature,
};
use shovel::der::{is_readable, NESTING_LIMIT};
use shovel::natural::{less, multiply, trim};

fn rsa_key(key: &MCPrivateKey) -> RsaPrivateKey {
    RsaPrivateKey::from_components(
        BigUint::from_bytes_be(&key.n),
        BigUint::from_bytes_be(&key.e),
        BigUint::from_bytes_be(&key.d),
        key.primes.iter().map(|prime| BigUint::from_bytes_be(prime)).collect(),
    )
    .unwrap()
}

fn public_half(key: &MCPrivateKey) -> MCPublicKey {
    MCPublicKey { n: key.n.clone(), e: key.e.clone() }
}

#[test]
fn new_keys_have_a_thousand_and_twenty_four_bits() {
    let key = new_key().unwrap();
    assert_eq!(key.n.len(), 128);
    assert!(key.n[0] >= 0x80);
    assert_eq!(key.e, vec![1, 0, 1]);
    assert_eq!(key.primes.len(), 2);
    let n = BigUint::from_bytes_be(&key.primes[0]) * BigUint::from_bytes_be(&key.primes[1]);
    assert_eq!(n.to_bytes_be(), key.n);
    assert!(rsa_key(&key).validate().is_ok());
    assert!(key.is_valid());
    assert_eq!((key.primes[0].len(), key.primes[1].len()), (64, 64));
    assert!(key.primes[0] != key.primes[1]);
    let less_one = |prime: &Vec<u8>| BigUint::from_bytes_be(prime) - BigUint::from(1u8);
    let totient = less_one(&key.primes[0]) * less_one(&key.primes[1]);
    let exponents = BigUint::from_bytes_be(&key.e) * BigUint::from_bytes_be(&key.d);
    assert_eq!(exponents % totient, BigUint::from(1u8));
    assert!(new_key().unwrap() != key);
}

#[test]
fn what_is_encrypted_is_decrypted() {
    let key = new_key().unwrap();
    let public = rsa_key(&key).to_public_key();
    let mut rng = rand::rngs::OsRng;
    let ciphertext =
        public.encrypt(&mut rng, PaddingScheme::new_pkcs1v15_encrypt(), b"shared secret").unwrap();
    assert_ne!(ciphertext, b"shared secret");
    let plaintext = key.decrypt(Padding::PKCS1v15Encrypt, &ciphertext).unwrap();
    assert_eq!(plaintext, b"shared secret");
}

#[test]
fn what_was_not_encrypted_is_refused() {
    let key = new_key().unwrap();
    assert!(matches!(
        key.decrypt(Padding::PKCS1v15Encrypt, &[1, 2, 3]),
        Err(CapturedRsaError::RsaError(_))
    ));
    assert!(matches!(
        key.decrypt(Padding::PKCS1v15Encrypt, &[0xff; 200]),
        Err(CapturedRsaError::RsaError(_))
    ));
}

#[test]
fn keys_with_a_clear_first_bit_are_read_back() {
    for n in [vec![0x7f; 128], vec![1], vec![0x12, 0x34, 0x56], vec![0x40; 512]] {
        let key = MCPrivateKey { n: n.clone(), e: vec![1, 0, 1], d: vec![], primes: vec![] };
        let der = private_key_to_der(&key);
        assert_ne!(der, n);
        assert_eq!(key_from_der(&der).unwrap(), MCPublicKey { n, e: vec![1, 0, 1] });
    }
}

#[test]
fn the_written_key_is_the_known_one() {
    let key = MCPrivateKey { n: vec![0x12, 0x34], e: vec![3], d: vec![], primes: vec![] };
    assert_eq!(
        private_key_to_der(&key),
        vec![
            0x30, 0x1b, 0x30, 0x0d, 0x06, 0x09, 0x2a, 0x86, 0x48, 0x86, 0xf7, 0x0d, 0x01, 0x01,
            0x01, 0x05, 0x00, 0x03, 0x0a, 0x00, 0x30, 0x07, 0x02, 0x02, 0x12, 0x34, 0x02, 0x01,
            0x03,
        ]
    );
}

#[test]
fn keys_with_a_set_first_bit_are_written_as_negative_numbers() {
    let key = MCPrivateKey { n: vec![0x80, 0x01], e: vec![3], d: vec![], primes: vec![] };
    let read = key_from_der(&private_key_to_der(&key)).unwrap();
    assert_eq!(read.n, vec![0x7f, 0xff]);
}

#[test]
fn bytes_that_are_no_key_are_refused() {
    assert!(matches!(key_from_der(&[]), Err(CapturedRsaError::RsaDerError(_))));
    assert!(matches!(key_from_der(&[0x03, 0x00]), Err(CapturedRsaError::RsaDerError(_))));
    assert!(matches!(key_from_der(&[0x30, 0x80]), Err(CapturedRsaError::RsaDerError(_))));
}

#[test]
fn keys_out_of_bounds_are_refused() {
    let written = |n: Vec<u8>, e: Vec<u8>| {
        private_key_to_der(&MCPrivateKey { n, e, d: vec![], primes: vec![] })
    };
    assert!(matches!(
        key_from_der(&written(vec![0x7f; 64], vec![1])),
        Err(CapturedRsaError::RsaError(_))
    ));
    assert!(matches!(public_key(&[5], &[2, 0, 0, 0, 0]), Err(CapturedRsaError::RsaError(_))));
    assert!(public_key(&[5], &[1, 0xff, 0xff, 0xff, 0xff]).is_ok());
    assert!(matches!(public_key(&[1; 513], &[3]), Err(CapturedRsaError::RsaError(_))));
    assert!(public_key(&[0xff; 512], &[3]).is_ok());
}

#[test]
fn zeros_in_front_of_numbers_are_dropped() {
    assert_eq!(
        public_key(&[0, 0, 7, 0], &[0, 3]).unwrap(),
        MCPublicKey { n: vec![7, 0], e: vec![3] }
    );
    assert_eq!(public_key(&[], &[3]).unwrap().n, vec![0]);
    assert_eq!(public_key(&[0, 0], &[3]).unwrap().n, vec![0]);
}

#[test]
fn signatures_are_verified() {
    let key = new_key().unwrap();
    let private = rsa_key(&key);
    let message = b"message";
    let signatures = [
        (
            MessageHash::Sha1,
            false,
            SigningKey::<sha1::Sha1>::new(private.clone()).sign(message).as_bytes().to_vec(),
        ),
        (
            MessageHash::Sha1,
            true,
            SigningKey::<sha1::Sha1>::new_with_prefix(private.clone())
                .sign(message)
                .as_bytes()
                .to_vec(),
        ),
        (
            MessageHash::Sha256,
            false,
            SigningKey::<sha2::Sha256>::new(private.clone()).sign(message).as_bytes().to_vec(),
        ),
        (
            MessageHash::Sha256,
            true,
            SigningKey::<sha2::Sha256>::new_with_prefix(private.clone())
                .sign(message)
                .as_bytes()
                .to_vec(),
        ),
    ];
    for (i, (_, _, signature)) in signatures.iter().enumerate() {
        for (j, (hash, prefixed, _)) in signatures.iter().enumerate() {
            let verifying =
                || VerifyingKey { key: public_half(&key), hash: *hash, prefixed: *prefixed };
            assert_eq!(verify_signature(verifying(), signature, message).is_ok(), i == j);
            assert!(matches!(
                verify_signature(verifying(), signature, b"another message"),
                Err(CapturedRsaError::SigError(_))
            ));
        }
    }
}

#[test]
fn signatures_of_other_keys_are_refused() {
    let key = new_key().unwrap();
    let other = new_key().unwrap();
    let signature = SigningKey::<sha2::Sha256>::new(rsa_key(&other)).sign(b"m");
    let verifying =
        VerifyingKey { key: public_half(&key), hash: MessageHash::Sha256, prefixed: false };
    assert!(verify_signature(verifying, signature.as_bytes(), b"m").is_err());
    let tiny = VerifyingKey {
        key: MCPublicKey { n: vec![0], e: vec![0] },
        hash: MessageHash::Sha1,
        prefixed: true,
    };
    assert!(verify_signature(tiny, &[], b"m").is_err());
}

#[test]
fn sha1_digests_are_the_known_ones() {
    let hex = |digest: [u8; 20]| -> String {
        digest.iter().map(|byte| format!("{byte:02x}")).collect()
    };
    assert_eq!(hex(sha1_message(b"abc")), "a9993e364706816aba3e25717850c26c9cd0d89d");
    assert_eq!(hex(sha1_message(b"")), "da39a3ee5e6b4b0d3255bfef95601890afd80709");
}

#[test]
fn public_halves_match() {
    let key = new_key().unwrap();
    let public = RsaPublicKey::from(rsa_key(&key));
    assert_eq!(public.n().to_bytes_be(), key.n);
}

#[test]
fn zeros_in_front_are_not_written() {
    let written = |n: Vec<u8>, e: Vec<u8>| {
        private_key_to_der(&MCPrivateKey { n, e, d: vec![], primes: vec![] })
    };
    assert_eq!(written(vec![0, 0x80, 1], vec![0, 0, 3]), written(vec![0x80, 1], vec![3]));
    assert_eq!(written(vec![0, 0, 0x12], vec![3]), written(vec![0x12], vec![3]));
    assert_ne!(written(vec![0x12, 0], vec![3]), written(vec![0x12], vec![3]));
    assert_eq!(written(vec![], vec![3]), written(vec![0, 0], vec![3]));
}

#[test]
fn keys_that_cannot_be_used_are_told_apart() {
    let key = |n: Vec<u8>, p: Vec<u8>, q: Vec<u8>| MCPrivateKey {
        n,
        e: vec![3],
        d: vec![1],
        primes: vec![p, q],
    };
    assert!(key(vec![15], vec![3], vec![5]).is_valid());
    assert!(key(vec![0, 15], vec![0, 0, 3], vec![5]).is_valid());
    assert!(!key(vec![16], vec![3], vec![5]).is_valid());
    assert!(!key(vec![14], vec![3], vec![5]).is_valid());
    assert!(!key(vec![5], vec![1], vec![5]).is_valid());
    assert!(!key(vec![5], vec![5], vec![1]).is_valid());
    assert!(!key(vec![0], vec![0], vec![5]).is_valid());
    assert!(key(vec![3, 0xfe], vec![2], vec![1, 0xff]).is_valid());
    assert!(!key(vec![4, 0], vec![2], vec![2, 0]).is_valid());
    let mut long = vec![1];
    long.resize(128, 0);
    let mut product = vec![3];
    product.resize(128, 0);
    assert!(!key(product, vec![3], long).is_valid());
    let mut single = key(vec![3], vec![3], vec![5]);
    single.primes.pop();
    assert!(!single.is_valid());
}

struct Sha512Key(rsa::pkcs1v15::VerifyingKey<sha2::Sha512>);

impl VerifySignature for Sha512Key {
    fn verifies(&self, _: &[u8], _: &[u8]) -> bool {
        unreachable!()
    }

    fn verify(&self, signature: &[u8], message: &[u8]) -> Result<(), rsa::signature::Error> {
        self.0.verify(message, &Signature::from_bytes(signature)?)
    }
}

#[test]
fn signatures_with_other_hashes_are_verified() {
    let private = rsa_key(&new_key().unwrap());
    let signing = SigningKey::<sha2::Sha512>::new_with_prefix(private.clone());
    let signature = signing.sign(b"message");
    let verifying = || {
        Sha512Key(rsa::pkcs1v15::VerifyingKey::new_with_prefix(RsaPublicKey::from(&private)))
    };
    assert!(verify_signature(verifying(), signature.as_bytes(), b"message").is_ok());
    assert!(matches!(
        verify_signature(verifying(), signature.as_bytes(), b"another message"),
        Err(CapturedRsaError::SigError(_))
    ));
}

#[test]
fn numbers_are_multiplied_and_compared() {
    assert_eq!(trim(&multiply(&[12, 34], &[56, 78])), [2, 171, 34, 92]);
    assert_eq!(trim(&multiply(&[0xff; 4], &[0xff; 4])), [0xff, 0xff, 0xff, 0xfe, 0, 0, 0, 1]);
    assert_eq!(trim(&multiply(&[], &[5])), [0]);
    assert_eq!(trim(&multiply(&[5], &[])), [0]);
    for (a, b) in [(0u32, 0u32), (0, 1), (255, 256), (256, 255), (65535, 65535), (70000, 69999)] {
        assert_eq!(less(&a.to_be_bytes(), &b.to_be_bytes()), a < b);
        assert_eq!(less(&trim(&a.to_be_bytes()), &b.to_be_bytes()), a < b);
        assert_eq!(less(&a.to_be_bytes(), &trim(&b.to_be_bytes())), a < b);
        let product = (a as u64 * b as u64).to_be_bytes();
        assert_eq!(trim(&multiply(&a.to_be_bytes(), &b.to_be_bytes())), trim(&product));
    }
}

#[test]
fn keys_of_three_primes_can_be_used() {
    let mut rng = rand::rngs::OsRng;
    let private = rsa::algorithms::generate_multi_prime_key(&mut rng, 3, 1024).unwrap();
    let mut key = MCPrivateKey {
        n: private.n().to_bytes_be(),
        e: private.e().to_bytes_be(),
        d: private.d().to_bytes_be(),
        primes: private.primes().iter().map(|prime| prime.to_bytes_be()).collect(),
    };
    assert!(key.is_valid());
    let ciphertext = private
        .to_public_key()
        .encrypt(&mut rng, PaddingScheme::new_pkcs1v15_encrypt(), b"secret")
        .unwrap();
    assert_eq!(key.decrypt(Padding::PKCS1v15Encrypt, &ciphertext).unwrap(), b"secret");
    key.primes[2] = vec![1];
    assert!(!key.is_valid());
}

fn nested(tag: u8, depth: usize) -> Vec<u8> {
    let mut bytes: Vec<u8> = vec![0x05, 0x00];
    for _ in 0..depth {
        let length = bytes.len();
        let mut outer = vec![tag];
        if length < 128 {
            outer.push(length as u8);
        } else {
            outer.extend_from_slice(&[0x82, (length / 256) as u8, (length % 256) as u8]);
        }
        outer.extend_from_slice(&bytes);
        bytes = outer;
    }
    bytes
}

#[test]
fn nesting_is_bounded() {
    for tag in [0x30, 0x31, 0xa0, 0x10] {
        let deep = nested(tag, NESTING_LIMIT);
        assert!(is_readable(&deep));
        assert!(matches!(key_from_der(&deep), Err(CapturedRsaError::RsaDerError(_))));
        assert!(!is_readable(&nested(tag, NESTING_LIMIT + 1)));
    }
    assert!(is_readable(&nested(0x04, 1000)));
    assert!(is_readable(&nested(0x80, 1000)));
    let mut behind = vec![0x05, 0x00];
    behind.extend_from_slice(&nested(0x30, NESTING_LIMIT + 1));
    assert!(!is_readable(&behind));
    let inner = nested(0x30, NESTING_LIMIT);
    let mut bits = vec![0x03, 0x82, ((inner.len() + 1) / 256) as u8, ((inner.len() + 1) % 256) as u8];
    bits.push(0);
    bits.extend_from_slice(&inner);
    assert!(!is_readable(&bits));
    for cut in [&[][..], &[0x30], &[0x30, 0x05], &[0x30, 0x89, 0, 0, 0, 0, 0, 0, 0, 0, 0], &[0x3f, 0x80]] {
        assert!(is_readable(cut));
        assert!(matches!(key_from_der(cut), Err(CapturedRsaError::RsaDerError(_))));
    }
}

#[test]
fn written_keys_are_readable() {
    let key = new_key().unwrap();
    assert!(is_readable(&private_key_to_der(&key)));
    let long = MCPrivateKey { n: vec![0x30; 70000], e: vec![3], d: vec![], primes: vec![] };
    let der = private_key_to_der(&long);
    assert!(is_readable(&der));
    assert!(matches!(key_from_der(&der), Err(CapturedRsaError::RsaError(_))));
}
