//! The keys with which a login is secured.
use crate::der::readable;
use crate::natural::{less, multiply, number, trim, trimmed};
use rsa::pkcs1v15::VerifyingKey as RsaVerifyingKey;
use rsa::signature::{Signature as SignatureBytes, Verifier};
use rsa::{BigUint, PaddingScheme, PublicKeyParts, RsaPrivateKey, RsaPublicKey};
use vstd::arithmetic::power2::pow2;
use vstd::prelude::*;

verus! {

/// The error type of the `rsa` crate.
#[verifier::external_type_specification]
#[verifier::external_body]
pub struct ExRsaError(rsa::errors::Error);

/// The error type of the `rsa_der` crate.
#[verifier::external_type_specification]
#[verifier::external_body]
pub struct ExRsaDerError(rsa_der::Error);

/// The error type of the `signature` crate, which `rsa` re-exports.
#[verifier::external_type_specification]
#[verifier::external_body]
pub struct ExSignatureError(rsa::signature::Error);

/// How what is encrypted is padded.
#[derive(Clone, Copy, Debug, PartialEq, Eq, Structural)]
pub enum Padding {
    PKCS1v15Encrypt,
}

/// An RSA key pair: the modulus, the public and the private exponent and the primes, each
/// with the most significant byte first.
#[derive(Debug, PartialEq)]
pub struct MCPrivateKey {
    pub n: Vec<u8>,
    pub e: Vec<u8>,
    pub d: Vec<u8>,
    pub primes: Vec<Vec<u8>>,
}

/// The product of several numbers.
pub open spec fn product(numbers: Seq<Seq<u8>>) -> nat
    decreases numbers.len(),
{
    if numbers.len() == 0 {
        1
    } else {
        product(numbers.drop_last()) * number(numbers.last())
    }
}

/// What a key pair is.
pub struct KeyPair {
    pub n: Seq<u8>,
    pub e: Seq<u8>,
    pub d: Seq<u8>,
    pub primes: Seq<Seq<u8>>,
}

impl View for MCPrivateKey {
    type V = KeyPair;

    open spec fn view(&self) -> KeyPair {
        KeyPair {
            n: self.n@,
            e: self.e@,
            d: self.d@,
            primes: crate::protocol::byte_strings_view(self.primes@),
        }
    }
}

impl KeyPair {
    /// The modulus is the product of two or more numbers greater than one, of which the second
    /// is less than 256 times the first.
    pub open spec fn valid(&self) -> bool {
        &&& self.primes.len() >= 2
        &&& forall|i: int| 0 <= i < self.primes.len() ==> number(#[trigger] self.primes[i]) >= 2
        &&& number(self.primes[1]) < 256 * number(self.primes[0])
        &&& number(self.n) == product(self.primes)
    }

    /// The public half, as it is written.
    pub open spec fn public_half(&self) -> Seq<u8> {
        public_key_der(trimmed(self.n), trimmed(self.e))
    }
}

/// An RSA public key: the modulus and the exponent, each with the most significant byte
/// first.
#[derive(Debug, PartialEq)]
pub struct MCPublicKey {
    pub n: Vec<u8>,
    pub e: Vec<u8>,
}

/// What went wrong with a key or a signature.
#[derive(Debug)]
pub enum CapturedRsaError {
    RsaError(rsa::errors::Error),
    RsaDerError(rsa_der::Error),
    SigError(rsa::signature::Error),
}

impl From<rsa::errors::Error> for CapturedRsaError {
    fn from(err: rsa::errors::Error) -> (captured: Self) {
        Self::RsaError(err)
    }
}

impl vstd::std_specs::convert::FromSpecImpl<rsa::errors::Error> for CapturedRsaError {
    open spec fn obeys_from_spec() -> bool {
        true
    }

    open spec fn from_spec(err: rsa::errors::Error) -> Self {
        CapturedRsaError::RsaError(err)
    }
}

impl From<rsa_der::Error> for CapturedRsaError {
    fn from(err: rsa_der::Error) -> (captured: Self) {
        Self::RsaDerError(err)
    }
}

impl vstd::std_specs::convert::FromSpecImpl<rsa_der::Error> for CapturedRsaError {
    open spec fn obeys_from_spec() -> bool {
        true
    }

    open spec fn from_spec(err: rsa_der::Error) -> Self {
        CapturedRsaError::RsaDerError(err)
    }
}

impl From<rsa::signature::Error> for CapturedRsaError {
    fn from(err: rsa::signature::Error) -> (captured: Self) {
        Self::SigError(err)
    }
}

impl vstd::std_specs::convert::FromSpecImpl<rsa::signature::Error> for CapturedRsaError {
    open spec fn obeys_from_spec() -> bool {
        true
    }

    open spec fn from_spec(err: rsa::signature::Error) -> Self {
        CapturedRsaError::SigError(err)
    }
}

/// The number of bits of a new key.
pub const KEY_BITS: usize = 1024;

/// `RsaPrivateKey::new` with the random numbers of the operating system. It fails only below
/// 64 bits. The key has a modulus of exactly the given number of bits, the product of two
/// different numbers of half as many bits each that passed a primality test, the public
/// exponent 65537, and as the private exponent its inverse. Which key it is, is left to
/// chance, and so is whether the test was right.
#[verifier::external_body]
fn generate_key(bits: usize) -> (r: Result<MCPrivateKey, rsa::errors::Error>)
    requires
        64 <= bits <= 4096,
        bits % 16 == 0,
    ensures
        match r {
            Ok(key) => {
                &&& key@.valid()
                &&& key@.of_two()
                &&& key@.primes[0].len() * 16 == bits
                &&& key@.primes[1].len() * 16 == bits
                &&& key@.inverse()
                &&& key.n@.len() * 8 == bits
                &&& key.n@[0] >= 0x80
                &&& key.e@ == seq![1u8, 0u8, 1u8]
            },
            Err(_) => false,
        },
{
    let key = RsaPrivateKey::new(&mut rand::rngs::OsRng, bits)?;
    Ok(
        MCPrivateKey {
            n: key.n().to_bytes_be(),
            e: key.e().to_bytes_be(),
            d: key.d().to_bytes_be(),
            primes: key.primes().iter().map(|prime| prime.to_bytes_be()).collect(),
        },
    )
}

impl KeyPair {
    /// Whether there are two different primes.
    pub open spec fn of_two(&self) -> bool {
        self.primes.len() == 2 && number(self.primes[0]) != number(self.primes[1])
    }

    /// Whether the private exponent is the inverse of the public one, modulo the product of the
    /// two primes less one each: what the one encrypts, the other decrypts.
    pub open spec fn inverse(&self) -> bool {
        let totient = (number(self.primes[0]) - 1) * (number(self.primes[1]) - 1);
        (number(self.e) * number(self.d)) as int % totient == 1
    }

    /// What holds of every new key: it is valid, its modulus takes exactly 1024 bits and is the
    /// product of two different numbers of 64 bytes that passed a primality test, its public
    /// exponent is 65537, and its private exponent is the inverse of that.
    pub open spec fn freshly_made(&self) -> bool {
        &&& self.valid()
        &&& self.of_two()
        &&& self.primes[0].len() == 64
        &&& self.primes[1].len() == 64
        &&& self.inverse()
        &&& self.n.len() == 128
        &&& self.n[0] >= 0x80
        &&& self.e == seq![1u8, 0u8, 1u8]
    }
}

/// Makes a new key pair of 1024 bits with the public exponent 65537.
pub fn new_key() -> (r: Result<MCPrivateKey, rsa::errors::Error>)
    ensures
        r is Ok,
        r->Ok_0@.freshly_made(),
{
    generate_key(KEY_BITS)
}

/// What `RsaPrivateKey::decrypt` with the padding of PKCS #1 v1.5 makes of a ciphertext,
/// under the key with the given modulus, exponents and primes; nothing where it fails.
pub uninterp spec fn decrypted(
    n: Seq<u8>,
    e: Seq<u8>,
    d: Seq<u8>,
    primes: Seq<Seq<u8>>,
    ciphertext: Seq<u8>,
) -> Option<Seq<u8>>;

/// `RsaPrivateKey::from_components` followed by `RsaPrivateKey::decrypt` with the padding of
/// PKCS #1 v1.5. No random numbers are drawn, so that the plaintext depends on the key and
/// the ciphertext alone. The two halves of the plaintext are put together in a loop that runs
/// about as often as the first prime goes into the second.
#[verifier::external_body]
fn decrypt_pkcs1v15(key: &MCPrivateKey, ciphertext: &[u8]) -> (r: Result<
    Vec<u8>,
    rsa::errors::Error,
>)
    requires
        key@.valid(),
    ensures
        decrypted(key@.n, key@.e, key@.d, key@.primes, ciphertext@) == (match r {
            Ok(plaintext) => Some(plaintext@),
            Err(_) => None,
        }),
{
    RsaPrivateKey::from_components(
        BigUint::from_bytes_be(&key.n),
        BigUint::from_bytes_be(&key.e),
        BigUint::from_bytes_be(&key.d),
        key.primes.iter().map(|prime| BigUint::from_bytes_be(prime)).collect(),
    )?.decrypt(PaddingScheme::PKCS1v15Encrypt, ciphertext)
}

impl KeyPair {
    /// The plaintext of a ciphertext, where there is one.
    pub open spec fn plaintext(&self, ciphertext: Seq<u8>) -> Option<Seq<u8>> {
        decrypted(self.n, self.e, self.d, self.primes, ciphertext)
    }
}

impl MCPrivateKey {
    /// Whether the key can be used.
    pub fn is_valid(&self) -> (r: bool)
        ensures
            r == self@.valid(),
    {
        let total: usize = self.primes.len();
        if total < 2 {
            return false;
        }
        let ghost primes = self@.primes;
        let two: [u8; 1] = [2];
        let many: [u8; 2] = [1, 0];
        proof {
            reveal_with_fuel(number, 3);
            assert(two@.drop_last() =~= Seq::<u8>::empty());
            assert(many@.drop_last() =~= seq![1u8]);
            assert(many@.drop_last().drop_last() =~= Seq::<u8>::empty());
            assert(number(two@) == 2);
            assert(number(many@) == 256);
        }
        if !less(&self.primes[1], &multiply(&many, &self.primes[0])) {
            return false;
        }
        let mut modulus: Vec<u8> = Vec::new();
        modulus.push(1);
        proof {
            reveal_with_fuel(number, 2);
            assert(modulus@.drop_last() =~= Seq::<u8>::empty());
            assert(number(modulus@) == 1);
        }
        let mut i: usize = 0;
        while i < total
            invariant
                i <= total,
                total == self.primes@.len(),
                primes == self@.primes,
                number(two@) == 2,
                forall|k: int| 0 <= k < i ==> number(#[trigger] primes[k]) >= 2,
                number(modulus@) == product(primes.take(i as int)),
            decreases total - i,
        {
            assert(primes[i as int] == self.primes@[i as int]@);
            if less(&self.primes[i], &two) {
                return false;
            }
            modulus = multiply(&modulus, &self.primes[i]);
            assert(primes.take(i + 1).drop_last() =~= primes.take(i as int));
            i = i + 1;
        }
        assert(primes.take(total as int) =~= primes);
        !less(&self.n, &modulus) && !less(&modulus, &self.n)
    }

    /// Decrypts what was encrypted with the public key.
    pub fn decrypt(&self, padding: Padding, ciphertext: &[u8]) -> (r: Result<
        Vec<u8>,
        CapturedRsaError,
    >)
        requires
            self@.valid(),
        ensures
            match r {
                Ok(plaintext) => self@.plaintext(ciphertext@) == Some(plaintext@),
                Err(e) => self@.plaintext(ciphertext@) is None && e is RsaError,
            },
    {
        match padding {
            Padding::PKCS1v15Encrypt => match decrypt_pkcs1v15(self, ciphertext) {
                Ok(plaintext) => Ok(plaintext),
                Err(err) => Err(CapturedRsaError::from(err)),
            },
        }
    }
}

/// The modulus and the exponent that `rsa_der::public_key_from_der` reads on a machine whose
/// words have the given number of bits, each with the most significant byte first; nothing
/// where it fails. A length that takes more bytes than a word is refused.
pub uninterp spec fn der_components(word: nat, der: Seq<u8>) -> Option<(Seq<u8>, Seq<u8>)>;

/// The modulus and the exponent that are read on this machine.
pub open spec fn components(der: Seq<u8>) -> Option<(Seq<u8>, Seq<u8>)> {
    der_components(usize::BITS as nat, der)
}

/// The bytes that `rsa_der::public_key_to_der` writes for a modulus and an exponent.
pub uninterp spec fn public_key_der(n: Seq<u8>, e: Seq<u8>) -> Seq<u8>;

/// `rsa_der::public_key_from_der`. Nested elements are read by recursion, which takes a stack
/// in proportion to the depth of the nesting.
#[verifier::external_body]
fn components_from_der(der: &[u8]) -> (r: Result<(Vec<u8>, Vec<u8>), rsa_der::Error>)
    requires
        readable(der@),
    ensures
        der_components(usize::BITS as nat, der@) == (match r {
            Ok((n, e)) => Some((n@, e@)),
            Err(_) => None,
        }),
{
    rsa_der::public_key_from_der(der)
}

/// Whether bytes stand for the same positive number with a sign and without one, and have no
/// zero in front.
pub open spec fn plainly_positive(bytes: Seq<u8>) -> bool {
    bytes.len() > 0 && 0 < bytes[0] < 0x80
}

/// `rsa_der::public_key_to_der`. What is written are two sequences in a sequence, of which the
/// second lies in a bit string: the nesting is not deep. Both numbers are written as signed
/// ones, so that `rsa_der::public_key_from_der` reads back those whose first bit is clear.
#[verifier::external_body]
fn components_to_der(n: &[u8], e: &[u8]) -> (der: Vec<u8>)
    ensures
        der@ == public_key_der(n@, e@),
        readable(der@),
        plainly_positive(n@) && plainly_positive(e@) ==> der_components(
            usize::BITS as nat,
            der@,
        ) == Some((n@, e@)),
{
    rsa_der::public_key_to_der(n, e)
}

/// Whether a modulus and an exponent are those of a public key that is accepted: the modulus
/// has at most 4096 bits, and the exponent lies between 2 and 2^33 - 1.
pub open spec fn acceptable(n: Seq<u8>, e: Seq<u8>) -> bool {
    number(n) < pow2(4096) && 2 <= number(e) < 0x2_0000_0000
}

/// `RsaPublicKey::new`, which refuses a modulus of more than 4096 bits and an exponent below
/// 2 or above 2^33 - 1.
#[verifier::external_body]
fn checked_public_key(n: &[u8], e: &[u8]) -> (r: Result<MCPublicKey, rsa::errors::Error>)
    ensures
        match r {
            Ok(key) => acceptable(n@, e@) && key.n@ == trimmed(n@) && key.e@ == trimmed(e@),
            Err(_) => !acceptable(n@, e@),
        },
{
    let key = RsaPublicKey::new(BigUint::from_bytes_be(n), BigUint::from_bytes_be(e))?;
    Ok(MCPublicKey { n: key.n().to_bytes_be(), e: key.e().to_bytes_be() })
}

/// Reads a public key. `der::is_readable` tells whether the bytes are nested too deeply to be
/// read.
pub fn key_from_der(der: &[u8]) -> (r: Result<MCPublicKey, CapturedRsaError>)
    requires
        readable(der@),
    ensures
        match (components(der@), r) {
            (None, Err(err)) => err is RsaDerError,
            (Some((n, e)), Err(err)) => !acceptable(n, e) && err is RsaError,
            (Some((n, e)), Ok(key)) => acceptable(n, e) && key.n@ == trimmed(n) && key.e@
                == trimmed(e),
            (None, Ok(_)) => false,
        },
{
    match components_from_der(der) {
        Ok((n, e)) => public_key(&n, &e),
        Err(err) => Err(CapturedRsaError::from(err)),
    }
}

/// A public key with the given modulus and exponent.
pub fn public_key(n: &[u8], e: &[u8]) -> (r: Result<MCPublicKey, CapturedRsaError>)
    ensures
        match r {
            Ok(key) => acceptable(n@, e@) && key.n@ == trimmed(n@) && key.e@ == trimmed(e@),
            Err(err) => !acceptable(n@, e@) && err is RsaError,
        },
{
    match checked_public_key(n, e) {
        Ok(key) => Ok(key),
        Err(err) => Err(CapturedRsaError::from(err)),
    }
}

/// Writes the public half of a key pair, without zeros in front of its numbers. A modulus and
/// an exponent whose first bits are then clear are read back from what is written.
pub fn private_key_to_der(key: &MCPrivateKey) -> (der: Vec<u8>)
    ensures
        der@ == key@.public_half(),
        readable(der@),
        ({
            let (n, e) = (trimmed(key@.n), trimmed(key@.e));
            plainly_positive(n) && plainly_positive(e) ==> components(der@) == Some((n, e))
        }),
{
    components_to_der(&trim(&key.n), &trim(&key.e))
}

/// The hash functions that messages are signed with.
#[derive(Clone, Copy, Debug, PartialEq, Eq, Structural)]
pub enum MessageHash {
    Sha1,
    Sha256,
}

/// A public key that verifies signatures, and how messages are hashed for it. With
/// `prefixed`, the hash is preceded by the identifier of its hash function.
pub struct VerifyingKey {
    pub key: MCPublicKey,
    pub hash: MessageHash,
    pub prefixed: bool,
}

/// Whether `VerifyingKey::<Sha1>::new` makes a key that verifies a signature of a message.
pub uninterp spec fn sha1_verifies(
    n: Seq<u8>,
    e: Seq<u8>,
    signature: Seq<u8>,
    message: Seq<u8>,
) -> bool;

/// Whether `VerifyingKey::<Sha1>::new_with_prefix` makes a key that verifies a signature of a
/// message.
pub uninterp spec fn prefixed_sha1_verifies(
    n: Seq<u8>,
    e: Seq<u8>,
    signature: Seq<u8>,
    message: Seq<u8>,
) -> bool;

/// Whether `VerifyingKey::<Sha256>::new` makes a key that verifies a signature of a message.
pub uninterp spec fn sha256_verifies(
    n: Seq<u8>,
    e: Seq<u8>,
    signature: Seq<u8>,
    message: Seq<u8>,
) -> bool;

/// Whether `VerifyingKey::<Sha256>::new_with_prefix` makes a key that verifies a signature of
/// a message.
pub uninterp spec fn prefixed_sha256_verifies(
    n: Seq<u8>,
    e: Seq<u8>,
    signature: Seq<u8>,
    message: Seq<u8>,
) -> bool;

/// `Verifier::verify` of the key that `VerifyingKey::<Sha1>::new` makes.
#[verifier::external_body]
fn verify_sha1(key: &MCPublicKey, signature: &[u8], message: &[u8]) -> (r: Result<
    (),
    rsa::signature::Error,
>)
    ensures
        r is Ok <==> sha1_verifies(key.n@, key.e@, signature@, message@),
{
    let (n, e) = (BigUint::from_bytes_be(&key.n), BigUint::from_bytes_be(&key.e));
    let verifying_key = RsaVerifyingKey::<sha1::Sha1>::new(RsaPublicKey::new_unchecked(n, e));
    verifying_key.verify(message, &SignatureBytes::from_bytes(signature)?)
}

/// `Verifier::verify` of the key that `VerifyingKey::<Sha1>::new_with_prefix` makes.
#[verifier::external_body]
fn verify_prefixed_sha1(key: &MCPublicKey, signature: &[u8], message: &[u8]) -> (r: Result<
    (),
    rsa::signature::Error,
>)
    ensures
        r is Ok <==> prefixed_sha1_verifies(key.n@, key.e@, signature@, message@),
{
    let (n, e) = (BigUint::from_bytes_be(&key.n), BigUint::from_bytes_be(&key.e));
    let public_key = RsaPublicKey::new_unchecked(n, e);
    let verifying_key = RsaVerifyingKey::<sha1::Sha1>::new_with_prefix(public_key);
    verifying_key.verify(message, &SignatureBytes::from_bytes(signature)?)
}

/// `Verifier::verify` of the key that `VerifyingKey::<Sha256>::new` makes.
#[verifier::external_body]
fn verify_sha256(key: &MCPublicKey, signature: &[u8], message: &[u8]) -> (r: Result<
    (),
    rsa::signature::Error,
>)
    ensures
        r is Ok <==> sha256_verifies(key.n@, key.e@, signature@, message@),
{
    let (n, e) = (BigUint::from_bytes_be(&key.n), BigUint::from_bytes_be(&key.e));
    let verifying_key = RsaVerifyingKey::<sha2::Sha256>::new(RsaPublicKey::new_unchecked(n, e));
    verifying_key.verify(message, &SignatureBytes::from_bytes(signature)?)
}

/// `Verifier::verify` of the key that `VerifyingKey::<Sha256>::new_with_prefix` makes.
#[verifier::external_body]
fn verify_prefixed_sha256(key: &MCPublicKey, signature: &[u8], message: &[u8]) -> (r: Result<
    (),
    rsa::signature::Error,
>)
    ensures
        r is Ok <==> prefixed_sha256_verifies(key.n@, key.e@, signature@, message@),
{
    let (n, e) = (BigUint::from_bytes_be(&key.n), BigUint::from_bytes_be(&key.e));
    let public_key = RsaPublicKey::new_unchecked(n, e);
    let verifying_key = RsaVerifyingKey::<sha2::Sha256>::new_with_prefix(public_key);
    verifying_key.verify(message, &SignatureBytes::from_bytes(signature)?)
}

/// Something that verifies signatures of messages, whatever it hashes them with.
pub trait VerifySignature: Sized {
    /// Whether a signature of a message is verified.
    spec fn verifies(&self, signature: &[u8], message: &[u8]) -> bool;

    fn verify(&self, signature: &[u8], message: &[u8]) -> (r: Result<(), rsa::signature::Error>)
        ensures
            r is Ok <==> self.verifies(signature, message),
    ;
}

impl VerifySignature for VerifyingKey {
    open spec fn verifies(&self, signature: &[u8], message: &[u8]) -> bool {
        let (n, e) = (self.key.n@, self.key.e@);
        match (self.hash, self.prefixed) {
            (MessageHash::Sha1, false) => sha1_verifies(n, e, signature@, message@),
            (MessageHash::Sha1, true) => prefixed_sha1_verifies(n, e, signature@, message@),
            (MessageHash::Sha256, false) => sha256_verifies(n, e, signature@, message@),
            (MessageHash::Sha256, true) => prefixed_sha256_verifies(n, e, signature@, message@),
        }
    }

    fn verify(&self, signature: &[u8], message: &[u8]) -> (r: Result<(), rsa::signature::Error>) {
        match (self.hash, self.prefixed) {
            (MessageHash::Sha1, false) => verify_sha1(&self.key, signature, message),
            (MessageHash::Sha1, true) => verify_prefixed_sha1(&self.key, signature, message),
            (MessageHash::Sha256, false) => verify_sha256(&self.key, signature, message),
            (MessageHash::Sha256, true) => verify_prefixed_sha256(&self.key, signature, message),
        }
    }
}

/// Verifies a signature of a message.
pub fn verify_signature<V: VerifySignature>(
    verify_key: V,
    signature: &[u8],
    message: &[u8],
) -> (r: Result<(), CapturedRsaError>)
    ensures
        match r {
            Ok(()) => verify_key.verifies(signature, message),
            Err(err) => !verify_key.verifies(signature, message) && err is SigError,
        },
{
    match verify_key.verify(signature, message) {
        Ok(()) => Ok(()),
        Err(err) => Err(CapturedRsaError::from(err)),
    }
}

/// The digest that `openssl::sha::sha1` computes.
pub uninterp spec fn openssl_sha1(bytes: Seq<u8>) -> Seq<u8>;

/// `openssl::sha::sha1`.
#[verifier::external_body]
fn sha1_digest(bytes: &[u8]) -> (digest: [u8; 20])
    ensures
        digest@ == openssl_sha1(bytes@),
{
    openssl::sha::sha1(bytes)
}

/// The SHA-1 digest of a message.
pub fn sha1_message(bytes: &[u8]) -> (digest: [u8; 20])
    ensures
        digest@ == openssl_sha1(bytes@),
{
    sha1_digest(bytes)
}

/// A signature is verified with the hash function of the key, preceded by its identifier
/// exactly where the key says so.
pub proof fn signatures_are_verified_as_the_key_says(
    verify_key: VerifyingKey,
    signature: &[u8],
    message: &[u8],
)
    ensures
        ({
            let (n, e) = (verify_key.key.n@, verify_key.key.e@);
            let (s, m) = (signature@, message@);
            verify_key.verifies(signature, message) <==> {
                ||| verify_key.hash is Sha1 && !verify_key.prefixed && sha1_verifies(n, e, s, m)
                ||| verify_key.hash is Sha1 && verify_key.prefixed && prefixed_sha1_verifies(
                    n,
                    e,
                    s,
                    m,
                )
                ||| verify_key.hash is Sha256 && !verify_key.prefixed && sha256_verifies(n, e, s, m)
                ||| verify_key.hash is Sha256 && verify_key.prefixed && prefixed_sha256_verifies(
                    n,
                    e,
                    s,
                    m,
                )
            }
        }),
{
}

/// A key pair of two primes is valid exactly where each is at least two, the second is less
/// than 256 times the first, and the modulus is their product.
pub proof fn valid_keys_of_two_primes(key: KeyPair)
    requires
        key.primes.len() == 2,
    ensures
        ({
            let (n, p, q) = (number(key.n), number(key.primes[0]), number(key.primes[1]));
            key.valid() <==> p >= 2 && q >= 2 && q < 256 * p && n == p * q
        }),
{
    reveal_with_fuel(product, 3);
    let first = key.primes.drop_last();
    assert(first.last() == key.primes[0]);
    assert(first.drop_last().len() == 0);
    let (p, q) = (number(key.primes[0]), number(key.primes[1]));
    assert(1 * p * q == p * q);
    if p >= 2 && q >= 2 {
        assert forall|i: int| 0 <= i < key.primes.len() implies number(#[trigger] key.primes[i])
            >= 2 by {
            assert(i == 0 || i == 1);
        }
    }
    if key.valid() {
        assert(number(key.primes[0]) >= 2);
        assert(number(key.primes[1]) >= 2);
    }
}

/// Of a valid key every prime divides the modulus, and it has two of them or more.
pub proof fn primes_divide_the_modulus(key: KeyPair, i: int)
    requires
        key.valid(),
        0 <= i < key.primes.len(),
    ensures
        key.primes.len() >= 2,
        number(key.primes[i]) >= 2,
        number(key.n) as int % number(key.primes[i]) as int == 0,
{
    assert(number(key.primes[i]) >= 2);
    lemma_divides_product(key.primes, i);
}

proof fn lemma_divides_product(numbers: Seq<Seq<u8>>, i: int)
    requires
        0 <= i < numbers.len(),
        number(numbers[i]) > 0,
    ensures
        product(numbers) as int % number(numbers[i]) as int == 0,
    decreases numbers.len(),
{
    let d = number(numbers[i]) as int;
    let before = product(numbers.drop_last()) as int;
    let last = number(numbers.last()) as int;
    if i < numbers.len() - 1 {
        assert(numbers.drop_last()[i] == numbers[i]);
        lemma_divides_product(numbers.drop_last(), i);
        let q = before / d;
        vstd::arithmetic::div_mod::lemma_fundamental_div_mod(before, d);
        assert(before * last == (q * last) * d) by (nonlinear_arith)
            requires
                before == d * q,
        ;
        vstd::arithmetic::div_mod::lemma_mod_multiples_basic(q * last, d);
    } else {
        vstd::arithmetic::div_mod::lemma_mod_multiples_basic(before, d);
    }
}

/// The public half of a key pair is that of its modulus and its exponent: two pairs that
/// agree in both, but for zeros in front, have the same one.
pub proof fn public_halves_are_of_modulus_and_exponent(key: KeyPair, other: KeyPair)
    ensures
        key.public_half() == public_key_der(trimmed(key.n), trimmed(key.e)),
        trimmed(key.n) == trimmed(other.n) && trimmed(key.e) == trimmed(other.e)
            ==> key.public_half() == other.public_half(),
{
}

/// What is decrypted depends on the whole key, and on the ciphertext.
pub proof fn plaintexts_are_of_the_whole_key(key: MCPrivateKey, ciphertext: Seq<u8>)
    ensures
        key@.n == key.n@,
        key@.e == key.e@,
        key@.d == key.d@,
        key@.primes.len() == key.primes@.len(),
        forall|i: int| 0 <= i < key.primes@.len() ==> #[trigger] key@.primes[i] == key.primes@[i]@,
        key@.plaintext(ciphertext) == decrypted(
            key.n@,
            key.e@,
            key.d@,
            key@.primes,
            ciphertext,
        ),
{
}

/// A new key has a modulus of 1024 bits, the product of two different numbers of 64 bytes,
/// the public exponent 65537 and, as the private one, its inverse.
pub proof fn new_keys_are_whole(key: KeyPair)
    requires
        key.freshly_made(),
    ensures
        key.n.len() == 128,
        key.n[0] >= 128,
        key.primes.len() == 2,
        key.primes[0].len() == 64,
        key.primes[1].len() == 64,
        number(key.primes[0]) != number(key.primes[1]),
        number(key.n) == number(key.primes[0]) * number(key.primes[1]),
        number(key.e) == 65537,
        (number(key.e) * number(key.d)) as int % ((number(key.primes[0]) - 1) * (number(
            key.primes[1],
        ) - 1)) == 1,
{
    valid_keys_of_two_primes(key);
    reveal_with_fuel(number, 4);
    let e = key.e;
    assert(e.drop_last().drop_last().drop_last().len() == 0);
}

/// A public key is accepted up to 4096 bits, with an exponent from 2 to 2^33 - 1.
pub proof fn accepted_keys_are_bounded(n: Seq<u8>, e: Seq<u8>)
    ensures
        acceptable(n, e) <==> number(n) < pow2(4096) && number(e) > 1 && number(e) < pow2(33),
{
    vstd::arithmetic::power2::lemma2_to64();
    vstd::arithmetic::power2::lemma2_to64_rest();
}

} // verus!
