use vstd::prelude::*;
use vstd::string::StringSliceAdditionalSpecFns;
use vstd::string::{StringExecFns, StrSliceExecFns};
use vstd::slice::{slice_index_get, slice_subrange};
use crate::errors::{Base58Error, CryptoHashError};
use ed25519_dalek::Signer;
use sha2::Digest;

verus! {

// ---------------------------------------------------------------------------
// Base-58, the encoding account keys and block hashes travel in.
// ---------------------------------------------------------------------------

/// What bs58 decodes a byte string to: `None` where it reports an error.
pub uninterp spec fn b58_decode_of(input: Seq<u8>) -> Option<Seq<u8>>;

/// What bs58 encodes a byte string to.
pub uninterp spec fn b58_encode_of(input: Seq<u8>) -> Seq<char>;

/// Relies on bs58::decode: decoding is a function of the input bytes alone;
/// it fails exactly on inputs that are not base-58.
#[verifier::external_body]
pub(crate) fn b58_decode(input: &[u8]) -> (r: Result<Vec<u8>, Base58Error>)
    ensures
        r matches Ok(v) ==> b58_decode_of(input@) == Some(v@),
        r is Err ==> b58_decode_of(input@) is None,
{
    match bs58::decode(input).into_vec() {
        Ok(v) => Ok(v),
        Err(bs58::decode::Error::InvalidCharacter { character, index }) => {
            Err(Base58Error::InvalidCharacter { character, index })
        },
        Err(bs58::decode::Error::NonAsciiCharacter { index }) => {
            Err(Base58Error::NonAsciiCharacter { index })
        },
        Err(_) => Err(Base58Error::Other),
    }
}

/// Relies on bs58::encode: encoding is a function of the input bytes alone.
#[verifier::external_body]
pub(crate) fn b58_encode(input: &[u8]) -> (r: String)
    ensures
        r@ == b58_encode_of(input@),
{
    bs58::encode(input).into_string()
}

// ---------------------------------------------------------------------------
// Hashing and signing primitives.
// ---------------------------------------------------------------------------

/// What SHA-256 digests a byte string to: 32 bytes, a function of the input
/// alone.
pub uninterp spec fn sha256_of(input: Seq<u8>) -> Seq<u8>;

/// Relies on sha2::Sha256 (through the Digest trait): the digest is a
/// function of the input bytes alone and is 32 bytes long.
#[verifier::external_body]
pub(crate) fn sha256(input: &[u8]) -> (r: Vec<u8>)
    ensures
        r@ == sha256_of(input@),
        r@.len() == 32,
{
    sha2::Sha256::digest(input).to_vec()
}

/// What ed25519 signs a message to, given the 32-byte seed half of a key
/// pair: RFC 8032 signing is deterministic in seed and message.
pub uninterp spec fn ed25519_signature_of(seed: Seq<u8>, message: Seq<u8>) -> Seq<u8>;

/// What ed25519 derives as the public key of a 32-byte seed.
pub uninterp spec fn ed25519_public_key_of(seed: Seq<u8>) -> Seq<u8>;

/// Relies on ed25519_dalek::SigningKey::try_sign (with from_bytes and
/// to_bytes converting at the edges): a 64-byte signature determined by the
/// seed and the message; every 32-byte seed can sign.
#[verifier::external_body]
pub(crate) fn ed25519_sign(seed_bytes: &[u8], message: &[u8]) -> (r: Option<Vec<u8>>)
    requires
        seed_bytes@.len() == 32,
    ensures
        r is Some,
        r matches Some(sig) ==> sig@ == ed25519_signature_of(seed_bytes@, message@) && sig@.len()
            == 64,
{
    let mut seed = [0u8; 32];
    seed.copy_from_slice(seed_bytes);
    let key = ed25519_dalek::SigningKey::from_bytes(&seed);
    match key.try_sign(message) {
        Ok(sig) => Some(sig.to_bytes().to_vec()),
        Err(_) => None,
    }
}

/// Relies on ed25519_dalek::SigningKey::verifying_key (with from_bytes and
/// as_bytes converting at the edges): the 32-byte public key of a seed.
#[verifier::external_body]
pub(crate) fn ed25519_public_key(seed_bytes: &[u8]) -> (r: Vec<u8>)
    requires
        seed_bytes@.len() == 32,
    ensures
        r@ == ed25519_public_key_of(seed_bytes@),
        r@.len() == 32,
{
    let mut seed = [0u8; 32];
    seed.copy_from_slice(seed_bytes);
    let key = ed25519_dalek::SigningKey::from_bytes(&seed);
    key.verifying_key().as_bytes().to_vec()
}

// ---------------------------------------------------------------------------
// CryptoHash: the 32-byte hash a block or transaction is referred to by.
// ---------------------------------------------------------------------------

/// The hash of a block or transaction.
#[derive(Debug, Clone, Copy, PartialEq, Eq, Hash)]
pub struct CryptoHash(pub [u8; 32]);

impl View for CryptoHash {
    type V = Seq<u8>;

    open spec fn view(&self) -> Seq<u8> {
        self.0@
    }
}

impl CryptoHash {
    /// The all-zero hash, a placeholder where no block reference is known.
    pub fn zero() -> (r: CryptoHash)
        ensures
            r@ == Seq::new(32, |i: int| 0u8),
    {
        let h = CryptoHash([0u8; 32]);
        proof {
            assert(h@ =~= Seq::new(32, |i: int| 0u8));
        }
        h
    }

    /// Accepts exactly 32 bytes.
    pub fn try_from_slice(bytes: &[u8]) -> (r: Result<CryptoHash, CryptoHashError>)
        ensures
            bytes@.len() == 32 ==> (r matches Ok(h) && h@ == bytes@),
            bytes@.len() != 32 ==> r == Err::<CryptoHash, CryptoHashError>(CryptoHashError::IncorrectHashLength(bytes@.len() as usize)),
    {
        if bytes.len() != 32 {
            return Err(CryptoHashError::IncorrectHashLength(bytes.len()));
        }
        let mut buf = [0u8; 32];
        let mut i: usize = 0;
        while i < 32
            invariant
                i <= 32,
                bytes@.len() == 32,
                forall|j: int| 0 <= j < i ==> buf@[j] == bytes@[j],
            decreases 32 - i,
        {
            buf[i] = bytes[i];
            i += 1;
        }
        let h = CryptoHash(buf);
        proof {
            assert(h@ =~= bytes@);
        }
        Ok(h)
    }

    /// Reads a base-58 string; accepts exactly the strings that decode to 32
    /// bytes.
    pub fn from_str(s: &str) -> (r: Result<CryptoHash, CryptoHashError>)
        ensures
            b58_decode_of(s.spec_bytes()) is None ==> r matches Err(
                CryptoHashError::Base58DecodeError(_),
            ),
            b58_decode_of(s.spec_bytes()) matches Some(b) ==> {
                &&& b.len() == 32 ==> (r matches Ok(h) && h@ == b)
                &&& b.len() != 32 ==> r == Err::<CryptoHash, CryptoHashError>(CryptoHashError::IncorrectHashLength(b.len() as usize))
            },
    {
        match b58_decode(s.as_bytes()) {
            Ok(v) => Self::try_from_slice(v.as_slice()),
            Err(e) => Err(CryptoHashError::Base58DecodeError(e)),
        }
    }

    /// The base-58 form, as the network prints hashes.
    pub fn to_base58_string(&self) -> (r: String)
        ensures
            r@ == b58_encode_of(self@),
    {
        b58_encode(self.0.as_slice())
    }
}


// ---------------------------------------------------------------------------
// Keys and signatures.
// ---------------------------------------------------------------------------

/// The curves a key can live on.
#[derive(Debug, Clone, Copy, PartialEq, Eq, Hash, Structural)]
pub enum KeyType {
    ED25519,
    SECP256K1,
}

/// The bytes of the string prefix "ed25519:".
pub open spec fn ed25519_prefix_bytes() -> Seq<u8> {
    seq![101u8, 100u8, 50u8, 53u8, 53u8, 49u8, 57u8, 58u8]
}

/// The bytes of the string prefix "secp256k1:".
pub open spec fn secp256k1_prefix_bytes() -> Seq<u8> {
    seq![115u8, 101u8, 99u8, 112u8, 50u8, 53u8, 54u8, 107u8, 49u8, 58u8]
}

/// The mathematical content of a public key: its curve and its raw bytes.
pub struct PublicKeyView {
    pub key_type: KeyType,
    pub data: Seq<u8>,
}

/// The length the raw bytes of a key on each curve must have.
pub open spec fn public_key_wf(v: PublicKeyView) -> bool {
    match v.key_type {
        KeyType::ED25519 => v.data.len() == 32,
        KeyType::SECP256K1 => v.data.len() == 64,
    }
}

/// A key the network knows an account by.
#[derive(Debug, PartialEq, Eq, Hash)]
pub struct PublicKey {
    key_type: KeyType,
    data: Vec<u8>,
}

impl View for PublicKey {
    type V = PublicKeyView;

    closed spec fn view(&self) -> PublicKeyView {
        PublicKeyView { key_type: self.key_type, data: self.data@ }
    }
}

/// A string with a curve prefix decodes to a curve and raw key bytes, or to
/// nothing where the prefix or the base-58 payload is unreadable.
pub open spec fn spec_parse_key_bytes(bytes: Seq<u8>) -> Option<(KeyType, Seq<u8>)> {
    if bytes.len() > 8 && bytes.subrange(0, 8) == ed25519_prefix_bytes() {
        match b58_decode_of(bytes.subrange(8, bytes.len() as int)) {
            Some(d) => Some((KeyType::ED25519, d)),
            None => None,
        }
    } else if bytes.len() > 10 && bytes.subrange(0, 10) == secp256k1_prefix_bytes() {
        match b58_decode_of(bytes.subrange(10, bytes.len() as int)) {
            Some(d) => Some((KeyType::SECP256K1, d)),
            None => None,
        }
    } else {
        None
    }
}

/// What a public-key string denotes: the parsed key, where its byte length
/// fits the curve.
pub open spec fn spec_parse_public_key(bytes: Seq<u8>) -> Option<PublicKeyView> {
    match spec_parse_key_bytes(bytes) {
        Some((t, d)) => {
            let v = PublicKeyView { key_type: t, data: d };
            if public_key_wf(v) {
                Some(v)
            } else {
                None
            }
        },
        None => None,
    }
}

/// Compares two byte slices for (extensional) equality.
pub(crate) fn bytes_equal(a: &[u8], b: &[u8]) -> (r: bool)
    ensures
        r == (a@ == b@),
{
    if a.len() != b.len() {
        proof {
            assert(a@.len() != b@.len());
        }
        return false;
    }
    let n = a.len();
    let mut i: usize = 0;
    while i < n
        invariant
            i <= n,
            n == a@.len(),
            n == b@.len(),
            forall|j: int| 0 <= j < i ==> a@[j] == b@[j],
        decreases n - i,
    {
        if *slice_index_get(a, i) != *slice_index_get(b, i) {
            proof {
                assert(a@[i as int] != b@[i as int]);
            }
            return false;
        }
        i += 1;
    }
    proof {
        assert(a@ =~= b@);
    }
    true
}

/// Parses the common prefixed key form: a curve name, a colon, and base-58
/// raw bytes.
fn parse_key_bytes(s: &str) -> (r: Option<(KeyType, Vec<u8>)>)
    ensures
        r matches Some(p) ==> spec_parse_key_bytes(s.spec_bytes()) == Some((p.0, p.1@)),
        r is None ==> spec_parse_key_bytes(s.spec_bytes()) is None,
{
    let bytes = s.as_bytes();
    let ed_prefix: Vec<u8> = vec![101u8, 100u8, 50u8, 53u8, 53u8, 49u8, 57u8, 58u8];
    let secp_prefix: Vec<u8> = vec![115u8, 101u8, 99u8, 112u8, 50u8, 53u8, 54u8, 107u8, 49u8, 58u8];
    proof {
        assert(ed_prefix@ =~= ed25519_prefix_bytes());
        assert(secp_prefix@ =~= secp256k1_prefix_bytes());
    }
    if bytes.len() > 8 && bytes_equal(slice_subrange(bytes, 0, 8), ed_prefix.as_slice()) {
        match b58_decode(slice_subrange(bytes, 8, bytes.len())) {
            Ok(d) => Some((KeyType::ED25519, d)),
            Err(_) => None,
        }
    } else if bytes.len() > 10 && bytes_equal(slice_subrange(bytes, 0, 10), secp_prefix.as_slice()) {
        match b58_decode(slice_subrange(bytes, 10, bytes.len())) {
            Ok(d) => Some((KeyType::SECP256K1, d)),
            Err(_) => None,
        }
    } else {
        None
    }
}

impl DeepView for PublicKey {
    type V = PublicKeyView;

    open spec fn deep_view(&self) -> PublicKeyView {
        self.view()
    }
}

impl PublicKey {
    #[verifier::type_invariant]
    closed spec fn inv(self) -> bool {
        public_key_wf(self@)
    }

    /// Accepts exactly 32 bytes as an ed25519 public key.
    pub fn ed25519_from_bytes(data: Vec<u8>) -> (r: Option<PublicKey>)
        ensures
            data@.len() == 32 ==> (r matches Some(k) && k@ == PublicKeyView {
                key_type: KeyType::ED25519,
                data: data@,
            }),
            data@.len() != 32 ==> r is None,
    {
        if data.len() == 32 {
            Some(PublicKey { key_type: KeyType::ED25519, data })
        } else {
            None
        }
    }

    /// Accepts exactly 64 bytes as a secp256k1 public key.
    pub fn secp256k1_from_bytes(data: Vec<u8>) -> (r: Option<PublicKey>)
        ensures
            data@.len() == 64 ==> (r matches Some(k) && k@ == PublicKeyView {
                key_type: KeyType::SECP256K1,
                data: data@,
            }),
            data@.len() != 64 ==> r is None,
    {
        if data.len() == 64 {
            Some(PublicKey { key_type: KeyType::SECP256K1, data })
        } else {
            None
        }
    }

    /// Reads the prefixed string form, e.g. "ed25519:" and 32 base-58 bytes.
    pub fn from_str(s: &str) -> (r: Option<PublicKey>)
        ensures
            r matches Some(k) ==> spec_parse_public_key(s.spec_bytes()) == Some(k@),
            r is None ==> spec_parse_public_key(s.spec_bytes()) is None,
    {
        match parse_key_bytes(s) {
            Some((KeyType::ED25519, d)) => Self::ed25519_from_bytes(d),
            Some((KeyType::SECP256K1, d)) => Self::secp256k1_from_bytes(d),
            None => None,
        }
    }

    pub fn key_type(&self) -> (r: KeyType)
        ensures
            r == self@.key_type,
    {
        self.key_type
    }

    pub fn key_data(&self) -> (r: &Vec<u8>)
        ensures
            r@ == self@.data,
    {
        &self.data
    }

    /// Every held key has the byte length its curve demands.
    pub fn assert_wf(&self)
        ensures
            public_key_wf(self@),
    {
        proof {
            use_type_invariant(self);
        }
    }

    /// Value equality, usable in contracts.
    pub fn matches_key(&self, other: &PublicKey) -> (r: bool)
        ensures
            r == (self@.key_type == other@.key_type && self@.data == other@.data),
    {
        if !(matches!(self.key_type, KeyType::ED25519) == matches!(other.key_type, KeyType::ED25519)) {
            return false;
        }
        bytes_equal(self.data.as_slice(), other.data.as_slice())
    }

    /// The prefixed string form the network prints.
    pub fn to_prefixed_string(&self) -> (r: String)
        ensures
            self@.key_type == KeyType::ED25519 ==> r@ == "ed25519:"@ + b58_encode_of(self@.data),
            self@.key_type == KeyType::SECP256K1 ==> r@ == "secp256k1:"@ + b58_encode_of(
                self@.data,
            ),
    {
        let mut out = match self.key_type {
            KeyType::ED25519 => String::from_str("ed25519:"),
            KeyType::SECP256K1 => String::from_str("secp256k1:"),
        };
        let tail = b58_encode(self.data.as_slice());
        out.append(tail.as_str());
        out
    }
}

/// The mathematical content of a secret key: its curve and its raw bytes.
/// For ed25519 the bytes are the 64-byte key pair, seed first.
pub struct SecretKeyView {
    pub key_type: KeyType,
    pub data: Seq<u8>,
}

pub open spec fn secret_key_wf(v: SecretKeyView) -> bool {
    match v.key_type {
        KeyType::ED25519 => v.data.len() == 64,
        KeyType::SECP256K1 => v.data.len() == 32,
    }
}

/// The private half of a key pair.
#[derive(Debug, PartialEq, Eq)]
pub struct SecretKey {
    key_type: KeyType,
    data: Vec<u8>,
}

impl View for SecretKey {
    type V = SecretKeyView;

    closed spec fn view(&self) -> SecretKeyView {
        SecretKeyView { key_type: self.key_type, data: self.data@ }
    }
}

/// What a secret-key string denotes: the parsed key, where its byte length
/// fits the curve.
pub open spec fn spec_parse_secret_key(bytes: Seq<u8>) -> Option<SecretKeyView> {
    match spec_parse_key_bytes(bytes) {
        Some((t, d)) => {
            let v = SecretKeyView { key_type: t, data: d };
            if secret_key_wf(v) {
                Some(v)
            } else {
                None
            }
        },
        None => None,
    }
}

impl SecretKey {
    #[verifier::type_invariant]
    closed spec fn inv(self) -> bool {
        secret_key_wf(self@)
    }

    /// Accepts exactly 64 bytes as an ed25519 key pair, seed first.
    pub fn ed25519_from_bytes(data: Vec<u8>) -> (r: Option<SecretKey>)
        ensures
            data@.len() == 64 ==> (r matches Some(k) && k@ == SecretKeyView {
                key_type: KeyType::ED25519,
                data: data@,
            }),
            data@.len() != 64 ==> r is None,
    {
        if data.len() == 64 {
            Some(SecretKey { key_type: KeyType::ED25519, data })
        } else {
            None
        }
    }

    /// Reads the prefixed string form, e.g. "ed25519:" and 64 base-58 bytes.
    pub fn from_str(s: &str) -> (r: Option<SecretKey>)
        ensures
            r matches Some(k) ==> spec_parse_secret_key(s.spec_bytes()) == Some(k@),
            r is None ==> spec_parse_secret_key(s.spec_bytes()) is None,
    {
        match parse_key_bytes(s) {
            Some((KeyType::ED25519, d)) => {
                if d.len() == 64 {
                    Some(SecretKey { key_type: KeyType::ED25519, data: d })
                } else {
                    None
                }
            },
            Some((KeyType::SECP256K1, d)) => {
                if d.len() == 32 {
                    Some(SecretKey { key_type: KeyType::SECP256K1, data: d })
                } else {
                    None
                }
            },
            None => None,
        }
    }

    pub fn key_type(&self) -> (r: KeyType)
        ensures
            r == self@.key_type,
    {
        self.key_type
    }

    /// Every held key has the byte length its curve demands.
    pub fn assert_wf(&self)
        ensures
            secret_key_wf(self@),
    {
        proof {
            use_type_invariant(self);
        }
    }

    /// The public key of an ed25519 key pair, derived from its seed half.
    pub fn public_key(&self) -> (r: Option<PublicKey>)
        ensures
            self@.key_type == KeyType::ED25519 ==> (r matches Some(k) && k@ == PublicKeyView {
                key_type: KeyType::ED25519,
                data: ed25519_public_key_of(self@.data.subrange(0, 32)),
            }),
            self@.key_type != KeyType::ED25519 ==> r is None,
    {
        proof {
            use_type_invariant(self);
        }
        match self.key_type {
            KeyType::ED25519 => {
                let seed = slice_subrange(self.data.as_slice(), 0, 32);
                let pk = ed25519_public_key(seed);
                PublicKey::ed25519_from_bytes(pk)
            },
            KeyType::SECP256K1 => None,
        }
    }

    /// Signs a message with an ed25519 key pair; only that curve signs
    /// here.
    pub fn sign(&self, message: &[u8]) -> (r: Option<Signature>)
        ensures
            self@.key_type == KeyType::ED25519 ==> (r matches Some(sig) && sig@ == SignatureView {
                key_type: KeyType::ED25519,
                data: ed25519_signature_of(self@.data.subrange(0, 32), message@),
            }),
            self@.key_type != KeyType::ED25519 ==> r is None,
    {
        proof {
            use_type_invariant(self);
        }
        match self.key_type {
            KeyType::ED25519 => {
                let seed = slice_subrange(self.data.as_slice(), 0, 32);
                match ed25519_sign(seed, message) {
                    Some(sig) => Some(Signature { key_type: KeyType::ED25519, data: sig }),
                    None => None,
                }
            },
            KeyType::SECP256K1 => None,
        }
    }
}

/// The mathematical content of a signature.
pub struct SignatureView {
    pub key_type: KeyType,
    pub data: Seq<u8>,
}

/// A signature over a transaction or delegate action.
#[derive(Debug, PartialEq, Eq)]
pub struct Signature {
    key_type: KeyType,
    data: Vec<u8>,
}

impl View for Signature {
    type V = SignatureView;

    closed spec fn view(&self) -> SignatureView {
        SignatureView { key_type: self.key_type, data: self.data@ }
    }
}

impl Clone for Signature {
    fn clone(&self) -> (r: Self)
        ensures
            r@ == self@,
    {
        Signature { key_type: self.key_type, data: clone_u8_vec(&self.data) }
    }
}

impl Signature {
    pub fn key_type(&self) -> (r: KeyType)
        ensures
            r == self@.key_type,
    {
        self.key_type
    }

    pub fn sig_data(&self) -> (r: &Vec<u8>)
        ensures
            r@ == self@.data,
    {
        &self.data
    }
}


impl Clone for PublicKey {
    fn clone(&self) -> (r: Self)
        ensures
            r@ == self@,
    {
        proof {
            use_type_invariant(self);
        }
        let r = PublicKey { key_type: self.key_type, data: clone_u8_vec(&self.data) };
        r
    }
}

impl Clone for SecretKey {
    fn clone(&self) -> (r: Self)
        ensures
            r@ == self@,
    {
        proof {
            use_type_invariant(self);
        }
        let r = SecretKey { key_type: self.key_type, data: clone_u8_vec(&self.data) };
        r
    }
}

/// Copies a byte vector; the copy holds the same bytes.
pub(crate) fn clone_u8_vec(v: &Vec<u8>) -> (r: Vec<u8>)
    ensures
        r@ == v@,
{
    let mut out: Vec<u8> = Vec::new();
    let n = v.len();
    let mut i: usize = 0;
    while i < n
        invariant
            i <= n,
            n == v@.len(),
            out@ == v@.subrange(0, i as int),
        decreases n - i,
    {
        out.push(v[i]);
        proof {
            assert(out@ =~= v@.subrange(0, i + 1 as int));
        }
        i += 1;
    }
    proof {
        assert(out@ =~= v@);
    }
    out
}

} // verus!
