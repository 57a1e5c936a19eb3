use vstd::prelude::*;
use vstd::string::{StrSliceExecFns, StringExecFns};
use crate::account_id::AccountId;
use crate::crypto::{bytes_equal, PublicKey, SecretKey};
use crate::encoding::action_wf;
use crate::errors::{KeyStoreError, LedgerError, SignerError};
use crate::execution::sign_transaction;
use crate::query::AccessKeyInfo;
use crate::transactions::{PrepopulateTransaction, SignedTransaction, Transaction};

verus! {

// ---------------------------------------------------------------------------
// The OS credential store, reached through trusted items. What it holds
// depends on the machine, so nothing is promised of the outcomes.
// ---------------------------------------------------------------------------

#[verifier::external_type_specification]
#[verifier::external_body]
pub struct ExKeyringEntry(keyring::Entry);

#[verifier::external_type_specification]
#[verifier::external_body]
pub struct ExKeyringError(keyring::Error);

/// Relies on keyring::Entry::new: opens the store entry of a service and
/// user; the outcome depends on the machine's credential store.
#[verifier::external_body]
fn keyring_entry_new(service: &str, user: &str) -> (r: Result<keyring::Entry, keyring::Error>) {
    keyring::Entry::new(service, user)
}

/// Relies on keyring::Entry::get_password: reads the stored secret; the
/// outcome depends on the machine's credential store.
#[verifier::external_body]
fn keyring_get_password(entry: &keyring::Entry) -> (r: Result<String, keyring::Error>) {
    entry.get_password()
}

/// Relies on the Display impl of keyring::Error, for reporting only.
#[verifier::external_body]
fn keyring_error_message(e: &keyring::Error) -> (r: String) {
    format!("{}", e)
}

/// The two string fields a stored key-pair record carries, where it
/// carries them: a function of the record text alone.
pub uninterp spec fn key_pair_record_fields(record: Seq<char>) -> Option<(Seq<char>, Seq<char>)>;

/// Relies on serde_json::from_str and Value::{get, as_str}: reads the two
/// string fields a stored key-pair record carries — a deterministic
/// function of the record text. The strings themselves are checked
/// afterwards by the verified key parsers.
#[verifier::external_body]
fn parse_key_pair_record(record: &str) -> (r: Option<(String, String)>)
    ensures
        r matches Some(p) ==> key_pair_record_fields(record@) == Some((p.0@, p.1@)),
        r is None ==> key_pair_record_fields(record@) is None,
{
    let value: serde_json::Value = serde_json::from_str(record).ok()?;
    let public_key = value.get("public_key")?.as_str()?.to_owned();
    let private_key = value.get("private_key")?.as_str()?.to_owned();
    Some((public_key, private_key))
}

/// A key pair as the credential store hands it out.
#[derive(Debug, PartialEq, Eq)]
pub struct AccountKeyPair {
    pub public_key: PublicKey,
    pub private_key: SecretKey,
}

/// The service name a network's keys are stored under.
fn keystore_service_name(network_name: &str, account_id: &AccountId) -> (r: String)
    ensures
        r@ == "near-"@ + network_name@ + "-"@ + account_id@,
{
    let mut s = String::from_str("near-");
    s.append(network_name);
    s.append("-");
    s.append(account_id.as_str());
    s
}

/// The user name one key is stored under.
fn keystore_user_name(account_id: &AccountId, public_key: &PublicKey) -> (r: String)
    ensures
        ({
            let keystr = match public_key@.key_type {
                crate::crypto::KeyType::ED25519 => "ed25519:"@ + crate::crypto::b58_encode_of(
                    public_key@.data,
                ),
                crate::crypto::KeyType::SECP256K1 => "secp256k1:"@ + crate::crypto::b58_encode_of(
                    public_key@.data,
                ),
            };
            r@ == account_id@ + ":"@ + keystr
        }),
{
    let mut s = String::from_str(account_id.as_str());
    s.append(":");
    let keystr = public_key.to_prefixed_string();
    s.append(keystr.as_str());
    s
}

/// Resolves one key pair from the credential store. Which record the
/// store answers with depends on the machine, but whatever comes back, the
/// returned keys are exactly what the verified key parsers read from that
/// record's two fields; any failure to open, read or parse is reported.
pub fn get_secret_key(
    account_id: &AccountId,
    public_key: &PublicKey,
    network_name: &str,
) -> (r: Result<AccountKeyPair, KeyStoreError>)
    ensures
        r matches Ok(kp) ==> crate::crypto::secret_key_wf(kp.private_key@),
        r matches Ok(kp) ==> (exists|record: Seq<char>, pub_s: Seq<char>, priv_s: Seq<char>|
            #![trigger key_pair_record_fields(record), vstd::utf8::encode_utf8(pub_s), vstd::utf8::encode_utf8(priv_s)]
            {
                &&& key_pair_record_fields(record) == Some((pub_s, priv_s))
                &&& crate::crypto::spec_parse_public_key(vstd::utf8::encode_utf8(pub_s)) == Some(
                    kp.public_key@,
                )
                &&& crate::crypto::spec_parse_secret_key(vstd::utf8::encode_utf8(priv_s)) == Some(
                    kp.private_key@,
                )
            }),
{
    let service = keystore_service_name(network_name, account_id);
    let user = keystore_user_name(account_id, public_key);
    let entry = match keyring_entry_new(service.as_str(), user.as_str()) {
        Ok(e) => e,
        Err(e) => {
            return Err(KeyStoreError::Keystore(keyring_error_message(&e)));
        },
    };
    let record = match keyring_get_password(&entry) {
        Ok(p) => p,
        Err(e) => {
            return Err(KeyStoreError::Keystore(keyring_error_message(&e)));
        },
    };
    let (public_str, private_str) = match parse_key_pair_record(record.as_str()) {
        Some(p) => p,
        None => {
            return Err(KeyStoreError::ParseError(String::from_str(
                "the stored record does not carry a key pair",
            )));
        },
    };
    let parsed_public = match PublicKey::from_str(public_str.as_str()) {
        Some(k) => k,
        None => {
            return Err(KeyStoreError::ParseError(String::from_str(
                "the stored public key does not parse",
            )));
        },
    };
    let parsed_private = match SecretKey::from_str(private_str.as_str()) {
        Some(k) => k,
        None => {
            return Err(KeyStoreError::ParseError(String::from_str(
                "the stored private key does not parse",
            )));
        },
    };
    parsed_private.assert_wf();
    proof {
        assert(key_pair_record_fields(record@) == Some((public_str@, private_str@)));
        assert(crate::crypto::spec_parse_public_key(vstd::utf8::encode_utf8(public_str@)) == Some(
            parsed_public@,
        ));
        assert(crate::crypto::spec_parse_secret_key(vstd::utf8::encode_utf8(private_str@)) == Some(
            parsed_private@,
        ));
    }
    Ok(AccountKeyPair { public_key: parsed_public, private_key: parsed_private })
}

// ---------------------------------------------------------------------------
// The signer backends.
// ---------------------------------------------------------------------------

/// A signer that holds its key in memory.
#[derive(Debug, PartialEq, Eq)]
pub struct SecretKeySigner {
    pub secret_key: SecretKey,
}

impl SecretKeySigner {
    pub fn new(secret_key: SecretKey) -> (r: SecretKeySigner)
        ensures
            r.secret_key@ == secret_key@,
    {
        SecretKeySigner { secret_key }
    }

    /// The public half of the held key — the one derived from its seed —
    /// or the key-unavailable error where the curve is not one this signer
    /// can derive from.
    pub fn get_public_key(&self) -> (r: Result<PublicKey, SignerError>)
        ensures
            self.secret_key@.key_type == crate::crypto::KeyType::ED25519 ==> (r matches Ok(k) && k@
                == crate::crypto::PublicKeyView {
                key_type: crate::crypto::KeyType::ED25519,
                data: crate::crypto::ed25519_public_key_of(self.secret_key@.data.subrange(0, 32)),
            }),
            self.secret_key@.key_type != crate::crypto::KeyType::ED25519 ==> r == Err::<
                PublicKey,
                SignerError,
            >(SignerError::PublicKeyIsNotAvailable),
    {
        match self.secret_key.public_key() {
            Some(k) => Ok(k),
            None => Err(SignerError::PublicKeyIsNotAvailable),
        }
    }
}

/// How many of the first `n` listed keys carry full access.
pub open spec fn spec_full_access_count(keys: Seq<AccessKeyInfo>, n: int) -> int
    decreases n,
{
    if n <= 0 {
        0
    } else {
        spec_full_access_count(keys, n - 1) + (if keys[n - 1].access_key.permission
            is FullAccess {
            1int
        } else {
            0int
        })
    }
}

/// Without a full-access key there is nothing to count.
proof fn lemma_full_access_count_none(keys: Seq<AccessKeyInfo>, n: int)
    requires
        n <= keys.len(),
        forall|j: int|
            0 <= j < keys.len() ==> !((#[trigger] keys[j]).access_key.permission is FullAccess),
    ensures
        spec_full_access_count(keys, n) <= 0,
    decreases n,
{
    if n > 0 {
        lemma_full_access_count_none(keys, n - 1);
    }
}

/// A signer whose keys live in the OS credential store: only keys that
/// were resolved there count as potential signing keys.
#[derive(Debug, PartialEq, Eq)]
pub struct KeystoreSigner {
    potential_pubkeys: Vec<PublicKey>,
}

impl View for KeystoreSigner {
    type V = Seq<crate::crypto::PublicKeyView>;

    closed spec fn view(&self) -> Seq<crate::crypto::PublicKeyView> {
        self.potential_pubkeys.deep_view()
    }
}

impl KeystoreSigner {
    /// A signer that trusts one known key without consulting the store.
    pub fn new_with_pubkey(pub_key: PublicKey) -> (r: KeystoreSigner)
        ensures
            r@.len() == 1,
            r@[0] == pub_key@,
    {
        let mut keys: Vec<PublicKey> = Vec::new();
        keys.push(pub_key);
        KeystoreSigner { potential_pubkeys: keys }
    }

    /// Resolves an account's full-access keys against the credential
    /// store; only the keys the store could resolve become potential
    /// signing keys. The caller fetches the key list from the network.
    /// Function-call-restricted keys never count, so the result is bounded
    /// by the full-access keys of the list; which of those resolve is the
    /// store's to decide.
    pub fn from_access_key_list(
        account_id: &AccountId,
        network_name: &str,
        keys: Vec<AccessKeyInfo>,
    ) -> (r: KeystoreSigner)
        ensures
            r@.len() <= spec_full_access_count(keys@, keys@.len() as int),
            (forall|i: int|
                0 <= i < keys@.len() ==> !((#[trigger] keys@[i]).access_key.permission
                    is FullAccess)) ==> r@.len() == 0,
    {
        let mut found: Vec<PublicKey> = Vec::new();
        let n = keys.len();
        let mut i: usize = 0;
        while i < n
            invariant
                i <= n,
                n == keys@.len(),
                found@.len() <= spec_full_access_count(keys@, i as int),
            decreases n - i,
        {
            let info = &keys[i];
            let full_access = matches!(
                info.access_key.permission,
                crate::actions::AccessKeyPermission::FullAccess
            );
            if full_access {
                match get_secret_key(account_id, &info.public_key, network_name) {
                    Ok(kp) => {
                        found.push(kp.public_key);
                    },
                    Err(_) => {},
                }
            }
            i += 1;
        }
        proof {
            if forall|j: int|
                0 <= j < keys@.len() ==> !((#[trigger] keys@[j]).access_key.permission
                    is FullAccess) {
                lemma_full_access_count_none(keys@, n as int);
            }
        }
        KeystoreSigner { potential_pubkeys: found }
    }

    /// The first potential key; fails where the store resolved none.
    pub fn get_public_key(&self) -> (r: Result<PublicKey, SignerError>)
        ensures
            self@.len() == 0 <==> r == Err::<PublicKey, SignerError>(
                SignerError::PublicKeyIsNotAvailable,
            ),
            self@.len() > 0 ==> (r matches Ok(k) && k@ == self@[0]),
    {
        if self.potential_pubkeys.len() > 0 {
            Ok(self.potential_pubkeys[0].clone())
        } else {
            Err(SignerError::PublicKeyIsNotAvailable)
        }
    }

    /// Whether the chosen key is among the potential signing keys.
    pub fn holds_key(&self, public_key: &PublicKey) -> (r: bool)
        ensures
            r == exists|i: int| 0 <= i < self@.len() && #[trigger] self@[i] == public_key@,
    {
        let n = self.potential_pubkeys.len();
        let mut i: usize = 0;
        while i < n
            invariant
                i <= n,
                n == self.potential_pubkeys@.len(),
                forall|j: int| 0 <= j < i ==> #[trigger] self@[j] != public_key@,
            decreases n - i,
        {
            if self.potential_pubkeys[i].matches_key(public_key) {
                proof {
                    assert(self@[i as int] == self.potential_pubkeys@[i as int]@);
                    assert(self@[i as int] == public_key@);
                }
                return true;
            }
            i += 1;
        }
        false
    }

    /// Addresses the transaction and resolves the chosen key's private
    /// half. A key the signer never resolved fails as public-key-unavailable;
    /// a key the store cannot produce the private half for — under the main
    /// network's name, then the test network's — fails as
    /// secret-key-unavailable.
    pub fn tx_and_secret(
        &self,
        tr: PrepopulateTransaction,
        public_key: PublicKey,
        nonce: u64,
        block_hash: crate::crypto::CryptoHash,
    ) -> (r: Result<(Transaction, SecretKey), SignerError>)
        ensures
            !(exists|i: int| 0 <= i < self@.len() && #[trigger] self@[i] == public_key@) <==> r
                == Err::<(Transaction, SecretKey), SignerError>(
                SignerError::PublicKeyIsNotAvailable,
            ),
            r matches Err(e) ==> (e == SignerError::PublicKeyIsNotAvailable || e
                == SignerError::SecretKeyIsNotAvailable),
            r matches Ok(p) ==> {
                &&& p.0@.signer_id == tr@.signer_id
                &&& p.0@.receiver_id == tr@.receiver_id
                &&& p.0@.actions == tr@.actions
                &&& p.0@.public_key == public_key@
                &&& p.0@.nonce == nonce
                &&& p.0@.block_hash == block_hash@
            },
    {
        if !self.holds_key(&public_key) {
            return Err(SignerError::PublicKeyIsNotAvailable);
        }
        let secret = match get_secret_key(&tr.signer_id, &public_key, "mainnet") {
            Ok(kp) => kp.private_key,
            Err(_) => {
                match get_secret_key(&tr.signer_id, &public_key, "testnet") {
                    Ok(kp) => kp.private_key,
                    Err(_) => {
                        return Err(SignerError::SecretKeyIsNotAvailable);
                    },
                }
            },
        };
        let tx = Transaction::from_prepopulated(tr, public_key, nonce, block_hash);
        Ok((tx, secret))
    }
}

/// The signing backends, a closed set behind one contract. The hardware
/// backend lives outside the verified core and reports through the same
/// error taxonomy.
#[derive(Debug, PartialEq, Eq)]
pub enum Signer {
    SecretKey(SecretKeySigner),
    Keystore(KeystoreSigner),
}

impl Signer {
    /// The key this signer would sign with: the derived public half of an
    /// in-memory ed25519 key, or the first store-resolved key; the
    /// key-unavailable error where neither exists.
    pub fn get_public_key(&self) -> (r: Result<PublicKey, SignerError>)
        ensures
            self matches Signer::SecretKey(s) ==> {
                &&& s.secret_key@.key_type == crate::crypto::KeyType::ED25519 <==> r is Ok
                &&& r matches Ok(k) ==> k@ == crate::crypto::PublicKeyView {
                    key_type: crate::crypto::KeyType::ED25519,
                    data: crate::crypto::ed25519_public_key_of(
                        s.secret_key@.data.subrange(0, 32),
                    ),
                }
                &&& r matches Err(e) ==> e == SignerError::PublicKeyIsNotAvailable
            },
            self matches Signer::Keystore(ks) ==> {
                &&& ks@.len() == 0 <==> r == Err::<PublicKey, SignerError>(
                    SignerError::PublicKeyIsNotAvailable,
                )
                &&& ks@.len() > 0 ==> (r matches Ok(k) && k@ == ks@[0])
            },
    {
        match self {
            Signer::SecretKey(s) => s.get_public_key(),
            Signer::Keystore(k) => k.get_public_key(),
        }
    }

    /// Addresses, resolves and signs in one step, against whichever
    /// backend this signer is.
    pub fn sign(
        &self,
        tr: PrepopulateTransaction,
        public_key: PublicKey,
        nonce: u64,
        block_hash: crate::crypto::CryptoHash,
    ) -> (r: Result<SignedTransaction, SignerError>)
        requires
            tr@.actions.len() < 0x1_0000_0000,
            forall|i: int| 0 <= i < tr@.actions.len() ==> action_wf(#[trigger] tr@.actions[i]),
        ensures
            (self matches Signer::SecretKey(s) && s.secret_key@.key_type
                == crate::crypto::KeyType::ED25519) ==> r is Ok,
            r matches Ok(st) ==> {
                &&& st.transaction@.signer_id == tr@.signer_id
                &&& st.transaction@.receiver_id == tr@.receiver_id
                &&& st.transaction@.actions == tr@.actions
                &&& st.transaction@.public_key == public_key@
                &&& st.transaction@.nonce == nonce
                &&& st.transaction@.block_hash == block_hash@
            },
    {
        match self {
            Signer::SecretKey(s) => {
                tr.signer_id.assert_valid();
                tr.receiver_id.assert_valid();
                public_key.assert_wf();
                let tx = Transaction::from_prepopulated(tr, public_key, nonce, block_hash);
                sign_transaction(tx, &s.secret_key)
            },
            Signer::Keystore(k) => {
                let (tx, secret) = match k.tx_and_secret(tr, public_key, nonce, block_hash) {
                    Ok(p) => p,
                    Err(e) => {
                        return Err(e);
                    },
                };
                tx.signer_id.assert_valid();
                tx.receiver_id.assert_valid();
                tx.public_key.assert_wf();
                sign_transaction(tx, &secret)
            },
        }
    }
}

// ---------------------------------------------------------------------------
// The hardware device's error taxonomy.
// ---------------------------------------------------------------------------

/// Whether `needle` occurs as a contiguous run inside `haystack`.
pub open spec fn spec_contains_bytes(haystack: Seq<u8>, needle: Seq<u8>) -> bool {
    exists|i: int|
        0 <= i && i + needle.len() <= haystack.len() && #[trigger] haystack.subrange(
            i,
            i + needle.len(),
        ) == needle
}

/// Byte-level substring search.
pub fn contains_bytes(haystack: &[u8], needle: &[u8]) -> (r: bool)
    ensures
        r == spec_contains_bytes(haystack@, needle@),
{
    let n = haystack.len();
    let m = needle.len();
    if m > n {
        proof {
            assert(!spec_contains_bytes(haystack@, needle@));
        }
        return false;
    }
    if m == 0 {
        proof {
            assert(haystack@.subrange(0, 0 + needle@.len() as int) =~= needle@);
        }
        return true;
    }
    let mut i: usize = 0;
    while i <= n - m
        invariant
            1 <= m <= n,
            n == haystack@.len(),
            m == needle@.len(),
            i <= n - m + 1,
            forall|k: int|
                0 <= k < i ==> #[trigger] haystack@.subrange(k, k + needle@.len()) != needle@,
        decreases n - m + 1 - i,
    {
        if bytes_equal(
            vstd::slice::slice_subrange(haystack, i, i + m),
            needle,
        ) {
            return true;
        }
        i += 1;
    }
    false
}

/// The status word the device reports when a payload is too large for it.
pub open spec fn spec_buffer_overflow_marker() -> Seq<u8> {
    seq![48u8, 120u8, 54u8, 57u8, 57u8, 48u8]
}

/// Classifies a device exchange error by its message: the buffer-overflow
/// status word means the payload was too large for signature; everything
/// else is carried through as a device error.
pub fn ledger_error_from_exchange(message: String) -> (r: LedgerError)
    ensures
        spec_contains_bytes(vstd::utf8::encode_utf8(message@), spec_buffer_overflow_marker())
            ==> r == LedgerError::BufferOverflow,
        !spec_contains_bytes(vstd::utf8::encode_utf8(message@), spec_buffer_overflow_marker())
            ==> (r matches LedgerError::LedgerError(m) && m@ == message@),
{
    let marker: Vec<u8> = vec![48u8, 120u8, 54u8, 57u8, 57u8, 48u8];
    proof {
        assert(marker@ =~= spec_buffer_overflow_marker());
    }
    let found = contains_bytes(message.as_str().as_bytes(), marker.as_slice());
    if found {
        LedgerError::BufferOverflow
    } else {
        LedgerError::LedgerError(message)
    }
}

} // verus!
