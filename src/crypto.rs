//! Keys, signatures and digests, as plain byte arrays, and the calls into
//! solana_sdk, rand and bincode that produce them.

use vstd::prelude::*;

verus! {

/// An ed25519 public key.
pub type Pubkey = [u8; 32];

/// A SHA-256 digest.
pub type Digest = [u8; 32];

/// An ed25519 signature.
pub type Signature = [u8; 64];

/// Whether `signature` is a valid ed25519 signature of `message` under `pubkey`,
/// as solana_sdk's `Signature::verify` decides it.
pub uninterp spec fn signature_valid(signature: Seq<u8>, pubkey: Seq<u8>, message: Seq<u8>) -> bool;

/// The ed25519 signature of `message` made with the key pair whose 64 bytes
/// (secret half, then public half) are `key_pair`. Ed25519 signing is
/// deterministic, so the signature depends on these alone.
pub uninterp spec fn ed25519_signature(key_pair: Seq<u8>, message: Seq<u8>) -> Seq<u8>;

/// The SHA-256 digest of `data`.
pub uninterp spec fn sha256_of(data: Seq<u8>) -> Seq<u8>;

#[verifier::external_type_specification]
#[verifier::external_body]
pub struct ExSolanaKeypair(solana_sdk::signature::Keypair);

#[verifier::external_type_specification]
#[verifier::external_body]
pub struct ExBincodeErrorKind(bincode::ErrorKind);

/// A signing key pair together with its public key.
///
/// The public key is read from the key pair once, when the value is built,
/// so that contracts can name the key that signatures verify under; its
/// bytes are recorded, as a ghost value, so that contracts can name the
/// signatures it makes. The fields are private and set together only by
/// `new` and `from_signer`, so they always describe `inner`.
pub struct Identity {
    inner: solana_sdk::signature::Keypair,
    public: Pubkey,
    key_bytes: Ghost<Seq<u8>>,
}

/// Relies on solana_sdk's `Keypair::new`: a fresh key pair from the OS's random source.
#[verifier::external_body]
fn generate_key_pair() -> (r: solana_sdk::signature::Keypair) {
    solana_sdk::signature::Keypair::new()
}

/// Relies on solana_sdk's `Signer::pubkey` for `Keypair`: the key pair's public key.
#[verifier::external_body]
fn key_pair_public(inner: &solana_sdk::signature::Keypair) -> (r: Pubkey) {
    solana_sdk::signer::Signer::pubkey(inner).to_bytes()
}

/// Relies on solana_sdk's `Keypair::to_bytes`: the key pair's 64 bytes.
#[verifier::external_body]
fn key_pair_bytes(inner: &solana_sdk::signature::Keypair) -> (r: [u8; 64]) {
    inner.to_bytes()
}

/// Relies on solana_sdk's `Signer::sign_message` for `Keypair`: the
/// (deterministic) ed25519 signature of `message` by the key pair whose bytes
/// `Keypair::to_bytes` gives, which `Signature::verify` accepts under the
/// public key that `Signer::pubkey` gives for the same key pair.
#[verifier::external_body]
fn sign_with(keypair: &Identity, message: &[u8]) -> (r: Signature)
    ensures
        r@ == ed25519_signature(keypair.key_pair_bytes(), message@),
        signature_valid(r@, keypair.public_key()@, message@),
{
    solana_sdk::signer::Signer::sign_message(&keypair.inner, message).into()
}

/// Relies on solana_sdk's `Signature::verify`: whether the signature of
/// `message` is valid under `pubkey`.
#[verifier::external_body]
fn verify_with(signature: &Signature, pubkey: &Pubkey, message: &[u8]) -> (r: bool)
    ensures
        r == signature_valid(signature@, pubkey@, message@),
{
    solana_sdk::signature::Signature::from(*signature).verify(pubkey, message)
}

/// Relies on solana_sdk's `hash::hashv`: the SHA-256 digest of the parts fed
/// one after the other into one hasher, which is the digest of their concatenation.
#[verifier::external_body]
fn hashv_pair(first: &[u8], second: &[u8]) -> (r: Digest)
    ensures
        r@ == sha256_of(first@ + second@),
{
    solana_sdk::hash::hashv(&[first, second]).to_bytes()
}

/// Relies on rand's `thread_rng` and `Rng::gen`: 32 bytes from a
/// cryptographically secure generator. Nothing is known of their value.
#[verifier::external_body]
fn random_token() -> (r: [u8; 32]) {
    rand::Rng::gen::<[u8; 32]>(&mut rand::thread_rng())
}

/// Relies on bincode's `serialize`: a byte array serialises as a tuple, one
/// byte per element in order, with no length in front. With no size limit
/// and elements that cannot fail to serialise, it always succeeds.
#[verifier::external_body]
fn bincode_token(token: &[u8; 32]) -> (r: Result<Vec<u8>, Box<bincode::ErrorKind>>)
    ensures
        r is Ok,
        r->Ok_0@ == token@,
{
    bincode::serialize(token)
}

impl Identity {
    /// The public key that this key pair's signatures verify under.
    pub closed spec fn public_key(&self) -> Pubkey {
        self.public
    }

    /// The key pair's 64 bytes: secret half, then public half.
    pub closed spec fn key_pair_bytes(&self) -> Seq<u8> {
        self.key_bytes@
    }

    /// A fresh random key pair.
    pub fn new() -> (r: Identity) {
        let inner = generate_key_pair();
        Self::from_signer(inner)
    }

    /// Wraps a key pair of solana_sdk.
    pub fn from_signer(inner: solana_sdk::signature::Keypair) -> (r: Identity) {
        let public = key_pair_public(&inner);
        let bytes = key_pair_bytes(&inner);
        Identity { inner, public, key_bytes: Ghost(bytes@) }
    }

    /// The public key.
    pub fn pubkey(&self) -> (r: Pubkey)
        ensures
            r == self.public_key(),
    {
        self.public
    }

    /// Signs `message`.
    pub fn sign_message(&self, message: &[u8]) -> (r: Signature)
        ensures
            r@ == ed25519_signature(self.key_pair_bytes(), message@),
            signature_valid(r@, self.public_key()@, message@),
    {
        sign_with(self, message)
    }
}

/// Whether `signature` is a valid signature of `message` under `pubkey`.
pub fn verify_signature(signature: &Signature, pubkey: &Pubkey, message: &[u8]) -> (r: bool)
    ensures
        r == signature_valid(signature@, pubkey@, message@),
{
    verify_with(signature, pubkey, message)
}

/// The SHA-256 digest of `first` followed by `second`.
pub fn hash_concat(first: &[u8], second: &[u8]) -> (r: Digest)
    ensures
        r@ == sha256_of(first@ + second@),
{
    hashv_pair(first, second)
}

/// A fresh random challenge token.
pub fn new_token() -> (r: [u8; 32]) {
    random_token()
}

/// The wire form of a token: its bytes, in order.
pub fn serialize_token(token: &[u8; 32]) -> (r: Result<Vec<u8>, Box<bincode::ErrorKind>>)
    ensures
        r is Ok,
        r->Ok_0@ == token@,
{
    bincode_token(token)
}

/// Whether two 32-byte arrays hold the same bytes.
pub fn bytes32_eq(a: &[u8; 32], b: &[u8; 32]) -> (r: bool)
    ensures
        r == (a@ == b@),
{
    let mut i: usize = 0;
    while i < 32
        invariant
            0 <= i <= 32,
            a@.len() == 32,
            b@.len() == 32,
            forall|j: int| 0 <= j < i ==> a@[j] == b@[j],
        decreases 32 - i,
    {
        if a[i] != b[i] {
            return false;
        }
        i = i + 1;
    }
    assert(a@ =~= b@);
    true
}

} // verus!
