//! The two ways to obtain a signature: from a key held here, or from a
//! signature captured elsewhere for one particular message.

use crate::error::Error;
use crate::types::{bytes_equal, Identity, Signature};
use solana_sdk::signer::keypair::Keypair;
use solana_sdk::signer::Signer as _;
use vstd::prelude::*;

verus! {

/// The Ed25519 signature that `solana_sdk`'s `Keypair`, read from the 64 bytes
/// `keypair`, gives over `message`; `None` where the bytes are no key pair.
pub uninterp spec fn ed25519_signature(keypair: Seq<u8>, message: Seq<u8>) -> Option<Seq<u8>>;

/// Reads a key pair with `Keypair::from_bytes` and signs with
/// `Signer::sign_message`. Ed25519 signing is deterministic, so the outcome is a
/// function of the two byte strings: a signature of 64 bytes, or nothing where
/// the bytes are rejected as a key pair.
#[verifier::external_body]
fn sign_with_keypair(keypair: &[u8; 64], message: &[u8]) -> (r: Option<Signature>)
    ensures
        r matches Some(s) ==> ed25519_signature(keypair@, message@) == Some(s.bytes@),
        r is None ==> ed25519_signature(keypair@, message@) is None,
{
    match Keypair::from_bytes(keypair) {
        Ok(pair) => Some(Signature { bytes: pair.sign_message(message).into() }),
        Err(_) => None,
    }
}

/// Whether `solana_sdk`'s `Signature::verify` accepts the 64 bytes `signature`
/// as the signature of the public key `identity` over `message`.
pub uninterp spec fn ed25519_verifies(
    identity: Seq<u8>,
    message: Seq<u8>,
    signature: Seq<u8>,
) -> bool;

/// Checks a signature with `Signature::verify`, which reads the identity as an
/// Ed25519 public key and verifies strictly; bytes that are no public key
/// verify nothing. The verdict is a function of the three byte strings.
#[verifier::external_body]
pub(crate) fn verify_with_identity(identity: &Identity, message: &[u8], signature: &Signature) -> (r:
    bool)
    ensures
        r == ed25519_verifies(identity.bytes@, message@, signature.bytes@),
{
    solana_sdk::signature::Signature::new(&signature.bytes).verify(&identity.bytes, message)
}

/// The signature that consists of `bytes`.
pub open spec fn signature_from(bytes: Seq<u8>) -> Signature {
    choose|s: Signature| s.bytes@ == bytes
}

/// A signature is determined by its bytes.
pub proof fn lemma_signature_from(s: Signature)
    ensures
        signature_from(s.bytes@) == s,
{
    broadcast use vstd::array::axiom_array_ext_equal;

    let t = signature_from(s.bytes@);
    assert(t.bytes@ == s.bytes@);
    assert(t.bytes =~= s.bytes);
}

/// What a key-backed signer answers, given what the key pair gave: the
/// signature, or `SigningFailed` where the key could not be used.
pub fn key_signing_result(signed: Option<Signature>) -> (r: Result<Signature, Error>)
    ensures
        r == match signed {
            Some(s) => Ok::<Signature, Error>(s),
            None => Err::<Signature, Error>(Error::SigningFailed),
        },
{
    match signed {
        Some(s) => Ok(s),
        None => Err(Error::SigningFailed),
    }
}

/// A signer that holds its key.
#[derive(Debug, Clone, PartialEq, Eq)]
pub struct KeySigner {
    pub identity: Identity,
    pub keypair: [u8; 64],
}

impl KeySigner {
    /// A signer for the key pair `keypair`: 32 bytes of secret key, then the
    /// 32 bytes of public key, which are the signer's identity.
    pub fn from_keypair(keypair: [u8; 64]) -> (r: KeySigner)
        ensures
            r.keypair == keypair,
            r.identity.bytes@ == keypair@.subrange(32, 64),
    {
        let mut bytes = [0u8; 32];
        let mut i: usize = 0;
        while i < 32
            invariant
                i <= 32,
                forall|k: int| 0 <= k < i ==> bytes@[k] == keypair@[32 + k],
            decreases 32 - i,
        {
            bytes[i] = keypair[32 + i];
            i += 1;
        }
        assert(bytes@ =~= keypair@.subrange(32, 64));
        KeySigner { identity: Identity { bytes }, keypair }
    }
}

/// A signature captured for one message, standing in for the party that gave it.
#[derive(Debug, Clone, PartialEq, Eq)]
pub struct Presigner {
    pub identity: Identity,
    pub signature: Signature,
    pub message: Vec<u8>,
}

/// Captures `signature` as the one that `identity` gave over `message`.
pub fn make_signer(identity: Identity, message: &[u8], signature: Signature) -> (r: Presigner)
    ensures
        r.identity == identity,
        r.signature == signature,
        r.message@ == message@,
{
    let mut copy: Vec<u8> = Vec::new();
    let mut i: usize = 0;
    while i < message.len()
        invariant
            i <= message@.len(),
            copy@ == message@.subrange(0, i as int),
        decreases message@.len() - i,
    {
        copy.push(message[i]);
        i += 1;
        assert(copy@ =~= message@.subrange(0, i as int));
    }
    assert(copy@ =~= message@);
    Presigner { identity, signature, message: copy }
}

impl Presigner {
    /// What the presigner answers for `candidate`.
    pub open spec fn answer(self, candidate: Seq<u8>) -> Result<Signature, Error> {
        if candidate == self.message@ {
            Ok(self.signature)
        } else {
            Err(Error::SignatureMismatch)
        }
    }

    /// The captured signature if `candidate` is byte for byte the captured
    /// message, and `SignatureMismatch` for every other message.
    pub fn sign(&self, candidate: &[u8]) -> (r: Result<Signature, Error>)
        ensures
            r == self.answer(candidate@),
    {
        if bytes_equal(candidate, self.message.as_slice()) {
            Ok(self.signature)
        } else {
            Err(Error::SignatureMismatch)
        }
    }
}

/// Anything that can sign: a key held here, or a captured signature.
#[derive(Debug, Clone, PartialEq, Eq)]
pub enum Signer {
    Key(KeySigner),
    Presigned(Presigner),
}

impl Signer {
    /// The identity on whose behalf the signer signs.
    pub open spec fn spec_identity(self) -> Identity {
        match self {
            Signer::Key(k) => k.identity,
            Signer::Presigned(p) => p.identity,
        }
    }

    /// What the signer answers for `message`: a key-backed signer gives what
    /// its key pair gives, or `SigningFailed` where the key cannot be used; a
    /// presigner gives its captured signature for its own message only.
    pub open spec fn answer(self, message: Seq<u8>) -> Result<Signature, Error> {
        match self {
            Signer::Key(k) => match ed25519_signature(k.keypair@, message) {
                Some(bytes) => Ok(signature_from(bytes)),
                None => Err(Error::SigningFailed),
            },
            Signer::Presigned(p) => p.answer(message),
        }
    }

    /// The identity on whose behalf the signer signs.
    pub fn identity(&self) -> (r: Identity)
        ensures
            r == self.spec_identity(),
    {
        match self {
            Signer::Key(k) => k.identity,
            Signer::Presigned(p) => p.identity,
        }
    }

    /// Signs `message`, or says why no signature can be had.
    pub fn try_sign(&self, message: &[u8]) -> (r: Result<Signature, Error>)
        ensures
            r == self.answer(message@),
    {
        match self {
            Signer::Key(k) => {
                let signed = sign_with_keypair(&k.keypair, message);
                proof {
                    if let Some(s) = signed {
                        lemma_signature_from(s);
                    }
                }
                key_signing_result(signed)
            },
            Signer::Presigned(p) => p.sign(message),
        }
    }
}

} // verus!
