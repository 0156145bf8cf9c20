//! Agent identity with Ed25519 keys.
//!
//! An identity binds an agent id, an Ed25519 keypair and a capability vector.
//! The agent id is always the one derived from the public key, and the public
//! key is always the one derived from the secret key.

use ed25519_dalek::Signer;
use ed25519_dalek::Verifier;

use vstd::prelude::*;

use crate::error::{Result, SwarmError};
use crate::types::{agent_id_text, AgentId};

verus! {

/// The compressed public key that Ed25519 derives from a 32-byte secret key
/// (`ed25519_dalek::SigningKey::verifying_key`).
pub uninterp spec fn ed25519_public_key(secret_key: Seq<u8>) -> Seq<u8>;

/// The Ed25519 signature of `message` under a 32-byte secret key
/// (`ed25519_dalek::Signer::sign` for `SigningKey`; Ed25519 signing is deterministic).
pub uninterp spec fn ed25519_signature(secret_key: Seq<u8>, message: Seq<u8>) -> Seq<u8>;

/// Whether 32 bytes decompress to a curve point (`ed25519_dalek::VerifyingKey::from_bytes`).
pub uninterp spec fn ed25519_key_decodes(public_key: Seq<u8>) -> bool;

/// Whether Ed25519 verification accepts `signature` on `message` under a
/// public key (`ed25519_dalek::Verifier::verify` for `VerifyingKey`).
pub uninterp spec fn ed25519_accepts(public_key: Seq<u8>, message: Seq<u8>, signature: Seq<u8>) -> bool;

/// Whether strict Ed25519 verification, which also rejects small-order keys
/// and R values, accepts `signature` on `message` under a public key
/// (`ed25519_dalek::VerifyingKey::verify_strict`).
pub uninterp spec fn ed25519_accepts_strict(
    public_key: Seq<u8>,
    message: Seq<u8>,
    signature: Seq<u8>,
) -> bool;

/// A fresh random secret key: `SigningKey::generate` over the operating
/// system's CSPRNG (`rand::rngs::OsRng`), returned as its 32 bytes.
/// Nothing is claimed of the bytes.
#[verifier::external_body]
fn generate_secret_key() -> (secret_key: [u8; 32]) {
    ed25519_dalek::SigningKey::generate(&mut rand::rngs::OsRng).to_bytes()
}

/// `SigningKey::verifying_key` of the key built from `secret_key`, as bytes.
/// Claims the result is the named public key of the secret, and that it
/// decodes: it is the compression of a curve point, and
/// `VerifyingKey::from_bytes` decompresses every such compression.
#[verifier::external_body]
fn derive_public_key(secret_key: &[u8; 32]) -> (public_key: [u8; 32])
    ensures
        public_key@ == ed25519_public_key(secret_key@),
        ed25519_key_decodes(public_key@),
{
    ed25519_dalek::SigningKey::from_bytes(secret_key).verifying_key().to_bytes()
}

/// `Signer::sign` of the key built from `secret_key`, as the 64 signature
/// bytes. Claims the result is the named signature, and that
/// `VerifyingKey::verify` accepts it on `message` under the public key of
/// the same secret, which is Ed25519's correctness for honest signatures.
#[verifier::external_body]
pub(crate) fn sign_message(secret_key: &[u8; 32], message: &[u8]) -> (signature: [u8; 64])
    ensures
        signature@ == ed25519_signature(secret_key@, message@),
        ed25519_accepts(ed25519_public_key(secret_key@), message@, signature@),
{
    ed25519_dalek::SigningKey::from_bytes(secret_key).sign(message).to_bytes()
}

/// `VerifyingKey::from_bytes`, keeping only whether it succeeded and, on
/// failure, the error's text. Claims success exactly when the bytes decode;
/// the text is left unstated.
#[verifier::external_body]
pub(crate) fn check_public_key(public_key: &[u8; 32]) -> (r: std::result::Result<(), String>)
    ensures
        r is Ok <==> ed25519_key_decodes(public_key@),
{
    match ed25519_dalek::VerifyingKey::from_bytes(public_key) {
        Ok(_) => Ok(()),
        Err(e) => Err(e.to_string()),
    }
}

/// `Verifier::verify` under the key decoded from `public_key` (its decoding
/// error passed on), on `message` and the signature of the 64 bytes.
/// Claims success exactly when the key decodes and verification accepts;
/// the error text is left unstated.
#[verifier::external_body]
pub(crate) fn verify_message(public_key: &[u8; 32], message: &[u8], signature: &[u8; 64]) -> (r: std::result::Result<(), String>)
    ensures
        r is Ok <==> (ed25519_key_decodes(public_key@) && ed25519_accepts(public_key@, message@, signature@)),
{
    match ed25519_dalek::VerifyingKey::from_bytes(public_key) {
        Ok(key) => match key.verify(message, &ed25519_dalek::Signature::from_bytes(signature)) {
            Ok(()) => Ok(()),
            Err(e) => Err(e.to_string()),
        },
        Err(e) => Err(e.to_string()),
    }
}

/// `VerifyingKey::verify_strict` under the key decoded from `public_key`
/// (its decoding error passed on as `Err`), reporting the verdict as a
/// boolean. Claims `Err` exactly when the key does not decode, and the
/// verdict of strict verification otherwise; the error text is left unstated.
#[verifier::external_body]
pub(crate) fn verify_message_strict(public_key: &[u8; 32], message: &[u8], signature: &[u8; 64]) -> (r: std::result::Result<bool, String>)
    ensures
        r is Err <==> !ed25519_key_decodes(public_key@),
        r matches Ok(b) ==> b == ed25519_accepts_strict(public_key@, message@, signature@),
{
    match ed25519_dalek::VerifyingKey::from_bytes(public_key) {
        Ok(key) => Ok(
            key.verify_strict(message, &ed25519_dalek::Signature::from_bytes(signature)).is_ok(),
        ),
        Err(e) => Err(e.to_string()),
    }
}

/// Every component of a capability vector is positive zero.
pub open spec fn all_zero(v: [u32; 128]) -> bool {
    forall|i: int| 0 <= i < 128 ==> #[trigger] v@[i] == 0
}

/// An Ed25519 signature: the 32 bytes of R followed by the 32 bytes of s.
#[derive(Debug, Clone, Copy, PartialEq, Eq)]
pub struct Signature(pub [u8; 64]);

/// An Ed25519 public key in compressed form.
#[derive(Debug, Clone, Copy, PartialEq, Eq)]
pub struct VerifyingKey(pub [u8; 32]);

impl VerifyingKey {
    /// The key with the given bytes, provided they decode to a curve point.
    pub fn from_bytes(bytes: &[u8; 32]) -> (r: Result<VerifyingKey>)
        ensures
            r is Ok <==> ed25519_key_decodes(bytes@),
            r matches Ok(k) ==> k.0 == *bytes,
            r matches Err(e) ==> e is SignatureVerificationError,
    {
        match check_public_key(bytes) {
            Ok(()) => Ok(VerifyingKey(*bytes)),
            Err(text) => Err(SwarmError::SignatureVerificationError(text)),
        }
    }

    /// The key's bytes.
    pub fn as_bytes(&self) -> (b: &[u8; 32])
        ensures
            *b == self.0,
    {
        &self.0
    }
}

/// Agent identity: agent id, Ed25519 keypair and 128-dimension capability
/// vector (binary32 bit patterns). It has no `Debug` form, so that the
/// secret key is never printed.
pub struct AgentIdentity {
    agent_id: AgentId,
    secret_key: [u8; 32],
    verifying_key: VerifyingKey,
    capability_vector: [u32; 128],
}

impl AgentIdentity {
    #[verifier::type_invariant]
    spec fn bound(self) -> bool {
        &&& self.verifying_key.0@ == ed25519_public_key(self.secret_key@)
        &&& ed25519_key_decodes(self.verifying_key.0@)
        &&& self.agent_id@ == agent_id_text(self.verifying_key.0@)
    }

    /// The agent id.
    pub closed spec fn id(&self) -> AgentId {
        self.agent_id
    }

    /// The 32 bytes of the secret key.
    pub closed spec fn secret(&self) -> Seq<u8> {
        self.secret_key@
    }

    /// The 32 bytes of the public key.
    pub closed spec fn public(&self) -> Seq<u8> {
        self.verifying_key.0@
    }

    /// The public key.
    pub closed spec fn public_key_array(&self) -> [u8; 32] {
        self.verifying_key.0
    }

    /// The capability vector.
    pub closed spec fn capabilities(&self) -> [u32; 128] {
        self.capability_vector
    }

    /// The agent id, public key and secret key agree with each other.
    pub open spec fn is_bound(&self) -> bool {
        &&& self.public() == ed25519_public_key(self.secret())
        &&& ed25519_key_decodes(self.public())
        &&& self.id()@ == agent_id_text(self.public())
    }

    /// Every identity is bound.
    pub fn bound_holds(&self)
        ensures
            self.is_bound(),
    {
        proof {
            use_type_invariant(self);
        }
    }

    /// The identity of a given 32-byte secret key: its public key, the agent
    /// id derived from it, and an all-zero capability vector.
    pub fn from_secret_key(secret_key: [u8; 32]) -> (identity: Self)
        ensures
            identity.secret() == secret_key@,
            identity.is_bound(),
            all_zero(identity.capabilities()),
    {
        let public_key = derive_public_key(&secret_key);
        let agent_id = AgentId::from_public_key(&public_key);
        AgentIdentity {
            agent_id,
            secret_key,
            verifying_key: VerifyingKey(public_key),
            capability_vector: [0u32; 128],
        }
    }

    fn generate() -> (identity: Self)
        ensures
            identity.is_bound(),
            all_zero(identity.capabilities()),
    {
        Self::from_secret_key(generate_secret_key())
    }

    /// Create a new identity with a fresh Ed25519 keypair; the agent id is
    /// derived from the public key and the capability vector is all zeros.
    pub fn new() -> (r: Result<Self>)
        ensures
            r matches Ok(identity) && identity.is_bound() && all_zero(identity.capabilities()),
    {
        Ok(Self::generate())
    }

    /// The same identity with the given capability vector.
    pub fn with_capability_vector(self, capability_vector: [u32; 128]) -> (r: Self)
        ensures
            r.id() == self.id(),
            r.secret() == self.secret(),
            r.public() == self.public(),
            r.capabilities() == capability_vector,
    {
        proof {
            use_type_invariant(&self);
        }
        AgentIdentity {
            agent_id: self.agent_id,
            secret_key: self.secret_key,
            verifying_key: self.verifying_key,
            capability_vector,
        }
    }

    /// The agent's id: derived from its public key.
    pub fn agent_id(&self) -> (id: &AgentId)
        ensures
            *id == self.id(),
            id@ == agent_id_text(self.public()),
    {
        proof {
            use_type_invariant(self);
        }
        &self.agent_id
    }

    /// The agent's public key bytes.
    pub fn public_key_bytes(&self) -> (b: &[u8; 32])
        ensures
            *b == self.public_key_array(),
            b@ == self.public(),
    {
        &self.verifying_key.0
    }

    /// The agent's verifying (public) key.
    pub fn verifying_key(&self) -> (k: &VerifyingKey)
        ensures
            k.0@ == self.public(),
    {
        &self.verifying_key
    }

    /// The agent's capability vector.
    pub fn capability_vector(&self) -> (v: &[u32; 128])
        ensures
            *v == self.capabilities(),
    {
        &self.capability_vector
    }

    /// Sign a message with the agent's secret key. The signature is accepted
    /// by verification under the agent's own public key.
    pub fn sign(&self, message: &[u8]) -> (s: Signature)
        ensures
            s.0@ == ed25519_signature(self.secret(), message@),
            ed25519_accepts(self.public(), message@, s.0@),
    {
        proof {
            use_type_invariant(self);
        }
        Signature(sign_message(&self.secret_key, message))
    }

    /// Verify a signature on a message with this agent's public key.
    pub fn verify(&self, message: &[u8], signature: &Signature) -> (r: Result<()>)
        ensures
            r is Ok <==> ed25519_accepts(self.public(), message@, signature.0@),
            r matches Err(e) ==> e is SignatureVerificationError,
    {
        proof {
            use_type_invariant(self);
        }
        Self::verify_with_key(&self.verifying_key, message, signature)
    }

    /// Verify a signature on a message with the given public key.
    pub fn verify_with_key(public_key: &VerifyingKey, message: &[u8], signature: &Signature) -> (r:
        Result<()>)
        ensures
            r is Ok <==> ed25519_key_decodes(public_key.0@) && ed25519_accepts(
                public_key.0@,
                message@,
                signature.0@,
            ),
            r matches Err(e) ==> e is SignatureVerificationError,
    {
        match verify_message(&public_key.0, message, &signature.0) {
            Ok(()) => Ok(()),
            Err(text) => Err(SwarmError::SignatureVerificationError(text)),
        }
    }
}

impl Default for AgentIdentity {
    fn default() -> (identity: Self)
        ensures
            identity.is_bound(),
            all_zero(identity.capabilities()),
    {
        Self::generate()
    }
}

/// Serializable representation of an agent identity (without secret key).
#[derive(Debug, Clone, PartialEq, Eq)]
pub struct AgentIdentityInfo {
    /// Unique agent identifier.
    pub agent_id: AgentId,
    /// Public key bytes.
    pub public_key: [u8; 32],
    /// 128-dimension capability vector (binary32 bit patterns).
    pub capability_vector: [u32; 128],
}

impl<'a> From<&'a AgentIdentity> for AgentIdentityInfo {
    /// The public part of an identity.
    fn from(identity: &'a AgentIdentity) -> (info: Self) {
        AgentIdentityInfo {
            agent_id: identity.agent_id().clone(),
            public_key: *identity.public_key_bytes(),
            capability_vector: *identity.capability_vector(),
        }
    }
}

impl<'a> vstd::std_specs::convert::FromSpecImpl<&'a AgentIdentity> for AgentIdentityInfo {
    open spec fn obeys_from_spec() -> bool {
        true
    }

    open spec fn from_spec(identity: &'a AgentIdentity) -> Self {
        AgentIdentityInfo {
            agent_id: identity.id(),
            public_key: identity.public_key_array(),
            capability_vector: identity.capabilities(),
        }
    }
}

} // verus!
