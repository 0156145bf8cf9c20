//! Error type of the swarm library.

use vstd::prelude::*;

verus! {

/// Errors that can occur in the swarm system; each carries a message.
#[derive(Debug, Clone, PartialEq, Eq)]
pub enum SwarmError {
    /// Error during Ed25519 keypair generation.
    IdentityGenerationError(String),
    /// Agent ID already exists in the registry.
    DuplicateIdentityError(String),
    /// Message signature verification failed, or the agent is unknown.
    SignatureVerificationError(String),
    /// P2P connection error.
    PeerConnectionError(String),
    /// Vector search error.
    VectorSearchError(String),
    /// Database persistence error.
    PersistenceError(String),
    /// Data deserialization error.
    DeserializationError(String),
    /// Memory limit exceeded.
    MemoryLimitError(String),
    /// Invalid reward value.
    InvalidRewardError(String),
    /// Trajectory data corruption.
    TrajectoryCorruptionError(String),
    /// Pattern merge conflict.
    MergeConflictError(String),
    /// Compression error.
    CompressionError(String),
    /// No suitable agent found for routing.
    RoutingError(String),
    /// Operation timed out.
    TimeoutError(String),
    /// Gossip protocol error.
    GossipError(String),
    /// Encryption/decryption error.
    EncryptionError(String),
    /// Serialization error.
    SerializationError(String),
    /// Invalid query.
    InvalidQueryError(String),
}

/// Result type of swarm operations.
pub type Result<T> = std::result::Result<T, SwarmError>;

} // verus!
