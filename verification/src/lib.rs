//! Agent swarm core: agent identities, the agent registry and a Q-learning
//! engine for action selection, each function with a proved contract.
//!
//! Real-valued quantities (Q-values, learning parameters, capability vectors)
//! are carried as IEEE-754 binary32 bit patterns (`u32`); the arithmetic on
//! them is supplied by the caller, and the library fixes which operands it
//! hands over and what it does with the results.

pub mod binary32;
pub mod error;
pub mod identity;
pub mod keyed;
pub mod qlearning;
pub mod registry;
pub mod types;

pub use error::{Result, SwarmError};
pub use identity::{AgentIdentity, AgentIdentityInfo, Signature, VerifyingKey};
pub use qlearning::{
    Action, BellmanInputs, Complexity, Confidence, QLearningEngine, QValue, State, StateAction,
};
pub use registry::{AgentInfo, AgentRegistry, AgentStatus, UnixTime};
pub use types::{AgentId, QueryType};
