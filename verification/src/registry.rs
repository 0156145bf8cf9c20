//! Agent registry: swarm membership with duplicate detection, identity
//! verification by Ed25519 signatures, status tracking, and the slot
//! bookkeeping of the capability index.
//!
//! Each registration also takes the next slot of the capability index (the
//! nearest-neighbour index over capability vectors, kept by the caller); a
//! removed agent's slot stays behind and no longer resolves to an agent.

use vstd::prelude::*;

use crate::error::{Result, SwarmError};
use crate::identity::{
    ed25519_accepts_strict, ed25519_key_decodes, verify_message_strict, AgentIdentity,
    AgentIdentityInfo, Signature, VerifyingKey,
};
use crate::keyed::{
    has_key, keys_distinct, lemma_seq_to_map, lemma_seq_to_map_len, lemma_seq_to_map_push,
    lemma_seq_to_map_remove, lemma_seq_to_map_update, seq_to_map,
};
use crate::types::AgentId;

verus! {

/// A point in time (UTC): whole seconds since the Unix epoch and the
/// nanoseconds past that second, as `chrono::DateTime<Utc>` holds it.
#[derive(Debug, Clone, Copy, PartialEq, Eq, PartialOrd, Ord, Hash, Structural)]
pub struct UnixTime {
    /// Non-leap seconds since 1970-01-01 00:00:00 UTC.
    pub seconds: i64,
    /// Nanoseconds past `seconds` (at or above one billion only within a
    /// leap second).
    pub nanoseconds: u32,
}

/// A time the system clock can report: at or after the Unix epoch, and
/// outside a leap second.
pub open spec fn is_clock_reading(t: UnixTime) -> bool {
    t.seconds >= 0 && t.nanoseconds < 1_000_000_000
}

/// The current time, from `chrono::Utc::now`, read back by
/// `DateTime::timestamp` and `DateTime::timestamp_subsec_nanos`.
/// `Utc::now` builds the time from the system clock's duration since the
/// epoch (it panics before the epoch): whole seconds, which the platform
/// bounds below `i64::MAX`, and the sub-second nanoseconds of a `Duration`,
/// below one billion. The contract claims only that; which time is read is
/// left unstated.
#[verifier::external_body]
fn clock_now() -> (t: UnixTime)
    ensures
        t.seconds >= 0,
        t.nanoseconds < 1_000_000_000,
{
    let now = chrono::Utc::now();
    UnixTime { seconds: now.timestamp(), nanoseconds: now.timestamp_subsec_nanos() }
}

/// Status of an agent in the swarm.
#[derive(Debug, Clone, Copy, PartialEq, Eq, Structural)]
pub enum AgentStatus {
    /// Agent is online and available.
    Online,
    /// Agent is offline.
    Offline,
    /// Agent is busy processing.
    Busy,
    /// Agent is in maintenance mode.
    Maintenance,
}

impl Default for AgentStatus {
    fn default() -> (s: Self)
        ensures
            s == AgentStatus::Online,
    {
        AgentStatus::Online
    }
}

/// Information about a registered agent.
#[derive(Debug)]
pub struct AgentInfo {
    /// Unique agent identifier.
    pub agent_id: AgentId,
    /// Ed25519 public key bytes.
    pub public_key: [u8; 32],
    /// 128-dimension capability vector (binary32 bit patterns).
    pub capability_vector: [u32; 128],
    /// Last time the agent was seen.
    pub last_seen: UnixTime,
    /// Current status of the agent.
    pub status: AgentStatus,
}

impl Clone for AgentInfo {
    fn clone(&self) -> (r: Self)
        ensures
            r == *self,
    {
        AgentInfo {
            agent_id: self.agent_id.clone(),
            public_key: self.public_key,
            capability_vector: self.capability_vector,
            last_seen: self.last_seen,
            status: self.status,
        }
    }
}

/// The fields of `info` other than the time stamp are those of a fresh
/// online record for an agent with the given id, key and capabilities.
pub open spec fn fresh_record(
    info: AgentInfo,
    agent_id: AgentId,
    public_key: Seq<u8>,
    capability_vector: [u32; 128],
) -> bool {
    &&& info.agent_id == agent_id
    &&& info.public_key@ == public_key
    &&& info.capability_vector == capability_vector
    &&& info.status == AgentStatus::Online
}

/// `after` is `before` with the given status, seen again (time stamp renewed).
pub open spec fn restamped(after: AgentInfo, before: AgentInfo, status: AgentStatus) -> bool {
    &&& after.agent_id == before.agent_id
    &&& after.public_key == before.public_key
    &&& after.capability_vector == before.capability_vector
    &&& after.status == status
}

impl AgentInfo {
    /// A fresh online record for a local identity, seen at `now`.
    pub fn from_identity_at(identity: &AgentIdentity, now: UnixTime) -> (info: Self)
        ensures
            fresh_record(info, identity.id(), identity.public(), identity.capabilities()),
            info.last_seen == now,
    {
        AgentInfo {
            agent_id: identity.agent_id().clone(),
            public_key: *identity.public_key_bytes(),
            capability_vector: *identity.capability_vector(),
            last_seen: now,
            status: AgentStatus::Online,
        }
    }

    /// A fresh online record for a local identity, seen now (by the clock).
    pub fn from_identity(identity: &AgentIdentity) -> (info: Self)
        ensures
            fresh_record(info, identity.id(), identity.public(), identity.capabilities()),
            is_clock_reading(info.last_seen),
    {
        Self::from_identity_at(identity, clock_now())
    }

    /// A fresh online record for a remote agent's public identity, seen at
    /// `now`.
    pub fn from_identity_info_at(identity: &AgentIdentityInfo, now: UnixTime) -> (info: Self)
        ensures
            fresh_record(
                info,
                identity.agent_id,
                identity.public_key@,
                identity.capability_vector,
            ),
            info.last_seen == now,
    {
        AgentInfo {
            agent_id: identity.agent_id.clone(),
            public_key: identity.public_key,
            capability_vector: identity.capability_vector,
            last_seen: now,
            status: AgentStatus::Online,
        }
    }

    /// A fresh online record for a remote agent's public identity, seen now
    /// (by the clock).
    pub fn from_identity_info(identity: &AgentIdentityInfo) -> (info: Self)
        ensures
            fresh_record(
                info,
                identity.agent_id,
                identity.public_key@,
                identity.capability_vector,
            ),
            is_clock_reading(info.last_seen),
    {
        Self::from_identity_info_at(identity, clock_now())
    }

    /// The verifying key for signature verification, if the stored bytes
    /// decode to a curve point.
    pub fn verifying_key(&self) -> (r: Result<VerifyingKey>)
        ensures
            r is Ok <==> ed25519_key_decodes(self.public_key@),
            r matches Ok(k) ==> k.0 == self.public_key,
            r matches Err(e) ==> e is SignatureVerificationError,
    {
        VerifyingKey::from_bytes(&self.public_key)
    }
}

/// The text of the error for an unknown agent.
pub open spec fn not_found_message(agent_id: Seq<char>) -> Seq<char> {
    "Agent not found: "@ + agent_id
}

/// The error for an unknown agent.
fn not_found(agent_id: &AgentId) -> (e: SwarmError)
    ensures
        e matches SwarmError::SignatureVerificationError(text) && text@ == not_found_message(
            agent_id@,
        ),
{
    let text = String::from_str("Agent not found: ").concat(agent_id.as_str());
    SwarmError::SignatureVerificationError(text)
}

/// Number of components of a capability vector.
pub const CAPABILITY_DIMENSION: usize = 128;

/// The breadth of a capability search for `k` agents with a query of
/// `query_len` components: none unless the query has the capability
/// dimension, and otherwise `k`, raised to 50 when smaller.
pub fn capability_search_width(query_len: usize, k: usize) -> (width: Option<usize>)
    ensures
        width is None <==> query_len != CAPABILITY_DIMENSION,
        width matches Some(w) ==> w == if k < 50 {
            50
        } else {
            k
        },
{
    if query_len != CAPABILITY_DIMENSION {
        None
    } else if k < 50 {
        Some(50)
    } else {
        Some(k)
    }
}

/// The key under which a record is filed: its agent id's text.
pub open spec fn by_agent_id() -> spec_fn(AgentInfo) -> Seq<char> {
    |info: AgentInfo| info.agent_id@
}

/// Registry of the agents of a swarm, keyed by agent id.
pub struct AgentRegistry {
    agents: Vec<AgentInfo>,
    index_ids: Vec<AgentId>,
}

impl AgentRegistry {
    #[verifier::type_invariant]
    spec fn ids_distinct(self) -> bool {
        keys_distinct(self.agents@, by_agent_id())
    }

    /// The registered agents by agent id.
    pub closed spec fn members(&self) -> Map<Seq<char>, AgentInfo> {
        seq_to_map(self.agents@, by_agent_id())
    }

    /// The agent id filed in each slot of the capability index, in order.
    pub closed spec fn slots(&self) -> Seq<Seq<char>> {
        self.index_ids@.map_values(|id: AgentId| id@)
    }

    /// The registered agent whose id fills slot `slot`, if there is one.
    pub open spec fn slot_member(&self, slot: int) -> Option<AgentInfo> {
        if 0 <= slot < self.slots().len() && self.members().dom().contains(self.slots()[slot]) {
            Some(self.members()[self.slots()[slot]])
        } else {
            None
        }
    }

    /// The set of registered ids is finite.
    pub proof fn lemma_members_finite(&self)
        ensures
            self.members().dom().finite(),
    {
        lemma_seq_to_map(self.agents@, by_agent_id());
    }

    proof fn lemma_members(&self)
        requires
            keys_distinct(self.agents@, by_agent_id()),
        ensures
            forall|k: Seq<char>|
                #[trigger] self.members().dom().contains(k) <==> has_key(
                    self.agents@,
                    by_agent_id(),
                    k,
                ),
            forall|i: int|
                0 <= i < self.agents@.len() ==> #[trigger] self.members()[self.agents@[i].agent_id@]
                    == self.agents@[i],
            self.members().dom().finite(),
            self.members().dom().len() == self.agents@.len(),
    {
        lemma_seq_to_map(self.agents@, by_agent_id());
        lemma_seq_to_map_len(self.agents@, by_agent_id());
        assert forall|i: int| 0 <= i < self.agents@.len() implies #[trigger] self.members()[
            self.agents@[i].agent_id@] == self.agents@[i] by {
            assert(self.members()[(by_agent_id())(self.agents@[i])] == self.agents@[i]);
        }
    }

    /// Position of the record of `agent_id`, if any.
    fn position(&self, agent_id: &AgentId) -> (p: Option<usize>)
        ensures
            match p {
                Some(i) => i < self.agents@.len() && self.agents@[i as int].agent_id@ == agent_id@,
                None => !has_key(self.agents@, by_agent_id(), agent_id@),
            },
    {
        let n = self.agents.len();
        for i in 0..n
            invariant
                n == self.agents@.len(),
                forall|j: int| 0 <= j < i ==> self.agents@[j].agent_id@ != agent_id@,
        {
            if self.agents[i].agent_id.same_as(agent_id) {
                return Some(i);
            }
        }
        None
    }

    /// Create a new empty registry.
    pub fn new() -> (r: Self)
        ensures
            r.members() == Map::<Seq<char>, AgentInfo>::empty(),
            r.slots() == Seq::<Seq<char>>::empty(),
    {
        let r = AgentRegistry { agents: Vec::new(), index_ids: Vec::new() };
        assert(r.members() =~= Map::<Seq<char>, AgentInfo>::empty());
        assert(r.slots() =~= Seq::<Seq<char>>::empty());
        r
    }

    /// Add a record whose id is not registered; it takes the next slot.
    fn enroll(&mut self, info: AgentInfo)
        requires
            !old(self).members().dom().contains(info.agent_id@),
        ensures
            final(self).members() == old(self).members().insert(info.agent_id@, info),
            final(self).slots() == old(self).slots().push(info.agent_id@),
    {
        proof {
            use_type_invariant(&*self);
            self.lemma_members();
            lemma_seq_to_map_push(self.agents@, by_agent_id(), info);
        }
        let ghost old_ids = self.index_ids@;
        let mut index_ids: Vec<AgentId> = Vec::new();
        std::mem::swap(&mut index_ids, &mut self.index_ids);
        index_ids.push(info.agent_id.clone());
        self.index_ids = index_ids;
        assert(self.index_ids@.map_values(|id: AgentId| id@) =~= old_ids.map_values(
            |id: AgentId| id@,
        ).push(info.agent_id@));
        let mut agents: Vec<AgentInfo> = Vec::new();
        std::mem::swap(&mut agents, &mut self.agents);
        agents.push(info);
        self.agents = agents;
    }

    /// Register a local identity seen at `now`. Fails with
    /// `DuplicateIdentityError` (carrying the id) when its id is already
    /// registered; otherwise adds a fresh online record and files the id in
    /// the next index slot.
    pub fn register_at(&mut self, identity: &AgentIdentity, now: UnixTime) -> (r: Result<()>)
        ensures
            old(self).members().dom().contains(identity.id()@) ==> {
                &&& r matches Err(SwarmError::DuplicateIdentityError(text)) && text@
                    == identity.id()@
                &&& final(self).members() == old(self).members()
                &&& final(self).slots() == old(self).slots()
            },
            !old(self).members().dom().contains(identity.id()@) ==> {
                &&& r is Ok
                &&& fresh_record(
                    final(self).members()[identity.id()@],
                    identity.id(),
                    identity.public(),
                    identity.capabilities(),
                )
                &&& final(self).members() == old(self).members().insert(
                    identity.id()@,
                    final(self).members()[identity.id()@],
                )
                &&& final(self).members()[identity.id()@].last_seen == now
                &&& final(self).slots() == old(self).slots().push(identity.id()@)
            },
    {
        proof {
            use_type_invariant(&*self);
            self.lemma_members();
        }
        let agent_id = identity.agent_id();
        match self.position(agent_id) {
            Some(i) => {
                proof {
                    assert(has_key(self.agents@, by_agent_id(), agent_id@));
                }
                Err(SwarmError::DuplicateIdentityError(agent_id.0.clone()))
            },
            None => {
                let info = AgentInfo::from_identity_at(identity, now);
                self.enroll(info);
                Ok(())
            },
        }
    }

    /// Register a local identity, seen now (by the clock). Fails with
    /// `DuplicateIdentityError` (carrying the id) when its id is already
    /// registered; otherwise adds a fresh online record and files the id in
    /// the next index slot.
    pub fn register(&mut self, identity: &AgentIdentity) -> (r: Result<()>)
        ensures
            old(self).members().dom().contains(identity.id()@) ==> {
                &&& r matches Err(SwarmError::DuplicateIdentityError(text)) && text@
                    == identity.id()@
                &&& final(self).members() == old(self).members()
                &&& final(self).slots() == old(self).slots()
            },
            !old(self).members().dom().contains(identity.id()@) ==> {
                &&& r is Ok
                &&& fresh_record(
                    final(self).members()[identity.id()@],
                    identity.id(),
                    identity.public(),
                    identity.capabilities(),
                )
                &&& final(self).members() == old(self).members().insert(
                    identity.id()@,
                    final(self).members()[identity.id()@],
                )
                &&& is_clock_reading(final(self).members()[identity.id()@].last_seen)
                &&& final(self).slots() == old(self).slots().push(identity.id()@)
            },
    {
        self.register_at(identity, clock_now())
    }

    /// Register a remote agent from its public identity, seen at `now`, with
    /// the same outcomes as [`AgentRegistry::register_at`].
    pub fn register_info_at(&mut self, identity: &AgentIdentityInfo, now: UnixTime) -> (r: Result<()>)
        ensures
            old(self).members().dom().contains(identity.agent_id@) ==> {
                &&& r matches Err(SwarmError::DuplicateIdentityError(text)) && text@
                    == identity.agent_id@
                &&& final(self).members() == old(self).members()
                &&& final(self).slots() == old(self).slots()
            },
            !old(self).members().dom().contains(identity.agent_id@) ==> {
                &&& r is Ok
                &&& fresh_record(
                    final(self).members()[identity.agent_id@],
                    identity.agent_id,
                    identity.public_key@,
                    identity.capability_vector,
                )
                &&& final(self).members() == old(self).members().insert(
                    identity.agent_id@,
                    final(self).members()[identity.agent_id@],
                )
                &&& final(self).members()[identity.agent_id@].last_seen == now
                &&& final(self).slots() == old(self).slots().push(identity.agent_id@)
            },
    {
        proof {
            use_type_invariant(&*self);
            self.lemma_members();
        }
        match self.position(&identity.agent_id) {
            Some(i) => {
                proof {
                    assert(has_key(self.agents@, by_agent_id(), identity.agent_id@));
                }
                Err(SwarmError::DuplicateIdentityError(identity.agent_id.0.clone()))
            },
            None => {
                let info = AgentInfo::from_identity_info_at(identity, now);
                self.enroll(info);
                Ok(())
            },
        }
    }

    /// Register a remote agent from its public identity, with the same
    /// outcomes as [`AgentRegistry::register`].
    pub fn register_info(&mut self, identity: &AgentIdentityInfo) -> (r: Result<()>)
        ensures
            old(self).members().dom().contains(identity.agent_id@) ==> {
                &&& r matches Err(SwarmError::DuplicateIdentityError(text)) && text@
                    == identity.agent_id@
                &&& final(self).members() == old(self).members()
                &&& final(self).slots() == old(self).slots()
            },
            !old(self).members().dom().contains(identity.agent_id@) ==> {
                &&& r is Ok
                &&& fresh_record(
                    final(self).members()[identity.agent_id@],
                    identity.agent_id,
                    identity.public_key@,
                    identity.capability_vector,
                )
                &&& final(self).members() == old(self).members().insert(
                    identity.agent_id@,
                    final(self).members()[identity.agent_id@],
                )
                &&& is_clock_reading(final(self).members()[identity.agent_id@].last_seen)
                &&& final(self).slots() == old(self).slots().push(identity.agent_id@)
            },
    {
        self.register_info_at(identity, clock_now())
    }

    /// Verify an agent's identity by checking a signature under its
    /// registered public key with strict Ed25519 verification.
    ///
    /// Unknown agent: `SignatureVerificationError` ("Agent not found: <id>").
    /// Registered key that does not decode: `SignatureVerificationError`.
    /// Otherwise `Ok` of the verdict.
    pub fn verify_identity(&self, agent_id: &AgentId, message: &[u8], signature: &Signature) -> (r:
        Result<bool>)
        ensures
            !self.members().dom().contains(agent_id@) ==> (r matches Err(
                SwarmError::SignatureVerificationError(text),
            ) && text@ == not_found_message(agent_id@)),
            self.members().dom().contains(agent_id@) && !ed25519_key_decodes(
                self.members()[agent_id@].public_key@,
            ) ==> r matches Err(SwarmError::SignatureVerificationError(_)),
            self.members().dom().contains(agent_id@) && ed25519_key_decodes(
                self.members()[agent_id@].public_key@,
            ) ==> r == Ok::<bool, SwarmError>(
                ed25519_accepts_strict(self.members()[agent_id@].public_key@, message@, signature.0@),
            ),
    {
        proof {
            use_type_invariant(self);
            self.lemma_members();
        }
        match self.position(agent_id) {
            None => Err(not_found(agent_id)),
            Some(i) => {
                let info = &self.agents[i];
                match verify_message_strict(&info.public_key, message, &signature.0) {
                    Ok(valid) => Ok(valid),
                    Err(text) => Err(SwarmError::SignatureVerificationError(text)),
                }
            },
        }
    }

    /// Remove an agent. Fails with `SignatureVerificationError`
    /// ("Agent not found: <id>") when it is not registered. Its index slot
    /// stays filed.
    pub fn remove(&mut self, agent_id: &AgentId) -> (r: Result<()>)
        ensures
            old(self).members().dom().contains(agent_id@) ==> {
                &&& r is Ok
                &&& final(self).members() == old(self).members().remove(agent_id@)
            },
            !old(self).members().dom().contains(agent_id@) ==> {
                &&& r matches Err(SwarmError::SignatureVerificationError(text)) && text@
                    == not_found_message(agent_id@)
                &&& final(self).members() == old(self).members()
            },
            final(self).slots() == old(self).slots(),
    {
        proof {
            use_type_invariant(&*self);
            self.lemma_members();
        }
        match self.position(agent_id) {
            None => Err(not_found(agent_id)),
            Some(i) => {
                proof {
                    lemma_seq_to_map_remove(self.agents@, by_agent_id(), i as int);
                }
                let mut agents: Vec<AgentInfo> = Vec::new();
                std::mem::swap(&mut agents, &mut self.agents);
                agents.remove(i);
                self.agents = agents;
                Ok(())
            },
        }
    }

    /// The record of an agent, if registered.
    pub fn get(&self, agent_id: &AgentId) -> (r: Option<&AgentInfo>)
        ensures
            r is Some <==> self.members().dom().contains(agent_id@),
            r matches Some(info) ==> *info == self.members()[agent_id@],
    {
        proof {
            use_type_invariant(self);
            self.lemma_members();
        }
        match self.position(agent_id) {
            None => None,
            Some(i) => Some(&self.agents[i]),
        }
    }

    /// The number of registered agents.
    pub fn len(&self) -> (n: usize)
        ensures
            self.members().dom().finite(),
            n == self.members().dom().len(),
    {
        proof {
            use_type_invariant(self);
            self.lemma_members();
        }
        self.agents.len()
    }

    /// Whether no agent is registered.
    pub fn is_empty(&self) -> (b: bool)
        ensures
            b <==> self.members().dom().len() == 0,
    {
        self.len() == 0
    }

    /// Update an agent's status and set its time stamp to `now`. Fails with
    /// `SignatureVerificationError` ("Agent not found: <id>") when it is
    /// not registered.
    pub fn update_status_at(&mut self, agent_id: &AgentId, status: AgentStatus, now: UnixTime) -> (r:
        Result<()>)
        ensures
            old(self).members().dom().contains(agent_id@) ==> {
                &&& r is Ok
                &&& restamped(
                    final(self).members()[agent_id@],
                    old(self).members()[agent_id@],
                    status,
                )
                &&& final(self).members()[agent_id@].last_seen == now
                &&& final(self).members() == old(self).members().insert(
                    agent_id@,
                    final(self).members()[agent_id@],
                )
            },
            !old(self).members().dom().contains(agent_id@) ==> {
                &&& r matches Err(SwarmError::SignatureVerificationError(text)) && text@
                    == not_found_message(agent_id@)
                &&& final(self).members() == old(self).members()
            },
            final(self).slots() == old(self).slots(),
    {
        proof {
            use_type_invariant(&*self);
            self.lemma_members();
        }
        match self.position(agent_id) {
            None => Err(not_found(agent_id)),
            Some(i) => {
                let old_info = self.agents[i].clone();
                let info = AgentInfo {
                    agent_id: old_info.agent_id,
                    public_key: old_info.public_key,
                    capability_vector: old_info.capability_vector,
                    last_seen: now,
                    status,
                };
                proof {
                    lemma_seq_to_map_update(self.agents@, by_agent_id(), i as int, info);
                }
                let mut agents: Vec<AgentInfo> = Vec::new();
                std::mem::swap(&mut agents, &mut self.agents);
                agents.set(i, info);
                self.agents = agents;
                Ok(())
            },
        }
    }

    /// Update an agent's status and renew its time stamp from the clock. Fails with
    /// `SignatureVerificationError` ("Agent not found: <id>") when it is
    /// not registered.
    pub fn update_status(&mut self, agent_id: &AgentId, status: AgentStatus) -> (r: Result<()>)
        ensures
            old(self).members().dom().contains(agent_id@) ==> {
                &&& r is Ok
                &&& restamped(
                    final(self).members()[agent_id@],
                    old(self).members()[agent_id@],
                    status,
                )
                &&& is_clock_reading(final(self).members()[agent_id@].last_seen)
                &&& final(self).members() == old(self).members().insert(
                    agent_id@,
                    final(self).members()[agent_id@],
                )
            },
            !old(self).members().dom().contains(agent_id@) ==> {
                &&& r matches Err(SwarmError::SignatureVerificationError(text)) && text@
                    == not_found_message(agent_id@)
                &&& final(self).members() == old(self).members()
            },
            final(self).slots() == old(self).slots(),
    {
        self.update_status_at(agent_id, status, clock_now())
    }

    /// Set an agent's time stamp to `now`, keeping its status. Fails with
    /// `SignatureVerificationError` ("Agent not found: <id>") when it is
    /// not registered.
    pub fn touch_at(&mut self, agent_id: &AgentId, now: UnixTime) -> (r: Result<()>)
        ensures
            old(self).members().dom().contains(agent_id@) ==> {
                &&& r is Ok
                &&& restamped(
                    final(self).members()[agent_id@],
                    old(self).members()[agent_id@],
                    old(self).members()[agent_id@].status,
                )
                &&& final(self).members()[agent_id@].last_seen == now
                &&& final(self).members() == old(self).members().insert(
                    agent_id@,
                    final(self).members()[agent_id@],
                )
            },
            !old(self).members().dom().contains(agent_id@) ==> {
                &&& r matches Err(SwarmError::SignatureVerificationError(text)) && text@
                    == not_found_message(agent_id@)
                &&& final(self).members() == old(self).members()
            },
            final(self).slots() == old(self).slots(),
    {
        proof {
            use_type_invariant(&*self);
            self.lemma_members();
        }
        match self.position(agent_id) {
            None => Err(not_found(agent_id)),
            Some(i) => {
                let status = self.agents[i].status;
                self.update_status_at(agent_id, status, now)
            },
        }
    }

    /// Renew an agent's time stamp from the clock, keeping its status. Fails with
    /// `SignatureVerificationError` ("Agent not found: <id>") when it is
    /// not registered.
    pub fn touch(&mut self, agent_id: &AgentId) -> (r: Result<()>)
        ensures
            old(self).members().dom().contains(agent_id@) ==> {
                &&& r is Ok
                &&& restamped(
                    final(self).members()[agent_id@],
                    old(self).members()[agent_id@],
                    old(self).members()[agent_id@].status,
                )
                &&& is_clock_reading(final(self).members()[agent_id@].last_seen)
                &&& final(self).members() == old(self).members().insert(
                    agent_id@,
                    final(self).members()[agent_id@],
                )
            },
            !old(self).members().dom().contains(agent_id@) ==> {
                &&& r matches Err(SwarmError::SignatureVerificationError(text)) && text@
                    == not_found_message(agent_id@)
                &&& final(self).members() == old(self).members()
            },
            final(self).slots() == old(self).slots(),
    {
        self.touch_at(agent_id, clock_now())
    }

    /// The ids of all registered agents, each once.
    pub fn agent_ids(&self) -> (ids: Vec<AgentId>)
        ensures
            ids@.len() == self.members().dom().len(),
            forall|i: int|
                0 <= i < ids@.len() ==> self.members().dom().contains(#[trigger] ids@[i]@),
            forall|i: int, j: int|
                0 <= i < ids@.len() && 0 <= j < ids@.len() && i != j ==> ids@[i]@ != ids@[j]@,
            forall|k: Seq<char>|
                #[trigger] self.members().dom().contains(k) ==> exists|i: int|
                    0 <= i < ids@.len() && ids@[i]@ == k,
    {
        proof {
            use_type_invariant(self);
            self.lemma_members();
        }
        let mut ids: Vec<AgentId> = Vec::new();
        let n = self.agents.len();
        for i in 0..n
            invariant
                n == self.agents@.len(),
                ids@.len() == i,
                forall|j: int| 0 <= j < i ==> #[trigger] ids@[j] == self.agents@[j].agent_id,
        {
            ids.push(self.agents[i].agent_id.clone());
        }
        proof {
            assert forall|i: int| 0 <= i < ids@.len() implies self.members().dom().contains(
                #[trigger] ids@[i]@,
            ) by {
                assert(has_key(self.agents@, by_agent_id(), ids@[i]@));
            }
            assert forall|i: int, j: int|
                0 <= i < ids@.len() && 0 <= j < ids@.len() && i != j implies ids@[i]@
                != ids@[j]@ by {
                assert((by_agent_id())(self.agents@[i]) != (by_agent_id())(self.agents@[j]));
            }
            assert forall|k: Seq<char>| #[trigger] self.members().dom().contains(k) implies exists|i: int|
                0 <= i < ids@.len() && ids@[i]@ == k by {
                assert(has_key(self.agents@, by_agent_id(), k));
                let i = choose|i: int| 0 <= i < self.agents@.len() && (by_agent_id())(self.agents@[i]) == k;
                assert(ids@[i]@ == k);
            }
        }
        ids
    }

    /// The number of slots filed in the capability index.
    pub fn index_len(&self) -> (n: usize)
        ensures
            n == self.slots().len(),
    {
        self.index_ids.len()
    }

    /// Resolve the slots returned by a capability search. For each position
    /// `p` of `slots` in order, the result holds `(p, record)` when slot
    /// `slots[p]` is filed with the id of a registered agent, and nothing
    /// otherwise (an agent removed since, or a slot never filed).
    pub fn index_hits(&self, slots: &[usize]) -> (hits: Vec<(usize, AgentInfo)>)
        ensures
            forall|j: int|
                0 <= j < hits@.len() ==> {
                    &&& #[trigger] hits@[j].0 < slots@.len()
                    &&& self.slot_member(slots@[hits@[j].0 as int] as int) == Some(hits@[j].1)
                },
            forall|j: int, k: int| 0 <= j < k < hits@.len() ==> hits@[j].0 < hits@[k].0,
            forall|p: int|
                0 <= p < slots@.len() && #[trigger] self.slot_member(slots@[p] as int) is Some
                    ==> exists|j: int| 0 <= j < hits@.len() && #[trigger] hits@[j].0 == p,
    {
        proof {
            use_type_invariant(self);
            self.lemma_members();
        }
        let mut hits: Vec<(usize, AgentInfo)> = Vec::new();
        let n = slots.len();
        for p in 0..n
            invariant
                n == slots@.len(),
                keys_distinct(self.agents@, by_agent_id()),
                forall|j: int|
                    0 <= j < hits@.len() ==> {
                        &&& #[trigger] hits@[j].0 < p
                        &&& self.slot_member(slots@[hits@[j].0 as int] as int) == Some(hits@[j].1)
                    },
                forall|j: int, k: int| 0 <= j < k < hits@.len() ==> hits@[j].0 < hits@[k].0,
                forall|q: int|
                    0 <= q < p && #[trigger] self.slot_member(slots@[q] as int) is Some
                        ==> exists|j: int| 0 <= j < hits@.len() && #[trigger] hits@[j].0 == q,
        {
            proof {
                self.lemma_members();
            }
            let slot = slots[p];
            if slot < self.index_ids.len() {
                let agent_id = &self.index_ids[slot];
                match self.position(agent_id) {
                    Some(i) => {
                        let info = self.agents[i].clone();
                        proof {
                            assert(self.slots()[slot as int] == agent_id@);
                            assert(self.members()[self.agents@[i as int].agent_id@]
                                == self.agents@[i as int]);
                            assert(has_key(self.agents@, by_agent_id(), agent_id@));
                        }
                        let ghost before = hits@;
                        hits.push((p, info));
                        proof {
                            assert(hits@[before.len() as int].0 == p);
                            assert forall|q: int|
                                0 <= q < p + 1 && #[trigger] self.slot_member(slots@[q] as int) is Some
                                implies exists|j: int| 0 <= j < hits@.len() && #[trigger] hits@[j].0 == q by {
                                if q < p {
                                    let j = choose|j: int| 0 <= j < before.len() && #[trigger] before[j].0 == q;
                                    assert(hits@[j] == before[j]);
                                }
                            }
                        }
                    },
                    None => {
                        proof {
                            assert(self.slots()[slot as int] == agent_id@);
                        }
                    },
                }
            }
        }
        hits
    }
}

/// Registering an id that was not registered adds exactly that id: the
/// count grows by one and the id is then found.
pub proof fn lemma_register_adds_one(
    before: AgentRegistry,
    after: AgentRegistry,
    agent_id: Seq<char>,
    info: AgentInfo,
)
    requires
        !before.members().dom().contains(agent_id),
        after.members() == before.members().insert(agent_id, info),
    ensures
        after.members().dom().contains(agent_id),
        after.members().dom().len() == before.members().dom().len() + 1,
{
    lemma_seq_to_map(before.agents@, by_agent_id());
}

/// Removing a registered id takes exactly that id away: the count drops by
/// one, the id is no longer found, and no index slot filed with it resolves
/// to an agent any more.
pub proof fn lemma_remove_forgets(before: AgentRegistry, after: AgentRegistry, agent_id: Seq<char>)
    requires
        before.members().dom().contains(agent_id),
        after.members() == before.members().remove(agent_id),
        after.slots() == before.slots(),
    ensures
        !after.members().dom().contains(agent_id),
        after.members().dom().len() == before.members().dom().len() - 1,
        forall|slot: int|
            0 <= slot < after.slots().len() && after.slots()[slot] == agent_id
                ==> #[trigger] after.slot_member(slot) is None,
{
    lemma_seq_to_map(before.agents@, by_agent_id());
}

impl Default for AgentRegistry {
    fn default() -> (r: Self)
        ensures
            r.members() == Map::<Seq<char>, AgentInfo>::empty(),
            r.slots() == Seq::<Seq<char>>::empty(),
    {
        AgentRegistry::new()
    }
}

} // verus!
