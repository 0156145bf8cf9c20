use ruvector_swarm::registry::capability_search_width;
use ruvector_swarm::{
    AgentId, AgentIdentity, AgentIdentityInfo, AgentRegistry, AgentStatus, Signature, SwarmError,
    UnixTime,
};

#[test]
fn test_registry_creation() {
    let registry = AgentRegistry::new();
    assert!(registry.is_empty());
    assert_eq!(registry.len(), 0);
}

#[test]
fn test_agent_registration() {
    let mut registry = AgentRegistry::new();
    let identity = AgentIdentity::new().expect("Should create identity");

    assert!(registry.register(&identity).is_ok());
    assert_eq!(registry.len(), 1);
    assert!(registry.get(identity.agent_id()).is_some());
}

#[test]
fn test_duplicate_registration_rejected() {
    let mut registry = AgentRegistry::new();
    let identity = AgentIdentity::new().expect("Should create identity");

    assert!(registry.register(&identity).is_ok());

    let result = registry.register(&identity);
    assert!(result.is_err());

    if let Err(SwarmError::DuplicateIdentityError(id)) = result {
        assert_eq!(id, identity.agent_id().as_str().to_string());
    } else {
        panic!("Expected DuplicateIdentityError");
    }
}

#[test]
fn test_identity_verification() {
    let mut registry = AgentRegistry::new();
    let identity = AgentIdentity::new().expect("Should create identity");
    registry.register(&identity).expect("Should register");

    let message = b"test message";
    let signature = identity.sign(message);

    let result = registry.verify_identity(identity.agent_id(), message, &signature);
    assert!(result.is_ok());
    assert!(result.unwrap());
}

#[test]
fn test_identity_verification_wrong_message() {
    let mut registry = AgentRegistry::new();
    let identity = AgentIdentity::new().expect("Should create identity");
    registry.register(&identity).expect("Should register");

    let message = b"test message";
    let wrong_message = b"wrong message";
    let signature = identity.sign(message);

    let result = registry.verify_identity(identity.agent_id(), wrong_message, &signature);
    assert!(result.is_ok());
    assert!(!result.unwrap());
}

#[test]
fn test_identity_verification_unknown_agent() {
    let registry = AgentRegistry::new();
    let identity = AgentIdentity::new().expect("Should create identity");

    let message = b"test message";
    let signature = identity.sign(message);

    let result = registry.verify_identity(identity.agent_id(), message, &signature);
    assert!(result.is_err());
}

#[test]
fn test_agent_removal() {
    let mut registry = AgentRegistry::new();
    let identity = AgentIdentity::new().expect("Should create identity");

    registry.register(&identity).expect("Should register");
    assert_eq!(registry.len(), 1);

    registry.remove(identity.agent_id()).expect("Should remove");
    assert_eq!(registry.len(), 0);
    assert!(registry.get(identity.agent_id()).is_none());
}

#[test]
fn test_status_update() {
    let mut registry = AgentRegistry::new();
    let identity = AgentIdentity::new().expect("Should create identity");

    registry.register(&identity).expect("Should register");

    registry
        .update_status(identity.agent_id(), AgentStatus::Busy)
        .expect("Should update status");

    let info = registry.get(identity.agent_id()).expect("Should get agent");
    assert_eq!(info.status, AgentStatus::Busy);
}

fn t(seconds: i64, nanoseconds: u32) -> UnixTime {
    UnixTime { seconds, nanoseconds }
}

fn not_found_text(id: &AgentId) -> String {
    format!("Agent not found: {}", id.as_str())
}

#[test]
fn unknown_agents_are_reported_by_id() {
    let mut registry = AgentRegistry::new();
    let ghost = AgentId("feedface".to_string());
    let signature = Signature([0u8; 64]);
    for result in [
        registry.verify_identity(&ghost, b"m", &signature).map(|_| ()),
        registry.remove(&ghost),
        registry.update_status(&ghost, AgentStatus::Offline),
        registry.touch(&ghost),
    ] {
        match result {
            Err(SwarmError::SignatureVerificationError(text)) => {
                assert_eq!(text, not_found_text(&ghost))
            }
            other => panic!("unexpected {:?}", other),
        }
    }
    assert!(registry.is_empty());
}

#[test]
fn registration_records_identity_and_fills_a_slot() {
    let mut registry = AgentRegistry::new();
    let mut caps = [0u32; 128];
    caps[0] = 1.0f32.to_bits();
    let identity = AgentIdentity::new().expect("Should create identity").with_capability_vector(caps);
    registry.register(&identity).expect("Should register");
    let info = registry.get(identity.agent_id()).expect("Should get agent");
    assert_eq!(&info.agent_id, identity.agent_id());
    assert_eq!(&info.public_key, identity.public_key_bytes());
    assert_eq!(info.capability_vector, caps);
    assert_eq!(info.status, AgentStatus::Online);
    assert!(info.last_seen.seconds > 0);
    assert!(info.last_seen.nanoseconds < 2_000_000_000);
    assert_eq!(registry.index_len(), 1);
    assert_eq!(registry.agent_ids(), vec![identity.agent_id().clone()]);
    let key = info.verifying_key().expect("registered key decodes");
    assert_eq!(&key.0, identity.public_key_bytes());
}

#[test]
fn remote_registration_and_duplicates() {
    let mut registry = AgentRegistry::new();
    let identity = AgentIdentity::new().expect("Should create identity");
    let info = AgentIdentityInfo::from(&identity);
    registry.register_info(&info).expect("Should register");
    match registry.register(&identity) {
        Err(SwarmError::DuplicateIdentityError(id)) => assert_eq!(id, info.agent_id.0),
        other => panic!("unexpected {:?}", other),
    }
    match registry.register_info(&info) {
        Err(SwarmError::DuplicateIdentityError(id)) => assert_eq!(id, info.agent_id.0),
        other => panic!("unexpected {:?}", other),
    }
    assert_eq!(registry.len(), 1);
    assert_eq!(registry.index_len(), 1);
}

#[test]
fn undecodable_registered_key_is_an_error() {
    let mut registry = AgentRegistry::new();
    let mut public_key = [0u8; 32];
    public_key[0] = 2;
    let info = AgentIdentityInfo {
        agent_id: AgentId("remote".to_string()),
        public_key,
        capability_vector: [0u32; 128],
    };
    registry.register_info(&info).expect("Should register");
    let result = registry.verify_identity(&info.agent_id, b"m", &Signature([0u8; 64]));
    assert!(matches!(result, Err(SwarmError::SignatureVerificationError(_))));
    let stored = registry.get(&info.agent_id).expect("Should get agent");
    assert!(stored.verifying_key().is_err());
}

#[test]
fn touch_keeps_status_and_renews_time() {
    let mut registry = AgentRegistry::new();
    let identity = AgentIdentity::new().expect("Should create identity");
    registry.register(&identity).expect("Should register");
    registry.update_status(identity.agent_id(), AgentStatus::Maintenance).expect("update");
    let before = registry.get(identity.agent_id()).expect("get").last_seen;
    registry.touch(identity.agent_id()).expect("touch");
    let after = registry.get(identity.agent_id()).expect("get");
    assert_eq!(after.status, AgentStatus::Maintenance);
    assert!(after.last_seen >= before);
}

#[test]
fn removed_agent_slot_no_longer_resolves() {
    let mut registry = AgentRegistry::new();
    let a = AgentIdentity::new().expect("Should create identity");
    let b = AgentIdentity::new().expect("Should create identity");
    registry.register(&a).expect("Should register");
    registry.register(&b).expect("Should register");
    let hits = registry.index_hits(&[1, 0, 7]);
    assert_eq!(hits.len(), 2);
    assert_eq!(hits[0].0, 0);
    assert_eq!(&hits[0].1.agent_id, b.agent_id());
    assert_eq!(hits[1].0, 1);
    assert_eq!(&hits[1].1.agent_id, a.agent_id());
    registry.remove(a.agent_id()).expect("Should remove");
    assert_eq!(registry.index_len(), 2);
    let hits = registry.index_hits(&[0, 1]);
    assert_eq!(hits.len(), 1);
    assert_eq!(hits[0].0, 1);
    assert_eq!(&hits[0].1.agent_id, b.agent_id());
    // Registering again files a new slot.
    registry.register(&a).expect("Should register again");
    assert_eq!(registry.index_len(), 3);
    assert_eq!(registry.len(), 2);
}

#[test]
fn default_registry_is_empty() {
    let registry = AgentRegistry::default();
    assert!(registry.is_empty());
    assert_eq!(registry.index_len(), 0);
    assert_eq!(AgentStatus::default(), AgentStatus::Online);
}

#[test]
fn time_stamps_are_the_times_given() {
    let mut registry = AgentRegistry::new();
    let identity = AgentIdentity::new().expect("Should create identity");
    registry.register_at(&identity, t(1_000, 1)).expect("Should register");
    assert_eq!(registry.get(identity.agent_id()).expect("get").last_seen, t(1_000, 1));
    registry.update_status_at(identity.agent_id(), AgentStatus::Busy, t(2_000, 999_999_999)).expect("update");
    let info = registry.get(identity.agent_id()).expect("get");
    assert_eq!((info.status, info.last_seen), (AgentStatus::Busy, t(2_000, 999_999_999)));
    registry.touch_at(identity.agent_id(), t(3_000, 7)).expect("touch");
    let info = registry.get(identity.agent_id()).expect("get");
    assert_eq!((info.status, info.last_seen), (AgentStatus::Busy, t(3_000, 7)));
    let remote = AgentIdentityInfo {
        agent_id: AgentId("remote".to_string()),
        public_key: *identity.public_key_bytes(),
        capability_vector: [0u32; 128],
    };
    registry.register_info_at(&remote, t(4_000, 0)).expect("Should register");
    assert_eq!(registry.get(&remote.agent_id).expect("get").last_seen, t(4_000, 0));
    assert!(registry.register_at(&identity, t(5_000, 5)).is_err());
    assert_eq!(registry.get(identity.agent_id()).expect("get").last_seen, t(3_000, 7));
}

#[test]
fn search_width_checks_the_dimension() {
    assert_eq!(capability_search_width(127, 5), None);
    assert_eq!(capability_search_width(128, 5), Some(50));
    assert_eq!(capability_search_width(128, 80), Some(80));
}
