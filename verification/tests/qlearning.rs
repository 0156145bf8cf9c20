use ruvector_swarm::binary32::less_than;
use ruvector_swarm::qlearning::DEFAULT_EXPLORATION_RATE;
use ruvector_swarm::{
    Action, BellmanInputs, Complexity, Confidence, QLearningEngine, QueryType, State, StateAction,
};

fn q(x: f32) -> u32 {
    x.to_bits()
}

fn value(bits: u32) -> f32 {
    f32::from_bits(bits)
}

/// The Bellman step Q + lr * (r + df * max_next - Q) in binary32.
fn bellman(t: BellmanInputs) -> u32 {
    let current = value(t.current);
    let reward = value(t.reward);
    let max_next = value(t.max_next);
    let lr = value(t.learning_rate);
    let df = value(t.discount_factor);
    (current + lr * (reward + df * max_next - current)).to_bits()
}

/// The exploration test: draw / 100 below the exploration rate.
fn explores(draw: u64, rate: u32) -> bool {
    (draw as f32) / 100.0 < value(rate)
}

#[test]
fn test_qlearning_creation() {
    let engine = QLearningEngine::new();
    assert_eq!(value(engine.learning_rate()), 0.1);
    assert_eq!(value(engine.discount_factor()), 0.95);
    assert_eq!(value(engine.exploration_rate()), 0.1);
    assert_eq!(engine.table_size(), 0);
}

#[test]
fn test_qlearning_custom_params() {
    let engine = QLearningEngine::with_params(q(0.05), q(0.9), q(0.2));
    assert_eq!(value(engine.learning_rate()), 0.05);
    assert_eq!(value(engine.discount_factor()), 0.9);
    assert_eq!(value(engine.exploration_rate()), 0.2);
}

#[test]
fn test_get_set_q() {
    let mut engine = QLearningEngine::new();
    let state = State::default();
    let action = Action::DirectAnswer;

    assert_eq!(value(engine.get_q(&state, &action)), 0.0);

    engine.set_q(&state, &action, q(0.5));
    assert_eq!(value(engine.get_q(&state, &action)), 0.5);
}

#[test]
fn test_max_q() {
    let mut engine = QLearningEngine::new();
    let state = State::default();

    engine.set_q(&state, &Action::DirectAnswer, q(0.3));
    engine.set_q(&state, &Action::ContextAnswer, q(0.7));
    engine.set_q(&state, &Action::RequestClarification, q(0.5));

    let actions = vec![
        Action::DirectAnswer,
        Action::ContextAnswer,
        Action::RequestClarification,
    ];

    assert_eq!(value(engine.max_q(&state, &actions)), 0.7);
}

#[test]
fn test_bellman_update() {
    let mut engine = QLearningEngine::new();
    let state = State::default();
    let next_state = State::with_defaults(QueryType::Procedure, Complexity::Complex, 42);
    let action = Action::DirectAnswer;

    engine.set_q(&state, &action, q(0.0));
    engine.set_q(&next_state, &Action::ContextAnswer, q(0.8));

    let next_actions = vec![Action::ContextAnswer];

    let reward = q(0.5);
    engine.update(&state, &action, reward, &next_state, &next_actions, bellman);

    // Q(s,a) = 0.0 + 0.1 * (0.5 + 0.95 * 0.8 - 0.0) = 0.126
    let expected = 0.126;
    let actual = value(engine.get_q(&state, &action));
    assert!((actual - expected).abs() < 1e-6);
}

#[test]
fn test_select_action_exploitation() {
    let mut engine = QLearningEngine::new();
    let state = State::default();

    engine.set_q(&state, &Action::DirectAnswer, q(0.3));
    engine.set_q(&state, &Action::ContextAnswer, q(0.9));
    engine.set_q(&state, &Action::RequestClarification, q(0.5));

    let actions = vec![
        Action::DirectAnswer,
        Action::ContextAnswer,
        Action::RequestClarification,
    ];

    // With high seed (>10), should exploit (select best action)
    let selected = engine.select_action(&state, &actions, Some(99), explores);
    assert_eq!(selected, Action::ContextAnswer);
}

#[test]
fn test_select_action_exploration() {
    let mut engine = QLearningEngine::new();
    let state = State::default();

    let actions = vec![
        Action::DirectAnswer,
        Action::ContextAnswer,
        Action::RequestClarification,
    ];

    // With low seed (<10), should explore (select random action)
    let selected = engine.select_action(&state, &actions, Some(5), explores);
    assert!(actions.contains(&selected));
}

#[test]
fn test_state_creation() {
    let state = State::new(
        QueryType::Troubleshoot,
        Complexity::Complex,
        12345,
        Confidence::High,
    );

    assert_eq!(state.query_type, QueryType::Troubleshoot);
    assert_eq!(state.complexity, Complexity::Complex);
    assert_eq!(state.context_hash, 12345);
    assert_eq!(state.confidence, Confidence::High);
}

#[test]
fn test_state_with_defaults() {
    let state = State::with_defaults(QueryType::Knowledge, Complexity::Simple, 0);

    assert_eq!(state.query_type, QueryType::Knowledge);
    assert_eq!(state.complexity, Complexity::Simple);
    assert_eq!(state.context_hash, 0);
    assert_eq!(state.confidence, Confidence::Medium);
}

#[test]
fn test_state_action_pair() {
    let state = State::default();
    let action = Action::DirectAnswer;
    let sa = StateAction::new(state, action.clone());

    assert_eq!(sa.state, state);
    assert_eq!(sa.action, action);
}

#[test]
fn test_update_count() {
    let mut engine = QLearningEngine::new();
    let state = State::default();
    let action = Action::DirectAnswer;

    assert_eq!(engine.update_count(), 0);

    engine.update(&state, &action, q(0.5), &state, &[Action::ContextAnswer], bellman);
    assert_eq!(engine.update_count(), 1);

    engine.update(&state, &action, q(0.3), &state, &[Action::ContextAnswer], bellman);
    assert_eq!(engine.update_count(), 2);
}

#[test]
fn test_action_count() {
    let mut engine = QLearningEngine::new();
    let state = State::default();
    let actions = vec![Action::DirectAnswer, Action::ContextAnswer];

    assert_eq!(engine.action_count(), 0);

    engine.select_action(&state, &actions, Some(99), explores);
    assert_eq!(engine.action_count(), 1);

    engine.select_action(&state, &actions, Some(99), explores);
    assert_eq!(engine.action_count(), 2);
}

#[test]
fn test_export_entries() {
    let mut engine = QLearningEngine::new();
    let state = State::default();

    engine.set_q(&state, &Action::DirectAnswer, q(0.5));
    engine.set_q(&state, &Action::ContextAnswer, q(0.7));

    let entries = engine.export_entries();
    assert_eq!(entries.len(), 2);

    let values: Vec<f32> = entries.iter().map(|(_, v, _)| value(*v)).collect();
    assert!(values.contains(&0.5));
    assert!(values.contains(&0.7));
}

#[test]
fn test_clear() {
    let mut engine = QLearningEngine::new();
    let state = State::default();

    engine.set_q(&state, &Action::DirectAnswer, q(0.5));
    engine.set_q(&state, &Action::ContextAnswer, q(0.7));
    assert_eq!(engine.table_size(), 2);

    engine.clear();
    assert_eq!(engine.table_size(), 0);
    assert_eq!(engine.update_count(), 0);
    assert_eq!(engine.action_count(), 0);
}

#[test]
fn test_multiple_states() {
    let mut engine = QLearningEngine::new();

    let state1 = State::with_defaults(QueryType::Knowledge, Complexity::Simple, 0);
    let state2 = State::with_defaults(QueryType::Procedure, Complexity::Complex, 42);

    engine.set_q(&state1, &Action::DirectAnswer, q(0.5));
    engine.set_q(&state2, &Action::ContextAnswer, q(0.8));

    assert_eq!(value(engine.get_q(&state1, &Action::DirectAnswer)), 0.5);
    assert_eq!(value(engine.get_q(&state2, &Action::ContextAnswer)), 0.8);
    assert_eq!(engine.table_size(), 2);
}

#[test]
fn test_action_enum_variants() {
    let actions = vec![
        Action::DirectAnswer,
        Action::ContextAnswer,
        Action::ConsultPeer(0),
        Action::RequestClarification,
        Action::EscalateCoordinator,
        Action::MultiAgentSynthesis(3),
    ];

    assert_eq!(actions.len(), 6);
}

#[test]
fn set_overwrites_and_keeps_others() {
    let mut engine = QLearningEngine::new();
    let state = State::default();
    engine.set_q(&state, &Action::ConsultPeer(1), q(0.25));
    engine.set_q(&state, &Action::ConsultPeer(2), q(0.5));
    engine.set_q(&state, &Action::ConsultPeer(1), q(-0.75));
    assert_eq!(value(engine.get_q(&state, &Action::ConsultPeer(1))), -0.75);
    assert_eq!(value(engine.get_q(&state, &Action::ConsultPeer(2))), 0.5);
    assert_eq!(value(engine.get_q(&state, &Action::ConsultPeer(3))), 0.0);
    assert_eq!(engine.table_size(), 2);
}

#[test]
fn max_q_is_the_maximum_and_skips_nan() {
    let mut engine = QLearningEngine::new();
    let state = State::default();
    engine.set_q(&state, &Action::DirectAnswer, q(-0.5));
    assert_eq!(value(engine.max_q(&state, &[Action::DirectAnswer])), -0.5);
    engine.set_q(&state, &Action::ContextAnswer, q(f32::NAN));
    let actions = vec![Action::DirectAnswer, Action::ContextAnswer];
    assert_eq!(value(engine.max_q(&state, &actions)), -0.5);
    assert_eq!(engine.max_q(&state, &[]), 0);
    assert_eq!(engine.max_q(&state, &[Action::ContextAnswer]), 0);
    let actions = vec![Action::DirectAnswer, Action::EscalateCoordinator];
    assert_eq!(value(engine.max_q(&state, &actions)), 0.0);
    engine.set_q(&state, &Action::EscalateCoordinator, q(2.5));
    assert_eq!(value(engine.max_q(&state, &actions)), 2.5);
}

#[test]
fn greedy_choice_keeps_first_of_equal_values() {
    let mut engine = QLearningEngine::new();
    let state = State::default();
    engine.set_q(&state, &Action::ContextAnswer, q(0.4));
    engine.set_q(&state, &Action::EscalateCoordinator, q(0.4));
    let actions = vec![Action::DirectAnswer, Action::ContextAnswer, Action::EscalateCoordinator];
    let chosen = engine.select_action(&state, &actions, Some(50), explores);
    assert_eq!(chosen, Action::ContextAnswer);
}

#[test]
fn exploring_picks_seed_modulo_count() {
    let mut engine = QLearningEngine::new();
    let state = State::default();
    engine.set_q(&state, &Action::DirectAnswer, q(0.9));
    let actions = vec![Action::DirectAnswer, Action::ContextAnswer, Action::RequestClarification];
    // 205 % 100 = 5 explores at rate 0.1; 205 % 3 = 1.
    let chosen = engine.select_action(&state, &actions, Some(205), explores);
    assert_eq!(chosen, Action::ContextAnswer);
    assert_eq!(engine.action_count(), 1);
}

#[test]
fn selecting_among_no_actions_answers_directly() {
    let mut engine = QLearningEngine::new();
    let state = State::default();
    let chosen = engine.select_action(&state, &[], None, explores);
    assert_eq!(chosen, Action::DirectAnswer);
    assert_eq!(engine.action_count(), 1);
}

#[test]
fn selecting_without_seed_returns_one_of_the_actions() {
    let mut engine = QLearningEngine::new();
    let state = State::new(QueryType::Explain, Complexity::VeryComplex, 7, Confidence::Low);
    let actions = vec![Action::RequestClarification, Action::MultiAgentSynthesis(2)];
    let chosen = engine.select_action(&state, &actions, None, explores);
    assert!(actions.contains(&chosen));
}

#[test]
fn update_hands_the_bellman_operands_over() {
    let mut engine = QLearningEngine::with_params(q(0.5), q(0.25), DEFAULT_EXPLORATION_RATE);
    let state = State::default();
    let next_state = State::with_defaults(QueryType::Configure, Complexity::Simple, 3);
    engine.set_q(&state, &Action::DirectAnswer, q(1.0));
    engine.set_q(&next_state, &Action::ContextAnswer, q(-4.0));
    engine.set_q(&next_state, &Action::DirectAnswer, q(8.0));
    let next_actions = vec![Action::ContextAnswer, Action::DirectAnswer];
    let record = |t: BellmanInputs| {
        assert_eq!(t.current, q(1.0));
        assert_eq!(t.reward, q(3.0));
        assert_eq!(t.max_next, q(8.0));
        assert_eq!(t.learning_rate, q(0.5));
        assert_eq!(t.discount_factor, q(0.25));
        bellman(t)
    };
    engine.update(&state, &Action::DirectAnswer, q(3.0), &next_state, &next_actions, record);
    // 1 + 0.5 * (3 + 0.25 * 8 - 1) = 3
    assert_eq!(value(engine.get_q(&state, &Action::DirectAnswer)), 3.0);
    assert_eq!(engine.update_count(), 1);
}

#[test]
fn export_lists_each_pair_once_with_count_one() {
    let mut engine = QLearningEngine::new();
    let s1 = State::default();
    let s2 = State::with_defaults(QueryType::Explain, Complexity::Simple, 9);
    engine.set_q(&s1, &Action::DirectAnswer, q(0.5));
    engine.set_q(&s2, &Action::DirectAnswer, q(0.25));
    engine.set_q(&s1, &Action::DirectAnswer, q(0.75));
    let entries = engine.export_entries();
    assert_eq!(entries.len(), 2);
    assert!(entries.contains(&(StateAction::new(s1, Action::DirectAnswer), q(0.75), 1)));
    assert!(entries.contains(&(StateAction::new(s2, Action::DirectAnswer), q(0.25), 1)));
}

#[test]
fn from_parts_keeps_the_later_record() {
    let s = State::default();
    let entries = vec![
        (StateAction::new(s, Action::DirectAnswer), q(0.5)),
        (StateAction::new(s, Action::ContextAnswer), q(0.125)),
        (StateAction::new(s, Action::DirectAnswer), q(0.25)),
    ];
    let engine = QLearningEngine::from_parts(entries, q(0.1), q(0.9), q(0.3), 7, 11);
    assert_eq!(engine.table_size(), 2);
    assert_eq!(value(engine.get_q(&s, &Action::DirectAnswer)), 0.25);
    assert_eq!(value(engine.get_q(&s, &Action::ContextAnswer)), 0.125);
    assert_eq!(engine.update_count(), 7);
    assert_eq!(engine.action_count(), 11);
    assert_eq!(value(engine.exploration_rate()), 0.3);
}

#[test]
fn clone_keeps_table_and_counters() {
    let mut engine = QLearningEngine::new();
    let s = State::default();
    engine.set_q(&s, &Action::DirectAnswer, q(0.5));
    engine.update(&s, &Action::DirectAnswer, q(1.0), &s, &[Action::DirectAnswer], bellman);
    let copy = engine.clone();
    assert_eq!(copy.get_q(&s, &Action::DirectAnswer), engine.get_q(&s, &Action::DirectAnswer));
    assert_eq!(copy.update_count(), 1);
    assert_eq!(copy.table_size(), 1);
}

#[test]
fn binary32_order_matches_float_order() {
    let samples = [
        0.0f32, -0.0, 1.0, -1.0, 0.5, -2.5, f32::INFINITY, f32::NEG_INFINITY, f32::NAN,
        f32::MIN_POSITIVE, -f32::MIN_POSITIVE, 1e-45, f32::MAX, f32::MIN,
    ];
    for a in samples.iter() {
        for b in samples.iter() {
            assert_eq!(less_than(a.to_bits(), b.to_bits()), a < b, "{} < {}", a, b);
        }
    }
}

#[test]
fn defaults_of_the_enums() {
    assert_eq!(Complexity::default(), Complexity::Moderate);
    assert_eq!(Confidence::default(), Confidence::Medium);
    assert_eq!(Action::default(), Action::DirectAnswer);
    assert_eq!(QueryType::default(), QueryType::Knowledge);
    let engine = QLearningEngine::default();
    assert_eq!(engine.table_size(), 0);
}

#[test]
fn greedy_choice_passes_over_nan() {
    let mut engine = QLearningEngine::new();
    let state = State::default();
    engine.set_q(&state, &Action::DirectAnswer, q(1.0));
    engine.set_q(&state, &Action::ContextAnswer, q(f32::NAN));
    engine.set_q(&state, &Action::EscalateCoordinator, q(2.0));
    let actions = vec![Action::DirectAnswer, Action::ContextAnswer, Action::EscalateCoordinator];
    let chosen = engine.select_action(&state, &actions, Some(99), explores);
    assert_eq!(chosen, Action::EscalateCoordinator);
}
