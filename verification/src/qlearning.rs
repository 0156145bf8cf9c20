//! Q-learning engine for agent decision-making.
//!
//! The engine keeps a Q-table from state-action pairs to learned values,
//! counts updates and action selections, and selects actions by an
//! epsilon-greedy policy. Q-values and the learning parameters are
//! IEEE-754 binary32 bit patterns ([`QValue`]); the Bellman step and the
//! exploration test, which compute on them, are supplied by the caller.

use std::collections::hash_map::DefaultHasher;
use std::hash::{Hash, Hasher};

use vstd::prelude::*;

use crate::binary32::{binary32_lt, is_nan, is_not_a_number, less_than};
use crate::keyed::{
    has_key, keys_distinct, lemma_seq_to_map, lemma_seq_to_map_len, lemma_seq_to_map_push,
    lemma_seq_to_map_update, seq_to_map,
};
use crate::types::QueryType;

verus! {

/// A learned value: the bit pattern of an IEEE-754 binary32 number.
pub type QValue = u32;

/// Default learning rate: the binary32 nearest to one tenth.
pub const DEFAULT_LEARNING_RATE: QValue = 0x3dcc_cccd;

/// Default discount factor: the binary32 nearest to ninety-five hundredths.
pub const DEFAULT_DISCOUNT_FACTOR: QValue = 0x3f73_3333;

/// Default exploration rate: the binary32 nearest to one tenth.
pub const DEFAULT_EXPLORATION_RATE: QValue = 0x3dcc_cccd;

/// Complexity level for query classification.
#[derive(Debug, Clone, Copy, PartialEq, Eq, Hash, Structural)]
pub enum Complexity {
    /// Simple query requiring direct lookup.
    Simple,
    /// Moderate query requiring some reasoning.
    Moderate,
    /// Complex query requiring multi-step reasoning.
    Complex,
    /// Very complex query requiring expert consultation.
    VeryComplex,
}

impl Default for Complexity {
    fn default() -> (c: Self)
        ensures
            c == Complexity::Moderate,
    {
        Complexity::Moderate
    }
}

/// Confidence level in the current state assessment.
#[derive(Debug, Clone, Copy, PartialEq, Eq, Hash, Structural)]
pub enum Confidence {
    /// Low confidence in state assessment.
    Low,
    /// Medium confidence in state assessment.
    Medium,
    /// High confidence in state assessment.
    High,
}

impl Default for Confidence {
    fn default() -> (c: Self)
        ensures
            c == Confidence::Medium,
    {
        Confidence::Medium
    }
}

/// State for Q-learning: query type, complexity, context hash, confidence.
#[derive(Debug, Clone, Copy, PartialEq, Eq, Hash, Structural)]
pub struct State {
    /// Type of query being processed.
    pub query_type: QueryType,
    /// Complexity level of the query.
    pub complexity: Complexity,
    /// Hash of context information (0 if no context).
    pub context_hash: u64,
    /// Confidence in the state assessment.
    pub confidence: Confidence,
}

impl State {
    /// Create a new state.
    pub fn new(
        query_type: QueryType,
        complexity: Complexity,
        context_hash: u64,
        confidence: Confidence,
    ) -> (s: Self)
        ensures
            s.query_type == query_type,
            s.complexity == complexity,
            s.context_hash == context_hash,
            s.confidence == confidence,
    {
        State { query_type, complexity, context_hash, confidence }
    }

    /// Create a state with the default (medium) confidence.
    pub fn with_defaults(query_type: QueryType, complexity: Complexity, context_hash: u64) -> (s:
        Self)
        ensures
            s.query_type == query_type,
            s.complexity == complexity,
            s.context_hash == context_hash,
            s.confidence == Confidence::Medium,
    {
        State { query_type, complexity, context_hash, confidence: Confidence::default() }
    }
}

impl Default for State {
    fn default() -> (s: Self)
        ensures
            s.query_type == QueryType::Knowledge,
            s.complexity == Complexity::Moderate,
            s.context_hash == 0,
            s.confidence == Confidence::Medium,
    {
        State {
            query_type: QueryType::default(),
            complexity: Complexity::default(),
            context_hash: 0,
            confidence: Confidence::default(),
        }
    }
}

/// Action that an agent can take in response to a query.
#[derive(Debug, Clone, Copy, PartialEq, Eq, Hash, Structural)]
pub enum Action {
    /// Provide a direct answer from knowledge base.
    DirectAnswer,
    /// Provide answer with additional context.
    ContextAnswer,
    /// Consult a specific peer agent (identified by index).
    ConsultPeer(usize),
    /// Request clarification from user.
    RequestClarification,
    /// Escalate to coordinator agent.
    EscalateCoordinator,
    /// Synthesize response from multiple agents (number of agents to consult).
    MultiAgentSynthesis(usize),
}

impl Default for Action {
    fn default() -> (a: Self)
        ensures
            a == Action::DirectAnswer,
    {
        Action::DirectAnswer
    }
}

/// State-action pair indexing the Q-table.
#[derive(Debug, Clone, Copy, PartialEq, Eq, Hash, Structural)]
pub struct StateAction {
    /// The state.
    pub state: State,
    /// The action.
    pub action: Action,
}

impl StateAction {
    /// Create a new state-action pair.
    pub fn new(state: State, action: Action) -> (sa: Self)
        ensures
            sa.state == state,
            sa.action == action,
    {
        StateAction { state, action }
    }
}

/// The operands of one Bellman step, handed to the caller's arithmetic:
/// `current + learning_rate * (reward + discount_factor * max_next - current)`.
#[derive(Debug, Clone, Copy, PartialEq, Eq)]
pub struct BellmanInputs {
    /// Q(s, a) before the update.
    pub current: QValue,
    /// Immediate reward.
    pub reward: QValue,
    /// max over the next actions of Q(s', a'), zero when there is none.
    pub max_next: QValue,
    /// Learning rate of the engine.
    pub learning_rate: QValue,
    /// Discount factor of the engine.
    pub discount_factor: QValue,
}

/// The key under which a table record is filed.
pub open spec fn by_state_action() -> spec_fn((StateAction, QValue)) -> StateAction {
    |e: (StateAction, QValue)| e.0
}

/// The Q-table described by a sequence of records (a later record wins).
pub open spec fn q_map_of(s: Seq<(StateAction, QValue)>) -> Map<StateAction, QValue> {
    Map::new(
        |k: StateAction| seq_to_map(s, by_state_action()).dom().contains(k),
        |k: StateAction| seq_to_map(s, by_state_action())[k].1,
    )
}

/// The greatest number among `qs` under IEEE `<` (the first of equal
/// ones), skipping NaNs; `None` when `qs` holds no number.
pub open spec fn q_max_opt(qs: Seq<QValue>) -> Option<QValue>
    decreases qs.len(),
{
    if qs.len() == 0 {
        None
    } else {
        let m = q_max_opt(qs.drop_last());
        let x = qs.last();
        if is_nan(x) {
            m
        } else {
            match m {
                None => Some(x),
                Some(v) => if binary32_lt(v, x) {
                    Some(x)
                } else {
                    Some(v)
                },
            }
        }
    }
}

/// The maximum of `qs`; positive zero when `qs` holds no number (in
/// particular when it is empty).
pub open spec fn q_max_from(qs: Seq<QValue>) -> QValue {
    match q_max_opt(qs) {
        Some(v) => v,
        None => 0,
    }
}

/// The position chosen greedily among `qs`: the first one, replaced by each
/// later value that is strictly greater (IEEE `<`) than the best so far.
pub open spec fn greedy_position(qs: Seq<QValue>) -> int
    decreases qs.len(),
{
    if qs.len() <= 1 {
        0
    } else {
        let j = greedy_position(qs.drop_last());
        if binary32_lt(qs[j], qs.last()) {
            qs.len() - 1
        } else {
            j
        }
    }
}

/// The greedy position lies within `qs` when `qs` is not empty.
pub proof fn lemma_greedy_position_bounds(qs: Seq<QValue>)
    requires
        qs.len() > 0,
    ensures
        0 <= greedy_position(qs) < qs.len(),
    decreases qs.len(),
{
    if qs.len() > 1 {
        lemma_greedy_position_bounds(qs.drop_last());
    }
}

/// The maximum is a number that no value of `qs` exceeds; it is one of the
/// values, unless `qs` holds no number at all, and then it is zero.
pub proof fn lemma_max_q_is_maximum(qs: Seq<QValue>)
    ensures
        forall|i: int| 0 <= i < qs.len() ==> !binary32_lt(q_max_from(qs), #[trigger] qs[i]),
        !is_nan(q_max_from(qs)),
        q_max_opt(qs) is None <==> forall|i: int| 0 <= i < qs.len() ==> is_nan(#[trigger] qs[i]),
        q_max_opt(qs) matches Some(v) ==> exists|i: int| 0 <= i < qs.len() && qs[i] == v,
    decreases qs.len(),
{
    if qs.len() > 0 {
        let t = qs.drop_last();
        lemma_max_q_is_maximum(t);
        assert forall|i: int| 0 <= i < qs.len() implies !binary32_lt(
            q_max_from(qs),
            #[trigger] qs[i],
        ) by {
            if i < t.len() {
                assert(qs[i] == t[i]);
                assert(!binary32_lt(q_max_from(t), t[i]));
            }
        }
        assert((forall|i: int| 0 <= i < qs.len() ==> is_nan(#[trigger] qs[i])) ==> (forall|
            i: int,
        | 0 <= i < t.len() ==> is_nan(#[trigger] t[i]))) by {
            assert forall|i: int| 0 <= i < t.len() && (forall|j: int| 0 <= j < qs.len() ==> is_nan(#[trigger] qs[j])) implies is_nan(#[trigger] t[i]) by {
                assert(qs[i] == t[i]);
            }
        }
        if q_max_opt(t) is None && is_nan(qs.last()) {
            assert forall|i: int| 0 <= i < qs.len() implies is_nan(#[trigger] qs[i]) by {
                if i < t.len() {
                    assert(qs[i] == t[i]);
                }
            }
        }
        if q_max_opt(qs) is Some && q_max_opt(qs) != q_max_opt(t) {
            assert(qs[qs.len() - 1] == qs.last());
        }
        if q_max_opt(qs) is Some && q_max_opt(qs) == q_max_opt(t) {
            let i = choose|i: int| 0 <= i < t.len() && t[i] == q_max_opt(t)->0;
            assert(qs[i] == t[i]);
        }
    }
}

/// The greedy choice has a value that no other value exceeds.
pub proof fn lemma_greedy_is_best(qs: Seq<QValue>)
    requires
        qs.len() > 0,
    ensures
        forall|i: int| 0 <= i < qs.len() ==> !binary32_lt(qs[greedy_position(qs)], #[trigger] qs[i]),
    decreases qs.len(),
{
    lemma_greedy_position_bounds(qs);
    if qs.len() > 1 {
        let t = qs.drop_last();
        lemma_greedy_is_best(t);
        lemma_greedy_position_bounds(t);
        let j = greedy_position(t);
        assert(t[j] == qs[j]);
        assert forall|i: int| 0 <= i < qs.len() implies !binary32_lt(
            qs[greedy_position(qs)],
            #[trigger] qs[i],
        ) by {
            if i < t.len() {
                assert(qs[i] == t[i]);
                assert(!binary32_lt(t[j], t[i]));
            }
        }
    }
}

/// The greedy choice is the first of the greatest numbers: every earlier
/// value is a NaN or lies below it.
pub proof fn lemma_greedy_is_first_best(qs: Seq<QValue>)
    requires
        qs.len() > 0,
    ensures
        forall|i: int|
            0 <= i < greedy_position(qs) ==> is_nan(#[trigger] qs[i]) || binary32_lt(
                qs[i],
                qs[greedy_position(qs)],
            ),
    decreases qs.len(),
{
    lemma_greedy_position_bounds(qs);
    if qs.len() > 1 {
        let t = qs.drop_last();
        lemma_greedy_is_first_best(t);
        lemma_greedy_is_best(t);
        lemma_greedy_position_bounds(t);
        let j = greedy_position(t);
        let g = greedy_position(qs);
        assert forall|i: int| 0 <= i < g implies is_nan(#[trigger] qs[i]) || binary32_lt(
            qs[i],
            qs[g],
        ) by {
            assert(qs[i] == t[i]);
            if g != j {
                assert(qs[j] == t[j]);
                if i < j {
                    assert(is_nan(t[i]) || binary32_lt(t[i], t[j]));
                } else if i > j {
                    assert(!binary32_lt(t[j], t[i]));
                }
            } else {
                assert(is_nan(t[i]) || binary32_lt(t[i], t[j]));
                assert(qs[j] == t[j]);
            }
        }
    }
}

/// A read gives back what the last write wrote, and a write leaves the
/// other pairs as they were.
pub proof fn lemma_set_then_get(
    before: QLearningEngine,
    after: QLearningEngine,
    sa: StateAction,
    value: QValue,
    other: StateAction,
)
    requires
        after.q_table() == before.q_table().insert(sa, value),
    ensures
        after.q_of(sa) == value,
        other != sa ==> after.q_of(other) == before.q_of(other),
{
}

/// The position chosen when exploring: the seed (or 0) modulo the count.
pub open spec fn explore_position(rng_seed: Option<u64>, count: nat) -> int {
    let seed: u64 = match rng_seed {
        Some(s) => s,
        None => 0,
    };
    (seed as usize) as int % (count as int)
}

/// Exploring reaches every action: with `n` actions, the seed `p` picks
/// position `p` for each `p < n`, every seed picks a position in range, and
/// no seed means position 0.
pub proof fn lemma_explore_position_reaches_all(n: nat)
    requires
        0 < n <= usize::MAX,
    ensures
        forall|p: u64| (p as int) < n ==> #[trigger] explore_position(Some(p), n) == p,
        forall|s: u64| 0 <= #[trigger] explore_position(Some(s), n) < n,
        explore_position(None, n) == 0,
{
    assert forall|p: u64| (p as int) < n implies #[trigger] explore_position(Some(p), n) == p by {
        assert((p as usize) as int == p as int);
        vstd::arithmetic::div_mod::lemma_small_mod(p as nat, n);
    }
    assert((0u64 as usize) as int == 0);
    vstd::arithmetic::div_mod::lemma_small_mod(0, n);
}

/// Q-Learning engine: a Q-table from state-action pairs to values, the
/// learning parameters, and counters of updates and selections.
#[derive(Debug)]
pub struct QLearningEngine {
    entries: Vec<(StateAction, QValue)>,
    learning_rate: QValue,
    discount_factor: QValue,
    exploration_rate: QValue,
    update_count: u64,
    action_count: u64,
}

impl QLearningEngine {
    #[verifier::type_invariant]
    spec fn entries_distinct(self) -> bool {
        keys_distinct(self.entries@, by_state_action())
    }

    /// The Q-table: the learned value of each visited state-action pair.
    pub closed spec fn q_table(&self) -> Map<StateAction, QValue> {
        q_map_of(self.entries@)
    }

    /// The learned value of `sa`, zero (positive) when it was never set.
    pub open spec fn q_of(&self, sa: StateAction) -> QValue {
        if self.q_table().dom().contains(sa) {
            self.q_table()[sa]
        } else {
            0
        }
    }

    /// The learned values of `state` paired with each of `actions`, in order.
    pub open spec fn q_values(&self, state: State, actions: Seq<Action>) -> Seq<QValue> {
        Seq::new(actions.len(), |i: int| self.q_of(StateAction { state, action: actions[i] }))
    }

    /// Learning rate.
    pub closed spec fn rate_of_learning(&self) -> QValue {
        self.learning_rate
    }

    /// Discount factor.
    pub closed spec fn rate_of_discount(&self) -> QValue {
        self.discount_factor
    }

    /// Exploration rate.
    pub closed spec fn rate_of_exploration(&self) -> QValue {
        self.exploration_rate
    }

    /// Number of updates performed.
    pub closed spec fn updates(&self) -> u64 {
        self.update_count
    }

    /// Number of actions selected.
    pub closed spec fn selections(&self) -> u64 {
        self.action_count
    }

    /// The parameters of two engines agree.
    pub open spec fn same_rates(&self, other: &Self) -> bool {
        &&& self.rate_of_learning() == other.rate_of_learning()
        &&& self.rate_of_discount() == other.rate_of_discount()
        &&& self.rate_of_exploration() == other.rate_of_exploration()
    }

    /// The operands of the Bellman step for `sa` after `reward`, moving to
    /// `next_state` with `next_actions` available.
    pub open spec fn bellman_inputs(
        &self,
        sa: StateAction,
        reward: QValue,
        next_state: State,
        next_actions: Seq<Action>,
    ) -> BellmanInputs {
        BellmanInputs {
            current: self.q_of(sa),
            reward,
            max_next: q_max_from(self.q_values(next_state, next_actions)),
            learning_rate: self.rate_of_learning(),
            discount_factor: self.rate_of_discount(),
        }
    }

    /// The Bellman operands carry the caller's reward unchanged, the pair's
    /// current value, the best next value and the engine's own rates.
    pub proof fn lemma_bellman_operands(
        &self,
        sa: StateAction,
        reward: QValue,
        next_state: State,
        next_actions: Seq<Action>,
    )
        ensures
            self.bellman_inputs(sa, reward, next_state, next_actions).reward == reward,
            self.bellman_inputs(sa, reward, next_state, next_actions).current == self.q_of(sa),
            self.bellman_inputs(sa, reward, next_state, next_actions).max_next == q_max_from(
                self.q_values(next_state, next_actions),
            ),
            self.bellman_inputs(sa, reward, next_state, next_actions).learning_rate
                == self.rate_of_learning(),
            self.bellman_inputs(sa, reward, next_state, next_actions).discount_factor
                == self.rate_of_discount(),
    {
    }

    /// The Q-table is finite.
    pub proof fn lemma_table_finite(&self)
        ensures
            self.q_table().dom().finite(),
    {
        lemma_seq_to_map(self.entries@, by_state_action());
        assert(self.q_table().dom() =~= seq_to_map(self.entries@, by_state_action()).dom());
    }

    proof fn lemma_q_map(s: Seq<(StateAction, QValue)>)
        requires
            keys_distinct(s, by_state_action()),
        ensures
            forall|k: StateAction|
                #[trigger] q_map_of(s).dom().contains(k) <==> has_key(s, by_state_action(), k),
            forall|i: int| 0 <= i < s.len() ==> #[trigger] q_map_of(s)[s[i].0] == s[i].1,
            q_map_of(s).dom().finite(),
            q_map_of(s).dom().len() == s.len(),
    {
        lemma_seq_to_map(s, by_state_action());
        lemma_seq_to_map_len(s, by_state_action());
        assert(q_map_of(s).dom() =~= seq_to_map(s, by_state_action()).dom());
        assert forall|i: int| 0 <= i < s.len() implies #[trigger] q_map_of(s)[s[i].0] == s[i].1 by {
            assert(seq_to_map(s, by_state_action())[(by_state_action())(s[i])] == s[i]);
        }
    }

    proof fn lemma_q_map_push(s: Seq<(StateAction, QValue)>, x: (StateAction, QValue))
        ensures
            q_map_of(s.push(x)) == q_map_of(s).insert(x.0, x.1),
    {
        lemma_seq_to_map_push(s, by_state_action(), x);
        assert(q_map_of(s.push(x)) =~= q_map_of(s).insert(x.0, x.1));
    }

    /// Position of the record of `key`, if any.
    fn position(&self, key: &StateAction) -> (p: Option<usize>)
        ensures
            match p {
                Some(i) => i < self.entries@.len() && self.entries@[i as int].0 == *key,
                None => !has_key(self.entries@, by_state_action(), *key),
            },
    {
        let n = self.entries.len();
        for i in 0..n
            invariant
                n == self.entries@.len(),
                forall|j: int| 0 <= j < i ==> self.entries@[j].0 != *key,
        {
            if self.entries[i].0 == *key {
                return Some(i);
            }
        }
        None
    }

    /// Create a new engine with the default parameters (learning rate and
    /// exploration rate one tenth, discount factor ninety-five hundredths).
    pub fn new() -> (e: Self)
        ensures
            e.q_table() == Map::<StateAction, QValue>::empty(),
            e.rate_of_learning() == DEFAULT_LEARNING_RATE,
            e.rate_of_discount() == DEFAULT_DISCOUNT_FACTOR,
            e.rate_of_exploration() == DEFAULT_EXPLORATION_RATE,
            e.updates() == 0,
            e.selections() == 0,
    {
        Self::with_params(DEFAULT_LEARNING_RATE, DEFAULT_DISCOUNT_FACTOR, DEFAULT_EXPLORATION_RATE)
    }

    /// Create a new engine with the given parameters and an empty table.
    pub fn with_params(learning_rate: QValue, discount_factor: QValue, exploration_rate: QValue) -> (e:
        Self)
        ensures
            e.q_table() == Map::<StateAction, QValue>::empty(),
            e.rate_of_learning() == learning_rate,
            e.rate_of_discount() == discount_factor,
            e.rate_of_exploration() == exploration_rate,
            e.updates() == 0,
            e.selections() == 0,
    {
        let e = QLearningEngine {
            entries: Vec::new(),
            learning_rate,
            discount_factor,
            exploration_rate,
            update_count: 0,
            action_count: 0,
        };
        assert(e.q_table() =~= Map::<StateAction, QValue>::empty());
        e
    }

    /// Get the Q-value of a state-action pair; zero if never set.
    pub fn get_q(&self, state: &State, action: &Action) -> (q: QValue)
        ensures
            q == self.q_of(StateAction { state: *state, action: *action }),
    {
        proof {
            use_type_invariant(self);
            Self::lemma_q_map(self.entries@);
        }
        let key = StateAction::new(*state, *action);
        match self.position(&key) {
            Some(i) => self.entries[i].1,
            None => 0,
        }
    }

    /// Set the Q-value of a state-action pair.
    pub fn set_q(&mut self, state: &State, action: &Action, value: QValue)
        ensures
            final(self).q_table() == old(self).q_table().insert(
                StateAction { state: *state, action: *action },
                value,
            ),
            final(self).q_table().dom().finite(),
            final(self).same_rates(old(self)),
            final(self).updates() == old(self).updates(),
            final(self).selections() == old(self).selections(),
    {
        proof {
            use_type_invariant(&*self);
        }
        let key = StateAction::new(*state, *action);
        let ghost s = self.entries@;
        let position = self.position(&key);
        let mut entries: Vec<(StateAction, QValue)> = Vec::new();
        std::mem::swap(&mut entries, &mut self.entries);
        match position {
            Some(i) => {
                proof {
                    lemma_seq_to_map_update(s, by_state_action(), i as int, (key, value));
                    lemma_seq_to_map(s, by_state_action());
                }
                entries.set(i, (key, value));
                proof {
                    assert(entries@ == s.update(i as int, (key, value)));
                    assert(q_map_of(entries@) =~= q_map_of(s).insert(key, value));
                }
            },
            None => {
                proof {
                    lemma_seq_to_map_push(s, by_state_action(), (key, value));
                    Self::lemma_q_map_push(s, (key, value));
                }
                entries.push((key, value));
            },
        }
        self.entries = entries;
        proof {
            self.lemma_table_finite();
        }
    }

    /// The maximum Q-value of `state` over `actions` (unvisited pairs count
    /// as zero); zero when `actions` is empty.
    pub fn max_q(&self, state: &State, actions: &[Action]) -> (m: QValue)
        ensures
            m == q_max_from(self.q_values(*state, actions@)),
    {
        let ghost qs = self.q_values(*state, actions@);
        let mut best: Option<QValue> = None;
        let n = actions.len();
        for i in 0..n
            invariant
                n == actions@.len(),
                qs == self.q_values(*state, actions@),
                best == q_max_opt(qs.take(i as int)),
        {
            let q = self.get_q(state, &actions[i]);
            assert(qs.take(i + 1).drop_last() =~= qs.take(i as int));
            assert(qs.take(i + 1).last() == q);
            if !is_not_a_number(q) {
                match best {
                    None => {
                        best = Some(q);
                    },
                    Some(v) => {
                        if less_than(v, q) {
                            best = Some(q);
                        }
                    },
                }
            }
        }
        assert(qs.take(n as int) =~= qs);
        match best {
            Some(v) => v,
            None => 0,
        }
    }

    /// Update the Q-value of (`state`, `action`) by one Bellman step: the
    /// engine hands the current value, `reward`, the maximum next value and
    /// its parameters to `bellman`, stores what it returns and counts the
    /// update.
    pub fn update<F: Fn(BellmanInputs) -> QValue>(
        &mut self,
        state: &State,
        action: &Action,
        reward: QValue,
        next_state: &State,
        next_actions: &[Action],
        bellman: F,
    )
        requires
            old(self).updates() < u64::MAX,
            forall|t: BellmanInputs| bellman.requires((t,)),
        ensures
            exists|v: QValue|
                #[trigger] bellman.ensures(
                    (
                        old(self).bellman_inputs(
                            StateAction { state: *state, action: *action },
                            reward,
                            *next_state,
                            next_actions@,
                        ),
                    ),
                    v,
                ) && final(self).q_table() == old(self).q_table().insert(
                    StateAction { state: *state, action: *action },
                    v,
                ),
            final(self).same_rates(old(self)),
            final(self).updates() == old(self).updates() + 1,
            final(self).selections() == old(self).selections(),
    {
        proof {
            use_type_invariant(&*self);
        }
        let current = self.get_q(state, action);
        let max_next = self.max_q(next_state, next_actions);
        let inputs = BellmanInputs {
            current,
            reward,
            max_next,
            learning_rate: self.learning_rate,
            discount_factor: self.discount_factor,
        };
        assert(inputs == old(self).bellman_inputs(
            StateAction { state: *state, action: *action },
            reward,
            *next_state,
            next_actions@,
        ));
        let new_q = bellman(inputs);
        self.set_q(state, action, new_q);
        proof {
            use_type_invariant(&*self);
        }
        self.update_count = self.update_count + 1;
    }

    /// Select an action by the epsilon-greedy policy.
    ///
    /// The draw is `seed % 100`, or, without a seed, the `DefaultHasher`
    /// hash of `state` modulo 100; `explores(draw, exploration_rate)` decides
    /// whether to explore. Exploring picks `actions[seed % len]` (seed 0 when
    /// absent); exploiting picks the first action of greatest Q-value.
    /// With no actions the choice is `DirectAnswer`. Every call is counted.
    pub fn select_action<F: Fn(u64, QValue) -> bool>(
        &mut self,
        state: &State,
        actions: &[Action],
        rng_seed: Option<u64>,
        explores: F,
    ) -> (chosen: Action)
        requires
            old(self).selections() < u64::MAX,
            forall|draw: u64, rate: QValue| explores.requires((draw, rate)),
        ensures
            final(self).q_table() == old(self).q_table(),
            final(self).same_rates(old(self)),
            final(self).updates() == old(self).updates(),
            final(self).selections() == old(self).selections() + 1,
            actions@.len() == 0 ==> chosen == Action::DirectAnswer,
            actions@.len() > 0 ==> exists|draw: u64, explore: bool|
                #![trigger explores.ensures((draw, old(self).rate_of_exploration()), explore)]
                {
                    &&& draw < 100
                    &&& (rng_seed matches Some(s) ==> draw == s % 100)
                    &&& explores.ensures((draw, old(self).rate_of_exploration()), explore)
                    &&& chosen == if explore {
                        actions@[explore_position(rng_seed, actions@.len())]
                    } else {
                        actions@[greedy_position(old(self).q_values(*state, actions@))]
                    }
                },
    {
        proof {
            use_type_invariant(&*self);
        }
        self.action_count = self.action_count + 1;
        if actions.len() == 0 {
            return Action::DirectAnswer;
        }
        let roll: u64 = match rng_seed {
            Some(seed) => seed,
            None => {
                let mut hasher = DefaultHasher::new();
                hash_state_into(state, &mut hasher);
                hasher.finish()
            },
        };
        let draw = roll % 100;
        let explore = explores(draw, self.exploration_rate);
        assert(explores.ensures((draw, old(self).rate_of_exploration()), explore));
        if explore {
            let seed: u64 = match rng_seed {
                Some(s) => s,
                None => 0,
            };
            let idx = (#[verifier::truncate] (seed as usize)) % actions.len();
            actions[idx]
        } else {
            let ghost qs = self.q_values(*state, actions@);
            proof {
                lemma_greedy_position_bounds(qs);
            }
            let mut best_idx: usize = 0;
            let mut best_q = self.get_q(state, &actions[0]);
            let n = actions.len();
            for i in 1..n
                invariant
                    n == actions@.len(),
                    n > 0,
                    qs == self.q_values(*state, actions@),
                    best_idx < i,
                    best_idx == greedy_position(qs.take(i as int)),
                    best_q == qs[best_idx as int],
            {
                let q = self.get_q(state, &actions[i]);
                assert(qs.take(i + 1).drop_last() =~= qs.take(i as int));
                assert(qs.take(i + 1)[best_idx as int] == qs[best_idx as int]);
                if less_than(best_q, q) {
                    best_q = q;
                    best_idx = i;
                }
            }
            assert(qs.take(n as int) =~= qs);
            assert(qs == old(self).q_values(*state, actions@));
            actions[best_idx]
        }
    }

    /// Number of state-action pairs in the Q-table.
    pub fn table_size(&self) -> (n: usize)
        ensures
            self.q_table().dom().finite(),
            n == self.q_table().dom().len(),
    {
        proof {
            use_type_invariant(self);
            Self::lemma_q_map(self.entries@);
        }
        self.entries.len()
    }

    /// Total number of updates performed.
    pub fn update_count(&self) -> (n: u64)
        ensures
            n == self.updates(),
    {
        self.update_count
    }

    /// Total number of actions selected.
    pub fn action_count(&self) -> (n: u64)
        ensures
            n == self.selections(),
    {
        self.action_count
    }

    /// The learning rate.
    pub fn learning_rate(&self) -> (r: QValue)
        ensures
            r == self.rate_of_learning(),
    {
        self.learning_rate
    }

    /// The discount factor.
    pub fn discount_factor(&self) -> (r: QValue)
        ensures
            r == self.rate_of_discount(),
    {
        self.discount_factor
    }

    /// The exploration rate.
    pub fn exploration_rate(&self) -> (r: QValue)
        ensures
            r == self.rate_of_exploration(),
    {
        self.exploration_rate
    }

    /// Export the Q-table entries as (state-action, value, visit count)
    /// triples, one per pair, with visit count 1.
    pub fn export_entries(&self) -> (out: Vec<(StateAction, QValue, u32)>)
        ensures
            out@.len() == self.q_table().dom().len(),
            forall|i: int|
                0 <= i < out@.len() ==> {
                    &&& self.q_table().dom().contains(#[trigger] out@[i].0)
                    &&& self.q_table()[out@[i].0] == out@[i].1
                    &&& out@[i].2 == 1
                },
            forall|i: int, j: int|
                0 <= i < out@.len() && 0 <= j < out@.len() && i != j ==> out@[i].0 != out@[j].0,
            forall|k: StateAction|
                #[trigger] self.q_table().dom().contains(k) ==> exists|i: int|
                    0 <= i < out@.len() && out@[i].0 == k,
    {
        proof {
            use_type_invariant(self);
            Self::lemma_q_map(self.entries@);
        }
        let mut out: Vec<(StateAction, QValue, u32)> = Vec::new();
        let n = self.entries.len();
        for i in 0..n
            invariant
                n == self.entries@.len(),
                keys_distinct(self.entries@, by_state_action()),
                out@.len() == i,
                forall|j: int|
                    0 <= j < i ==> #[trigger] out@[j] == (
                        self.entries@[j].0,
                        self.entries@[j].1,
                        1u32,
                    ),
        {
            let (sa, q) = self.entries[i];
            out.push((sa, q, 1));
        }
        proof {
            assert forall|i: int, j: int|
                0 <= i < out@.len() && 0 <= j < out@.len() && i != j implies out@[i].0
                != out@[j].0 by {
                assert((by_state_action())(self.entries@[i]) != (by_state_action())(
                    self.entries@[j],
                ));
            }
            assert forall|i: int| 0 <= i < out@.len() implies self.q_table().dom().contains(
                #[trigger] out@[i].0,
            ) by {
                assert(has_key(self.entries@, by_state_action(), out@[i].0));
            }
            assert forall|k: StateAction| #[trigger] self.q_table().dom().contains(k) implies exists|i: int|
                0 <= i < out@.len() && out@[i].0 == k by {
                assert(has_key(self.entries@, by_state_action(), k));
                let i = choose|i: int| 0 <= i < self.entries@.len() && (by_state_action())(self.entries@[i]) == k;
                assert(out@[i].0 == k);
            }
        }
        out
    }

    /// Clear the Q-table and both counters; the parameters stay.
    pub fn clear(&mut self)
        ensures
            final(self).q_table() == Map::<StateAction, QValue>::empty(),
            final(self).same_rates(old(self)),
            final(self).updates() == 0,
            final(self).selections() == 0,
    {
        self.entries = Vec::new();
        self.update_count = 0;
        self.action_count = 0;
        assert(self.q_table() =~= Map::<StateAction, QValue>::empty());
    }

    /// Rebuild an engine from its parts: the table holds the records of
    /// `entries` (a later record of the same pair wins), with the given
    /// parameters and counters.
    pub fn from_parts(
        entries: Vec<(StateAction, QValue)>,
        learning_rate: QValue,
        discount_factor: QValue,
        exploration_rate: QValue,
        update_count: u64,
        action_count: u64,
    ) -> (e: Self)
        ensures
            e.q_table() == q_map_of(entries@),
            e.rate_of_learning() == learning_rate,
            e.rate_of_discount() == discount_factor,
            e.rate_of_exploration() == exploration_rate,
            e.updates() == update_count,
            e.selections() == action_count,
    {
        let mut e = Self::with_params(learning_rate, discount_factor, exploration_rate);
        let n = entries.len();
        for i in 0..n
            invariant
                n == entries@.len(),
                e.q_table() == q_map_of(entries@.take(i as int)),
                e.rate_of_learning() == learning_rate,
                e.rate_of_discount() == discount_factor,
                e.rate_of_exploration() == exploration_rate,
                e.updates() == 0,
                e.selections() == 0,
        {
            let (sa, q) = entries[i];
            e.set_q(&sa.state, &sa.action, q);
            proof {
                assert(entries@.take(i + 1) =~= entries@.take(i as int).push(entries@[i as int]));
                Self::lemma_q_map_push(entries@.take(i as int), entries@[i as int]);
            }
        }
        assert(entries@.take(n as int) =~= entries@);
        proof {
            use_type_invariant(&e);
        }
        e.update_count = update_count;
        e.action_count = action_count;
        e
    }
}

impl Clone for QLearningEngine {
    fn clone(&self) -> (r: Self)
        ensures
            r.q_table() == self.q_table(),
            r.same_rates(self),
            r.updates() == self.updates(),
            r.selections() == self.selections(),
    {
        proof {
            use_type_invariant(self);
        }
        let mut entries: Vec<(StateAction, QValue)> = Vec::new();
        let n = self.entries.len();
        for i in 0..n
            invariant
                n == self.entries@.len(),
                entries@ == self.entries@.take(i as int),
        {
            entries.push(self.entries[i]);
            assert(entries@ =~= self.entries@.take(i + 1));
        }
        assert(entries@ =~= self.entries@);
        QLearningEngine {
            entries,
            learning_rate: self.learning_rate,
            discount_factor: self.discount_factor,
            exploration_rate: self.exploration_rate,
            update_count: self.update_count,
            action_count: self.action_count,
        }
    }
}

impl Default for QLearningEngine {
    fn default() -> (e: Self)
        ensures
            e.q_table() == Map::<StateAction, QValue>::empty(),
            e.rate_of_learning() == DEFAULT_LEARNING_RATE,
            e.rate_of_discount() == DEFAULT_DISCOUNT_FACTOR,
            e.rate_of_exploration() == DEFAULT_EXPLORATION_RATE,
            e.updates() == 0,
            e.selections() == 0,
    {
        QLearningEngine::new()
    }
}

/// Feeds `state` into `hasher` through its `Hash` impl (`Hash::hash`).
/// The hasher's new state is left unstated.
#[verifier::external_body]
fn hash_state_into(state: &State, hasher: &mut DefaultHasher) {
    state.hash(hasher)
}

} // verus!
