//! Core value types of the swarm: agent identifiers and query kinds.

use vstd::prelude::*;

verus! {

/// The lowercase hexadecimal digits, indexed by value.
pub open spec fn hex_digits() -> Seq<char> {
    seq!['0', '1', '2', '3', '4', '5', '6', '7', '8', '9', 'a', 'b', 'c', 'd', 'e', 'f']
}

/// The two lowercase hex digits of a byte, high nibble first.
pub open spec fn hex_pair(b: u8) -> Seq<char> {
    seq![hex_digits()[(b / 16) as int], hex_digits()[(b % 16) as int]]
}

/// Lowercase hex encoding of a byte string.
pub open spec fn hex_lower(bytes: Seq<u8>) -> Seq<char>
    decreases bytes.len(),
{
    if bytes.len() == 0 {
        Seq::empty()
    } else {
        hex_lower(bytes.drop_last()) + hex_pair(bytes.last())
    }
}

/// The text of the agent id derived from a public key: the lowercase hex
/// encoding of its first 16 bytes (of all of it, when shorter).
pub open spec fn agent_id_text(public_key: Seq<u8>) -> Seq<char> {
    hex_lower(key_prefix(public_key))
}

/// The part of a public key that names an agent: its first 16 bytes (all
/// of it, when shorter).
pub open spec fn key_prefix(public_key: Seq<u8>) -> Seq<u8> {
    if public_key.len() <= 16 {
        public_key
    } else {
        public_key.take(16)
    }
}

/// Whether a hyphen precedes byte `i` in the 8-4-4-4-12 grouping of a UUID.
pub open spec fn uuid_group_start(i: int) -> bool {
    i == 4 || i == 6 || i == 8 || i == 10
}

/// The hyphenated lowercase rendering of UUID bytes (8-4-4-4-12 hex digits).
pub open spec fn uuid_text(bytes: Seq<u8>) -> Seq<char>
    decreases bytes.len(),
{
    if bytes.len() == 0 {
        Seq::empty()
    } else {
        uuid_text(bytes.drop_last()) + (if uuid_group_start(bytes.len() - 1) {
            seq!['-']
        } else {
            Seq::empty()
        }) + hex_pair(bytes.last())
    }
}

/// Hex encoding doubles the length.
pub proof fn lemma_hex_lower_len(bytes: Seq<u8>)
    ensures
        hex_lower(bytes).len() == 2 * bytes.len(),
    decreases bytes.len(),
{
    if bytes.len() > 0 {
        lemma_hex_lower_len(bytes.drop_last());
    }
}

/// An agent id derived from a key of at least 16 bytes has 32 characters;
/// from a shorter key, twice its length.
pub proof fn lemma_agent_id_text_len(public_key: Seq<u8>)
    ensures
        agent_id_text(public_key).len() == if public_key.len() <= 16 {
            2 * public_key.len()
        } else {
            32
        },
{
    if public_key.len() <= 16 {
        lemma_hex_lower_len(public_key);
    } else {
        lemma_hex_lower_len(public_key.take(16));
    }
}

/// The number of hyphens among the first `n` bytes of a UUID rendering.
pub open spec fn hyphens_before(n: int) -> int {
    (if n > 4 { 1int } else { 0int }) + (if n > 6 { 1int } else { 0int }) + (if n > 8 {
        1int
    } else {
        0int
    }) + (if n > 10 { 1int } else { 0int })
}

/// A UUID rendering has two characters per byte plus its hyphens; for 16
/// bytes, 36 characters.
pub proof fn lemma_uuid_text_len(bytes: Seq<u8>)
    ensures
        uuid_text(bytes).len() == 2 * bytes.len() + hyphens_before(bytes.len() as int),
        bytes.len() == 16 ==> uuid_text(bytes).len() == 36,
    decreases bytes.len(),
{
    if bytes.len() > 0 {
        lemma_uuid_text_len(bytes.drop_last());
    }
}

/// The value of a lowercase hex digit (-1 for any other character).
pub open spec fn hex_value(c: char) -> int {
    if c == '0' { 0 } else if c == '1' { 1 } else if c == '2' { 2 } else if c == '3' { 3 }
    else if c == '4' { 4 } else if c == '5' { 5 } else if c == '6' { 6 } else if c == '7' { 7 }
    else if c == '8' { 8 } else if c == '9' { 9 } else if c == 'a' { 10 } else if c == 'b' { 11 }
    else if c == 'c' { 12 } else if c == 'd' { 13 } else if c == 'e' { 14 } else if c == 'f' { 15 }
    else { -1 }
}

/// Each hex digit has its own value.
pub proof fn lemma_hex_digit_value(n: int)
    requires
        0 <= n < 16,
    ensures
        hex_value(hex_digits()[n]) == n,
{
    let d = hex_digits();
    assert(d[0] == '0' && d[1] == '1' && d[2] == '2' && d[3] == '3');
    assert(d[4] == '4' && d[5] == '5' && d[6] == '6' && d[7] == '7');
    assert(d[8] == '8' && d[9] == '9' && d[10] == 'a' && d[11] == 'b');
    assert(d[12] == 'c' && d[13] == 'd' && d[14] == 'e' && d[15] == 'f');
}

/// Different bytes have different hex pairs.
pub proof fn lemma_hex_pair_injective(b: u8, c: u8)
    requires
        hex_pair(b) == hex_pair(c),
    ensures
        b == c,
{
    lemma_hex_digit_value((b / 16) as int);
    lemma_hex_digit_value((c / 16) as int);
    lemma_hex_digit_value((b % 16) as int);
    lemma_hex_digit_value((c % 16) as int);
    assert(hex_pair(b)[0] == hex_pair(c)[0]);
    assert(hex_pair(b)[1] == hex_pair(c)[1]);
}

/// Hex encoding is injective.
pub proof fn lemma_hex_lower_injective(x: Seq<u8>, y: Seq<u8>)
    ensures
        hex_lower(x) == hex_lower(y) <==> x == y,
    decreases x.len(),
{
    lemma_hex_lower_len(x);
    lemma_hex_lower_len(y);
    if hex_lower(x) == hex_lower(y) && x.len() > 0 {
        let (xs, ys) = (x.drop_last(), y.drop_last());
        let (a, c) = (hex_lower(xs), hex_lower(ys));
        lemma_hex_lower_len(xs);
        lemma_hex_lower_len(ys);
        let h = hex_lower(x);
        assert(h == a + hex_pair(x.last()));
        assert(h == c + hex_pair(y.last()));
        assert(a =~= h.subrange(0, a.len() as int));
        assert(c =~= h.subrange(0, c.len() as int));
        assert(hex_pair(x.last()) =~= h.subrange(a.len() as int, h.len() as int));
        assert(hex_pair(y.last()) =~= h.subrange(c.len() as int, h.len() as int));
        lemma_hex_lower_injective(xs, ys);
        lemma_hex_pair_injective(x.last(), y.last());
        assert(x =~= xs.push(x.last()));
        assert(y =~= ys.push(y.last()));
    } else if hex_lower(x) == hex_lower(y) {
        assert(x =~= y);
    }
}

/// Two keys name the same agent exactly when their first 16 bytes agree
/// (all of them, for shorter keys).
pub proof fn lemma_agent_id_injective(a: Seq<u8>, b: Seq<u8>)
    ensures
        agent_id_text(a) == agent_id_text(b) <==> key_prefix(a) == key_prefix(b),
{
    lemma_hex_lower_injective(key_prefix(a), key_prefix(b));
}

/// The one-character string of hex digit `n`.
fn hex_digit(n: u8) -> (s: &'static str)
    requires
        n < 16,
    ensures
        s@ == seq![hex_digits()[n as int]],
{
    match n {
        0 => { proof { reveal_strlit("0"); } "0" },
        1 => { proof { reveal_strlit("1"); } "1" },
        2 => { proof { reveal_strlit("2"); } "2" },
        3 => { proof { reveal_strlit("3"); } "3" },
        4 => { proof { reveal_strlit("4"); } "4" },
        5 => { proof { reveal_strlit("5"); } "5" },
        6 => { proof { reveal_strlit("6"); } "6" },
        7 => { proof { reveal_strlit("7"); } "7" },
        8 => { proof { reveal_strlit("8"); } "8" },
        9 => { proof { reveal_strlit("9"); } "9" },
        10 => { proof { reveal_strlit("a"); } "a" },
        11 => { proof { reveal_strlit("b"); } "b" },
        12 => { proof { reveal_strlit("c"); } "c" },
        13 => { proof { reveal_strlit("d"); } "d" },
        14 => { proof { reveal_strlit("e"); } "e" },
        _ => { proof { reveal_strlit("f"); } "f" },
    }
}

/// Appends the two hex digits of `b` to `text`.
fn push_hex_pair(text: &mut String, b: u8)
    ensures
        final(text)@ == old(text)@ + hex_pair(b),
{
    text.append(hex_digit(b / 16));
    text.append(hex_digit(b % 16));
}

/// Sixteen random bytes of a version-4 UUID, in big-endian order.
/// Calls `uuid::Uuid::new_v4` and reads its bytes. The bytes are random;
/// the contract claims only the version nibble (4) and the RFC 4122 variant
/// bits (binary 10), which `new_v4` sets on every UUID it makes.
#[verifier::external_body]
fn random_uuid_bytes() -> (bytes: [u8; 16])
    ensures
        bytes[6] / 16 == 4,
        bytes[8] / 64 == 2,
{
    *uuid::Uuid::new_v4().as_bytes()
}

/// Unique identifier for an agent.
#[derive(Debug, PartialEq, Eq, Hash)]
pub struct AgentId(pub String);

impl View for AgentId {
    type V = Seq<char>;

    open spec fn view(&self) -> Seq<char> {
        self.0@
    }
}

impl Clone for AgentId {
    fn clone(&self) -> (r: Self)
        ensures
            r == *self,
    {
        AgentId(self.0.clone())
    }
}

impl AgentId {
    /// Create a new random AgentId: the hyphenated text of a version-4 UUID.
    pub fn new() -> (id: AgentId)
        ensures
            exists|b: Seq<u8>|
                b.len() == 16 && b[6] / 16 == 4 && b[8] / 64 == 2 && id@ == #[trigger] uuid_text(b),
    {
        let bytes = random_uuid_bytes();
        let mut text = String::new();
        for i in 0..16
            invariant
                text@ == uuid_text(bytes@.take(i as int)),
        {
            if i == 4 || i == 6 || i == 8 || i == 10 {
                proof {
                    reveal_strlit("-");
                }
                text.append("-");
            }
            push_hex_pair(&mut text, bytes[i]);
            assert(bytes@.take(i + 1).drop_last() =~= bytes@.take(i as int));
        }
        assert(bytes@.take(16) =~= bytes@);
        AgentId(text)
    }

    /// Create an AgentId from public key bytes: the lowercase hex encoding of
    /// the first 16 bytes of the key.
    pub fn from_public_key(public_key: &[u8]) -> (id: AgentId)
        ensures
            id@ == agent_id_text(public_key@),
    {
        let n: usize = if public_key.len() < 16 {
            public_key.len()
        } else {
            16
        };
        let mut text = String::new();
        for i in 0..n
            invariant
                n <= public_key@.len(),
                n == public_key@.len() || n == 16,
                text@ == hex_lower(public_key@.take(i as int)),
        {
            push_hex_pair(&mut text, public_key[i]);
            assert(public_key@.take(i + 1).drop_last() =~= public_key@.take(i as int));
        }
        if public_key.len() <= 16 {
            assert(public_key@.take(n as int) =~= public_key@);
        }
        AgentId(text)
    }

    /// The string representation of the AgentId.
    pub fn as_str(&self) -> (s: &str)
        ensures
            s@ == self@,
    {
        self.0.as_str()
    }

    /// Whether two ids have the same text.
    pub fn same_as(&self, other: &AgentId) -> (r: bool)
        ensures
            r == (self@ == other@),
    {
        self.0 == other.0
    }
}

impl Default for AgentId {
    fn default() -> (id: Self)
        ensures
            exists|b: Seq<u8>| b.len() == 16 && id@ == #[trigger] uuid_text(b),
    {
        AgentId::new()
    }
}

/// Type of query being processed.
#[derive(Debug, Clone, Copy, PartialEq, Eq, Hash, Structural)]
pub enum QueryType {
    /// Retrieve information from knowledge base.
    Knowledge,
    /// How to perform a procedure.
    Procedure,
    /// Diagnose and troubleshoot a problem.
    Troubleshoot,
    /// Configure system parameters.
    Configure,
    /// Explain concepts.
    Explain,
}

impl Default for QueryType {
    fn default() -> (t: Self)
        ensures
            t == QueryType::Knowledge,
    {
        QueryType::Knowledge
    }
}

} // verus!
