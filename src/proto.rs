//! Messages of the protocol and their fixed byte layout on the wire.
//!
//! Every integer is little endian. A challenge is its difficulty byte followed
//! by its 16 random bytes; a solution is its 16 raw bytes; an outcome is a
//! 4-byte variant index; a variable-size payload is an 8-byte length followed by
//! that many bytes.

use vstd::prelude::*;
use vstd::utf8::{decode_utf8, encode_utf8, valid_utf8};

verus! {

/// Number of random bytes in a challenge.
pub const CHALLENGE_SIZE: usize = 16;

/// Number of bytes in a solution.
pub const SOLUTION_SIZE: usize = 16;

/// Number of bytes in an encoded outcome.
pub const SOLUTION_STATE_SIZE: usize = 4;

/// Number of bytes in an encoded challenge: difficulty, then the random bytes.
pub const CHALLENGE_FRAME_SIZE: usize = 17;

/// Number of bytes in the length that precedes a variable-size payload.
pub const LENGTH_PREFIX_SIZE: usize = 8;

/// Difficulty that a server starts with.
pub const DEFAULT_DIFFICULTY: u8 = 4;

/// A puzzle: the number of leading zero nibbles required, and a random seed.
#[derive(PartialEq, Eq, Clone, Copy, Debug)]
pub struct Challenge {
    pub difficulty: u8,
    pub value: [u8; 16],
}

/// A candidate answer to a challenge.
pub type ChallengeSolution = [u8; 16];

/// The server's outcome on a submitted solution.
#[derive(PartialEq, Eq, Structural, Clone, Copy, Debug)]
pub enum SolutionState {
    Accepted,
    Rejected,
}

/// A byte stream that messages are framed onto.
pub struct Transport<T> {
    pub c: T,
}

impl<T> Transport<T> {
    pub fn new(c: T) -> (r: Self)
        ensures
            r.c == c,
    {
        Transport { c }
    }
}

/// The eight little-endian bytes of `v`.
pub open spec fn le_bytes(v: u64) -> Seq<u8> {
    seq![
        v as u8,
        (v >> 8u64) as u8,
        (v >> 16u64) as u8,
        (v >> 24u64) as u8,
        (v >> 32u64) as u8,
        (v >> 40u64) as u8,
        (v >> 48u64) as u8,
        (v >> 56u64) as u8,
    ]
}

/// The integer whose little-endian bytes are the first eight of `b`.
pub open spec fn le_value(b: Seq<u8>) -> u64
    recommends
        b.len() >= 8,
{
    compose_le(b[0], b[1], b[2], b[3], b[4], b[5], b[6], b[7])
}

pub open spec fn compose_le(b0: u8, b1: u8, b2: u8, b3: u8, b4: u8, b5: u8, b6: u8, b7: u8) -> u64 {
    (b0 as u64) | ((b1 as u64) << 8u64) | ((b2 as u64) << 16u64) | ((b3 as u64) << 24u64) | ((
    b4 as u64) << 32u64) | ((b5 as u64) << 40u64) | ((b6 as u64) << 48u64) | ((b7 as u64)
        << 56u64)
}

/// The wire form of a challenge.
pub open spec fn challenge_bytes(c: Challenge) -> Seq<u8> {
    seq![c.difficulty] + c.value@
}

/// The wire form of an outcome: its variant index as a 4-byte integer.
pub open spec fn solution_state_bytes(s: SolutionState) -> Seq<u8> {
    match s {
        SolutionState::Accepted => seq![0u8, 0u8, 0u8, 0u8],
        SolutionState::Rejected => seq![1u8, 0u8, 0u8, 0u8],
    }
}

/// The outcome that `b` encodes, if any.
pub open spec fn parse_solution_state(b: Seq<u8>) -> Option<SolutionState> {
    if b == solution_state_bytes(SolutionState::Accepted) {
        Some(SolutionState::Accepted)
    } else if b == solution_state_bytes(SolutionState::Rejected) {
        Some(SolutionState::Rejected)
    } else {
        None
    }
}

/// A payload preceded by its length.
pub open spec fn varsize_bytes(payload: Seq<u8>) -> Seq<u8> {
    le_bytes(payload.len() as u64) + payload
}

/// The wire form of a text sent with its length: the length of its UTF-8
/// encoding, then that encoding.
pub open spec fn text_frame_bytes(s: Seq<char>) -> Seq<u8> {
    varsize_bytes(encode_utf8(s))
}

/// The text that a frame of length and payload carries, if it is one.
pub open spec fn parse_text_frame(frame: Seq<u8>) -> Option<Seq<char>> {
    if frame.len() >= 8 && le_value(frame) as int == frame.len() - 8 && valid_utf8(
        frame.subrange(8, frame.len() as int),
    ) {
        Some(decode_utf8(frame.subrange(8, frame.len() as int)))
    } else {
        None
    }
}

pub proof fn lemma_le_value_of_bytes(v: u64)
    ensures
        le_value(le_bytes(v)) == v,
{
    assert(compose_le(
        v as u8,
        (v >> 8u64) as u8,
        (v >> 16u64) as u8,
        (v >> 24u64) as u8,
        (v >> 32u64) as u8,
        (v >> 40u64) as u8,
        (v >> 48u64) as u8,
        (v >> 56u64) as u8,
    ) == v) by (bit_vector);
}

pub proof fn lemma_bytes_of_le_value(b: Seq<u8>)
    requires
        b.len() == 8,
    ensures
        le_bytes(le_value(b)) == b,
{
    let (b0, b1, b2, b3, b4, b5, b6, b7) = (b[0], b[1], b[2], b[3], b[4], b[5], b[6], b[7]);
    let v = compose_le(b0, b1, b2, b3, b4, b5, b6, b7);
    assert(v as u8 == b0 && (v >> 8u64) as u8 == b1 && (v >> 16u64) as u8 == b2 && (v >> 24u64) as u8
        == b3) by (bit_vector)
        requires
            v == compose_le(b0, b1, b2, b3, b4, b5, b6, b7),
    ;
    assert((v >> 32u64) as u8 == b4 && (v >> 40u64) as u8 == b5 && (v >> 48u64) as u8 == b6 && (v
        >> 56u64) as u8 == b7) by (bit_vector)
        requires
            v == compose_le(b0, b1, b2, b3, b4, b5, b6, b7),
    ;
    assert(le_bytes(v) =~= b);
}

/// The eight little-endian bytes of `n`.
pub fn encode_length(n: u64) -> (r: Vec<u8>)
    ensures
        r@ == le_bytes(n),
{
    let r = vec![
        n as u8,
        (n >> 8u64) as u8,
        (n >> 16u64) as u8,
        (n >> 24u64) as u8,
        (n >> 32u64) as u8,
        (n >> 40u64) as u8,
        (n >> 48u64) as u8,
        (n >> 56u64) as u8,
    ];
    assert(r@ =~= le_bytes(n));
    r
}

/// Reads a length prefix: present exactly when `b` holds eight bytes.
pub fn decode_length(b: &Vec<u8>) -> (r: Option<u64>)
    ensures
        r is Some <==> b@.len() == 8,
        r matches Some(n) ==> n == le_value(b@) && le_bytes(n) == b@,
{
    if b.len() != 8 {
        return None;
    }
    let n = (b[0] as u64) | ((b[1] as u64) << 8u64) | ((b[2] as u64) << 16u64) | ((b[3] as u64)
        << 24u64) | ((b[4] as u64) << 32u64) | ((b[5] as u64) << 40u64) | ((b[6] as u64) << 48u64)
        | ((b[7] as u64) << 56u64);
    proof {
        lemma_bytes_of_le_value(b@);
    }
    Some(n)
}

/// Frames a payload of any size: its length, then the payload.
pub fn frame_varsize(payload: &Vec<u8>) -> (r: Vec<u8>)
    ensures
        r@ == varsize_bytes(payload@),
{
    let mut r = encode_length(payload.len() as u64);
    let mut i: usize = 0;
    while i < payload.len()
        invariant
            i <= payload@.len(),
            r@ == le_bytes(payload@.len() as u64) + payload@.subrange(0, i as int),
        decreases payload@.len() - i,
    {
        r.push(payload[i]);
        i += 1;
        assert(r@ =~= le_bytes(payload@.len() as u64) + payload@.subrange(0, i as int));
    }
    assert(payload@.subrange(0, i as int) =~= payload@);
    r
}

/// The UTF-8 encoding of a text.
pub fn encode_text(s: &String) -> (r: Vec<u8>)
    ensures
        r@ == encode_utf8(s@),
{
    vstd::slice::slice_to_vec(s.as_str().as_bytes())
}

/// Frames a text with its length, ready to be written.
pub fn frame_text(s: &String) -> (r: Vec<u8>)
    ensures
        r@ == text_frame_bytes(s@),
{
    frame_varsize(&encode_text(s))
}

/// Relies on String::from_utf8: it succeeds exactly on valid UTF-8, and the
/// text it gives is what those bytes encode.
#[verifier::external_body]
fn string_from_utf8(b: Vec<u8>) -> (r: Option<String>)
    ensures
        r is Some <==> valid_utf8(b@),
        r matches Some(s) ==> s@ == decode_utf8(b@),
{
    String::from_utf8(b).ok()
}

/// Reads a text payload: present exactly when the bytes are valid UTF-8.
pub fn decode_text(b: Vec<u8>) -> (r: Option<String>)
    ensures
        r is Some <==> valid_utf8(b@),
        r matches Some(s) ==> s@ == decode_utf8(b@) && encode_utf8(s@) == b@,
{
    let ghost bytes = b@;
    let r = string_from_utf8(b);
    proof {
        if valid_utf8(bytes) {
            vstd::utf8::decode_utf8_encode_utf8(bytes);
        }
    }
    r
}

/// The wire form of a challenge.
pub fn encode_challenge(c: &Challenge) -> (r: Vec<u8>)
    ensures
        r@ == challenge_bytes(*c),
{
    let mut r: Vec<u8> = Vec::new();
    r.push(c.difficulty);
    let mut i: usize = 0;
    while i < 16
        invariant
            i <= 16,
            r@ == seq![c.difficulty] + c.value@.subrange(0, i as int),
        decreases 16 - i,
    {
        r.push(c.value[i]);
        i += 1;
        assert(r@ =~= seq![c.difficulty] + c.value@.subrange(0, i as int));
    }
    assert(c.value@.subrange(0, 16) =~= c.value@);
    r
}

/// Reads a challenge: present exactly when `b` holds seventeen bytes.
pub fn decode_challenge(b: &Vec<u8>) -> (r: Option<Challenge>)
    ensures
        r is Some <==> b@.len() == 17,
        r matches Some(c) ==> challenge_bytes(c) == b@,
{
    if b.len() != 17 {
        return None;
    }
    let mut value = [0u8; 16];
    let mut i: usize = 0;
    while i < 16
        invariant
            i <= 16,
            b@.len() == 17,
            value@.len() == 16,
            forall|j: int| 0 <= j < i ==> value@[j] == b@[j + 1],
        decreases 16 - i,
    {
        value[i] = b[i + 1];
        i += 1;
    }
    let c = Challenge { difficulty: b[0], value };
    assert(challenge_bytes(c) =~= b@);
    Some(c)
}

/// The wire form of a solution: its bytes.
pub fn encode_solution(s: &ChallengeSolution) -> (r: Vec<u8>)
    ensures
        r@ == s@,
{
    vstd::slice::slice_to_vec(s.as_slice())
}

/// Reads a solution: present exactly when `b` holds sixteen bytes.
pub fn decode_solution(b: &Vec<u8>) -> (r: Option<ChallengeSolution>)
    ensures
        r is Some <==> b@.len() == 16,
        r matches Some(s) ==> s@ == b@,
{
    if b.len() != 16 {
        return None;
    }
    let mut s = [0u8; 16];
    let mut i: usize = 0;
    while i < 16
        invariant
            i <= 16,
            b@.len() == 16,
            s@.len() == 16,
            forall|j: int| 0 <= j < i ==> s@[j] == b@[j],
        decreases 16 - i,
    {
        s[i] = b[i];
        i += 1;
    }
    assert(s@ =~= b@);
    Some(s)
}

/// The wire form of an outcome.
pub fn encode_solution_state(s: SolutionState) -> (r: Vec<u8>)
    ensures
        r@ == solution_state_bytes(s),
{
    let r = match s {
        SolutionState::Accepted => vec![0u8, 0u8, 0u8, 0u8],
        SolutionState::Rejected => vec![1u8, 0u8, 0u8, 0u8],
    };
    assert(r@ =~= solution_state_bytes(s));
    r
}

/// Reads an outcome: present exactly when `b` is the encoding of one.
pub fn decode_solution_state(b: &Vec<u8>) -> (r: Option<SolutionState>)
    ensures
        r == parse_solution_state(b@),
{
    if b.len() != 4 || b[1] != 0 || b[2] != 0 || b[3] != 0 {
        assert(b@ != solution_state_bytes(SolutionState::Accepted));
        assert(b@ != solution_state_bytes(SolutionState::Rejected));
        return None;
    }
    if b[0] == 0 {
        assert(b@ =~= solution_state_bytes(SolutionState::Accepted));
        Some(SolutionState::Accepted)
    } else if b[0] == 1 {
        assert(b@ =~= solution_state_bytes(SolutionState::Rejected));
        Some(SolutionState::Rejected)
    } else {
        assert(b@ != solution_state_bytes(SolutionState::Accepted));
        assert(b@ != solution_state_bytes(SolutionState::Rejected));
        None
    }
}

/// Reads a text frame whole: present exactly when its length prefix matches
/// the bytes that follow and those are valid UTF-8.
pub fn decode_text_frame(frame: &Vec<u8>) -> (r: Option<String>)
    ensures
        r is Some <==> parse_text_frame(frame@) is Some,
        r matches Some(s) ==> parse_text_frame(frame@) == Some(s@),
{
    if frame.len() < 8 {
        return None;
    }
    let mut prefix: Vec<u8> = Vec::new();
    let mut rest: Vec<u8> = Vec::new();
    let mut i: usize = 0;
    while i < frame.len()
        invariant
            8 <= frame@.len(),
            i <= frame@.len(),
            prefix@ == frame@.subrange(0, if i < 8 { i as int } else { 8 }),
            rest@ == if i < 8 { Seq::<u8>::empty() } else { frame@.subrange(8, i as int) },
        decreases frame@.len() - i,
    {
        if i < 8 {
            prefix.push(frame[i]);
        } else {
            rest.push(frame[i]);
        }
        i += 1;
        assert(prefix@ =~= frame@.subrange(0, if i < 8 { i as int } else { 8 }));
        assert(rest@ =~= if i < 8 { Seq::<u8>::empty() } else { frame@.subrange(8, i as int) });
    }
    let n = match decode_length(&prefix) {
        Some(n) => n,
        None => return None,
    };
    assert(le_value(prefix@) == le_value(frame@));
    if n as usize != rest.len() || n != rest.len() as u64 {
        return None;
    }
    decode_text(rest)
}

/// Framing a value and reading it back gives the value: a challenge, a
/// solution, an outcome, a length, and a text of any size, the empty text and
/// multi-byte characters included.
pub proof fn lemma_framing_round_trip(c: Challenge, st: SolutionState, n: u64, s: Seq<char>)
    requires
        encode_utf8(s).len() < 0x1_0000_0000_0000_0000,
    ensures
        ({
            let b = challenge_bytes(c);
            b.len() == 17 && b[0] == c.difficulty && b.subrange(1, 17) == c.value@
        }),
        forall|c2: Challenge|
            #![trigger challenge_bytes(c2)]
            challenge_bytes(c2) == challenge_bytes(c) ==> c2.difficulty == c.difficulty
                && c2.value@ == c.value@,
        parse_solution_state(solution_state_bytes(st)) == Some(st),
        le_value(le_bytes(n)) == n,
        parse_text_frame(text_frame_bytes(s)) == Some(s),
{
    assert((seq![c.difficulty] + c.value@).subrange(1, 17) =~= c.value@);
    assert forall|c2: Challenge| #![trigger challenge_bytes(c2)]
        challenge_bytes(c2) == challenge_bytes(c) implies c2.difficulty == c.difficulty
            && c2.value@ == c.value@ by {
        assert(challenge_bytes(c2)[0] == c2.difficulty);
        assert(challenge_bytes(c2).subrange(1, 17) =~= c2.value@);
        assert(challenge_bytes(c).subrange(1, 17) =~= c.value@);
    }
    lemma_le_value_of_bytes(n);
    let payload = encode_utf8(s);
    let frame = text_frame_bytes(s);
    lemma_le_value_of_bytes(payload.len() as u64);
    assert(frame.subrange(8, frame.len() as int) =~= payload);
    assert(le_value(frame) == le_value(le_bytes(payload.len() as u64)));
    vstd::utf8::encode_utf8_valid_utf8(s);
    vstd::utf8::encode_utf8_decode_utf8(s);
}

} // verus!
