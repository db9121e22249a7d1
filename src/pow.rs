//! The proof-of-work puzzle: a solution is valid when the SHA-256 digest of the
//! challenge's random bytes followed by the solution starts with at least
//! `difficulty` zero hex digits.

use rand::Rng;
use sha2::Digest;
use vstd::prelude::*;

use crate::proto::{Challenge, ChallengeSolution, DEFAULT_DIFFICULTY};

verus! {

/// The SHA-256 digest of a byte sequence.
pub uninterp spec fn sha256_of(data: Seq<u8>) -> Seq<u8>;

/// Relies on sha2::Sha256::digest: the 32-byte SHA-256 digest of `data`.
#[verifier::external_body]
fn sha256(data: &Vec<u8>) -> (r: Vec<u8>)
    ensures
        r@ == sha256_of(data@),
        r@.len() == 32,
{
    sha2::Sha256::digest(data.as_slice()).to_vec()
}

/// Relies on rand::random: sixteen bytes from the thread's secure generator.
#[verifier::external_body]
fn random_block() -> (r: [u8; 16]) {
    rand::random::<[u8; 16]>()
}

/// Relies on rand::Rng::gen_range: a uniformly drawn index below `n`.
#[verifier::external_body]
pub(crate) fn random_index(n: usize) -> (r: usize)
    requires
        n > 0,
    ensures
        r < n,
{
    rand::thread_rng().gen_range(0..n)
}

/// Nibble `i` of `h`: the high half of each byte comes before its low half.
pub open spec fn nibble(h: Seq<u8>, i: int) -> u8 {
    if i % 2 == 0 {
        h[i / 2] >> 4u8
    } else {
        h[i / 2] & 0xfu8
    }
}

/// The number of consecutive zero nibbles from nibble `i`, not looking at
/// nibble `limit` or beyond.
pub open spec fn zero_run(h: Seq<u8>, i: int, limit: int) -> int
    decreases limit - i,
{
    if i >= limit || nibble(h, i) != 0 {
        0
    } else {
        1 + zero_run(h, i + 1, limit)
    }
}

/// How many nibbles the scan for `difficulty` looks at: those of the first
/// `difficulty / 2 + 1` bytes, or of all bytes if there are fewer.
pub open spec fn scan_limit(h: Seq<u8>, difficulty: int) -> int {
    2 * if h.len() < difficulty / 2 + 1 {
        h.len() as int
    } else {
        difficulty / 2 + 1
    }
}

/// The number of leading zero nibbles that the scan for `difficulty` counts.
pub open spec fn leading_zero_count(h: Seq<u8>, difficulty: int) -> int {
    zero_run(h, 0, scan_limit(h, difficulty))
}

/// A digest meets a difficulty when the scan counts at least that many zeros.
pub open spec fn meets_difficulty(h: Seq<u8>, difficulty: int) -> bool {
    leading_zero_count(h, difficulty) >= difficulty
}

/// The outcome on `solution` for a challenge with seed `value` and `difficulty`.
pub open spec fn solution_is_valid(value: Seq<u8>, difficulty: int, solution: Seq<u8>) -> bool {
    meets_difficulty(sha256_of(value + solution), difficulty)
}

proof fn lemma_zero_run_bounds(h: Seq<u8>, i: int, limit: int)
    ensures
        0 <= zero_run(h, i, limit),
        i <= limit ==> zero_run(h, i, limit) <= limit - i,
        i > limit ==> zero_run(h, i, limit) == 0,
    decreases limit - i,
{
    if i < limit && nibble(h, i) == 0 {
        lemma_zero_run_bounds(h, i + 1, limit);
    }
}

/// A run of `m` zeros from `i` under one limit is a run of at least `m` zeros
/// under any limit that still covers it.
proof fn lemma_zero_run_prefix(h: Seq<u8>, i: int, l1: int, l2: int, m: int)
    requires
        zero_run(h, i, l1) >= m,
        i + m <= l2,
    ensures
        zero_run(h, i, l2) >= m,
    decreases m,
{
    lemma_zero_run_bounds(h, i, l2);
    if m > 0 {
        assert(i < l1 && nibble(h, i) == 0);
        assert(zero_run(h, i + 1, l1) >= m - 1);
        lemma_zero_run_prefix(h, i + 1, l1, l2, m - 1);
        assert(zero_run(h, i, l2) == 1 + zero_run(h, i + 1, l2));
    }
}

/// A digest that meets a difficulty meets every smaller one.
pub proof fn lemma_digest_monotone(h: Seq<u8>, d: int, d2: int)
    requires
        0 <= d2 <= d,
        meets_difficulty(h, d),
    ensures
        meets_difficulty(h, d2),
{
    lemma_zero_run_bounds(h, 0, scan_limit(h, d));
    lemma_zero_run_prefix(h, 0, scan_limit(h, d), scan_limit(h, d2), d2);
}

/// A solution valid at some difficulty is valid at every lower difficulty of
/// the same seed.
pub proof fn lemma_difficulty_monotone(value: Seq<u8>, solution: Seq<u8>, d: u8, d2: u8)
    requires
        d2 <= d,
        solution_is_valid(value, d as int, solution),
    ensures
        solution_is_valid(value, d2 as int, solution),
{
    lemma_digest_monotone(sha256_of(value + solution), d as int, d2 as int);
}

/// At difficulty zero every solution is valid.
pub proof fn lemma_difficulty_zero_accepts_all(value: Seq<u8>, solution: Seq<u8>)
    ensures
        solution_is_valid(value, 0, solution),
{
    let h = sha256_of(value + solution);
    lemma_zero_run_bounds(h, 0, scan_limit(h, 0));
}

/// The outcome is a function of the seed, the difficulty and the solution:
/// asking again with the same three gives the same answer.
pub proof fn lemma_outcome_deterministic(c1: Challenge, c2: Challenge, s1: Seq<u8>, s2: Seq<u8>)
    requires
        c1.difficulty == c2.difficulty,
        c1.value@ == c2.value@,
        s1 == s2,
    ensures
        solution_is_valid(c1.value@, c1.difficulty as int, s1) == solution_is_valid(
            c2.value@,
            c2.difficulty as int,
            s2,
        ),
{
}

/// Counts the leading zero nibbles of a digest as the scan for `difficulty`
/// does: high nibble before low, stopping at the first non-zero nibble, and
/// looking at no more than `difficulty / 2 + 1` bytes.
pub fn leading_zero_nibbles(digest: &Vec<u8>, difficulty: u8) -> (r: u32)
    ensures
        r as int == leading_zero_count(digest@, difficulty as int),
{
    let bytes: usize = if digest.len() < difficulty as usize / 2 + 1 {
        digest.len()
    } else {
        difficulty as usize / 2 + 1
    };
    let ghost limit = scan_limit(digest@, difficulty as int);
    assert(limit == 2 * bytes);
    let mut count: u32 = 0;
    let mut i: usize = 0;
    while i < bytes
        invariant
            bytes <= digest@.len(),
            bytes <= 129,
            limit == 2 * bytes,
            limit == scan_limit(digest@, difficulty as int),
            i <= bytes,
            count == 2 * i,
            zero_run(digest@, 0, limit) == count + zero_run(digest@, count as int, limit),
        decreases bytes - i,
    {
        let c = digest[i];
        assert((2 * i as int) / 2 == i && (2 * i as int) % 2 == 0);
        assert((2 * i + 1) / 2 == i && (2 * i + 1) % 2 == 1);
        if c >> 4u8 != 0 {
            assert(nibble(digest@, 2 * i as int) == c >> 4u8);
            assert(zero_run(digest@, count as int, limit) == 0);
            return count;
        }
        assert(nibble(digest@, 2 * i as int) == c >> 4u8);
        if c & 0xfu8 != 0 {
            assert(nibble(digest@, 2 * i + 1) == c & 0xfu8);
            assert(zero_run(digest@, count + 1, limit) == 0);
            assert(zero_run(digest@, count as int, limit) == 1);
            return count + 1;
        }
        assert(nibble(digest@, 2 * i + 1) == c & 0xfu8);
        assert(zero_run(digest@, count + 1, limit) == 1 + zero_run(digest@, count + 2, limit));
        assert(zero_run(digest@, count as int, limit) == 2 + zero_run(digest@, count + 2, limit));
        count = count + 2;
        i += 1;
    }
    count
}

/// Whether a digest starts with at least `difficulty` zero nibbles, as scanned.
pub fn digest_meets_difficulty(digest: &Vec<u8>, difficulty: u8) -> (r: bool)
    ensures
        r == meets_difficulty(digest@, difficulty as int),
{
    leading_zero_nibbles(digest, difficulty) >= difficulty as u32
}

impl Challenge {
    /// A fresh challenge: random bytes at the given difficulty.
    pub fn new(difficulty: u8) -> (r: Challenge)
        ensures
            r.difficulty == difficulty,
    {
        Challenge { difficulty, value: random_block() }
    }
}

impl Default for Challenge {
    fn default() -> (r: Challenge)
        ensures
            r.difficulty == DEFAULT_DIFFICULTY,
    {
        Challenge::new(DEFAULT_DIFFICULTY)
    }
}

/// What a search for a solution found, and how many candidates it tried.
pub struct SolvingResult {
    pub solution: ChallengeSolution,
    pub hashes_tried: u128,
}

/// Checks and searches solutions of one challenge.
pub struct ChallengeSolver<'a> {
    challenge: &'a Challenge,
}

impl<'a> ChallengeSolver<'a> {
    pub fn new(challenge: &'a Challenge) -> (r: Self)
        ensures
            r.challenge() == *challenge,
    {
        ChallengeSolver { challenge }
    }

    /// The challenge being solved.
    pub closed spec fn challenge(&self) -> Challenge {
        *self.challenge
    }

    /// Whether `solution` solves the challenge.
    pub fn is_valid_solution(&self, solution: &ChallengeSolution) -> (r: bool)
        ensures
            r == solution_is_valid(
                self.challenge().value@,
                self.challenge().difficulty as int,
                solution@,
            ),
    {
        let mut data: Vec<u8> = Vec::new();
        let mut i: usize = 0;
        while i < 16
            invariant
                i <= 16,
                data@ == self.challenge.value@.subrange(0, i as int),
            decreases 16 - i,
        {
            data.push(self.challenge.value[i]);
            i += 1;
            assert(data@ =~= self.challenge.value@.subrange(0, i as int));
        }
        let mut j: usize = 0;
        while j < 16
            invariant
                j <= 16,
                data@ == self.challenge.value@ + solution@.subrange(0, j as int),
            decreases 16 - j,
        {
            data.push(solution[j]);
            j += 1;
            assert(data@ =~= self.challenge.value@ + solution@.subrange(0, j as int));
        }
        assert(solution@.subrange(0, 16) =~= solution@);
        let digest = sha256(&data);
        digest_meets_difficulty(&digest, self.challenge.difficulty)
    }

    /// Draws random candidates until one is valid. The search gives up, with
    /// `None`, only once the attempt counter would overflow. At difficulty zero
    /// the first candidate is taken.
    pub fn solve(&self) -> (r: Option<SolvingResult>)
        ensures
            r matches Some(res) ==> res.hashes_tried >= 1 && solution_is_valid(
                self.challenge().value@,
                self.challenge().difficulty as int,
                res.solution@,
            ),
            self.challenge().difficulty == 0 ==> (r matches Some(res) && res.hashes_tried == 1),
    {
        let mut hashes_tried: u128 = 0;
        while hashes_tried < u128::MAX
            invariant
                self.challenge().difficulty == 0 ==> hashes_tried == 0,
            decreases u128::MAX - hashes_tried,
        {
            let solution = random_block();
            proof {
                lemma_difficulty_zero_accepts_all(self.challenge().value@, solution@);
            }
            hashes_tried += 1;
            if self.is_valid_solution(&solution) {
                return Some(SolvingResult { solution, hashes_tried });
            }
        }
        None
    }
}

} // verus!
