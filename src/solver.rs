//! The search for the least solution of a challenge, and its checks.
use crate::hash::digest_meets_difficulty;
use crate::hash::meets_difficulty;
use crate::hash::sha256;
use crate::hash::sha256_of;
use crate::hash::DIGEST_HEX_LEN;
use crate::message::message;
use crate::message::pow_message;
use vstd::prelude::*;
use vstd::string::StringSliceAdditionalSpecFns;
use vstd::utf8::encode_utf8;

verus! {

/// Why a challenge has no solution.
#[derive(Debug, Clone, Copy, PartialEq, Eq, Structural)]
pub enum PowError {
    /// No candidate in `0..=u32::MAX` meets the difficulty; this includes
    /// every difficulty beyond the hex length of the digest.
    SearchExhausted,
}

/// `candidate` solves challenge `index` of `session` at `difficulty`.
pub open spec fn is_solution(session: Seq<u8>, index: u32, candidate: u32, difficulty: nat) -> bool {
    meets_difficulty(sha256_of(message(session, index, candidate)), difficulty)
}

/// `candidate` solves the challenge and no smaller candidate does.
pub open spec fn is_least_solution(
    session: Seq<u8>,
    index: u32,
    candidate: u32,
    difficulty: nat,
) -> bool {
    &&& is_solution(session, index, candidate, difficulty)
    &&& forall|k: u32| k < candidate ==> !is_solution(session, index, k, difficulty)
}

/// The outcome of a search: the least solution, or exhaustion where no
/// candidate solves the challenge.
pub open spec fn solution_of(session: Seq<u8>, index: u32, difficulty: nat) -> Result<u32, PowError> {
    if exists|c: u32| is_solution(session, index, c, difficulty) {
        Ok(choose|c: u32| is_least_solution(session, index, c, difficulty))
    } else {
        Err(PowError::SearchExhausted)
    }
}

/// A challenge has at most one least solution, so any two searches of the
/// same challenge that return its least solution return the same candidate,
/// and that candidate is the outcome `solution_of` names.
pub proof fn lemma_least_solution_unique(
    session: Seq<u8>,
    index: u32,
    difficulty: nat,
    a: u32,
    b: u32,
)
    requires
        is_least_solution(session, index, a, difficulty),
        is_least_solution(session, index, b, difficulty),
    ensures
        a == b,
        solution_of(session, index, difficulty) == Ok::<u32, PowError>(a),
{
    let c = choose|c: u32| is_least_solution(session, index, c, difficulty);
    assert(is_least_solution(session, index, c, difficulty));
    if a < b {
        assert(!is_solution(session, index, a, difficulty));
    }
    if b < a {
        assert(!is_solution(session, index, b, difficulty));
    }
    if c < a {
        assert(!is_solution(session, index, c, difficulty));
    }
    if a < c {
        assert(!is_solution(session, index, a, difficulty));
    }
}

/// Tells whether `solution` solves challenge `index` of `session_id` at
/// `difficulty`.
pub fn verify_solution(session_id: &str, index: u32, solution: u32, difficulty: usize) -> (r: bool)
    ensures
        r == is_solution(session_id.spec_bytes(), index, solution, difficulty as nat),
{
    let data = pow_message(session_id, index, solution);
    let digest = sha256(data.as_slice());
    digest_meets_difficulty(digest.as_slice(), difficulty)
}

/// Finds the least solution of challenge `index` of `session_id` at
/// `difficulty`, trying candidates from 0 upward; fails only where no
/// `u32` candidate solves it.
pub fn compute_pow_solution(session_id: &str, index: u32, difficulty: usize) -> (r: Result<
    u32,
    PowError,
>)
    ensures
        r == solution_of(session_id.spec_bytes(), index, difficulty as nat),
{
    let ghost session = session_id.spec_bytes();
    if difficulty > DIGEST_HEX_LEN {
        assert(forall|c: u32| !is_solution(session, index, c, difficulty as nat));
        return Err(PowError::SearchExhausted);
    }
    let mut candidate: u32 = 0;
    loop
        invariant
            session == session_id.spec_bytes(),
            forall|k: u32| k < candidate ==> !is_solution(session, index, k, difficulty as nat),
        decreases u32::MAX - candidate,
    {
        if verify_solution(session_id, index, candidate, difficulty) {
            proof {
                lemma_least_solution_unique(session, index, difficulty as nat, candidate, candidate);
            }
            return Ok(candidate);
        }
        if candidate == u32::MAX {
            assert(forall|c: u32| !is_solution(session, index, c, difficulty as nat));
            return Err(PowError::SearchExhausted);
        }
        candidate += 1;
    }
}

/// A solution found by the search solves its challenge: checking it with
/// `verify_solution` at the same difficulty gives `true`.
pub proof fn lemma_found_solution_verifies(session: Seq<u8>, index: u32, difficulty: nat, c: u32)
    requires
        solution_of(session, index, difficulty) == Ok::<u32, PowError>(c),
    ensures
        is_solution(session, index, c, difficulty),
{
    let w = choose|w: u32| is_solution(session, index, w, difficulty);
    lemma_least_exists(session, index, difficulty, w);
}

/// A solution found by the search is the least one: every smaller candidate
/// fails `verify_solution` at the same difficulty.
pub proof fn lemma_found_solution_is_least(session: Seq<u8>, index: u32, difficulty: nat, c: u32)
    requires
        solution_of(session, index, difficulty) == Ok::<u32, PowError>(c),
    ensures
        forall|k: u32| k < c ==> !is_solution(session, index, k, difficulty),
{
    let w = choose|w: u32| is_solution(session, index, w, difficulty);
    lemma_least_exists(session, index, difficulty, w);
}

/// At difficulty 0 every challenge is solved by candidate 0.
pub proof fn lemma_difficulty_zero(session: Seq<u8>, index: u32)
    ensures
        solution_of(session, index, 0) == Ok::<u32, PowError>(0),
{
    assert(is_solution(session, index, 0, 0));
    lemma_least_solution_unique(session, index, 0, 0, 0);
}

/// Where some candidate `w` solves a challenge, a least solution exists.
proof fn lemma_least_exists(session: Seq<u8>, index: u32, difficulty: nat, w: u32)
    requires
        is_solution(session, index, w, difficulty),
    ensures
        exists|c: u32| is_least_solution(session, index, c, difficulty),
    decreases w,
{
    if exists|k: u32| k < w && is_solution(session, index, k, difficulty) {
        let k = choose|k: u32| k < w && is_solution(session, index, k, difficulty);
        lemma_least_exists(session, index, difficulty, k);
    } else {
        assert(is_least_solution(session, index, w, difficulty));
    }
}

/// A session id and a difficulty, reused for challenges of many indices.
pub struct POWSolver {
    cap_id: String,
    difficulty: usize,
}

impl POWSolver {
    /// The session id of this solver.
    pub closed spec fn session_id(&self) -> Seq<char> {
        self.cap_id@
    }

    /// The number of leading zero hex characters that this solver asks for.
    pub closed spec fn required_zeros(&self) -> nat {
        self.difficulty as nat
    }

    /// The session id as the UTF-8 bytes that enter each message.
    pub open spec fn session_bytes(&self) -> Seq<u8> {
        encode_utf8(self.session_id())
    }

    /// A solver for the challenges of session `cap_id` at `difficulty`.
    pub fn new(cap_id: String, difficulty: usize) -> (r: POWSolver)
        ensures
            r.session_id() == cap_id@,
            r.required_zeros() == difficulty as nat,
    {
        POWSolver { cap_id, difficulty }
    }

    /// The least solution of challenge `index`, or exhaustion.
    pub fn solve_single(&self, index: u32) -> (r: Result<u32, PowError>)
        ensures
            r == solution_of(self.session_bytes(), index, self.required_zeros()),
    {
        compute_pow_solution(self.cap_id.as_str(), index, self.difficulty)
    }

    /// The outcomes of challenges `start_index`, `start_index + 1`, ..., in
    /// that order, `count` of them.
    pub fn solve_batch(&self, start_index: u32, count: u32) -> (r: Vec<Result<u32, PowError>>)
        requires
            start_index as int + count as int <= u32::MAX as int + 1,
        ensures
            r@.len() == count,
            forall|k: int|
                0 <= k < count ==> #[trigger] r@[k] == solution_of(
                    self.session_bytes(),
                    (start_index + k) as u32,
                    self.required_zeros(),
                ),
    {
        let mut r: Vec<Result<u32, PowError>> = Vec::new();
        let mut i: u32 = 0;
        while i < count
            invariant
                i <= count,
                start_index as int + count as int <= u32::MAX as int + 1,
                r@.len() == i,
                forall|k: int|
                    0 <= k < i ==> #[trigger] r@[k] == solution_of(
                        self.session_bytes(),
                        (start_index + k) as u32,
                        self.required_zeros(),
                    ),
            decreases count - i,
        {
            let outcome = self.solve_single(start_index + i);
            r.push(outcome);
            i += 1;
        }
        r
    }

    /// The outcomes of challenges `0..challenge_count`, in index order.
    pub fn solve_all(&self, challenge_count: u32) -> (r: Vec<Result<u32, PowError>>)
        ensures
            r@.len() == challenge_count,
            forall|k: int|
                0 <= k < challenge_count ==> #[trigger] r@[k] == solution_of(
                    self.session_bytes(),
                    k as u32,
                    self.required_zeros(),
                ),
    {
        self.solve_batch(0, challenge_count)
    }
}

} // verus!
