//! Proof of work: a header is admissible when its hash lies below a
//! threshold, and sealing is a bounded search for a nonce that makes it so.

use crate::consensus::{seals_soundly, Consensus, Header};
use crate::hashing::{hash, spec_hash, Encode};
use vstd::prelude::*;

verus! {

/// The nonce at which `seal` starts its search.
pub const FIRST_NONCE: u64 = 10;

/// The number of nonces that `seal` tries before it gives up.
pub const SEAL_ATTEMPTS: u64 = 1048576;

/// A proof-of-work engine.
#[derive(Clone, Debug, PartialEq, Eq, Hash)]
pub struct PoW {
    /// A header is admissible when its hash is strictly below this bound.
    pub threshold: u64,
}

/// An engine under which about one nonce in a hundred seals a header.
pub fn moderate_difficulty_pow() -> (engine: PoW)
    ensures
        engine.threshold == u64::MAX / 100,
{
    PoW { threshold: u64::MAX / 100 }
}

impl PoW {
    /// The engine with threshold `t`.
    pub fn new(t: u64) -> (engine: PoW)
        ensures
            engine.threshold == t,
    {
        PoW { threshold: t }
    }

    /// The threshold of this engine.
    pub fn get_threashold(&self) -> (t: u64)
        ensures
            t == self.threshold,
    {
        self.threshold
    }

    /// Whether `nonce` seals `partial`: the header that carries it hashes
    /// below the threshold.
    pub open spec fn solves(&self, partial: Header<()>, nonce: u64) -> bool {
        spec_hash(partial.replace_digest(nonce).encoding()) < self.threshold
    }

    /// Whether `nonce` is the first of the `attempts` nonces from `first` on
    /// that seals `partial`.
    pub open spec fn first_solution(
        &self,
        partial: Header<()>,
        first: u64,
        attempts: u64,
        nonce: u64,
    ) -> bool {
        &&& first <= nonce < first + attempts
        &&& self.solves(partial, nonce)
        &&& forall|earlier: u64| first <= earlier < nonce ==> !self.solves(partial, earlier)
    }

    /// The outcome of a search through the `attempts` nonces from `first` on:
    /// `partial` with the first nonce that seals it, or `None` where none of
    /// them does.
    pub open spec fn mined(&self, partial: Header<()>, first: u64, attempts: u64) -> Option<
        Header<u64>,
    > {
        if exists|nonce: u64| self.first_solution(partial, first, attempts, nonce) {
            Some(
                partial.replace_digest(
                    choose|nonce: u64| self.first_solution(partial, first, attempts, nonce),
                ),
            )
        } else {
            None
        }
    }

    /// Searches the `attempts` nonces from `first` on for one that seals
    /// `partial_header`. A caller that gets `None` may go on with a later
    /// `first`.
    pub fn mine(&self, partial_header: &Header<()>, first: u64, attempts: u64) -> (sealed: Option<
        Header<u64>,
    >)
        requires
            first + attempts <= u64::MAX,
        ensures
            sealed == self.mined(*partial_header, first, attempts),
            sealed matches Some(header) ==> self.admits(header.consensus_digest, header),
    {
        let end = first + attempts;
        let mut nonce = first;
        while nonce < end
            invariant
                first <= nonce <= end,
                end == first + attempts,
                forall|earlier: u64|
                    first <= earlier < nonce ==> !self.solves(*partial_header, earlier),
            decreases end - nonce,
        {
            let candidate = partial_header.with_digest(nonce);
            if hash(&candidate) < self.threshold {
                proof {
                    assert(self.first_solution(*partial_header, first, attempts, nonce));
                    let chosen = choose|n: u64|
                        self.first_solution(*partial_header, first, attempts, n);
                    assert(chosen == nonce);
                }
                return Some(candidate);
            }
            nonce += 1;
        }
        None
    }
}

impl Consensus for PoW {
    type Digest = u64;

    /// The hash of the whole header, digest included, is below the
    /// threshold. The parent's digest plays no part.
    open spec fn admits(&self, parent_digest: u64, header: Header<u64>) -> bool {
        spec_hash(header.encoding()) < self.threshold
    }

    /// The header with the first nonce from `FIRST_NONCE` on, among
    /// `SEAL_ATTEMPTS`, that brings its hash below the threshold.
    open spec fn sealed(&self, parent_digest: u64, partial_header: Header<()>) -> Option<
        Header<u64>,
    > {
        self.mined(partial_header, FIRST_NONCE, SEAL_ATTEMPTS)
    }

    open spec fn is_default_instance(&self) -> bool {
        self.threshold == u64::MAX / 100
    }

    proof fn lemma_sealed_completes(&self, parent_digest: u64, partial_header: Header<()>) {
    }

    fn validate(&self, parent_digest: &u64, header: &Header<u64>) -> (valid: bool) {
        hash(header) < self.threshold
    }

    fn seal(&self, parent_digest: &u64, partial_header: Header<()>) -> (sealed: Option<Header<u64>>)
        ensures
            sealed matches Some(header) ==> self.admits(*parent_digest, header),
    {
        self.mine(&partial_header, FIRST_NONCE, SEAL_ATTEMPTS)
    }

    fn create_default_instance() -> (engine: PoW) {
        PoW { threshold: u64::MAX / 100 }
    }
}

/// What a search yields: a header that carries the first nonce of the
/// window that seals it, or nothing where no nonce of the window does.
pub proof fn lemma_mined(engine: PoW, partial: Header<()>, first: u64, attempts: u64)
    ensures
        engine.mined(partial, first, attempts) matches Some(header) ==> {
            &&& header == partial.replace_digest(header.consensus_digest)
            &&& engine.first_solution(partial, first, attempts, header.consensus_digest)
        },
        engine.mined(partial, first, attempts) is None ==> forall|nonce: u64|
            first <= nonce < first + attempts ==> !#[trigger] engine.solves(partial, nonce),
{
    if engine.mined(partial, first, attempts) is None {
        assert forall|nonce: u64| first <= nonce < first + attempts implies !#[trigger] engine.solves(
            partial,
            nonce,
        ) by {
            if engine.solves(partial, nonce) {
                lemma_first_solution_exists(engine, partial, first, attempts, nonce);
            }
        }
    }
}

/// Where some nonce of the window seals the header, one of them is the
/// first to do so.
pub proof fn lemma_first_solution_exists(
    engine: PoW,
    partial: Header<()>,
    first: u64,
    attempts: u64,
    nonce: u64,
)
    requires
        first <= nonce < first + attempts,
        engine.solves(partial, nonce),
    ensures
        exists|least: u64| engine.first_solution(partial, first, attempts, least),
    decreases nonce - first,
{
    if exists|earlier: u64| first <= earlier < nonce && engine.solves(partial, earlier) {
        let earlier = choose|earlier: u64| first <= earlier < nonce && engine.solves(partial, earlier);
        lemma_first_solution_exists(engine, partial, first, attempts, earlier);
    } else {
        assert(engine.first_solution(partial, first, attempts, nonce));
    }
}

/// Every header that proof of work seals hashes below the threshold, and
/// the engine admits it after any parent.
pub proof fn lemma_sealed_is_below_threshold(
    engine: PoW,
    parent_digest: u64,
    any_digest: u64,
    partial_header: Header<()>,
)
    ensures
        engine.sealed(parent_digest, partial_header) matches Some(header) ==> {
            &&& spec_hash(header.encoding()) < engine.threshold
            &&& engine.admits(any_digest, header)
        },
{
}

/// Proof of work admits every header that it seals.
pub proof fn lemma_pow_seals_soundly(engine: PoW)
    ensures
        seals_soundly(&engine),
{
}

} // verus!
