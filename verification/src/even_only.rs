//! A combinator that adds one rule to any engine: the state root of a header
//! must be even.

use crate::consensus::{seals_soundly, Consensus, Header};
use crate::hashing::{encoding_of_items, hash, spec_hash, Encode};
use crate::pow::PoW;
use vstd::prelude::*;

verus! {

/// The least even number that is not below `root`.
pub open spec fn even_root(root: u64) -> int {
    if root % 2 == 0 {
        root as int
    } else {
        root + 1
    }
}

/// `partial` with its state root raised to `root`.
pub open spec fn with_state_root(partial: Header<()>, root: u64) -> Header<()> {
    Header {
        parent: partial.parent,
        height: partial.height,
        state_root: root,
        extrinsics_root: partial.extrinsics_root,
        consensus_digest: (),
    }
}

/// An engine that enforces the rules of the engine it wraps, and admits only
/// headers with an even state root.
pub struct EvenOnly<Inner: Consensus> {
    /// The wrapped engine.
    pub inner_c: Inner,
}

impl<Inner: Consensus> Consensus for EvenOnly<Inner> {
    type Digest = Inner::Digest;

    /// The wrapped engine admits the header, and its state root is even.
    open spec fn admits(&self, parent_digest: Inner::Digest, header: Header<Inner::Digest>) -> bool {
        self.inner_c.admits(parent_digest, header) && header.state_root % 2 == 0
    }

    /// What the wrapped engine seals once an odd state root has been raised
    /// by one. The largest state root is odd and cannot be raised: a header
    /// that declares it is not sealed.
    open spec fn sealed(&self, parent_digest: Inner::Digest, partial_header: Header<()>) -> Option<
        Header<Inner::Digest>,
    > {
        if even_root(partial_header.state_root) <= u64::MAX {
            self.inner_c.sealed(
                parent_digest,
                with_state_root(partial_header, even_root(partial_header.state_root) as u64),
            )
        } else {
            None
        }
    }

    open spec fn is_default_instance(&self) -> bool {
        self.inner_c.is_default_instance()
    }

    proof fn lemma_sealed_completes(&self, parent_digest: Inner::Digest, partial_header: Header<()>) {
        if even_root(partial_header.state_root) <= u64::MAX {
            self.inner_c.lemma_sealed_completes(
                parent_digest,
                with_state_root(partial_header, even_root(partial_header.state_root) as u64),
            );
        }
    }

    fn validate(&self, parent_digest: &Inner::Digest, header: &Header<Inner::Digest>) -> (valid:
        bool) {
        let valid = self.inner_c.validate(parent_digest, header);
        valid && header.state_root % 2 == 0
    }

    fn seal(&self, parent_digest: &Inner::Digest, partial_header: Header<()>) -> (sealed: Option<
        Header<Inner::Digest>,
    >)
        ensures
            sealed matches Some(header) ==> header.state_root % 2 == 0,
    {
        let state_root = if partial_header.state_root % 2 == 0 {
            partial_header.state_root
        } else if partial_header.state_root < u64::MAX {
            partial_header.state_root + 1
        } else {
            return None;
        };
        let candidate = Header {
            parent: partial_header.parent,
            height: partial_header.height,
            state_root,
            extrinsics_root: partial_header.extrinsics_root,
            consensus_digest: (),
        };
        proof {
            self.inner_c.lemma_sealed_completes(*parent_digest, candidate);
        }
        self.inner_c.seal(parent_digest, candidate)
    }

    fn create_default_instance() -> (engine: EvenOnly<Inner>) {
        EvenOnly { inner_c: Inner::create_default_instance() }
    }
}

/// Every header that `EvenOnly` seals has an even state root, whatever the
/// wrapped engine is.
pub proof fn lemma_sealed_root_is_even<Inner: Consensus>(
    engine: EvenOnly<Inner>,
    parent_digest: Inner::Digest,
    partial_header: Header<()>,
)
    ensures
        engine.sealed(parent_digest, partial_header) matches Some(header) ==> header.state_root % 2
            == 0,
{
    if even_root(partial_header.state_root) <= u64::MAX {
        engine.inner_c.lemma_sealed_completes(
            parent_digest,
            with_state_root(partial_header, even_root(partial_header.state_root) as u64),
        );
    }
}

/// A header with an odd state root is rejected by `EvenOnly`, whether or not
/// the wrapped engine admits it.
pub proof fn lemma_odd_root_is_rejected<Inner: Consensus>(
    engine: EvenOnly<Inner>,
    parent_digest: Inner::Digest,
    header: Header<Inner::Digest>,
)
    requires
        header.state_root % 2 == 1,
    ensures
        !engine.admits(parent_digest, header),
{
}

/// Where the wrapped engine admits what it seals, so does `EvenOnly`.
pub proof fn lemma_even_only_seals_soundly<Inner: Consensus>(engine: EvenOnly<Inner>)
    requires
        seals_soundly(&engine.inner_c),
    ensures
        seals_soundly(&engine),
{
    assert forall|parent_digest: Inner::Digest, partial_header: Header<()>|
        #![trigger engine.sealed(parent_digest, partial_header)]
        engine.sealed(parent_digest, partial_header) is Some implies engine.admits(
        parent_digest,
        engine.sealed(parent_digest, partial_header).unwrap(),
    ) by {
        lemma_sealed_root_is_even(engine, parent_digest, partial_header);
    }
}

/// The threshold of the engine that `almost_valid_but_not_all_even` mines
/// with: about one nonce in ten seals a header.
pub const EASY_THRESHOLD: u64 = u64::MAX / 10;

/// The header at `height` of a chain that declares its heights as state
/// roots, before it is sealed: it names the hash of the header below it, or
/// 0 at the bottom.
pub open spec fn plain_partial(chain: Seq<Header<u64>>, height: int) -> Header<()> {
    Header {
        parent: if height == 0 {
            0
        } else {
            spec_hash(chain[height - 1].encoding())
        },
        height: height as u64,
        state_root: height as u64,
        extrinsics_root: if height == 0 {
            0
        } else {
            spec_hash(
                encoding_of_items(
                    seq![(1 + height) as u64, (2 + height) as u64, (3 + height) as u64],
                ),
            )
        },
        consensus_digest: (),
    }
}

/// The digest after which the header at `height` is sealed: that of the
/// header below it, or 0 at the bottom.
pub open spec fn digest_below(chain: Seq<Header<u64>>, height: int) -> u64 {
    if height == 0 {
        0
    } else {
        chain[height - 1].consensus_digest
    }
}

/// Whether the header at `height` of `chain` is what `engine` seals there.
pub open spec fn mined_at(engine: PoW, chain: Seq<Header<u64>>, height: int) -> bool {
    engine.sealed(digest_below(chain, height), plain_partial(chain, height)) == Some(chain[height])
}

/// A chain of up to five headers that proof of work at `EASY_THRESHOLD`
/// admits, but `EvenOnly` around it does not: the headers declare their
/// heights as state roots, so every other one is odd. The chain ends early
/// where the search for a nonce fails.
pub fn almost_valid_but_not_all_even() -> (chain: Vec<Header<u64>>)
    ensures
        chain@.len() <= 5,
        forall|i: int|
            0 <= i < chain@.len() ==> #[trigger] mined_at(
                (PoW { threshold: EASY_THRESHOLD }),
                chain@,
                i,
            ),
        chain@.len() < 5 ==> (PoW { threshold: EASY_THRESHOLD }).sealed(
            digest_below(chain@, chain@.len() as int),
            plain_partial(chain@, chain@.len() as int),
        ) is None,
        forall|i: int|
            #![trigger chain@[i]]
            0 <= i < chain@.len() ==> {
                &&& chain@[i].height == i
                &&& chain@[i].state_root == i
                &&& (PoW { threshold: EASY_THRESHOLD }).admits(digest_below(chain@, i), chain@[i])
                &&& i % 2 == 1 ==> !(EvenOnly { inner_c: PoW { threshold: EASY_THRESHOLD } }).admits(
                    digest_below(chain@, i),
                    chain@[i],
                )
            },
{
    let c = EvenOnly { inner_c: PoW::new(EASY_THRESHOLD) };
    let ghost engine = PoW { threshold: EASY_THRESHOLD };
    let mut chain: Vec<Header<u64>> = Vec::new();
    let mut height: u64 = 0;
    while height < 5
        invariant
            height <= 5,
            chain@.len() == height,
            c.inner_c == engine,
            engine == (PoW { threshold: EASY_THRESHOLD }),
            forall|i: int| 0 <= i < chain@.len() ==> #[trigger] mined_at(engine, chain@, i),
            forall|i: int|
                #![trigger chain@[i]]
                0 <= i < chain@.len() ==> {
                    &&& chain@[i].height == i
                    &&& chain@[i].state_root == i
                    &&& engine.admits(digest_below(chain@, i), chain@[i])
                },
        decreases 5 - height,
    {
        let ghost before = chain@;
        let (parent, parent_digest, extrinsics_root) = if height == 0 {
            (0, 0, 0)
        } else {
            let below = &chain[(height - 1) as usize];
            let mut extrinsics: Vec<u64> = Vec::new();
            extrinsics.push(1 + height);
            extrinsics.push(2 + height);
            extrinsics.push(3 + height);
            assert(extrinsics@ == seq![(1 + height) as u64, (2 + height) as u64, (3 + height) as u64]);
            (hash(below), below.consensus_digest, hash(&extrinsics))
        };
        let partial_header = Header {
            parent,
            height,
            state_root: height,
            extrinsics_root,
            consensus_digest: (),
        };
        assert(partial_header == plain_partial(before, height as int));
        match c.inner_c.seal(&parent_digest, partial_header) {
            Some(header) => {
                chain.push(header);
                assert forall|i: int| 0 <= i < chain@.len() implies #[trigger] mined_at(
                    engine,
                    chain@,
                    i,
                ) by {
                    if i < height {
                        assert(mined_at(engine, before, i));
                        assert(chain@[i] == before[i]);
                        assert(digest_below(chain@, i) == digest_below(before, i));
                        assert(plain_partial(chain@, i) == plain_partial(before, i));
                    } else {
                        assert(digest_below(chain@, i) == digest_below(before, i));
                        assert(plain_partial(chain@, i) == plain_partial(before, i));
                    }
                }
            },
            None => {
                return chain;
            },
        }
        height += 1;
    }
    chain
}

} // verus!
