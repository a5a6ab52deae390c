//! Block headers and the contract that every consensus engine meets.

use crate::hashing::Encode;
use vstd::bytes::{lemma_auto_spec_u64_to_from_le_bytes, spec_u64_from_le_bytes};
use vstd::prelude::*;

verus! {

/// One of the permissioned identities that may sign a block.
#[derive(Clone, Copy, Debug, PartialEq, Eq, Hash, Structural)]
pub enum ConsensusAuthority {
    Alice,
    Bob,
    Charlie,
}

impl ConsensusAuthority {
    /// The byte that stands for this authority in a hashed header.
    pub open spec fn tag(self) -> u8 {
        match self {
            ConsensusAuthority::Alice => 0,
            ConsensusAuthority::Bob => 1,
            ConsensusAuthority::Charlie => 2,
        }
    }
}

impl Encode for ConsensusAuthority {
    open spec fn encoding(&self) -> Seq<u8> {
        seq![self.tag()]
    }

    fn encode(&self, out: &mut Vec<u8>) {
        let tag: u8 = match self {
            ConsensusAuthority::Alice => 0,
            ConsensusAuthority::Bob => 1,
            ConsensusAuthority::Charlie => 2,
        };
        out.push(tag);
        assert(out@ == old(out)@ + seq![tag]);
    }
}

/// The metadata of one block. What the digest means is up to the engine that
/// sealed the header.
#[derive(Clone, Debug, PartialEq, Eq, Hash)]
pub struct Header<Digest> {
    /// Hash of the header before this one, 0 for the first header.
    pub parent: u64,
    /// Position in the chain, counted from 0.
    pub height: u64,
    /// Hash of the state after this block.
    pub state_root: u64,
    /// Hash of the block's body.
    pub extrinsics_root: u64,
    /// The engine's own payload.
    pub consensus_digest: Digest,
}

impl<Digest> Header<Digest> {
    /// This header with `digest` in place of its own.
    pub open spec fn replace_digest<Other>(self, digest: Other) -> Header<Other> {
        Header {
            parent: self.parent,
            height: self.height,
            state_root: self.state_root,
            extrinsics_root: self.extrinsics_root,
            consensus_digest: digest,
        }
    }

    /// Builds the header that carries `digest` and is otherwise this one.
    pub fn with_digest<Other>(&self, digest: Other) -> (header: Header<Other>)
        ensures
            header == self.replace_digest(digest),
    {
        Header {
            parent: self.parent,
            height: self.height,
            state_root: self.state_root,
            extrinsics_root: self.extrinsics_root,
            consensus_digest: digest,
        }
    }

    /// Whether this header is a sealing of `partial`: same parent, height and
    /// extrinsics root, and the same state root unless an odd one was raised
    /// by one to make it even.
    pub open spec fn completes(self, partial: Header<()>) -> bool {
        &&& self.parent == partial.parent
        &&& self.height == partial.height
        &&& self.extrinsics_root == partial.extrinsics_root
        &&& (self.state_root == partial.state_root || (partial.state_root % 2 == 1
            && self.state_root == partial.state_root + 1))
    }
}

impl<Digest: Encode> Encode for Header<Digest> {
    open spec fn encoding(&self) -> Seq<u8> {
        self.parent.encoding() + self.height.encoding() + self.state_root.encoding()
            + self.extrinsics_root.encoding() + self.consensus_digest.encoding()
    }

    fn encode(&self, out: &mut Vec<u8>) {
        self.parent.encode(out);
        self.height.encode(out);
        self.state_root.encode(out);
        self.extrinsics_root.encode(out);
        self.consensus_digest.encode(out);
    }
}

/// Two headers with the same bytes are the same header, provided that their
/// digests are told apart by their bytes: a change in any field changes
/// what is hashed.
pub proof fn lemma_header_encoding_is_injective<Digest: Encode>(a: Header<Digest>, b: Header<Digest>)
    requires
        a.encoding() == b.encoding(),
        a.consensus_digest.encoding() == b.consensus_digest.encoding() ==> a.consensus_digest
            == b.consensus_digest,
    ensures
        a == b,
{
    lemma_auto_spec_u64_to_from_le_bytes();
    let x = a.encoding();
    let y = b.encoding();
    assert(x.subrange(0, 8) == a.parent.encoding());
    assert(y.subrange(0, 8) == b.parent.encoding());
    assert(x.subrange(8, 16) == a.height.encoding());
    assert(y.subrange(8, 16) == b.height.encoding());
    assert(x.subrange(16, 24) == a.state_root.encoding());
    assert(y.subrange(16, 24) == b.state_root.encoding());
    assert(x.subrange(24, 32) == a.extrinsics_root.encoding());
    assert(y.subrange(24, 32) == b.extrinsics_root.encoding());
    assert(x.subrange(32, x.len() as int) == a.consensus_digest.encoding());
    assert(y.subrange(32, y.len() as int) == b.consensus_digest.encoding());
    assert(a.parent == spec_u64_from_le_bytes(a.parent.encoding()));
    assert(b.parent == spec_u64_from_le_bytes(b.parent.encoding()));
    assert(a.height == spec_u64_from_le_bytes(a.height.encoding()));
    assert(b.height == spec_u64_from_le_bytes(b.height.encoding()));
    assert(a.state_root == spec_u64_from_le_bytes(a.state_root.encoding()));
    assert(b.state_root == spec_u64_from_le_bytes(b.state_root.encoding()));
    assert(a.extrinsics_root == spec_u64_from_le_bytes(a.extrinsics_root.encoding()));
    assert(b.extrinsics_root == spec_u64_from_le_bytes(b.extrinsics_root.encoding()));
}

/// Two mined headers with the same bytes are the same header.
pub proof fn lemma_mined_header_encoding_is_injective(a: Header<u64>, b: Header<u64>)
    requires
        a.encoding() == b.encoding(),
    ensures
        a == b,
{
    lemma_auto_spec_u64_to_from_le_bytes();
    assert(a.consensus_digest == spec_u64_from_le_bytes(a.consensus_digest.encoding()));
    assert(b.consensus_digest == spec_u64_from_le_bytes(b.consensus_digest.encoding()));
    lemma_header_encoding_is_injective(a, b);
}

/// Whether `engine` accepts the run `chain` that follows a header with digest
/// `parent_digest`: an empty run is accepted, a run of one header is not, and
/// a longer run is accepted when its first header is admitted after
/// `parent_digest` and every later one after the digest of the header before
/// it.
pub open spec fn admits_chain<C: Consensus>(
    engine: &C,
    parent_digest: C::Digest,
    chain: Seq<Header<C::Digest>>,
) -> bool {
    chain.len() == 0 || (chain.len() >= 2 && engine.admits(parent_digest, chain[0]) && forall|
        i: int,
        j: int,
    |
        0 <= i && j == i + 1 && j < chain.len() ==> #[trigger] engine.admits(
            chain[i].consensus_digest,
            chain[j],
        ))
}

/// Whether `engine` admits every header that it seals.
pub open spec fn seals_soundly<C: Consensus>(engine: &C) -> bool {
    forall|parent_digest: C::Digest, partial_header: Header<()>|
        #![trigger engine.sealed(parent_digest, partial_header)]
        engine.sealed(parent_digest, partial_header) matches Some(header) ==> engine.admits(
            parent_digest,
            header,
        )
}

/// A consensus engine: it decides which headers are admissible and can seal
/// new ones.
pub trait Consensus: Sized {
    /// The payload that this engine puts into the headers it seals.
    type Digest;

    /// The rule of the engine: whether `header` may follow a header whose
    /// digest is `parent_digest`.
    spec fn admits(&self, parent_digest: Self::Digest, header: Header<Self::Digest>) -> bool;

    /// What sealing `partial_header` after `parent_digest` gives: the sealed
    /// header, or `None` where the engine has no digest to offer.
    spec fn sealed(&self, parent_digest: Self::Digest, partial_header: Header<()>) -> Option<
        Header<Self::Digest>,
    >;

    /// Whether this engine is configured as `create_default_instance` does.
    spec fn is_default_instance(&self) -> bool;

    /// Sealing completes the partial header: it keeps the parent link, the
    /// height and the extrinsics root, and at most raises an odd state root
    /// by one.
    proof fn lemma_sealed_completes(&self, parent_digest: Self::Digest, partial_header: Header<()>)
        ensures
            self.sealed(parent_digest, partial_header) matches Some(header) ==> header.completes(
                partial_header,
            ),
    ;

    /// Checks `header` against the engine's rule.
    fn validate(&self, parent_digest: &Self::Digest, header: &Header<Self::Digest>) -> (valid: bool)
        ensures
            valid == self.admits(*parent_digest, *header),
    ;

    /// Seals `partial_header` as the successor of a header with digest
    /// `parent_digest`.
    fn seal(&self, parent_digest: &Self::Digest, partial_header: Header<()>) -> (sealed: Option<
        Header<Self::Digest>,
    >)
        ensures
            sealed == self.sealed(*parent_digest, partial_header),
    ;

    /// The engine in its canonical configuration.
    fn create_default_instance() -> (engine: Self)
        ensures
            engine.is_default_instance(),
    ;

    /// Checks a run of headers that follows a header with digest
    /// `parent_digest`, stopping at the first header that is not admitted.
    fn verify_sub_chain(&self, parent_digest: &Self::Digest, chain: &[Header<Self::Digest>]) -> (valid:
        bool)
        ensures
            valid == (chain@.len() == 0 || (chain@.len() >= 2 && self.admits(
                *parent_digest,
                chain@[0],
            ) && forall|i: int, j: int|
                0 <= i && j == i + 1 && j < chain@.len() ==> #[trigger] self.admits(
                    chain@[i].consensus_digest,
                    chain@[j],
                ))),
    {
        if chain.len() == 0 {
            return true;
        }
        if chain.len() == 1 {
            return false;
        }
        if !self.validate(parent_digest, &chain[0]) {
            return false;
        }
        let mut i: usize = 1;
        while i < chain.len()
            invariant
                1 <= i <= chain.len(),
                self.admits(*parent_digest, chain@[0]),
                forall|j: int, k: int|
                    0 <= j && k == j + 1 && k < i ==> #[trigger] self.admits(
                        chain@[j].consensus_digest,
                        chain@[k],
                    ),
            decreases chain.len() - i,
        {
            if !self.validate(&chain[i - 1].consensus_digest, &chain[i]) {
                return false;
            }
            i += 1;
        }
        true
    }

    /// A label for diagnostics.
    fn human_name() -> (name: String)
        ensures
            name@ == "Unnamed Consensus Engine"@,
    {
        "Unnamed Consensus Engine".to_string()
    }
}

} // verus!
