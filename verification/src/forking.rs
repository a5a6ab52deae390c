//! A combinator for a change of rules at a given height: one engine judges
//! the headers up to the fork height, another those above it. The two may
//! use different digests; the chain then carries a digest that can stand for
//! either.

use crate::consensus::{seals_soundly, Consensus, ConsensusAuthority, Header};
use crate::even_only::EvenOnly;
use crate::hashing::Encode;
use crate::poa::SimplePoa;
use crate::pow::PoW;
use core::marker::PhantomData;
use vstd::prelude::*;
use vstd::std_specs::convert::{FromSpec, FromSpecImpl};

verus! {

/// A digest that can carry the digests of an engine whose own digest type is
/// `Native`.
pub trait Carries<Native>: Sized {
    /// The native digest that this digest stands for.
    spec fn projected(self) -> Native;

    /// The digest that carries `native`.
    spec fn embedded(native: Native) -> Self;

    /// Nothing of a native digest is lost on the way into the carrier and
    /// back.
    proof fn lemma_embedding_is_lossless(native: Native)
        ensures
            Self::embedded(native).projected() == native,
    ;

    /// Computes the native digest that this digest stands for.
    fn project(&self) -> (native: Native)
        ensures
            native == self.projected(),
    ;

    /// Computes the digest that carries `native`.
    fn embed(native: Native) -> (digest: Self)
        ensures
            digest == Self::embedded(native),
    ;
}

/// A digest that is its own carrier: the digest of a fork between two
/// engines with one digest type.
pub trait Shared: Carries<Self> {
    /// Projecting and embedding again gives the digest back.
    proof fn lemma_round_trip(digest: Self)
        ensures
            Self::embedded(digest.projected()) == digest,
    ;
}

/// Between two engines with one digest type nothing is converted: a digest
/// comes back from its projection as it was, and a native digest from its
/// embedding.
pub proof fn lemma_shared_round_trip<D: Shared>(digest: D)
    ensures
        D::embedded(digest.projected()) == digest,
        D::embedded(digest).projected() == digest,
{
    D::lemma_round_trip(digest);
    D::lemma_embedding_is_lossless(digest);
}

impl Carries<u64> for u64 {
    open spec fn projected(self) -> u64 {
        self
    }

    open spec fn embedded(native: u64) -> u64 {
        native
    }

    proof fn lemma_embedding_is_lossless(native: u64) {
    }

    fn project(&self) -> (native: u64) {
        *self
    }

    fn embed(native: u64) -> (digest: u64) {
        native
    }
}

impl Shared for u64 {
    proof fn lemma_round_trip(digest: u64) {
    }
}

impl Carries<ConsensusAuthority> for ConsensusAuthority {
    open spec fn projected(self) -> ConsensusAuthority {
        self
    }

    open spec fn embedded(native: ConsensusAuthority) -> ConsensusAuthority {
        native
    }

    proof fn lemma_embedding_is_lossless(native: ConsensusAuthority) {
    }

    fn project(&self) -> (native: ConsensusAuthority) {
        *self
    }

    fn embed(native: ConsensusAuthority) -> (digest: ConsensusAuthority) {
        native
    }
}

impl Shared for ConsensusAuthority {
    proof fn lemma_round_trip(digest: ConsensusAuthority) {
    }
}

/// An engine that follows the rules of `Before` up to the fork height and
/// those of `After` above it. `D` is the digest of the whole chain.
pub struct Forked<D, Before, After> {
    /// The last height at which the rules of `Before` apply.
    pub fork_height: u64,
    /// Ties the digest type of the chain to the engine.
    pub phdata: PhantomData<D>,
    /// The engine for the heights above the fork height.
    pub inner_c_after: After,
    /// The engine for the heights up to the fork height.
    pub inner_c_before: Before,
}

impl<D, Before, After> Forked<D, Before, After> {
    /// The engine that changes from `before` to `after` behind `fork_height`.
    pub fn new(fork_height: u64, before: Before, after: After) -> (engine: Self)
        ensures
            engine.fork_height == fork_height,
            engine.inner_c_before == before,
            engine.inner_c_after == after,
    {
        Forked { fork_height, phdata: PhantomData, inner_c_after: after, inner_c_before: before }
    }
}

impl<D, B, A> Forked<D, B, A> where
    B: Consensus,
    A: Consensus,
    D: Carries<B::Digest> + Carries<A::Digest>,
 {
    /// Whether the run that starts at `chain[start]` is admitted link by
    /// link, `chain[start]` after `parent_digest` and each later header
    /// after the digest of the one before it.
    pub open spec fn admits_links(&self, parent_digest: D, chain: Seq<Header<D>>, start: int) -> bool {
        &&& start < chain.len() ==> self.admits(parent_digest, chain[start])
        &&& forall|i: int, j: int|
            start <= i && j == i + 1 && j < chain.len() ==> #[trigger] self.admits(
                chain[i].consensus_digest,
                chain[j],
            )
    }

    /// Checks the headers from `chain[start]` on, one link at a time, each
    /// by the engine that its own height calls for.
    pub fn verify_links(&self, parent_digest: &D, chain: &[Header<D>], start: usize) -> (valid: bool)
        requires
            start <= chain@.len(),
        ensures
            valid == self.admits_links(*parent_digest, chain@, start as int),
        decreases chain@.len() - start,
    {
        if start == chain.len() {
            true
        } else {
            self.validate(parent_digest, &chain[start]) && self.verify_links(
                &chain[start].consensus_digest,
                chain,
                start + 1,
            )
        }
    }
}

impl<D, B, A> Consensus for Forked<D, B, A> where
    B: Consensus,
    A: Consensus,
    D: Carries<B::Digest> + Carries<A::Digest>,
 {
    type Digest = D;

    /// A header above the fork height is judged by `After`, any other by
    /// `Before`, each on the native digests that the header's and the
    /// parent's digest stand for.
    open spec fn admits(&self, parent_digest: D, header: Header<D>) -> bool {
        if header.height > self.fork_height {
            self.inner_c_after.admits(
                Carries::<A::Digest>::projected(parent_digest),
                header.replace_digest(Carries::<A::Digest>::projected(header.consensus_digest)),
            )
        } else {
            self.inner_c_before.admits(
                Carries::<B::Digest>::projected(parent_digest),
                header.replace_digest(Carries::<B::Digest>::projected(header.consensus_digest)),
            )
        }
    }

    /// A header above the fork height is sealed by `After`, any other by
    /// `Before`, after the native digest that the parent's digest stands
    /// for; the native digest of the sealed header is then embedded.
    open spec fn sealed(&self, parent_digest: D, partial_header: Header<()>) -> Option<Header<D>> {
        if partial_header.height > self.fork_height {
            match self.inner_c_after.sealed(
                Carries::<A::Digest>::projected(parent_digest),
                partial_header,
            ) {
                Some(native) => Some(
                    native.replace_digest(
                        <D as Carries<A::Digest>>::embedded(native.consensus_digest),
                    ),
                ),
                None => None,
            }
        } else {
            match self.inner_c_before.sealed(
                Carries::<B::Digest>::projected(parent_digest),
                partial_header,
            ) {
                Some(native) => Some(
                    native.replace_digest(
                        <D as Carries<B::Digest>>::embedded(native.consensus_digest),
                    ),
                ),
                None => None,
            }
        }
    }

    /// The fork height is 10 and both engines are in their own default
    /// configuration.
    open spec fn is_default_instance(&self) -> bool {
        &&& self.fork_height == 10
        &&& self.inner_c_before.is_default_instance()
        &&& self.inner_c_after.is_default_instance()
    }

    proof fn lemma_sealed_completes(&self, parent_digest: D, partial_header: Header<()>) {
        if partial_header.height > self.fork_height {
            self.inner_c_after.lemma_sealed_completes(
                Carries::<A::Digest>::projected(parent_digest),
                partial_header,
            );
        } else {
            self.inner_c_before.lemma_sealed_completes(
                Carries::<B::Digest>::projected(parent_digest),
                partial_header,
            );
        }
    }

    fn validate(&self, parent_digest: &D, header: &Header<D>) -> (valid: bool) {
        if header.height > self.fork_height {
            let digest_after: A::Digest = parent_digest.project();
            let header_after: Header<A::Digest> = header.with_digest(
                header.consensus_digest.project(),
            );
            self.inner_c_after.validate(&digest_after, &header_after)
        } else {
            let digest_before: B::Digest = parent_digest.project();
            let header_before: Header<B::Digest> = header.with_digest(
                header.consensus_digest.project(),
            );
            self.inner_c_before.validate(&digest_before, &header_before)
        }
    }

    fn seal(&self, parent_digest: &D, partial_header: Header<()>) -> (sealed: Option<Header<D>>) {
        if partial_header.height > self.fork_height {
            let digest_after: A::Digest = parent_digest.project();
            match self.inner_c_after.seal(&digest_after, partial_header) {
                Some(native) => {
                    let Header { parent, height, state_root, extrinsics_root, consensus_digest } =
                        native;
                    Some(
                        Header {
                            parent,
                            height,
                            state_root,
                            extrinsics_root,
                            consensus_digest: D::embed(consensus_digest),
                        },
                    )
                },
                None => None,
            }
        } else {
            let digest_before: B::Digest = parent_digest.project();
            match self.inner_c_before.seal(&digest_before, partial_header) {
                Some(native) => {
                    let Header { parent, height, state_root, extrinsics_root, consensus_digest } =
                        native;
                    Some(
                        Header {
                            parent,
                            height,
                            state_root,
                            extrinsics_root,
                            consensus_digest: D::embed(consensus_digest),
                        },
                    )
                },
                None => None,
            }
        }
    }

    fn create_default_instance() -> (engine: Self) {
        Forked {
            fork_height: 10,
            phdata: PhantomData,
            inner_c_after: A::create_default_instance(),
            inner_c_before: B::create_default_instance(),
        }
    }

    fn verify_sub_chain(&self, parent_digest: &D, chain: &[Header<D>]) -> (valid: bool) {
        if chain.len() == 0 {
            true
        } else if chain.len() == 1 {
            false
        } else {
            self.verify_links(parent_digest, chain, 0)
        }
    }
}

/// Up to the fork height the rules of `Before` decide, above it those of
/// `After`, each on the digests that the carrier stands for.
pub proof fn lemma_fork_boundary<D, B, A>(
    engine: Forked<D, B, A>,
    parent_digest: D,
    header: Header<D>,
) where B: Consensus, A: Consensus, D: Carries<B::Digest> + Carries<A::Digest>
    ensures
        header.height <= engine.fork_height ==> engine.admits(parent_digest, header)
            == engine.inner_c_before.admits(
            Carries::<B::Digest>::projected(parent_digest),
            header.replace_digest(Carries::<B::Digest>::projected(header.consensus_digest)),
        ),
        header.height > engine.fork_height ==> engine.admits(parent_digest, header)
            == engine.inner_c_after.admits(
            Carries::<A::Digest>::projected(parent_digest),
            header.replace_digest(Carries::<A::Digest>::projected(header.consensus_digest)),
        ),
{
}

/// On either side of the fork a sealed header keeps the parent link and the
/// height of the partial header: what links the chain does not depend on
/// which digest the header carries.
pub proof fn lemma_fork_keeps_links<D, B, A>(
    engine: Forked<D, B, A>,
    parent_digest: D,
    partial_header: Header<()>,
) where B: Consensus, A: Consensus, D: Carries<B::Digest> + Carries<A::Digest>
    ensures
        engine.sealed(parent_digest, partial_header) matches Some(header) ==> {
            &&& header.parent == partial_header.parent
            &&& header.height == partial_header.height
            &&& header.extrinsics_root == partial_header.extrinsics_root
        },
{
    engine.lemma_sealed_completes(parent_digest, partial_header);
}

/// Where both engines admit what they seal, so does their fork.
pub proof fn lemma_fork_seals_soundly<D, B, A>(engine: Forked<D, B, A>) where
    B: Consensus,
    A: Consensus,
    D: Carries<B::Digest> + Carries<A::Digest>,

    requires
        seals_soundly(&engine.inner_c_before),
        seals_soundly(&engine.inner_c_after),
    ensures
        seals_soundly(&engine),
{
    assert forall|parent_digest: D, partial_header: Header<()>|
        #![trigger engine.sealed(parent_digest, partial_header)]
        engine.sealed(parent_digest, partial_header) is Some implies engine.admits(
        parent_digest,
        engine.sealed(parent_digest, partial_header).unwrap(),
    ) by {
        engine.lemma_sealed_completes(parent_digest, partial_header);
        if partial_header.height > engine.fork_height {
            let native = engine.inner_c_after.sealed(
                Carries::<A::Digest>::projected(parent_digest),
                partial_header,
            ).unwrap();
            <D as Carries<A::Digest>>::lemma_embedding_is_lossless(native.consensus_digest);
            let header = engine.sealed(parent_digest, partial_header).unwrap();
            assert(header.replace_digest(
                Carries::<A::Digest>::projected(header.consensus_digest),
            ) == native);
        } else {
            let native = engine.inner_c_before.sealed(
                Carries::<B::Digest>::projected(parent_digest),
                partial_header,
            ).unwrap();
            <D as Carries<B::Digest>>::lemma_embedding_is_lossless(native.consensus_digest);
            let header = engine.sealed(parent_digest, partial_header).unwrap();
            assert(header.replace_digest(
                Carries::<B::Digest>::projected(header.consensus_digest),
            ) == native);
        }
    }
}

/// An authority engine whose roster changes behind `fork_height`.
pub fn change_authorities(
    fork_height: u64,
    initial_authorities: Vec<ConsensusAuthority>,
    final_authorities: Vec<ConsensusAuthority>,
) -> (engine: Forked<ConsensusAuthority, SimplePoa, SimplePoa>)
    ensures
        engine.fork_height == fork_height,
        engine.inner_c_before.authorities@ == initial_authorities@,
        engine.inner_c_after.authorities@ == final_authorities@,
{
    Forked {
        fork_height,
        inner_c_after: SimplePoa { authorities: final_authorities },
        inner_c_before: SimplePoa { authorities: initial_authorities },
        phdata: PhantomData,
    }
}

/// A proof-of-work engine whose threshold changes behind `fork_height`.
pub fn change_difficulty(fork_height: u64, initial_difficulty: u64, final_difficulty: u64) -> (engine:
    Forked<u64, PoW, PoW>)
    ensures
        engine.fork_height == fork_height,
        engine.inner_c_before.threshold == initial_difficulty,
        engine.inner_c_after.threshold == final_difficulty,
{
    Forked {
        fork_height,
        inner_c_after: PoW { threshold: final_difficulty },
        inner_c_before: PoW { threshold: initial_difficulty },
        phdata: PhantomData,
    }
}

/// An engine that follows `Original` in its default configuration
/// throughout, and above `fork_height` also asks for an even state root.
pub fn even_after_given_height<Original: Consensus>(fork_height: u64) -> (engine: Forked<
    Original::Digest,
    Original,
    EvenOnly<Original>,
>) where Original::Digest: Shared
    ensures
        engine.fork_height == fork_height,
        engine.inner_c_before.is_default_instance(),
        engine.inner_c_after.inner_c.is_default_instance(),
{
    Forked {
        fork_height,
        inner_c_after: EvenOnly::<Original>::create_default_instance(),
        inner_c_before: Original::create_default_instance(),
        phdata: PhantomData,
    }
}

/// The digest of a chain that is mined up to its fork height and signed
/// above it.
#[derive(Clone, Copy, Debug, PartialEq, Eq, Hash)]
pub enum PowOrPoaDigest {
    Pow(u64),
    Poa(ConsensusAuthority),
}

impl Encode for PowOrPoaDigest {
    /// A byte that tells the engine, then the native digest.
    open spec fn encoding(&self) -> Seq<u8> {
        match self {
            PowOrPoaDigest::Pow(nonce) => seq![0u8] + nonce.encoding(),
            PowOrPoaDigest::Poa(signer) => seq![1u8] + signer.encoding(),
        }
    }

    fn encode(&self, out: &mut Vec<u8>) {
        match self {
            PowOrPoaDigest::Pow(nonce) => {
                out.push(0);
                assert(out@ == old(out)@ + seq![0u8]);
                nonce.encode(out);
                assert(out@ == old(out)@ + (seq![0u8] + nonce.encoding()));
            },
            PowOrPoaDigest::Poa(signer) => {
                out.push(1);
                assert(out@ == old(out)@ + seq![1u8]);
                signer.encode(out);
                assert(out@ == old(out)@ + (seq![1u8] + signer.encoding()));
            },
        }
    }
}

impl From<u64> for PowOrPoaDigest {
    fn from(d: u64) -> (digest: PowOrPoaDigest) {
        PowOrPoaDigest::Pow(d)
    }
}

impl FromSpecImpl<u64> for PowOrPoaDigest {
    open spec fn obeys_from_spec() -> bool {
        true
    }

    open spec fn from_spec(d: u64) -> PowOrPoaDigest {
        PowOrPoaDigest::Pow(d)
    }
}

impl From<ConsensusAuthority> for PowOrPoaDigest {
    fn from(d: ConsensusAuthority) -> (digest: PowOrPoaDigest) {
        PowOrPoaDigest::Poa(d)
    }
}

impl FromSpecImpl<ConsensusAuthority> for PowOrPoaDigest {
    open spec fn obeys_from_spec() -> bool {
        true
    }

    open spec fn from_spec(d: ConsensusAuthority) -> PowOrPoaDigest {
        PowOrPoaDigest::Poa(d)
    }
}

/// The signer that a digest stands for. A mined block has no signer: it
/// stands for `Alice`.
impl From<PowOrPoaDigest> for ConsensusAuthority {
    fn from(d: PowOrPoaDigest) -> (signer: ConsensusAuthority) {
        match d {
            PowOrPoaDigest::Pow(_) => ConsensusAuthority::Alice,
            PowOrPoaDigest::Poa(authority) => authority,
        }
    }
}

impl FromSpecImpl<PowOrPoaDigest> for ConsensusAuthority {
    open spec fn obeys_from_spec() -> bool {
        true
    }

    open spec fn from_spec(d: PowOrPoaDigest) -> ConsensusAuthority {
        match d {
            PowOrPoaDigest::Pow(_) => ConsensusAuthority::Alice,
            PowOrPoaDigest::Poa(authority) => authority,
        }
    }
}

/// The nonce that a digest stands for. A signed block has no nonce: it
/// stands for 10.
impl From<PowOrPoaDigest> for u64 {
    fn from(d: PowOrPoaDigest) -> (nonce: u64) {
        match d {
            PowOrPoaDigest::Pow(value) => value,
            PowOrPoaDigest::Poa(_) => 10,
        }
    }
}

impl FromSpecImpl<PowOrPoaDigest> for u64 {
    open spec fn obeys_from_spec() -> bool {
        true
    }

    open spec fn from_spec(d: PowOrPoaDigest) -> u64 {
        match d {
            PowOrPoaDigest::Pow(value) => value,
            PowOrPoaDigest::Poa(_) => 10,
        }
    }
}

impl Carries<u64> for PowOrPoaDigest {
    open spec fn projected(self) -> u64 {
        <u64 as FromSpec<PowOrPoaDigest>>::from_spec(self)
    }

    open spec fn embedded(native: u64) -> PowOrPoaDigest {
        <PowOrPoaDigest as FromSpec<u64>>::from_spec(native)
    }

    proof fn lemma_embedding_is_lossless(native: u64) {
    }

    fn project(&self) -> (native: u64) {
        u64::from(*self)
    }

    fn embed(native: u64) -> (digest: PowOrPoaDigest) {
        PowOrPoaDigest::from(native)
    }
}

impl Carries<ConsensusAuthority> for PowOrPoaDigest {
    open spec fn projected(self) -> ConsensusAuthority {
        <ConsensusAuthority as FromSpec<PowOrPoaDigest>>::from_spec(self)
    }

    open spec fn embedded(native: ConsensusAuthority) -> PowOrPoaDigest {
        <PowOrPoaDigest as FromSpec<ConsensusAuthority>>::from_spec(native)
    }

    proof fn lemma_embedding_is_lossless(native: ConsensusAuthority) {
    }

    fn project(&self) -> (native: ConsensusAuthority) {
        ConsensusAuthority::from(*self)
    }

    fn embed(native: ConsensusAuthority) -> (digest: PowOrPoaDigest) {
        PowOrPoaDigest::from(native)
    }
}

/// A digest comes back unchanged from the engine that it belongs to: a
/// mined digest from its nonce, a signed digest from its signer.
pub proof fn lemma_own_side_round_trip(digest: PowOrPoaDigest)
    ensures
        digest is Pow ==> <PowOrPoaDigest as Carries<u64>>::embedded(
            Carries::<u64>::projected(digest),
        ) == digest,
        digest is Poa ==> <PowOrPoaDigest as Carries<ConsensusAuthority>>::embedded(
            Carries::<ConsensusAuthority>::projected(digest),
        ) == digest,
{
}

/// A chain that is mined up to its fork height and signed above it.
pub type ForkedPoaPow = Forked<PowOrPoaDigest, PoW, SimplePoa>;

/// The engine that mines at `difficulty` up to `fork_height` and has one of
/// `authorities` sign every block above it.
pub fn pow_to_poa(fork_height: u64, difficulty: u64, authorities: Vec<ConsensusAuthority>) -> (engine:
    ForkedPoaPow)
    ensures
        engine.fork_height == fork_height,
        engine.inner_c_before.threshold == difficulty,
        engine.inner_c_after.authorities@ == authorities@,
{
    Forked {
        fork_height,
        inner_c_before: PoW { threshold: difficulty },
        inner_c_after: SimplePoa { authorities },
        phdata: PhantomData,
    }
}

} // verus!
