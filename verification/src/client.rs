//! Chains of headers and of whole blocks, built on a consensus engine and a
//! state machine.

use crate::consensus::{Consensus, Header};
use crate::hashing::{encoding_of_items, hash, spec_hash, Encode, EncodeView};
use crate::state_machine::{replayed, StateMachine};
use vstd::prelude::*;

verus! {

/// `<u64 as num::Zero>::zero`, which the crate defines as the literal 0.
#[verifier::external_body]
fn zero_u64() -> (zero: u64)
    ensures
        zero == 0,
{
    <u64 as num::traits::Zero>::zero()
}

/// `<u64 as num::One>::one`, which the crate defines as the literal 1.
#[verifier::external_body]
fn one_u64() -> (one: u64)
    ensures
        one == 1,
{
    <u64 as num::traits::One>::one()
}

/// A digest type with a zero, for the first header of a chain, and a one,
/// for headers that no engine sealed.
pub trait Identities: Sized {
    /// The zero of the type.
    spec fn zero_value() -> Self;

    /// The one of the type.
    spec fn one_value() -> Self;

    /// Computes the zero of the type.
    fn zero() -> (zero: Self)
        ensures
            zero == Self::zero_value(),
    ;

    /// Computes the one of the type.
    fn one() -> (one: Self)
        ensures
            one == Self::one_value(),
    ;
}

impl Identities for u64 {
    open spec fn zero_value() -> u64 {
        0
    }

    open spec fn one_value() -> u64 {
        1
    }

    fn zero() -> (zero: u64) {
        zero_u64()
    }

    fn one() -> (one: u64) {
        one_u64()
    }
}

impl<Digest: Identities + Encode> Header<Digest> {
    /// Whether `child` may follow this header: it names this header's hash
    /// as its parent and stands one higher.
    pub open spec fn is_parent_of(self, child: Self) -> bool {
        spec_hash(self.encoding()) == child.parent && child.height == self.height + 1
    }

    /// Whether each header of `chain` but the first follows the one before
    /// it. A run of one header has no link to show and is not accepted.
    pub open spec fn links(chain: Seq<Self>) -> bool {
        chain.len() == 0 || (chain.len() >= 2 && forall|i: int, j: int|
            0 <= i && j == i + 1 && j < chain.len() ==> #[trigger] chain[i].is_parent_of(chain[j]))
    }

    /// The first header of a chain.
    pub fn genesis(genesis_state_root: u64) -> (header: Self)
        ensures
            header == (Header {
                parent: 0,
                height: 0,
                state_root: genesis_state_root,
                extrinsics_root: 0,
                consensus_digest: Digest::zero_value(),
            }),
    {
        Header {
            parent: 0,
            height: 0,
            state_root: genesis_state_root,
            extrinsics_root: 0,
            consensus_digest: Digest::zero(),
        }
    }

    /// A header that follows this one.
    pub fn child(&self, state_root: u64, extrinsics_root: u64) -> (header: Self)
        requires
            self.height < u64::MAX,
        ensures
            header == (Header {
                parent: spec_hash(self.encoding()),
                height: (self.height + 1) as u64,
                state_root,
                extrinsics_root,
                consensus_digest: Digest::one_value(),
            }),
            self.is_parent_of(header),
    {
        Header {
            parent: hash(self),
            height: self.height + 1,
            state_root,
            extrinsics_root,
            consensus_digest: Digest::one(),
        }
    }

    /// Checks that `child` may follow this header.
    pub fn verify_child(&self, child: &Self) -> (valid: bool)
        ensures
            valid == self.is_parent_of(*child),
    {
        hash(self) == child.parent && child.height > 0 && self.height == child.height - 1
    }

    /// Checks the run `chain` link by link. The run is judged on its own:
    /// the header that the check is asked of takes no part.
    pub fn verify_sub_chain(&self, chain: &[Self]) -> (valid: bool)
        ensures
            valid == Self::links(chain@),
    {
        let chain_len = chain.len();
        if chain_len == 0 {
            return true;
        }
        if chain_len == 1 {
            return false;
        }
        let mut block_i: usize = 0;
        while block_i < chain_len - 1
            invariant
                chain_len == chain@.len(),
                chain_len >= 2,
                block_i <= chain_len - 1,
                forall|i: int, j: int|
                    0 <= i && j == i + 1 && j <= block_i ==> #[trigger] chain@[i].is_parent_of(
                        chain@[j],
                    ),
            decreases chain_len - block_i,
        {
            if !chain[block_i].verify_child(&chain[block_i + 1]) {
                return false;
            }
            block_i += 1;
        }
        true
    }
}

/// A block: its header, the transitions it holds, and the engine that is to
/// seal what follows it.
pub struct Block<C: Consensus, SM: StateMachine> {
    /// The sealed metadata of the block.
    pub header: Header<C::Digest>,
    /// The transitions of the block, in order.
    pub body: Vec<SM::Transition>,
    /// The engine that seals the children of the block.
    pub consensus: C,
}

/// The hash of a state with the view `state`.
pub open spec fn state_root_of<SM: StateMachine>(state: <SM::State as View>::V) -> u64 where
    SM::State: EncodeView,
 {
    spec_hash(SM::State::encoding_of(state))
}

/// The state reached from `pre_state` after the bodies of the first `count`
/// blocks of `chain`.
pub open spec fn state_after<C: Consensus, SM: StateMachine>(
    pre_state: <SM::State as View>::V,
    chain: Seq<Block<C, SM>>,
    count: int,
) -> <SM::State as View>::V
    decreases count,
{
    if count <= 0 {
        pre_state
    } else {
        replayed::<SM>(state_after(pre_state, chain, count - 1), chain[count - 1].body@)
    }
}

/// The header that follows `parent` where `engine` is asked to seal it: it
/// names the hash of `parent`, stands one higher and declares the two
/// roots. Where the engine seals nothing the header carries the digest one.
pub open spec fn child_header<C: Consensus>(
    engine: &C,
    parent: Header<C::Digest>,
    state_root: u64,
    extrinsics_root: u64,
) -> Header<C::Digest> where C::Digest: Identities + Encode {
    let partial = Header {
        parent: spec_hash(parent.encoding()),
        height: (parent.height + 1) as u64,
        state_root,
        extrinsics_root,
        consensus_digest: (),
    };
    match engine.sealed(parent.consensus_digest, partial) {
        Some(header) => header,
        None => partial.replace_digest(C::Digest::one_value()),
    }
}

/// The state that `reached` stands for: the state it holds, or `pre_state`
/// where it holds none.
pub open spec fn standing<SM: StateMachine>(reached: Option<SM::State>, pre_state: SM::State) -> <
    SM::State as View
>::V {
    match reached {
        Some(state) => state@,
        None => pre_state@,
    }
}

/// Replays `body` on `current`, or on `pre_state` where `current` is
/// `None`, and returns the state reached, `None` where nothing was replayed
/// and the state is still `pre_state`.
fn replay<SM: StateMachine>(
    current: Option<SM::State>,
    pre_state: &SM::State,
    body: &Vec<SM::Transition>,
) -> (reached: Option<SM::State>)
    ensures
        standing::<SM>(reached, *pre_state) == replayed::<SM>(
            standing::<SM>(current, *pre_state),
            body@,
        ),
{
    let ghost starting = standing::<SM>(current, *pre_state);
    let mut reached = current;
    let mut i: usize = 0;
    while i < body.len()
        invariant
            i <= body.len(),
            standing::<SM>(reached, *pre_state) == replayed::<SM>(starting, body@.take(i as int)),
        decreases body.len() - i,
    {
        let next = match &reached {
            Some(state) => SM::next_state(state, &body[i]),
            None => SM::next_state(pre_state, &body[i]),
        };
        proof {
            let longer = body@.take(i + 1);
            assert(longer.drop_last() == body@.take(i as int));
            assert(longer.last() == body@[i as int]);
        }
        reached = Some(next);
        i += 1;
    }
    assert(body@.take(i as int) == body@);
    reached
}

/// Hashes the state that `reached` stands for: the state it holds, or
/// `pre_state` where it holds none.
fn root_of<SM: StateMachine>(reached: &Option<SM::State>, pre_state: &SM::State) -> (root: u64) where
    SM::State: EncodeView,

    ensures
        root == state_root_of::<SM>(standing::<SM>(*reached, *pre_state)),
{
    match reached {
        Some(state) => {
            proof {
                state.lemma_encoding_of_view();
            }
            hash(state)
        },
        None => {
            proof {
                pre_state.lemma_encoding_of_view();
            }
            hash(pre_state)
        },
    }
}

impl<C: Consensus, SM: StateMachine> Block<C, SM> where
    SM::State: EncodeView,
    C::Digest: Identities + Encode,
 {
    /// Whether `chain` holds together from `pre_state` on: each block but
    /// the last declares the state reached after its own body and those of
    /// the blocks before it, and is named as parent by the block that
    /// follows it.
    pub open spec fn holds_together(pre_state: <SM::State as View>::V, chain: Seq<Self>) -> bool {
        forall|i: int| 1 <= i < chain.len() ==> #[trigger] Self::holds_at(pre_state, chain, i)
    }

    /// Whether block `i - 1` of `chain` declares the state reached from
    /// `pre_state` after the bodies of the first `i` blocks, and block `i`
    /// names it as its parent.
    pub open spec fn holds_at(pre_state: <SM::State as View>::V, chain: Seq<Self>, i: int) -> bool {
        &&& chain[i - 1].header.state_root == state_root_of::<SM>(state_after(pre_state, chain, i))
        &&& spec_hash(chain[i - 1].header.encoding()) == chain[i].header.parent
    }

    /// The first block of a chain. It holds no transition, declares the
    /// state it starts from, and its engine is the default one.
    pub fn genesis(genesis_state: &SM::State) -> (block: Self)
        ensures
            block.header == (Header {
                parent: 0,
                height: 0,
                state_root: state_root_of::<SM>(genesis_state@),
                extrinsics_root: 0,
                consensus_digest: C::Digest::zero_value(),
            }),
            block.body@.len() == 0,
            block.consensus.is_default_instance(),
    {
        proof {
            genesis_state.lemma_encoding_of_view();
        }
        Block {
            header: Header::<C::Digest>::genesis(hash(genesis_state)),
            body: Vec::new(),
            consensus: C::create_default_instance(),
        }
    }

    /// A block that follows this one. Its header declares the state reached
    /// from `pre_state` after this block's body and the hash of
    /// `extrinsics`, and is sealed by this block's engine after this
    /// block's digest. The new block holds no transition and its engine is
    /// the default one.
    pub fn child(&self, pre_state: &SM::State, extrinsics: Vec<u8>) -> (block: Self)
        requires
            self.header.height < u64::MAX,
        ensures
            block.header == child_header(
                &self.consensus,
                self.header,
                state_root_of::<SM>(replayed::<SM>(pre_state@, self.body@)),
                spec_hash(extrinsics.encoding()),
            ),
            block.header.parent == spec_hash(self.header.encoding()),
            block.header.height == self.header.height + 1,
            block.body@.len() == 0,
            block.consensus.is_default_instance(),
    {
        let reached = replay::<SM>(None, pre_state, &self.body);
        let partial = Header {
            parent: hash(&self.header),
            height: self.header.height + 1,
            state_root: root_of::<SM>(&reached, pre_state),
            extrinsics_root: hash(&extrinsics),
            consensus_digest: (),
        };
        proof {
            self.consensus.lemma_sealed_completes(self.header.consensus_digest, partial);
        }
        let unsealed = partial.with_digest(());
        let header = match self.consensus.seal(&self.header.consensus_digest, partial) {
            Some(sealed) => sealed,
            None => unsealed.with_digest(C::Digest::one()),
        };
        Block { header, body: Vec::new(), consensus: C::create_default_instance() }
    }

    /// Checks that `chain` holds together from `pre_state` on. The block
    /// that the check is asked of takes no part.
    pub fn verify_sub_chain(&self, pre_state: &SM::State, chain: &[Self]) -> (valid: bool)
        ensures
            valid == Self::holds_together(pre_state@, chain@),
    {
        let mut reached: Option<SM::State> = None;
        let mut check = true;
        let mut i: usize = 1;
        while i < chain.len()
            invariant
                1 <= i,
                i <= chain@.len() || i == 1,
                standing::<SM>(reached, *pre_state) == state_after(pre_state@, chain@, i - 1),
                check == forall|k: int|
                    1 <= k < i ==> #[trigger] Self::holds_at(pre_state@, chain@, k),
            decreases chain.len() - i,
        {
            reached = replay::<SM>(reached, pre_state, &chain[i - 1].body);
            let root = root_of::<SM>(&reached, pre_state);
            let declared = chain[i - 1].header.state_root == root;
            let linked = hash(&chain[i - 1].header) == chain[i].header.parent;
            assert((declared && linked) == Self::holds_at(pre_state@, chain@, i as int));
            check = check && declared && linked;
            i += 1;
        }
        check
    }
}

/// Whether `block` is the child of `parent` in a chain without transitions
/// that starts from `genesis_state`: its header is the one that the engine
/// of `parent` seals over that state and no extrinsics.
pub open spec fn follows_empty<C: Consensus, SM: StateMachine>(
    parent: Block<C, SM>,
    block: Block<C, SM>,
    genesis_state: <SM::State as View>::V,
) -> bool where SM::State: EncodeView, C::Digest: Identities + Encode {
    block.header == child_header(
        &parent.consensus,
        parent.header,
        state_root_of::<SM>(genesis_state),
        spec_hash(encoding_of_items(Seq::<u8>::empty())),
    )
}

/// A chain of `n` blocks without transitions that starts from
/// `genesis_state`; of one block where `n` is 0.
pub fn create_empty_chain<C: Consensus, SM: StateMachine>(n: u64, genesis_state: &SM::State) -> (chain:
    Vec<Block<C, SM>>) where SM::State: EncodeView, C::Digest: Identities + Encode
    ensures
        chain@.len() == if n == 0 {
            1
        } else {
            n as int
        },
        chain@[0].header == (Header {
            parent: 0,
            height: 0,
            state_root: state_root_of::<SM>(genesis_state@),
            extrinsics_root: 0,
            consensus_digest: C::Digest::zero_value(),
        }),
        forall|i: int|
            #![trigger chain@[i]]
            0 <= i < chain@.len() ==> {
                &&& chain@[i].body@.len() == 0
                &&& chain@[i].consensus.is_default_instance()
                &&& chain@[i].header.height == i
            },
        forall|i: int, j: int|
            0 <= i && j == i + 1 && j < chain@.len() ==> #[trigger] follows_empty(
                chain@[i],
                chain@[j],
                genesis_state@,
            ),
{
    let mut chain: Vec<Block<C, SM>> = Vec::new();
    chain.push(Block::<C, SM>::genesis(genesis_state));
    let mut i: u64 = 1;
    while i < n
        invariant
            1 <= i,
            i <= n || i == 1,
            chain@.len() == i,
            chain@[0].header == (Header {
                parent: 0,
                height: 0,
                state_root: state_root_of::<SM>(genesis_state@),
                extrinsics_root: 0,
                consensus_digest: C::Digest::zero_value(),
            }),
            forall|k: int|
                #![trigger chain@[k]]
                0 <= k < chain@.len() ==> {
                    &&& chain@[k].body@.len() == 0
                    &&& chain@[k].consensus.is_default_instance()
                    &&& chain@[k].header.height == k
                },
            forall|k: int, j: int|
                0 <= k && j == k + 1 && j < chain@.len() ==> #[trigger] follows_empty(
                    chain@[k],
                    chain@[j],
                    genesis_state@,
                ),
        decreases n - i,
    {
        let last = chain.len() - 1;
        let extrinsics: Vec<u8> = Vec::new();
        assert(chain@[last as int].body@ == Seq::<SM::Transition>::empty());
        let next = chain[last].child(genesis_state, extrinsics);
        chain.push(next);
        i += 1;
    }
    chain
}

} // verus!
