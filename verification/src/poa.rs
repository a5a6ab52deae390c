//! Proof of authority: a fixed roster of authorities signs the blocks. The
//! three engines differ in which authority may sign which block.

use crate::consensus::{seals_soundly, Consensus, ConsensusAuthority, Header};
use crate::hashing::Encode;
use vstd::prelude::*;
use vstd::std_specs::convert::FromSpecImpl;

verus! {

/// The authority whose turn number `turn` is: the roster is walked in order
/// and starts over at its end. A turn before the first belongs to the
/// authority that comes round last.
pub open spec fn signer_at(roster: Seq<ConsensusAuthority>, turn: int) -> ConsensusAuthority
    recommends
        roster.len() > 0,
{
    roster[turn % (roster.len() as int)]
}

/// Whether `who` is on the roster.
pub fn is_member(roster: &Vec<ConsensusAuthority>, who: ConsensusAuthority) -> (found: bool)
    ensures
        found == roster@.contains(who),
{
    let mut i: usize = 0;
    while i < roster.len()
        invariant
            i <= roster.len(),
            forall|j: int| 0 <= j < i ==> roster@[j] != who,
        decreases roster.len() - i,
    {
        if roster[i] == who {
            return true;
        }
        i += 1;
    }
    false
}

/// The place on a roster of `members` authorities of the one whose turn
/// number `turn` is.
pub fn place_of_turn(members: usize, turn: u64) -> (place: usize)
    requires
        members > 0,
    ensures
        place == turn % (members as u64),
        place < members,
{
    (turn % (members as u64)) as usize
}

/// The place of the authority that signs just before the one at `place`.
pub fn place_before(members: usize, place: usize) -> (before: usize)
    requires
        place < members,
    ensures
        before == (place - 1) % (members as int),
        before < members,
{
    if place == 0 {
        assert((-1int) % (members as int) == members - 1) by (nonlinear_arith)
            requires
                members > 0,
        ;
        members - 1
    } else {
        assert((place - 1) % (members as int) == place - 1) by (nonlinear_arith)
            requires
                0 < place < members,
        ;
        place - 1
    }
}

/// Stepping back one turn steps back one place on the roster.
pub proof fn lemma_turn_before(members: int, turn: int)
    requires
        members > 0,
    ensures
        (turn - 1) % members == ((turn % members) - 1) % members,
{
    vstd::arithmetic::div_mod::lemma_sub_mod_noop(turn, 1, members);
    vstd::arithmetic::div_mod::lemma_mod_twice(turn, members);
    vstd::arithmetic::div_mod::lemma_sub_mod_noop(turn % members, 1, members);
}

/// An engine under which any authority on the roster may sign any block.
pub struct SimplePoa {
    /// The roster, in order.
    pub authorities: Vec<ConsensusAuthority>,
}

impl Consensus for SimplePoa {
    type Digest = ConsensusAuthority;

    /// Both the signer of the header and the signer of its parent are on the
    /// roster. No order is enforced.
    open spec fn admits(
        &self,
        parent_digest: ConsensusAuthority,
        header: Header<ConsensusAuthority>,
    ) -> bool {
        self.authorities@.contains(header.consensus_digest) && self.authorities@.contains(
            parent_digest,
        )
    }

    /// Signed by the last authority on the roster, or by the first where the
    /// last one signed the parent. An empty roster seals nothing.
    open spec fn sealed(&self, parent_digest: ConsensusAuthority, partial_header: Header<()>) -> Option<
        Header<ConsensusAuthority>,
    > {
        let roster = self.authorities@;
        if roster.len() == 0 {
            None
        } else if roster.last() == parent_digest {
            Some(partial_header.replace_digest(roster[0]))
        } else {
            Some(partial_header.replace_digest(roster.last()))
        }
    }

    open spec fn is_default_instance(&self) -> bool {
        self.authorities@ == seq![
            ConsensusAuthority::Alice,
            ConsensusAuthority::Bob,
            ConsensusAuthority::Charlie,
        ]
    }

    proof fn lemma_sealed_completes(
        &self,
        parent_digest: ConsensusAuthority,
        partial_header: Header<()>,
    ) {
    }

    fn validate(&self, parent_digest: &ConsensusAuthority, header: &Header<ConsensusAuthority>) -> (valid:
        bool) {
        is_member(&self.authorities, header.consensus_digest) && is_member(
            &self.authorities,
            *parent_digest,
        )
    }

    fn seal(&self, parent_digest: &ConsensusAuthority, partial_header: Header<()>) -> (sealed: Option<
        Header<ConsensusAuthority>,
    >) {
        let members = self.authorities.len();
        if members == 0 {
            return None;
        }
        let mut author = self.authorities[members - 1];
        if author == *parent_digest {
            author = self.authorities[0];
        }
        Some(partial_header.with_digest(author))
    }

    fn create_default_instance() -> (engine: SimplePoa) {
        let mut authorities: Vec<ConsensusAuthority> = Vec::new();
        authorities.push(ConsensusAuthority::Alice);
        authorities.push(ConsensusAuthority::Bob);
        authorities.push(ConsensusAuthority::Charlie);
        assert(authorities@ =~= seq![
            ConsensusAuthority::Alice,
            ConsensusAuthority::Bob,
            ConsensusAuthority::Charlie,
        ]);
        SimplePoa { authorities }
    }
}

/// An engine under which the authorities take turns in the order of the
/// roster, one block height each.
pub struct PoaRoundRobinByHeight {
    /// The roster, in the order of the turns.
    pub authorities: Vec<ConsensusAuthority>,
}

impl From<SimplePoa> for PoaRoundRobinByHeight {
    fn from(d: SimplePoa) -> (engine: PoaRoundRobinByHeight) {
        PoaRoundRobinByHeight { authorities: d.authorities }
    }
}

impl FromSpecImpl<SimplePoa> for PoaRoundRobinByHeight {
    open spec fn obeys_from_spec() -> bool {
        true
    }

    open spec fn from_spec(d: SimplePoa) -> PoaRoundRobinByHeight {
        PoaRoundRobinByHeight { authorities: d.authorities }
    }
}

impl Consensus for PoaRoundRobinByHeight {
    type Digest = ConsensusAuthority;

    /// The header is signed by the authority whose turn its height is, and
    /// its parent by the authority of the height before.
    open spec fn admits(
        &self,
        parent_digest: ConsensusAuthority,
        header: Header<ConsensusAuthority>,
    ) -> bool {
        let roster = self.authorities@;
        &&& roster.len() > 0
        &&& header.consensus_digest == signer_at(roster, header.height as int)
        &&& parent_digest == signer_at(roster, header.height - 1)
    }

    /// Signed by the authority whose turn the height is, provided that the
    /// parent was signed by the authority of the height before.
    open spec fn sealed(&self, parent_digest: ConsensusAuthority, partial_header: Header<()>) -> Option<
        Header<ConsensusAuthority>,
    > {
        let roster = self.authorities@;
        if roster.len() > 0 && parent_digest == signer_at(roster, partial_header.height - 1) {
            Some(partial_header.replace_digest(signer_at(roster, partial_header.height as int)))
        } else {
            None
        }
    }

    open spec fn is_default_instance(&self) -> bool {
        self.authorities@ == seq![
            ConsensusAuthority::Alice,
            ConsensusAuthority::Bob,
            ConsensusAuthority::Charlie,
        ]
    }

    proof fn lemma_sealed_completes(
        &self,
        parent_digest: ConsensusAuthority,
        partial_header: Header<()>,
    ) {
    }

    fn validate(&self, parent_digest: &ConsensusAuthority, header: &Header<ConsensusAuthority>) -> (valid:
        bool) {
        let members = self.authorities.len();
        if members == 0 {
            return false;
        }
        let place = place_of_turn(members, header.height);
        let before = place_before(members, place);
        proof {
            lemma_turn_before(members as int, header.height as int);
        }
        header.consensus_digest == self.authorities[place] && *parent_digest
            == self.authorities[before]
    }

    fn seal(&self, parent_digest: &ConsensusAuthority, partial_header: Header<()>) -> (sealed: Option<
        Header<ConsensusAuthority>,
    >) {
        let members = self.authorities.len();
        if members == 0 {
            return None;
        }
        let place = place_of_turn(members, partial_header.height);
        let before = place_before(members, place);
        proof {
            lemma_turn_before(members as int, partial_header.height as int);
        }
        if *parent_digest == self.authorities[before] {
            Some(partial_header.with_digest(self.authorities[place]))
        } else {
            None
        }
    }

    fn create_default_instance() -> (engine: PoaRoundRobinByHeight) {
        PoaRoundRobinByHeight::from(SimplePoa::create_default_instance())
    }
}

/// The digest of the slot engine: the slot in which the block was made and
/// the authority that signed it.
#[derive(Clone, Copy, Debug, PartialEq, Eq, Hash, Structural)]
pub struct SlotDigest {
    /// The slot in which the block was made.
    pub slot: u64,
    /// The authority that signed the block.
    pub signature: ConsensusAuthority,
}

impl Encode for SlotDigest {
    open spec fn encoding(&self) -> Seq<u8> {
        self.slot.encoding() + self.signature.encoding()
    }

    fn encode(&self, out: &mut Vec<u8>) {
        self.slot.encode(out);
        self.signature.encode(out);
    }
}

/// An engine under which the authorities take turns by slot: time is cut
/// into slots, each slot belongs to one authority, and a slot may pass
/// without a block.
pub struct PoaRoundRobinBySlot {
    /// The roster, in the order of the turns.
    pub authorities: Vec<ConsensusAuthority>,
}

impl Consensus for PoaRoundRobinBySlot {
    type Digest = SlotDigest;

    /// The header is signed by the authority that owns its slot, and its
    /// slot is later than its parent's.
    open spec fn admits(&self, parent_digest: SlotDigest, header: Header<SlotDigest>) -> bool {
        let roster = self.authorities@;
        &&& roster.len() > 0
        &&& header.consensus_digest.signature == signer_at(
            roster,
            header.consensus_digest.slot as int,
        )
        &&& parent_digest.slot < header.consensus_digest.slot
    }

    /// Sealed in the slot right after the parent's, by the authority that
    /// owns it. An empty roster seals nothing, and nothing follows the last
    /// slot there is.
    open spec fn sealed(&self, parent_digest: SlotDigest, partial_header: Header<()>) -> Option<
        Header<SlotDigest>,
    > {
        let roster = self.authorities@;
        if roster.len() > 0 && parent_digest.slot < u64::MAX {
            Some(
                partial_header.replace_digest(
                    SlotDigest {
                        slot: (parent_digest.slot + 1) as u64,
                        signature: signer_at(roster, parent_digest.slot + 1),
                    },
                ),
            )
        } else {
            None
        }
    }

    open spec fn is_default_instance(&self) -> bool {
        self.authorities@ == seq![
            ConsensusAuthority::Alice,
            ConsensusAuthority::Bob,
            ConsensusAuthority::Charlie,
        ]
    }

    proof fn lemma_sealed_completes(&self, parent_digest: SlotDigest, partial_header: Header<()>) {
    }

    fn validate(&self, parent_digest: &SlotDigest, header: &Header<SlotDigest>) -> (valid: bool) {
        let members = self.authorities.len();
        if members == 0 {
            return false;
        }
        let place = place_of_turn(members, header.consensus_digest.slot);
        header.consensus_digest.signature == self.authorities[place] && parent_digest.slot
            < header.consensus_digest.slot
    }

    fn seal(&self, parent_digest: &SlotDigest, partial_header: Header<()>) -> (sealed: Option<
        Header<SlotDigest>,
    >) {
        let members = self.authorities.len();
        if members == 0 || parent_digest.slot == u64::MAX {
            return None;
        }
        let slot = parent_digest.slot + 1;
        let place = place_of_turn(members, slot);
        Some(partial_header.with_digest(SlotDigest { slot, signature: self.authorities[place] }))
    }

    fn create_default_instance() -> (engine: PoaRoundRobinBySlot) {
        let SimplePoa { authorities } = SimplePoa::create_default_instance();
        PoaRoundRobinBySlot { authorities }
    }
}

/// Whose turn a height or a slot is depends on nothing but its remainder
/// by the size of the roster.
pub proof fn lemma_signer_repeats(roster: Seq<ConsensusAuthority>, turn: int, other: int)
    requires
        roster.len() > 0,
        turn % (roster.len() as int) == other % (roster.len() as int),
    ensures
        signer_at(roster, turn) == signer_at(roster, other),
{
}

/// On a roster of one, every turn is that authority's.
pub proof fn lemma_single_signer(roster: Seq<ConsensusAuthority>, turn: int)
    requires
        roster.len() == 1,
    ensures
        signer_at(roster, turn) == roster[0],
{
}

/// Sealing and validating by height go by the same signer: what is sealed
/// is signed by the authority whose turn the height is and is admitted, and
/// a header that is admitted is the one that sealing gives.
pub proof fn lemma_by_height_seal_agrees(
    engine: PoaRoundRobinByHeight,
    parent_digest: ConsensusAuthority,
    header: Header<ConsensusAuthority>,
)
    ensures
        engine.sealed(parent_digest, header.replace_digest(())) matches Some(sealed) ==> {
            &&& sealed.consensus_digest == signer_at(engine.authorities@, header.height as int)
            &&& engine.admits(parent_digest, sealed)
        },
        engine.admits(parent_digest, header) ==> engine.sealed(
            parent_digest,
            header.replace_digest(()),
        ) == Some(header),
{
}

/// The engine that takes turns by height admits every header that it seals.
pub proof fn lemma_by_height_seals_soundly(engine: PoaRoundRobinByHeight)
    ensures
        seals_soundly(&engine),
{
}

/// A header whose slot is not later than its parent's is rejected, whoever
/// signed it.
pub proof fn lemma_stale_slot_is_rejected(
    engine: PoaRoundRobinBySlot,
    parent_digest: SlotDigest,
    header: Header<SlotDigest>,
)
    requires
        header.consensus_digest.slot <= parent_digest.slot,
    ensures
        !engine.admits(parent_digest, header),
{
}

/// A header in a later slot is admitted exactly when the owner of its slot
/// signed it: slots may be skipped.
pub proof fn lemma_later_slot_is_admitted(
    engine: PoaRoundRobinBySlot,
    parent_digest: SlotDigest,
    header: Header<SlotDigest>,
)
    requires
        engine.authorities@.len() > 0,
        parent_digest.slot < header.consensus_digest.slot,
    ensures
        engine.admits(parent_digest, header) == (header.consensus_digest.signature == signer_at(
            engine.authorities@,
            header.consensus_digest.slot as int,
        )),
{
}

/// The engine that takes turns by slot admits every header that it seals.
pub proof fn lemma_by_slot_seals_soundly(engine: PoaRoundRobinBySlot)
    ensures
        seals_soundly(&engine),
{
}

/// The engine that lets any member sign admits what it seals after a parent
/// that a member signed.
pub proof fn lemma_any_member_seals_after_member(
    engine: SimplePoa,
    parent_digest: ConsensusAuthority,
    partial_header: Header<()>,
)
    requires
        engine.authorities@.contains(parent_digest),
    ensures
        engine.sealed(parent_digest, partial_header) matches Some(header) ==> engine.admits(
            parent_digest,
            header,
        ),
{
}

} // verus!
