//! An engine that alternates between proof of work and proof of authority:
//! blocks at odd heights are mined, blocks at even heights are signed.

use crate::consensus::{Consensus, ConsensusAuthority, Header};
use crate::hashing::Encode;
use crate::poa::SimplePoa;
use crate::pow::PoW;
use vstd::prelude::*;

verus! {

/// The digest of the alternating engine: one slot for each of the two
/// engines. A header fills the slot of the engine whose turn it is and
/// carries the other slot over from its parent.
#[derive(Clone, Copy, Debug, PartialEq, Eq, Hash)]
pub struct AlternatingPowPoaDigest {
    /// The signer of the latest signed block.
    pub authority: Option<ConsensusAuthority>,
    /// The nonce of the latest mined block.
    pub digest_for_threshold: Option<u64>,
}

impl Encode for AlternatingPowPoaDigest {
    open spec fn encoding(&self) -> Seq<u8> {
        self.authority.encoding() + self.digest_for_threshold.encoding()
    }

    fn encode(&self, out: &mut Vec<u8>) {
        self.authority.encode(out);
        self.digest_for_threshold.encode(out);
    }
}

/// An engine that mines the blocks at odd heights and has an authority sign
/// the blocks at even heights.
pub struct AlternatingPowPoa {
    /// The engine for the odd heights.
    pub inner_pow: PoW,
    /// The engine for the even heights.
    pub inner_poa: SimplePoa,
}

impl Consensus for AlternatingPowPoa {
    type Digest = AlternatingPowPoaDigest;

    /// The slot of the engine whose turn the height is must be filled in
    /// both digests; that engine then judges the header with the slots'
    /// contents as digests.
    open spec fn admits(
        &self,
        parent_digest: AlternatingPowPoaDigest,
        header: Header<AlternatingPowPoaDigest>,
    ) -> bool {
        if header.height % 2 == 1 {
            &&& parent_digest.digest_for_threshold matches Some(parent_nonce)
            &&& header.consensus_digest.digest_for_threshold matches Some(nonce)
            &&& self.inner_pow.admits(parent_nonce, header.replace_digest(nonce))
        } else {
            &&& parent_digest.authority matches Some(parent_signer)
            &&& header.consensus_digest.authority matches Some(signer)
            &&& self.inner_poa.admits(parent_signer, header.replace_digest(signer))
        }
    }

    /// The engine whose turn the height is seals the header after the
    /// contents of its slot in the parent's digest; the other slot is that
    /// of the parent. Nothing is sealed where the parent's digest lacks the
    /// slot of the engine in turn.
    open spec fn sealed(
        &self,
        parent_digest: AlternatingPowPoaDigest,
        partial_header: Header<()>,
    ) -> Option<Header<AlternatingPowPoaDigest>> {
        if partial_header.height % 2 == 1 {
            match parent_digest.digest_for_threshold {
                Some(parent_nonce) => match self.inner_pow.sealed(parent_nonce, partial_header) {
                    Some(mined) => Some(
                        mined.replace_digest(
                            AlternatingPowPoaDigest {
                                authority: parent_digest.authority,
                                digest_for_threshold: Some(mined.consensus_digest),
                            },
                        ),
                    ),
                    None => None,
                },
                None => None,
            }
        } else {
            match parent_digest.authority {
                Some(parent_signer) => match self.inner_poa.sealed(parent_signer, partial_header) {
                    Some(signed) => Some(
                        signed.replace_digest(
                            AlternatingPowPoaDigest {
                                authority: Some(signed.consensus_digest),
                                digest_for_threshold: parent_digest.digest_for_threshold,
                            },
                        ),
                    ),
                    None => None,
                },
                None => None,
            }
        }
    }

    open spec fn is_default_instance(&self) -> bool {
        self.inner_pow.is_default_instance() && self.inner_poa.is_default_instance()
    }

    proof fn lemma_sealed_completes(
        &self,
        parent_digest: AlternatingPowPoaDigest,
        partial_header: Header<()>,
    ) {
    }

    fn validate(
        &self,
        parent_digest: &AlternatingPowPoaDigest,
        header: &Header<AlternatingPowPoaDigest>,
    ) -> (valid: bool) {
        if header.height % 2 == 1 {
            match (parent_digest.digest_for_threshold, header.consensus_digest.digest_for_threshold) {
                (Some(parent_nonce), Some(nonce)) => {
                    let pow_header = header.with_digest(nonce);
                    self.inner_pow.validate(&parent_nonce, &pow_header)
                },
                _ => false,
            }
        } else {
            match (parent_digest.authority, header.consensus_digest.authority) {
                (Some(parent_signer), Some(signer)) => {
                    let poa_header = header.with_digest(signer);
                    self.inner_poa.validate(&parent_signer, &poa_header)
                },
                _ => false,
            }
        }
    }

    fn seal(&self, parent_digest: &AlternatingPowPoaDigest, partial_header: Header<()>) -> (sealed:
        Option<Header<AlternatingPowPoaDigest>>) {
        if partial_header.height % 2 == 1 {
            match parent_digest.digest_for_threshold {
                Some(parent_nonce) => {
                    match self.inner_pow.seal(&parent_nonce, partial_header) {
                        Some(mined) => {
                            let digest = AlternatingPowPoaDigest {
                                authority: parent_digest.authority,
                                digest_for_threshold: Some(mined.consensus_digest),
                            };
                            Some(mined.with_digest(digest))
                        },
                        None => None,
                    }
                },
                None => None,
            }
        } else {
            match parent_digest.authority {
                Some(parent_signer) => {
                    match self.inner_poa.seal(&parent_signer, partial_header) {
                        Some(signed) => {
                            let digest = AlternatingPowPoaDigest {
                                authority: Some(signed.consensus_digest),
                                digest_for_threshold: parent_digest.digest_for_threshold,
                            };
                            Some(signed.with_digest(digest))
                        },
                        None => None,
                    }
                },
                None => None,
            }
        }
    }

    fn create_default_instance() -> (engine: AlternatingPowPoa) {
        AlternatingPowPoa {
            inner_poa: SimplePoa::create_default_instance(),
            inner_pow: PoW::create_default_instance(),
        }
    }
}

/// A sealed header at an odd height carries a nonce and the parent's signer
/// slot as it was; one at an even height carries a signer and the parent's
/// nonce slot as it was.
pub proof fn lemma_sealed_slots(
    engine: AlternatingPowPoa,
    parent_digest: AlternatingPowPoaDigest,
    partial_header: Header<()>,
)
    ensures
        engine.sealed(parent_digest, partial_header) matches Some(header) ==> {
            &&& header.height == partial_header.height
            &&& header.height % 2 == 1 ==> {
                &&& header.consensus_digest.digest_for_threshold is Some
                &&& header.consensus_digest.authority == parent_digest.authority
            }
            &&& header.height % 2 == 0 ==> {
                &&& header.consensus_digest.authority is Some
                &&& header.consensus_digest.digest_for_threshold
                    == parent_digest.digest_for_threshold
            }
        },
{
}

/// Once both slots are filled they stay filled: a header sealed after a
/// digest with both slots has both slots, so neither engine ever finds its
/// slot missing further down the chain.
pub proof fn lemma_sealed_slots_stay_filled(
    engine: AlternatingPowPoa,
    parent_digest: AlternatingPowPoaDigest,
    partial_header: Header<()>,
)
    requires
        parent_digest.authority is Some,
        parent_digest.digest_for_threshold is Some,
    ensures
        engine.sealed(parent_digest, partial_header) matches Some(header) ==> {
            &&& header.consensus_digest.authority is Some
            &&& header.consensus_digest.digest_for_threshold is Some
        },
{
}

} // verus!
