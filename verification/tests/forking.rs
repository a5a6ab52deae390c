use chain_consensus::consensus::{Consensus, ConsensusAuthority, Header};
use chain_consensus::even_only::EvenOnly;
use chain_consensus::forking::{
    change_authorities, change_difficulty, even_after_given_height, pow_to_poa, Carries, Forked,
    PowOrPoaDigest,
};
use chain_consensus::hashing::hash;
use chain_consensus::poa::SimplePoa;
use chain_consensus::pow::PoW;

use ConsensusAuthority::{Alice, Bob, Charlie};

fn unsealed(height: u64, state_root: u64) -> Header<()> {
    Header { parent: 5, height, state_root, extrinsics_root: 6, consensus_digest: () }
}

#[test]
fn test_consensus_pow_to_poa() {
    const CHAIN_LEN: usize = 50;
    let consensus = pow_to_poa(
        10,
        u64::MAX / 100,
        vec![ConsensusAuthority::Bob, ConsensusAuthority::Charlie],
    );

    let genesis: Header<PowOrPoaDigest> = Header {
        parent: 0,
        height: 0,
        state_root: 0,
        extrinsics_root: 0,
        consensus_digest: PowOrPoaDigest::Pow(0),
    };

    let mut chain: Vec<Header<PowOrPoaDigest>> = vec![];
    chain.push(genesis.into());

    for i in 1..CHAIN_LEN {
        let iu64 = i as u64;
        let partial_header = Header {
            parent: hash(&chain[i - 1]),
            height: iu64,
            state_root: iu64 * 10,
            extrinsics_root: hash(&vec![1 + iu64, 2 + iu64, 3 + iu64]),
            consensus_digest: (),
        };
        let parent_digest: &PowOrPoaDigest = &chain[i - 1].consensus_digest;
        let header = consensus.seal(parent_digest, partial_header);
        match header {
            Some(header) => {
                chain.push(header);
            },
            None => {
                break;
            },
        }
    }

    for i in 0..CHAIN_LEN {
        if chain[i].height <= consensus.fork_height {
            match chain[i].consensus_digest {
                PowOrPoaDigest::Pow(_v) => {
                    assert!(true)
                },
                _ => {
                    assert!(false)
                },
            }
        } else {
            match chain[i].consensus_digest {
                PowOrPoaDigest::Poa(_v) => {
                    assert!(true)
                },
                _ => {
                    assert!(false)
                },
            }
        }
    }
}

#[test]
fn pow_then_even_only_pow_sealed_end_to_end() {
    let engine: Forked<u64, PoW, EvenOnly<PoW>> = Forked::new(
        10,
        PoW::new(u64::MAX / 10),
        EvenOnly { inner_c: PoW::new(u64::MAX / 10) },
    );
    let mut chain: Vec<Header<u64>> = Vec::new();
    let mut parent_hash = 0;
    let mut parent_digest = 0;
    for height in 0..25u64 {
        let partial_header = Header {
            parent: parent_hash,
            height,
            state_root: height * 3 + 1,
            extrinsics_root: 0,
            consensus_digest: (),
        };
        let sealed = engine.seal(&parent_digest, partial_header).expect("a nonce is found");
        assert!(engine.validate(&parent_digest, &sealed));
        assert_eq!(sealed.parent, parent_hash);
        assert_eq!(sealed.height, height);
        if height > 10 {
            assert_eq!(sealed.state_root % 2, 0);
        } else {
            assert_eq!(sealed.state_root, height * 3 + 1);
        }
        parent_hash = hash(&sealed);
        parent_digest = sealed.consensus_digest;
        chain.push(sealed);
    }
    assert!(engine.verify_sub_chain(&0, &chain));
}

#[test]
fn each_side_of_the_fork_goes_by_its_own_rules() {
    let engine = change_authorities(10, vec![Alice], vec![Bob, Charlie]);
    let at = |height: u64, signer| unsealed(height, 0).with_digest(signer);
    assert!(engine.validate(&Alice, &at(0, Alice)));
    assert!(engine.validate(&Alice, &at(10, Alice)));
    assert!(!engine.validate(&Alice, &at(11, Alice)));
    assert!(!engine.validate(&Bob, &at(10, Bob)));
    assert!(engine.validate(&Bob, &at(11, Bob)));
    assert!(engine.validate(&Charlie, &at(u64::MAX, Bob)));
    assert!(!engine.validate(&Alice, &at(11, Bob)));
}

#[test]
fn seal_changes_engine_above_the_fork_height() {
    let engine = change_authorities(3, vec![Alice], vec![Bob, Charlie]);
    assert_eq!(engine.seal(&Alice, unsealed(3, 0)).map(|h| h.consensus_digest), Some(Alice));
    assert_eq!(engine.seal(&Alice, unsealed(4, 0)).map(|h| h.consensus_digest), Some(Charlie));
    assert_eq!(engine.seal(&Charlie, unsealed(5, 0)).map(|h| h.consensus_digest), Some(Bob));
    let sealed = engine.seal(&Charlie, unsealed(5, 9)).expect("the roster has members");
    assert_eq!((sealed.parent, sealed.height, sealed.state_root, sealed.extrinsics_root), (5, 5, 9, 6));
}

#[test]
fn seal_fails_with_the_engine_of_the_height() {
    let engine = change_authorities(3, vec![Alice], vec![]);
    assert!(engine.seal(&Alice, unsealed(3, 0)).is_some());
    assert_eq!(engine.seal(&Alice, unsealed(4, 0)), None);
}

#[test]
fn builders_use_the_height_they_are_given() {
    assert_eq!(change_authorities(7, vec![Alice], vec![Bob]).fork_height, 7);
    let authorities = change_authorities(7, vec![Alice], vec![Bob]);
    assert_eq!(authorities.inner_c_before.authorities, vec![Alice]);
    assert_eq!(authorities.inner_c_after.authorities, vec![Bob]);
    let difficulty = change_difficulty(8, 100, 50);
    assert_eq!(difficulty.fork_height, 8);
    assert_eq!(difficulty.inner_c_before.get_threashold(), 100);
    assert_eq!(difficulty.inner_c_after.get_threashold(), 50);
    let even = even_after_given_height::<PoW>(9);
    assert_eq!(even.fork_height, 9);
    assert_eq!(even.inner_c_before.get_threashold(), u64::MAX / 100);
    assert_eq!(even.inner_c_after.inner_c.get_threashold(), u64::MAX / 100);
    let mixed = pow_to_poa(4, 77, vec![Charlie]);
    assert_eq!(mixed.fork_height, 4);
    assert_eq!(mixed.inner_c_before.get_threashold(), 77);
    assert_eq!(mixed.inner_c_after.authorities, vec![Charlie]);
}

#[test]
fn change_of_difficulty_applies_above_the_fork_height() {
    let engine = change_difficulty(2, u64::MAX, 0);
    let header = unsealed(2, 0).with_digest(1u64);
    let above = unsealed(3, 0).with_digest(1u64);
    assert_eq!(engine.validate(&0, &header), hash(&header) < u64::MAX);
    assert!(!engine.validate(&0, &above));
    assert_eq!(engine.seal(&0, unsealed(3, 0)), None);
}

#[test]
fn even_after_given_height_asks_for_even_roots_above_it() {
    let engine = even_after_given_height::<SimplePoa>(5);
    assert!(engine.validate(&Alice, &unsealed(5, 3).with_digest(Bob)));
    assert!(!engine.validate(&Alice, &unsealed(6, 3).with_digest(Bob)));
    assert!(engine.validate(&Alice, &unsealed(6, 4).with_digest(Bob)));
    assert_eq!(engine.seal(&Alice, unsealed(5, 3)).map(|h| h.state_root), Some(3));
    assert_eq!(engine.seal(&Alice, unsealed(6, 3)).map(|h| h.state_root), Some(4));
}

#[test]
fn default_fork_is_at_height_ten() {
    let engine = Forked::<u64, PoW, PoW>::create_default_instance();
    assert_eq!(engine.fork_height, 10);
    assert_eq!(engine.inner_c_before.get_threashold(), u64::MAX / 100);
    assert_eq!(engine.inner_c_after.get_threashold(), u64::MAX / 100);
    assert_eq!(Forked::<u64, PoW, PoW>::human_name(), "Unnamed Consensus Engine");
}

#[test]
fn union_digest_converts_with_documented_placeholders() {
    assert_eq!(PowOrPoaDigest::from(7u64), PowOrPoaDigest::Pow(7));
    assert_eq!(PowOrPoaDigest::from(Bob), PowOrPoaDigest::Poa(Bob));
    assert_eq!(u64::from(PowOrPoaDigest::Pow(7)), 7);
    assert_eq!(u64::from(PowOrPoaDigest::Poa(Bob)), 10);
    assert_eq!(ConsensusAuthority::from(PowOrPoaDigest::Poa(Charlie)), Charlie);
    assert_eq!(ConsensusAuthority::from(PowOrPoaDigest::Pow(7)), Alice);
}

#[test]
fn carriers_bring_every_native_digest_back() {
    for nonce in [0u64, 1, 10, u64::MAX] {
        let carried: PowOrPoaDigest = Carries::<u64>::embed(nonce);
        let back: u64 = carried.project();
        assert_eq!(back, nonce);
        let same: u64 = <u64 as Carries<u64>>::embed(nonce);
        assert_eq!(Carries::<u64>::project(&same), nonce);
    }
    for signer in [Alice, Bob, Charlie] {
        let carried: PowOrPoaDigest = Carries::<ConsensusAuthority>::embed(signer);
        let back: ConsensusAuthority = carried.project();
        assert_eq!(back, signer);
        let same = <ConsensusAuthority as Carries<ConsensusAuthority>>::embed(signer);
        assert_eq!(Carries::<ConsensusAuthority>::project(&same), signer);
    }
}

#[test]
fn mixed_fork_validates_what_it_seals() {
    let engine = pow_to_poa(2, u64::MAX / 10, vec![Alice, Bob]);
    let mut parent = PowOrPoaDigest::Pow(0);
    let mut chain = Vec::new();
    for height in 0..6u64 {
        let sealed = engine.seal(&parent, unsealed(height, height)).expect("sealed");
        if height > 3 {
            assert!(engine.validate(&parent, &sealed));
        }
        if height <= 2 {
            assert!(engine.validate(&parent, &sealed));
        }
        parent = sealed.consensus_digest;
        chain.push(sealed);
    }
    assert!(matches!(chain[2].consensus_digest, PowOrPoaDigest::Pow(_)));
    assert!(matches!(chain[3].consensus_digest, PowOrPoaDigest::Poa(_)));
}

#[test]
fn fork_verify_sub_chain_judges_each_header_by_its_own_height() {
    let engine = change_authorities(1, vec![Alice], vec![Bob]);
    let at = |height: u64, signer| unsealed(height, 0).with_digest(signer);
    assert!(engine.verify_sub_chain(&Alice, &[]));
    assert!(!engine.verify_sub_chain(&Alice, &[at(0, Alice)]));
    assert!(engine.verify_sub_chain(&Alice, &[at(0, Alice), at(1, Alice)]));
    assert!(!engine.verify_sub_chain(&Alice, &[at(0, Alice), at(1, Alice), at(2, Bob)]));
    assert!(engine.verify_sub_chain(&Bob, &[at(2, Bob), at(3, Bob), at(4, Bob)]));
    assert!(!engine.verify_sub_chain(&Bob, &[at(2, Bob), at(3, Alice), at(4, Bob)]));
    assert!(!engine.verify_sub_chain(&Alice, &[at(2, Bob), at(3, Bob)]));
    assert!(!engine.verify_sub_chain(&Bob, &[at(2, Bob), at(3, Bob), at(4, Charlie)]));
    assert_eq!(engine.verify_links(&Bob, &[at(2, Bob), at(3, Alice)], 2), true);
    assert_eq!(engine.verify_links(&Bob, &[at(2, Bob), at(3, Bob)], 0), true);
    assert_eq!(engine.verify_links(&Bob, &[at(2, Bob), at(3, Alice)], 0), false);
}
