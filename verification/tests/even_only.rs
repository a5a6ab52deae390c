use chain_consensus::consensus::{Consensus, Header};
use chain_consensus::even_only::{almost_valid_but_not_all_even, EvenOnly, EASY_THRESHOLD};
use chain_consensus::hashing::hash;
use chain_consensus::pow::PoW;

#[test]
fn test_almost_valid_but_not_all_even() {
    let chain = almost_valid_but_not_all_even();
    let mut all_even = true;
    for h in chain.iter() {
        println!("{:?}", h);
        all_even &= h.state_root % 2 == 0;
    }
    assert!(!all_even);
}

#[test]
fn almost_valid_chain_passes_the_inner_engine_only() {
    let chain = almost_valid_but_not_all_even();
    assert_eq!(chain.len(), 5);
    let inner = PoW::new(EASY_THRESHOLD);
    let outer = EvenOnly { inner_c: PoW::new(EASY_THRESHOLD) };
    for (i, header) in chain.iter().enumerate() {
        assert_eq!(header.height, i as u64);
        assert_eq!(header.state_root, i as u64);
        assert!(inner.validate(&0, header));
        assert_eq!(outer.validate(&0, header), i % 2 == 0);
        if i > 0 {
            assert_eq!(header.parent, hash(&chain[i - 1]));
            let i = i as u64;
            assert_eq!(header.extrinsics_root, hash(&vec![1 + i, 2 + i, 3 + i]));
        } else {
            assert_eq!(header.parent, 0);
            assert_eq!(header.extrinsics_root, 0);
        }
    }
    assert!(inner.verify_sub_chain(&0, &chain));
    assert!(!outer.verify_sub_chain(&0, &chain));
}

#[test]
fn seal_raises_an_odd_state_root_by_one() {
    let engine = EvenOnly { inner_c: PoW::new(u64::MAX / 10) };
    let partial =
        Header { parent: 3, height: 4, state_root: 7, extrinsics_root: 9, consensus_digest: () };
    let sealed = engine.seal(&0, partial).expect("a nonce is found");
    assert_eq!(sealed.state_root, 8);
    assert_eq!((sealed.parent, sealed.height, sealed.extrinsics_root), (3, 4, 9));
    assert!(engine.validate(&0, &sealed));
}

#[test]
fn seal_keeps_an_even_state_root() {
    let engine = EvenOnly { inner_c: PoW::new(u64::MAX / 10) };
    let partial =
        Header { parent: 3, height: 4, state_root: 6, extrinsics_root: 9, consensus_digest: () };
    let sealed = engine.seal(&0, partial).expect("a nonce is found");
    assert_eq!(sealed.state_root, 6);
    assert!(engine.validate(&0, &sealed));
}

#[test]
fn seal_refuses_the_largest_state_root() {
    let engine = EvenOnly { inner_c: PoW::new(u64::MAX) };
    let partial = Header {
        parent: 0,
        height: 0,
        state_root: u64::MAX,
        extrinsics_root: 0,
        consensus_digest: (),
    };
    assert_eq!(engine.seal(&0, partial), None);
    let below = Header {
        parent: 0,
        height: 0,
        state_root: u64::MAX - 1,
        extrinsics_root: 0,
        consensus_digest: (),
    };
    assert_eq!(engine.seal(&0, below).map(|h| h.state_root), Some(u64::MAX - 1));
}

#[test]
fn validate_rejects_an_odd_state_root_that_the_inner_engine_admits() {
    let inner = PoW::new(u64::MAX);
    let engine = EvenOnly { inner_c: PoW::new(u64::MAX) };
    let odd =
        Header { parent: 0, height: 1, state_root: 5, extrinsics_root: 0, consensus_digest: 0u64 };
    let even =
        Header { parent: 0, height: 1, state_root: 4, extrinsics_root: 0, consensus_digest: 0u64 };
    if inner.validate(&0, &odd) {
        assert!(!engine.validate(&0, &odd));
    }
    assert_eq!(engine.validate(&0, &even), inner.validate(&0, &even));
}

#[test]
fn default_even_only_wraps_the_default_engine() {
    let engine = EvenOnly::<PoW>::create_default_instance();
    assert_eq!(engine.inner_c.get_threashold(), u64::MAX / 100);
}
