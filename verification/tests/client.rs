use chain_consensus::atm::{Action, Atm, Auth, Key};
use chain_consensus::client::{create_empty_chain, Block, Identities};
use chain_consensus::consensus::{Consensus, Header};
use chain_consensus::even_only::EvenOnly;
use chain_consensus::hashing::hash;
use chain_consensus::pow::PoW;
use chain_consensus::state_machine::StateMachine;

fn machine() -> Atm {
    Atm { cash_inside: 50, expected_pin_hash: Auth::Waiting, keystroke_register: Vec::new() }
}

#[test]
fn identities_of_u64_are_zero_and_one() {
    assert_eq!(<u64 as Identities>::zero(), 0);
    assert_eq!(<u64 as Identities>::one(), 1);
}

#[test]
fn genesis_header_is_all_zero_but_the_state_root() {
    let header = Header::<u64>::genesis(99);
    assert_eq!(
        header,
        Header { parent: 0, height: 0, state_root: 99, extrinsics_root: 0, consensus_digest: 0 }
    );
}

#[test]
fn child_header_links_to_its_parent() {
    let parent = Header::<u64>::genesis(99);
    let child = parent.child(7, 8);
    assert_eq!(
        child,
        Header {
            parent: hash(&parent),
            height: 1,
            state_root: 7,
            extrinsics_root: 8,
            consensus_digest: 1
        }
    );
    assert!(parent.verify_child(&child));
    assert!(!child.verify_child(&parent));
    assert!(!parent.verify_child(&parent));
}

#[test]
fn verify_child_needs_both_the_hash_and_the_height() {
    let parent = Header::<u64>::genesis(99);
    let mut wrong_height = parent.child(7, 8);
    wrong_height.height = 2;
    assert!(!parent.verify_child(&wrong_height));
    let mut wrong_parent = parent.child(7, 8);
    wrong_parent.parent ^= 1;
    assert!(!parent.verify_child(&wrong_parent));
    let mut bottom = parent.child(7, 8);
    bottom.height = 0;
    assert!(!parent.verify_child(&bottom));
}

#[test]
fn header_sub_chain_is_checked_link_by_link() {
    let g = Header::<u64>::genesis(0);
    let a = g.child(1, 1);
    let b = a.child(2, 2);
    let c = b.child(3, 3);
    assert!(g.verify_sub_chain(&[]));
    assert!(!g.verify_sub_chain(&[a.clone()]));
    assert!(g.verify_sub_chain(&[g.clone(), a.clone()]));
    assert!(g.verify_sub_chain(&[a.clone(), b.clone(), c.clone()]));
    assert!(!g.verify_sub_chain(&[a.clone(), c.clone()]));
    assert!(!g.verify_sub_chain(&[a.clone(), b.clone(), b.clone()]));
    assert!(!g.verify_sub_chain(&[b.clone(), a.clone()]));
    let mut forged = c.clone();
    forged.state_root = 4;
    assert!(g.verify_sub_chain(&[a.clone(), b.clone(), forged.clone()]));
    let d = c.child(4, 4);
    assert!(!g.verify_sub_chain(&[a, b, forged, d]));
}

#[test]
fn genesis_block_declares_the_state_it_starts_from() {
    let state = machine();
    let block = Block::<PoW, Atm>::genesis(&state);
    assert_eq!(
        block.header,
        Header {
            parent: 0,
            height: 0,
            state_root: hash(&state),
            extrinsics_root: 0,
            consensus_digest: 0
        }
    );
    assert!(block.body.is_empty());
    assert_eq!(block.consensus, PoW::new(u64::MAX / 100));
}

#[test]
fn child_block_is_sealed_over_the_replayed_state() {
    let state = machine();
    let mut parent = Block::<PoW, Atm>::genesis(&state);
    parent.body = vec![Action::SwipeCard(5), Action::PressKey(Key::One)];
    parent.consensus = PoW::new(u64::MAX / 10);
    let child = parent.child(&state, vec![1, 2, 3]);

    let after = Atm::next_state(
        &Atm::next_state(&state, &Action::SwipeCard(5)),
        &Action::PressKey(Key::One),
    );
    let partial = Header {
        parent: hash(&parent.header),
        height: 1,
        state_root: hash(&after),
        extrinsics_root: hash(&vec![1u8, 2, 3]),
        consensus_digest: (),
    };
    assert_eq!(Some(child.header.clone()), parent.consensus.seal(&0, partial));
    assert!(parent.consensus.validate(&0, &child.header));
    assert!(parent.header.verify_child(&child.header));
    assert!(child.body.is_empty());
    assert_eq!(child.consensus, PoW::new(u64::MAX / 100));
}

#[test]
fn child_block_carries_the_digest_one_where_sealing_fails() {
    let state = machine();
    let mut parent = Block::<PoW, Atm>::genesis(&state);
    parent.consensus = PoW::new(0);
    let child = parent.child(&state, vec![]);
    assert_eq!(
        child.header,
        Header {
            parent: hash(&parent.header),
            height: 1,
            state_root: hash(&state),
            extrinsics_root: hash(&Vec::<u8>::new()),
            consensus_digest: 1
        }
    );
}

#[test]
fn child_block_of_an_even_only_engine_declares_an_even_root() {
    let state = machine();
    let mut parent = Block::<EvenOnly<PoW>, Atm>::genesis(&state);
    parent.consensus = EvenOnly { inner_c: PoW::new(u64::MAX / 10) };
    let child = parent.child(&state, vec![9]);
    assert_eq!(child.header.state_root % 2, 0);
    let root = hash(&state);
    assert_eq!(child.header.state_root, root + root % 2);
}

#[test]
fn empty_chain_has_the_asked_length_and_holds_together() {
    let state = machine();
    for n in [0u64, 1, 2, 5] {
        let chain = create_empty_chain::<PoW, Atm>(n, &state);
        assert_eq!(chain.len() as u64, n.max(1));
        for (i, block) in chain.iter().enumerate() {
            assert_eq!(block.header.height, i as u64);
            assert!(block.body.is_empty());
            assert_eq!(block.header.state_root, hash(&state));
            if i > 0 {
                assert_eq!(block.header.parent, hash(&chain[i - 1].header));
                assert!(block.consensus.validate(&0, &block.header));
            }
        }
        assert!(chain[0].verify_sub_chain(&state, &chain));
    }
}

#[test]
fn block_sub_chain_checks_roots_and_links() {
    let state = machine();
    let chain = create_empty_chain::<PoW, Atm>(4, &state);
    let probe = Block::<PoW, Atm>::genesis(&state);
    assert!(probe.verify_sub_chain(&state, &[]));
    assert!(probe.verify_sub_chain(&state, &chain[..1]));
    assert!(probe.verify_sub_chain(&state, &chain));

    let other = Atm { cash_inside: 51, expected_pin_hash: Auth::Waiting, keystroke_register: vec![] };
    assert!(!probe.verify_sub_chain(&other, &chain));

    let mut unlinked = create_empty_chain::<PoW, Atm>(4, &state);
    unlinked[2].header.parent ^= 1;
    assert!(!probe.verify_sub_chain(&state, &unlinked));

    let mut last_root = create_empty_chain::<PoW, Atm>(4, &state);
    last_root[3].header.state_root ^= 1;
    assert!(probe.verify_sub_chain(&state, &last_root));

    let mut with_body = create_empty_chain::<PoW, Atm>(3, &state);
    with_body[0].body = vec![Action::SwipeCard(1)];
    assert!(!probe.verify_sub_chain(&state, &with_body));
    let swiped = Atm::next_state(&state, &Action::SwipeCard(1));
    with_body[0].header.state_root = hash(&swiped);
    with_body[1].header.parent = hash(&with_body[0].header);
    with_body[1].header.state_root = hash(&swiped);
    with_body[2].header.parent = hash(&with_body[1].header);
    assert!(probe.verify_sub_chain(&state, &with_body));
}
