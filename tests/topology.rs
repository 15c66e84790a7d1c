use sumeragi::block::{can_commit, collect_votes, BlockHeader, ValidBlock};
use sumeragi::peer::{count_signers, push_unique_signer, PeerId, PublicKey, Signature};
use sumeragi::topology::{Role, Topology, TopologyError};
use sumeragi::transaction::{Transaction, TransactionCache};
use sumeragi::view_change::{Proof, ProofChain, ProofError};

fn peer(i: u64) -> PeerId {
    PeerId::new(format!("127.0.0.1:{}", 1337 + i), PublicKey { id: i + 1 })
}

fn peer_list(n: u64) -> Vec<PeerId> {
    (0..n).map(peer).collect()
}

fn sig_of(i: u64) -> Signature {
    Signature::new(PublicKey { id: i + 1 })
}

fn block_with(hash: u64, prev: u64, height: u64, sigs: Vec<Signature>) -> ValidBlock {
    ValidBlock {
        header: BlockHeader {
            height,
            previous_block_hash: prev,
            view_change_proofs: ProofChain::new(),
            genesis_topology: None,
        },
        transactions: Vec::new(),
        signatures: sigs,
        hash,
    }
}

fn proof_by(hash: u64, index: u64, signers: &[u64]) -> Proof {
    Proof {
        latest_block_hash: hash,
        view_change_index: index,
        signatures: signers.iter().map(|i| sig_of(*i)).collect(),
    }
}

#[test]
fn four_peer_roles() {
    let t = Topology::new(peer_list(4), 0, 0).unwrap();
    assert_eq!(t.max_faults(), 1);
    assert_eq!(t.min_votes_for_commit(), 3);
    assert!(t.is_consensus_required());
    assert_eq!(t.role(&peer(0)), Role::Leader);
    assert_eq!(t.role(&peer(1)), Role::ValidatingPeer);
    assert_eq!(t.role(&peer(2)), Role::ValidatingPeer);
    assert_eq!(t.role(&peer(3)), Role::ProxyTail);
    assert_eq!(t.leader().public_key, PublicKey { id: 1 });
    assert_eq!(t.proxy_tail().public_key, PublicKey { id: 4 });
    let set_a: Vec<u64> = t.peers_set_a().iter().map(|p| p.public_key.id).collect();
    assert_eq!(set_a, vec![2, 3, 4]);
}

#[test]
fn seven_peer_roles() {
    let t = Topology::new(peer_list(7), 0, 0).unwrap();
    assert_eq!(t.max_faults(), 2);
    assert_eq!(t.min_votes_for_commit(), 5);
    let roles: Vec<Role> = (0..7).map(|i| t.role(&peer(i))).collect();
    assert_eq!(
        roles,
        vec![
            Role::Leader,
            Role::ValidatingPeer,
            Role::ValidatingPeer,
            Role::ValidatingPeer,
            Role::ValidatingPeer,
            Role::ProxyTail,
            Role::ObservingPeer
        ]
    );
}

#[test]
fn single_peer_needs_no_consensus() {
    let t = Topology::new(peer_list(1), 0, 0).unwrap();
    assert!(!t.is_consensus_required());
    assert_eq!(t.min_votes_for_commit(), 1);
    assert_eq!(t.role(&peer(0)), Role::Leader);
    assert_eq!(t.proxy_tail().public_key, t.leader().public_key);
    assert!(t.peers_set_a().is_empty());
}

#[test]
fn unknown_peer_observes() {
    let t = Topology::new(peer_list(4), 0, 0).unwrap();
    assert_eq!(t.role(&peer(9)), Role::ObservingPeer);
    // same key, other address: not the member
    let impostor = PeerId::new("10.0.0.1:1".to_string(), PublicKey { id: 1 });
    assert_eq!(t.role(&impostor), Role::ObservingPeer);
    assert_eq!(t.role_of_key(PublicKey { id: 1 }), Some(Role::Leader));
    assert_eq!(t.role_of_key(PublicKey { id: 99 }), None);
}

#[test]
fn invalid_peer_lists() {
    assert_eq!(Topology::new(Vec::new(), 0, 0).unwrap_err(), TopologyError::EmptyPeerSet);
    let dup = vec![peer(0), PeerId::new("x:1".to_string(), PublicKey { id: 1 })];
    assert_eq!(Topology::new(dup, 0, 0).unwrap_err(), TopologyError::DuplicateKey);
}

#[test]
fn view_change_rotates_leader() {
    let mut t = Topology::new(peer_list(4), 0, 0).unwrap();
    t.rebuild_with_new_view_change_count(1);
    assert_eq!(t.role(&peer(1)), Role::Leader);
    assert_eq!(t.role(&peer(0)), Role::ProxyTail);
    let order: Vec<u64> = t.sorted_peers().iter().map(|p| p.public_key.id).collect();
    assert_eq!(order, vec![2, 3, 4, 1]);
}

#[test]
fn new_block_reseeds_rotation() {
    let mut t = Topology::new(peer_list(4), 0, 3).unwrap();
    t.refresh_at_new_block(6);
    assert_eq!(t.view_change_index, 0);
    assert_eq!(t.at_block, 6);
    // 6 mod 4 = 2
    assert_eq!(t.leader().public_key, PublicKey { id: 3 });
    t.rebuild_with_new_view_change_count(3);
    // (2 + 3) mod 4 = 1
    assert_eq!(t.leader().public_key, PublicKey { id: 2 });
}

#[test]
fn identical_inputs_identical_roles() {
    let a = Topology::new(peer_list(5), 77, 2).unwrap();
    let b = Topology::new(peer_list(5), 77, 2).unwrap();
    for i in 0..5 {
        assert_eq!(a.role(&peer(i)), b.role(&peer(i)));
    }
    let c = Topology::new(peer_list(5), 78, 2).unwrap();
    assert_ne!(a.leader().public_key, c.leader().public_key);
}

#[test]
fn filter_keeps_requested_roles_only() {
    let t = Topology::new(peer_list(4), 0, 0).unwrap();
    let sigs = vec![sig_of(0), sig_of(1), sig_of(3), sig_of(42), sig_of(2)];
    let leader_only = t.filter_signatures_by_roles(&vec![Role::Leader], &sigs);
    assert_eq!(leader_only, vec![sig_of(0)]);
    let voters = t.filter_signatures_by_roles(&vec![Role::ValidatingPeer, Role::ProxyTail], &sigs);
    assert_eq!(voters, vec![sig_of(1), sig_of(3), sig_of(2)]);
}

#[test]
fn membership_ignores_order() {
    let t = Topology::new(peer_list(3), 0, 0).unwrap();
    let mut reordered = peer_list(3);
    reordered.reverse();
    assert!(t.same_members(&reordered));
    assert!(!t.same_members(&peer_list(4)));
    assert!(!t.same_members(&peer_list(2)));
}

#[test]
fn distinct_signers_counted_once() {
    let sigs = vec![sig_of(1), sig_of(2), sig_of(1), sig_of(1)];
    assert_eq!(count_signers(&sigs), 2);
    let mut acc = vec![sig_of(1)];
    push_unique_signer(&mut acc, sig_of(1));
    assert_eq!(acc.len(), 1);
    push_unique_signer(&mut acc, sig_of(2));
    assert_eq!(acc, vec![sig_of(1), sig_of(2)]);
}

#[test]
fn four_peers_need_three_signatures() {
    let t = Topology::new(peer_list(4), 0, 0).unwrap();
    let two = block_with(9, 5, 2, vec![sig_of(1), sig_of(3)]);
    assert!(!can_commit(&t, &two, 5));
    let three = block_with(9, 5, 2, vec![sig_of(1), sig_of(2), sig_of(3)]);
    assert!(can_commit(&t, &three, 5));
    let repeated = block_with(9, 5, 2, vec![sig_of(1), sig_of(1), sig_of(3)]);
    assert!(!can_commit(&t, &repeated, 5));
}

#[test]
fn commit_needs_one_proxy_tail_signature() {
    let t = Topology::new(peer_list(4), 0, 0).unwrap();
    let no_tail = block_with(9, 5, 2, vec![sig_of(0), sig_of(1), sig_of(2)]);
    assert!(!can_commit(&t, &no_tail, 5));
    let two_tails = block_with(9, 5, 2, vec![sig_of(1), sig_of(2), sig_of(3), sig_of(3)]);
    assert!(!can_commit(&t, &two_tails, 5));
}

#[test]
fn orphan_block_not_committable() {
    let t = Topology::new(peer_list(4), 0, 0).unwrap();
    let b = block_with(9, 4, 2, vec![sig_of(1), sig_of(2), sig_of(3)]);
    assert!(!can_commit(&t, &b, 5));
}

#[test]
fn votes_counted_per_validator() {
    let t = Topology::new(peer_list(4), 0, 0).unwrap();
    let acc = vec![(9, sig_of(1)), (9, sig_of(1)), (9, sig_of(0)), (8, sig_of(2)), (9, sig_of(42))];
    let votes = collect_votes(&t, &acc, 9);
    assert_eq!(votes, vec![sig_of(1)]);
    let acc2 = vec![(9, sig_of(2)), (9, sig_of(1)), (9, sig_of(2))];
    assert_eq!(collect_votes(&t, &acc2, 9), vec![sig_of(2), sig_of(1)]);
}

#[test]
fn wrapped_view_change_index_rejected() {
    let t = Topology::new(peer_list(4), 0, 0).unwrap();
    let mut chain = ProofChain::new();
    let wrapped = proof_by(5, u64::MAX, &[0, 1, 2]);
    assert_eq!(chain.insert_proof(&t, 5, &wrapped), Err(ProofError::ViewChangeIndexMismatch));
    assert_eq!(chain.len(), 0);
    let early = proof_by(5, 1, &[0]);
    assert_eq!(chain.insert_proof(&t, 5, &early), Err(ProofError::ViewChangeIndexMismatch));
    let other_block = proof_by(6, 0, &[0]);
    assert_eq!(chain.insert_proof(&t, 5, &other_block), Err(ProofError::BlockHashMismatch));
    assert_eq!(chain.verify_with_state(&t, 5), 0);
}

#[test]
fn proof_signatures_merge_to_quorum() {
    let t = Topology::new(peer_list(4), 0, 0).unwrap();
    let mut chain = ProofChain::new();
    assert_eq!(chain.insert_proof(&t, 5, &proof_by(5, 0, &[1])), Ok(()));
    assert_eq!(chain.verify_with_state(&t, 5), 0);
    assert_eq!(chain.insert_proof(&t, 5, &proof_by(5, 0, &[2, 1])), Ok(()));
    assert_eq!(chain.len(), 1);
    assert_eq!(chain.proofs[0].signatures.len(), 2);
    assert_eq!(chain.verify_with_state(&t, 5), 0);
    assert_eq!(chain.insert_proof(&t, 5, &proof_by(5, 0, &[3])), Ok(()));
    assert_eq!(chain.verify_with_state(&t, 5), 1);
    // the next view change is index 1
    assert_eq!(chain.insert_proof(&t, 5, &proof_by(5, 0, &[0])), Err(ProofError::ViewChangeIndexMismatch));
    assert_eq!(chain.insert_proof(&t, 5, &proof_by(5, 1, &[0])), Ok(()));
    assert_eq!(chain.len(), 2);
    assert_eq!(chain.verify_with_state(&t, 5), 1);
}

#[test]
fn outsider_signatures_do_not_count() {
    let t = Topology::new(peer_list(4), 0, 0).unwrap();
    let mut chain = ProofChain::new();
    assert_eq!(chain.insert_proof(&t, 5, &proof_by(5, 0, &[1, 2, 40, 41])), Ok(()));
    assert_eq!(chain.verify_with_state(&t, 5), 0);
}

#[test]
fn verified_depth_never_drops_within_a_view() {
    let t = Topology::new(peer_list(4), 0, 0).unwrap();
    let mut chain = ProofChain::new();
    let mut last = 0;
    for (i, s) in [(0, 0), (0, 1), (0, 2), (1, 3), (1, 0), (1, 1)] {
        let _ = chain.insert_proof(&t, 5, &proof_by(5, i, &[s]));
        chain.prune(5);
        let now = chain.verify_with_state(&t, 5);
        assert!(now >= last);
        last = now;
    }
    assert_eq!(last, 2);
}

#[test]
fn prune_drops_proofs_of_old_blocks() {
    let t = Topology::new(peer_list(4), 0, 0).unwrap();
    let mut chain = ProofChain::new();
    assert_eq!(chain.insert_proof(&t, 5, &proof_by(5, 0, &[0, 1, 2])), Ok(()));
    assert_eq!(chain.verify_with_state(&t, 5), 1);
    chain.prune(5);
    assert_eq!(chain.len(), 1);
    chain.prune(6);
    assert_eq!(chain.len(), 0);
    assert_eq!(chain.verify_with_state(&t, 6), 0);
}

#[test]
fn cache_bounded_and_unique() {
    let mut cache = TransactionCache::new(2);
    assert!(cache.push(Transaction { hash: 1, creation_time_ms: 0 }));
    assert!(!cache.push(Transaction { hash: 1, creation_time_ms: 5 }));
    assert!(cache.push(Transaction { hash: 2, creation_time_ms: 0 }));
    assert!(cache.is_full());
    assert!(!cache.push(Transaction { hash: 3, creation_time_ms: 0 }));
    assert_eq!(cache.len(), 2);
}

#[test]
fn cache_prune_keeps_order() {
    let mut cache = TransactionCache::new(5);
    for (h, t) in [(1, 0), (2, 90), (3, 50), (4, 95), (5, 99)] {
        assert!(cache.push(Transaction { hash: h, creation_time_ms: t }));
    }
    let committed = vec![Transaction { hash: 4, creation_time_ms: 95 }];
    cache.prune(100, 20, &committed);
    let hashes: Vec<u64> = cache.transactions.iter().map(|t| t.hash).collect();
    assert_eq!(hashes, vec![2, 5]);
}

#[test]
fn transaction_expiry_edge() {
    let tx = Transaction { hash: 1, creation_time_ms: 100 };
    assert!(!tx.is_expired(150, 50));
    assert!(tx.is_expired(151, 50));
    assert!(!tx.is_expired(10, 0));
}

#[test]
fn gossip_batch_oldest_first() {
    let mut cache = TransactionCache::new(5);
    for h in 1..=4 {
        cache.push(Transaction { hash: h, creation_time_ms: 0 });
    }
    let batch: Vec<u64> = cache.gossip_batch(3).iter().map(|t| t.hash).collect();
    assert_eq!(batch, vec![1, 2, 3]);
    assert_eq!(cache.gossip_batch(10).len(), 4);
    assert!(cache.gossip_batch(0).is_empty());
}

#[test]
fn later_proofs_kept_on_insert() {
    let t = Topology::new(peer_list(4), 0, 0).unwrap();
    let mut chain = ProofChain {
        proofs: vec![proof_by(5, 0, &[1]), proof_by(5, 1, &[2]), proof_by(5, 2, &[3])],
    };
    assert_eq!(chain.verify_with_state(&t, 5), 0);
    assert_eq!(chain.insert_proof(&t, 5, &proof_by(5, 0, &[2])), Ok(()));
    assert_eq!(chain.len(), 3);
    assert_eq!(chain.proofs[0].signatures.len(), 2);
    assert_eq!(chain.proofs[1].signatures, vec![sig_of(2)]);
    assert_eq!(chain.proofs[2].signatures, vec![sig_of(3)]);
    // a stale proof at the verified index is replaced, the rest kept
    let mut stale = ProofChain { proofs: vec![proof_by(4, 0, &[1]), proof_by(5, 1, &[2])] };
    assert_eq!(stale.insert_proof(&t, 5, &proof_by(5, 0, &[0])), Ok(()));
    assert_eq!(stale.len(), 2);
    assert_eq!(stale.proofs[0].latest_block_hash, 5);
    assert_eq!(stale.proofs[1].signatures, vec![sig_of(2)]);
}
