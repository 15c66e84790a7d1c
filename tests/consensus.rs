use sumeragi::block::{BlockHeader, PendingBlock, ValidBlock};
use sumeragi::peer::{PeerId, PublicKey, Signature};
use sumeragi::sumeragi::{
    Action, CommitError, Message, NoFault, RoundState, SumeragiStateMachineData,
    SumeragiWithFault,
};
use sumeragi::topology::{Role, Topology};
use sumeragi::transaction::Transaction;
use sumeragi::view_change::ProofChain;

fn member(i: u64) -> PeerId {
    PeerId::new(format!("127.0.0.1:{}", 1337 + i), PublicKey { id: i + 1 })
}

fn members(n: u64) -> Vec<PeerId> {
    (0..n).map(member).collect()
}

fn config(i: u64) -> SumeragiWithFault<NoFault> {
    SumeragiWithFault {
        peer_id: member(i),
        commit_time_ms: 1000,
        block_time_ms: 1000,
        gossip_batch_size: 500,
        gossip_period_ms: 1000,
        tx_time_to_live_ms: 100_000,
        txs_in_block: 10,
        current_online_peers: Vec::new(),
        fault_injection: NoFault,
    }
}

/// A peer of an `n`-peer network at block `hash` of height `height`.
fn node(n: u64, hash: u64, height: u64) -> (SumeragiStateMachineData, RoundState) {
    let topology = Topology::new(members(n), hash, 0).unwrap();
    let state = SumeragiStateMachineData::new(topology, hash, height, 10, None);
    (state, RoundState::new(0, 1000))
}

fn sealed(p: PendingBlock, hash: u64) -> ValidBlock {
    ValidBlock { header: p.header, transactions: p.transactions, signatures: Vec::new(), hash }
}

fn signed_block(hash: u64, prev: u64, height: u64, signers: &[u64]) -> ValidBlock {
    ValidBlock {
        header: BlockHeader {
            height,
            previous_block_hash: prev,
            view_change_proofs: ProofChain::new(),
            genesis_topology: None,
        },
        transactions: Vec::new(),
        signatures: signers.iter().map(|i| Signature::new(PublicKey { id: i + 1 })).collect(),
        hash,
    }
}

fn take_proposal(actions: Vec<Action>) -> Option<PendingBlock> {
    actions.into_iter().find_map(|a| match a {
        Action::Propose(p) => Some(p),
        _ => None,
    })
}

fn commits(actions: &[Action]) -> Vec<u64> {
    actions
        .iter()
        .filter_map(|a| match a {
            Action::Commit(b) => Some(b.hash),
            _ => None,
        })
        .collect()
}

#[test]
fn happy_path_four_peers() {
    let cfg: Vec<_> = (0..4).map(config).collect();
    let mut nodes: Vec<_> = (0..4).map(|_| node(4, 100, 1)).collect();
    assert!(nodes[0].0.transaction_cache.push(Transaction { hash: 7, creation_time_ms: 0 }));
    for i in 0..4 {
        let (s, r) = &mut nodes[i];
        cfg[i].step(s, r, 10, None, false, &Vec::new());
    }
    // the leader proposes once the block time has passed
    let (s, r) = &mut nodes[0];
    let pending = take_proposal(cfg[0].step(s, r, 2000, None, false, &Vec::new())).unwrap();
    assert_eq!(pending.header.height, 2);
    assert_eq!(pending.header.previous_block_hash, 100);
    assert_eq!(pending.transactions.len(), 1);
    let out = cfg[0].on_block_assembled(s, r, sealed(pending, 200), 2000);
    assert_eq!(out.len(), 1);
    let created = match &out[0] {
        Action::SendTo(to, Message::BlockCreated(b)) => {
            let ids: Vec<u64> = to.iter().map(|p| p.public_key.id).collect();
            assert_eq!(ids, vec![2, 3, 4]);
            b.clone()
        }
        _ => panic!("expected a proposal for the validating peers"),
    };
    // both validating peers sign for the proxy tail
    let mut signed = Vec::new();
    for i in 1..3 {
        let (s, r) = &mut nodes[i];
        let out = cfg[i].step(s, r, 2010, Some(Message::BlockCreated(created.clone())), true, &Vec::new());
        assert_eq!(out.len(), 1);
        match &out[0] {
            Action::SendTo(to, Message::BlockSigned(b)) => {
                assert_eq!(to.len(), 1);
                assert_eq!(to[0].public_key.id, 4);
                signed.push(b.clone());
            }
            _ => panic!("expected a signature for the proxy tail"),
        }
    }
    let (s, r) = &mut nodes[3];
    let out = cfg[3].step(s, r, 2020, Some(Message::BlockCreated(created.clone())), true, &Vec::new());
    assert!(commits(&out).is_empty());
    let out = cfg[3].step(s, r, 2030, Some(Message::BlockSigned(signed[0].clone())), true, &Vec::new());
    assert!(commits(&out).is_empty());
    let out = cfg[3].step(s, r, 2040, Some(Message::BlockSigned(signed[1].clone())), true, &Vec::new());
    assert_eq!(commits(&out), vec![200]);
    let committed = match &out[0] {
        Action::Broadcast(Message::BlockCommitted(b)) => b.clone(),
        _ => panic!("expected the broadcast of the committed block"),
    };
    assert_eq!(committed.signatures.len(), 3);
    // every peer commits the block
    for i in 0..4 {
        let (s, r) = &mut nodes[i];
        if i != 3 {
            let out = cfg[i].step(s, r, 2050, Some(Message::BlockCommitted(committed.clone())), true, &Vec::new());
            assert_eq!(commits(&out), vec![200]);
        }
        assert_eq!(cfg[i].block_commit(s, &committed, 2050, &members(4)), Ok(()));
        assert_eq!(s.latest_block_height, 2);
        assert_eq!(s.latest_block_hash, 200);
    }
    assert!(nodes[0].0.transaction_cache.is_empty());
}

#[test]
fn silent_leader_replaced() {
    let cfg: Vec<_> = (0..4).map(config).collect();
    let mut nodes: Vec<_> = (0..4).map(|_| node(4, 100, 1)).collect();
    let mut suggestions = Vec::new();
    for i in 1..4 {
        let (s, r) = &mut nodes[i];
        assert!(s.transaction_cache.push(Transaction { hash: 7, creation_time_ms: 0 }));
        let out = cfg[i].step(s, r, 10, None, false, &vec![7]);
        let forwarded = out.iter().any(|a| match a {
            Action::SendTo(to, Message::TransactionForwarded(f)) => {
                to.len() == 1 && to[0].public_key.id == 1 && f.transaction.hash == 7
            }
            _ => false,
        });
        assert!(forwarded);
        // no block within block time plus commit time
        let out = cfg[i].step(s, r, 2011, None, false, &vec![7]);
        let chain = out
            .into_iter()
            .find_map(|a| match a {
                Action::Broadcast(Message::ViewChangeSuggested(c)) => Some(c),
                _ => None,
            })
            .unwrap();
        assert_eq!(chain.proofs.len(), 1);
        assert_eq!(chain.proofs[0].view_change_index, 0);
        suggestions.push(chain);
    }
    let (s, r) = &mut nodes[1];
    assert_eq!(r.view_change_proof_chain.verify_with_state(&s.current_topology, 100), 0);
    cfg[1].step(s, r, 2020, Some(Message::ViewChangeSuggested(suggestions[1].clone())), false, &vec![7]);
    assert_eq!(r.view_change_proof_chain.verify_with_state(&s.current_topology, 100), 0);
    cfg[1].step(s, r, 2030, Some(Message::ViewChangeSuggested(suggestions[2].clone())), false, &vec![7]);
    assert_eq!(r.view_change_proof_chain.verify_with_state(&s.current_topology, 100), 1);
    assert_eq!(r.view_change_index, 1);
    assert_eq!(s.current_topology.leader().public_key.id, 2);
    assert_eq!(s.current_topology.role(&member(1)), Role::Leader);
}

#[test]
fn duplicate_validator_signature_counts_once() {
    let cfg = config(3);
    let (mut s, mut r) = node(4, 100, 1);
    let proposal = signed_block(200, 100, 2, &[0]);
    let out = cfg.step(&mut s, &mut r, 10, Some(Message::BlockCreated(proposal)), true, &Vec::new());
    assert!(commits(&out).is_empty());
    let from_first = signed_block(200, 100, 2, &[0, 1]);
    let out = cfg.step(&mut s, &mut r, 20, Some(Message::BlockSigned(from_first.clone())), true, &Vec::new());
    assert!(commits(&out).is_empty());
    let out = cfg.step(&mut s, &mut r, 30, Some(Message::BlockSigned(from_first)), true, &Vec::new());
    assert!(commits(&out).is_empty());
    assert!(r.voting_block.is_some());
    let from_second = signed_block(200, 100, 2, &[0, 2]);
    let out = cfg.step(&mut s, &mut r, 40, Some(Message::BlockSigned(from_second)), true, &Vec::new());
    assert_eq!(commits(&out), vec![200]);
    assert!(r.voting_block.is_none());
}

#[test]
fn proxy_tail_ignores_foreign_block_signatures() {
    let cfg = config(3);
    let (mut s, mut r) = node(4, 100, 1);
    cfg.step(&mut s, &mut r, 10, Some(Message::BlockCreated(signed_block(200, 100, 2, &[0]))), true, &Vec::new());
    let acc = r.block_signature_acc.len();
    cfg.step(&mut s, &mut r, 20, Some(Message::BlockSigned(signed_block(201, 100, 2, &[1, 2]))), true, &Vec::new());
    assert_eq!(r.block_signature_acc.len(), acc);
}

#[test]
fn proxy_tail_times_out_without_quorum() {
    let cfg = config(3);
    let (mut s, mut r) = node(4, 100, 1);
    cfg.step(&mut s, &mut r, 10, Some(Message::BlockCreated(signed_block(200, 100, 2, &[0]))), true, &Vec::new());
    assert_eq!(r.commit_deadline_ms, 1010);
    let out = cfg.step(&mut s, &mut r, 1011, None, false, &Vec::new());
    assert!(out
        .iter()
        .any(|a| matches!(a, Action::Broadcast(Message::ViewChangeSuggested(_)))));
    assert_eq!(r.commit_deadline_ms, 2010);
}

#[test]
fn second_proposal_refused_while_voting() {
    let cfg = config(1);
    let (mut s, mut r) = node(4, 100, 1);
    let out = cfg.step(&mut s, &mut r, 10, Some(Message::BlockCreated(signed_block(200, 100, 2, &[0]))), true, &Vec::new());
    assert_eq!(out.len(), 1);
    let out = cfg.step(&mut s, &mut r, 20, Some(Message::BlockCreated(signed_block(201, 100, 2, &[0]))), true, &Vec::new());
    assert!(out.is_empty());
    assert_eq!(r.voting_block.as_ref().unwrap().block.hash, 200);
}

#[test]
fn stale_view_change_index_rejected() {
    let cfg = config(1);
    let (mut s, mut r) = node(4, 100, 1);
    let out = cfg.validator_on_block_created(&mut s, &mut r, signed_block(200, 100, 2, &[0]), 10, 1, true);
    assert!(out.is_empty());
    assert!(r.voting_block.is_none());
}

#[test]
fn unsigned_proposal_rejected() {
    let cfg = config(1);
    let (mut s, mut r) = node(4, 100, 1);
    let out = cfg.step(&mut s, &mut r, 10, Some(Message::BlockCreated(signed_block(200, 100, 2, &[2]))), true, &Vec::new());
    assert!(out.is_empty());
    assert!(r.voting_block.is_none());
}

#[test]
fn failed_validation_not_signed() {
    let cfg = config(1);
    let (mut s, mut r) = node(4, 100, 1);
    let out = cfg.step(&mut s, &mut r, 10, Some(Message::BlockCreated(signed_block(200, 100, 2, &[0]))), false, &Vec::new());
    assert!(out.is_empty());
    assert!(r.voting_block.is_some());
}

#[test]
fn genesis_adopted_and_committed() {
    let cfg = config(1);
    let initial = Topology::new(vec![member(3), member(1), member(0), member(2)], 0, 0).unwrap();
    let mut s = SumeragiStateMachineData::new(initial, 0, 0, 10, None);
    let mut genesis = signed_block(55, 0, 1, &[0]);
    genesis.header.genesis_topology = Some(members(4));
    assert!(genesis.header.is_genesis());
    let block = cfg.accept_genesis(&mut s, Message::BlockCommitted(genesis)).unwrap();
    let order: Vec<u64> = s.current_topology.peers.iter().map(|p| p.public_key.id).collect();
    assert_eq!(order, vec![1, 2, 3, 4]);
    assert_eq!(cfg.block_commit(&mut s, &block, 0, &members(4)), Ok(()));
    assert_eq!(s.latest_block_height, 1);
    assert_eq!(s.latest_block_hash, 55);
    let next = signed_block(56, 55, 2, &[1, 2, 3]);
    assert!(!next.header.is_genesis());
}

#[test]
fn genesis_wait_ignores_other_blocks() {
    let cfg = config(1);
    let (mut s, _) = node(4, 0, 0);
    assert!(cfg.accept_genesis(&mut s, Message::BlockCommitted(signed_block(56, 55, 2, &[0]))).is_none());
    let no_topology = signed_block(55, 0, 1, &[0]);
    assert!(cfg.accept_genesis(&mut s, Message::BlockCommitted(no_topology)).is_none());
    assert!(cfg.accept_genesis(&mut s, Message::TransactionGossip(Vec::new())).is_none());
    assert_eq!(s.latest_block_height, 0);
}

#[test]
fn genesis_peer_publishes_first_block() {
    let cfg = config(0);
    let topology = Topology::new(members(4), 0, 0).unwrap();
    let txs = vec![Transaction { hash: 1, creation_time_ms: 0 }];
    let s = SumeragiStateMachineData::new(topology, 0, 0, 10, Some(txs));
    let pending = cfg.genesis_proposal(&s).unwrap();
    assert_eq!(pending.header.height, 1);
    assert_eq!(pending.header.previous_block_hash, 0);
    assert_eq!(pending.header.genesis_topology.as_ref().unwrap().len(), 4);
    let out = cfg.publish_genesis(&s, sealed(pending, 55));
    assert_eq!(out.len(), 2);
    assert!(matches!(&out[0], Action::Broadcast(Message::BlockCommitted(b)) if b.hash == 55));
    assert_eq!(commits(&out), vec![55]);
}

#[test]
fn genesis_proposal_only_on_genesis_peer() {
    let cfg = config(0);
    let (s, _) = node(4, 0, 0);
    assert!(cfg.genesis_proposal(&s).is_none());
}

#[test]
fn orphan_commit_refused() {
    // five peers: the last one observes
    let cfg = config(4);
    let (mut s, mut r) = node(5, 100, 1);
    assert_eq!(s.current_topology.role(&member(4)), Role::ObservingPeer);
    let orphan = signed_block(300, 250, 3, &[1, 2, 3]);
    let out = cfg.step(&mut s, &mut r, 10, Some(Message::BlockCommitted(orphan)), true, &Vec::new());
    assert!(commits(&out).is_empty());
    let child = signed_block(200, 100, 2, &[1, 2, 3]);
    let out = cfg.step(&mut s, &mut r, 20, Some(Message::BlockCommitted(child)), true, &Vec::new());
    assert_eq!(commits(&out), vec![200]);
}

#[test]
fn block_commit_checks_chain() {
    let cfg = config(0);
    let (mut s, _) = node(4, 100, 1);
    assert_eq!(cfg.block_commit(&mut s, &signed_block(300, 250, 2, &[]), 0, &members(4)), Err(CommitError::PreviousHashMismatch));
    assert_eq!(cfg.block_commit(&mut s, &signed_block(300, 100, 5, &[]), 0, &members(4)), Err(CommitError::HeightMismatch));
    assert_eq!(s.latest_block_height, 1);
}

#[test]
fn commit_follows_new_membership() {
    let cfg = config(0);
    let (mut s, _) = node(4, 100, 1);
    assert_eq!(cfg.block_commit(&mut s, &signed_block(201, 100, 2, &[]), 0, &members(5)), Ok(()));
    assert_eq!(s.current_topology.len(), 5);
    assert_eq!(s.current_topology.at_block, 201);
    assert_eq!(s.current_topology.view_change_index, 0);
}

#[test]
fn single_peer_self_commits() {
    let cfg = config(0);
    let (mut s, mut r) = node(1, 100, 1);
    assert!(s.transaction_cache.push(Transaction { hash: 7, creation_time_ms: 0 }));
    assert!(take_proposal(cfg.step(&mut s, &mut r, 10, None, false, &Vec::new())).is_none());
    let pending = take_proposal(cfg.step(&mut s, &mut r, 2000, None, false, &Vec::new())).unwrap();
    let out = cfg.on_block_assembled(&s, &mut r, sealed(pending, 200), 2000);
    assert_eq!(out.len(), 2);
    assert!(matches!(&out[0], Action::Broadcast(Message::BlockCommitted(_))));
    assert_eq!(commits(&out), vec![200]);
    let block = match &out[1] {
        Action::Commit(b) => b.clone(),
        _ => panic!("expected a commit"),
    };
    assert_eq!(block.signatures, vec![Signature::new(PublicKey { id: 1 })]);
    assert_eq!(cfg.block_commit(&mut s, &block, 2000, &members(1)), Ok(()));
    assert_eq!(s.latest_block_height, 2);
    assert!(s.transaction_cache.is_empty());
}

#[test]
fn leader_waits_for_block_time() {
    let cfg = config(0);
    let (mut s, mut r) = node(4, 100, 1);
    assert!(s.transaction_cache.push(Transaction { hash: 7, creation_time_ms: 0 }));
    assert!(take_proposal(cfg.step(&mut s, &mut r, 10, None, false, &Vec::new())).is_none());
    assert!(take_proposal(cfg.step(&mut s, &mut r, 1011, None, false, &Vec::new())).is_some());
}

#[test]
fn leader_queues_forwarded_transactions() {
    let cfg = config(0);
    let (mut s, mut r) = node(4, 100, 1);
    let fwd = sumeragi::sumeragi::TransactionForwarded {
        transaction: Transaction { hash: 9, creation_time_ms: 0 },
        peer: member(2),
        view_change_proofs: ProofChain::new(),
    };
    let out = cfg.step(&mut s, &mut r, 10, Some(Message::TransactionForwarded(fwd)), false, &Vec::new());
    assert!(out.iter().any(|a| matches!(a, Action::Enqueue(t) if t.hash == 9)));
}

#[test]
fn gossip_sends_oldest_transactions() {
    let mut cfg = config(1);
    cfg.gossip_batch_size = 2;
    let (mut s, mut r) = node(4, 100, 1);
    for h in 1..=3 {
        s.transaction_cache.push(Transaction { hash: h, creation_time_ms: 0 });
    }
    assert!(cfg.gossip(&s, &mut r, 500).is_none());
    match cfg.gossip(&s, &mut r, 1001) {
        Some(Action::Broadcast(Message::TransactionGossip(txs))) => {
            let hashes: Vec<u64> = txs.iter().map(|t| t.hash).collect();
            assert_eq!(hashes, vec![1, 2]);
        }
        _ => panic!("expected gossip"),
    }
    assert_eq!(r.last_gossip_time_ms, 1001);
}

#[test]
fn expired_transactions_leave_cache() {
    let mut cfg = config(1);
    cfg.tx_time_to_live_ms = 50;
    let (mut s, _) = node(4, 100, 1);
    s.transaction_cache.push(Transaction { hash: 1, creation_time_ms: 0 });
    s.transaction_cache.push(Transaction { hash: 2, creation_time_ms: 60 });
    cfg.refresh_transaction_cache(&mut s, 100);
    let hashes: Vec<u64> = s.transaction_cache.transactions.iter().map(|t| t.hash).collect();
    assert_eq!(hashes, vec![2]);
}

#[test]
fn online_keys_and_block_sync_peer() {
    let mut cfg = config(0);
    assert!(cfg.get_random_peer_for_block_sync().is_none());
    cfg.current_online_peers = vec![member(1), member(2)];
    let keys: Vec<u64> = cfg.get_online_peer_keys().iter().map(|k| k.id).collect();
    assert_eq!(keys, vec![2, 3]);
    for _ in 0..20 {
        let p = cfg.get_random_peer_for_block_sync().unwrap();
        assert!(p.public_key.id == 2 || p.public_key.id == 3);
    }
}

#[test]
fn connections_follow_topology() {
    let mut cfg = config(0);
    cfg.current_online_peers = vec![member(1), member(7)];
    let t = Topology::new(members(4), 0, 0).unwrap();
    let out = cfg.connect_peers(&t);
    let mut connect: Vec<u64> = Vec::new();
    let mut disconnect: Vec<u64> = Vec::new();
    for a in &out {
        match a {
            Action::ConnectPeer(p) => connect.push(p.public_key.id),
            Action::DisconnectPeer(k) => disconnect.push(k.id),
            _ => panic!("unexpected action"),
        }
    }
    connect.sort();
    assert_eq!(connect, vec![3, 4]);
    assert_eq!(disconnect, vec![8]);
}

#[test]
fn pipeline_time_sums_timers() {
    let cfg = config(0);
    assert_eq!(cfg.pipeline_time(), 2000);
    let mut big = config(0);
    big.block_time_ms = u64::MAX;
    assert_eq!(big.pipeline_time(), u64::MAX);
}

#[test]
fn network_topology_follows_trusted_peers() {
    let mut t = Topology::new(members(4), 9, 2).unwrap();
    let mut same = members(4);
    same.reverse();
    SumeragiWithFault::<NoFault>::update_network_topology(&mut t, &same);
    assert_eq!(t.view_change_index, 2);
    assert_eq!(t.peers[0].public_key.id, 1);
    SumeragiWithFault::<NoFault>::update_network_topology(&mut t, &members(3));
    assert_eq!(t.len(), 3);
    assert_eq!(t.view_change_index, 0);
    assert_eq!(t.at_block, 9);
    SumeragiWithFault::<NoFault>::update_network_topology(&mut t, &Vec::new());
    assert_eq!(t.len(), 3);
}

#[test]
fn gossiped_transactions_queued() {
    let cfg = config(2);
    let (mut s, mut r) = node(4, 100, 1);
    let txs = vec![Transaction { hash: 5, creation_time_ms: 0 }, Transaction { hash: 6, creation_time_ms: 0 }];
    let out = cfg.step(&mut s, &mut r, 10, Some(Message::TransactionGossip(txs)), false, &Vec::new());
    let queued: Vec<u64> = out
        .iter()
        .filter_map(|a| match a {
            Action::Enqueue(t) => Some(t.hash),
            _ => None,
        })
        .collect();
    assert_eq!(queued, vec![5, 6]);
}

#[test]
fn view_change_request_signed_by_self() {
    let cfg = config(2);
    let (s, _) = node(4, 100, 1);
    let mut chain = ProofChain::new();
    let action = cfg.request_view_change(&s, &mut chain, 0);
    assert!(matches!(action, Action::Broadcast(Message::ViewChangeSuggested(ref c)) if c.proofs.len() == 1));
    assert_eq!(chain.proofs.len(), 1);
    assert_eq!(chain.proofs[0].view_change_index, 0);
    assert_eq!(chain.proofs[0].latest_block_hash, 100);
    assert_eq!(chain.proofs[0].signatures, vec![Signature::new(PublicKey { id: 3 })]);
}

#[test]
fn committed_blocks_form_a_chain() {
    let cfg = config(0);
    let (mut s, _) = node(4, 100, 1);
    let first = signed_block(200, 100, 2, &[1, 2, 3]);
    assert_eq!(cfg.block_commit(&mut s, &first, 0, &members(4)), Ok(()));
    let skipping = signed_block(400, 300, 3, &[1, 2, 3]);
    assert_eq!(cfg.block_commit(&mut s, &skipping, 0, &members(4)), Err(CommitError::PreviousHashMismatch));
    let second = signed_block(300, 200, 3, &[1, 2, 3]);
    assert_eq!(cfg.block_commit(&mut s, &second, 0, &members(4)), Ok(()));
    assert_eq!(s.latest_block_hash, 300);
    assert_eq!(s.latest_block_height, 3);
    // roles rotate with the new block: 300 mod 4 = 0
    assert_eq!(s.current_topology.leader().public_key.id, 1);
}

#[test]
fn commit_quorums_overlap() {
    let t = Topology::new(members(4), 0, 0).unwrap();
    let a = signed_block(9, 5, 2, &[0, 1, 3]);
    let b = signed_block(10, 5, 2, &[1, 2, 3]);
    assert!(sumeragi::block::can_commit(&t, &a, 5));
    assert!(sumeragi::block::can_commit(&t, &b, 5));
    let shared = a
        .signatures
        .iter()
        .filter(|s| b.signatures.contains(s))
        .count();
    assert!(shared > t.max_faults());
}

#[test]
fn proxy_tail_short_of_quorum_commits_nothing() {
    let cfg = config(3);
    let (mut s, mut r) = node(4, 100, 1);
    cfg.step(&mut s, &mut r, 10, Some(Message::BlockCreated(signed_block(200, 100, 2, &[0, 1]))), true, &Vec::new());
    let out = cfg.proxy_tail_count_votes(&s, &mut r, 20, 0);
    assert!(out.is_empty());
    assert!(r.voting_block.is_some());
}

#[test]
fn repeated_view_change_request_keeps_index() {
    let cfg = config(2);
    let (s, _) = node(4, 100, 1);
    let mut chain = ProofChain::new();
    cfg.request_view_change(&s, &mut chain, 0);
    let first = chain.verify_with_state(&s.current_topology, 100);
    cfg.request_view_change(&s, &mut chain, 0);
    assert_eq!(chain.verify_with_state(&s.current_topology, 100), first);
    assert_eq!(chain.proofs[0].signatures.len(), 1);
}

#[test]
fn connections_never_repeat() {
    let mut cfg = config(0);
    cfg.current_online_peers = vec![member(7), PeerId::new("10.0.0.9:1".to_string(), PublicKey { id: 8 })];
    let t = Topology::new(members(4), 0, 0).unwrap();
    let out = cfg.connect_peers(&t);
    let disconnects = out.iter().filter(|a| matches!(a, Action::DisconnectPeer(_))).count();
    let connects = out.iter().filter(|a| matches!(a, Action::ConnectPeer(_))).count();
    assert_eq!(disconnects, 1);
    assert_eq!(connects, 3);
}
