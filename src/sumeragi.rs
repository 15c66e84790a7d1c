//! The consensus state machine: what a peer does, in each role, with the
//! message it received and the time it is.
//!
//! The state machine decides; the caller acts. A step takes the current
//! time and at most one message and returns the actions to perform, in
//! order: messages to send, transactions to queue, a block to validate, a
//! block to commit. Committing a block is finished by `block_commit` once
//! the caller has applied it to the world state.

use vstd::prelude::*;
use crate::block::{
    CollectedSignature, PendingBlock, ValidBlock, can_commit, collect_votes, commit_allowed,
    copy_peers, copy_transactions, signed_by_leader, voters,
};
use crate::peer::{PeerId, PublicKey, Signature, push_unique_signer, signer_keys, signers};
use crate::topology::{Role, Topology, TopologyError, members_within};
use crate::transaction::{Transaction, TransactionCache, stays};
use crate::view_change::{Proof, ProofChain, is_verified_length};

verus! {

/// A consensus message between peers.
#[derive(Debug)]
pub enum Message {
    /// The leader proposes a block.
    BlockCreated(ValidBlock),
    /// A validating peer signed the proposal.
    BlockSigned(ValidBlock),
    /// The proxy tail gathered a quorum: commit the block.
    BlockCommitted(ValidBlock),
    /// A peer hands a transaction to the leader.
    TransactionForwarded(TransactionForwarded),
    /// A peer suggests a view change.
    ViewChangeSuggested(ProofChain),
    /// Transactions shared with every peer.
    TransactionGossip(Vec<Transaction>),
}

/// A transaction forwarded to the leader, with the sender's proofs.
#[derive(Debug)]
pub struct TransactionForwarded {
    pub transaction: Transaction,
    pub peer: PeerId,
    pub view_change_proofs: ProofChain,
}

/// What the caller of a step is to do.
#[derive(Debug)]
pub enum Action {
    /// Send the message to every peer of the topology.
    Broadcast(Message),
    /// Send the message to each of these peers.
    SendTo(Vec<PeerId>, Message),
    /// Open a connection to the peer.
    ConnectPeer(PeerId),
    /// Close the connection to the peer with this key.
    DisconnectPeer(PublicKey),
    /// Push the transaction into the transaction queue.
    Enqueue(Transaction),
    /// Validate the proposal against the world state, hash and hand it back
    /// through `on_block_assembled`.
    Propose(PendingBlock),
    /// Apply the block to the world state, store it, publish its events,
    /// then finish through `block_commit`.
    Commit(ValidBlock),
}

/// Lets tests drop or alter incoming messages before a step handles them.
pub trait FaultInjection {
    /// The message to handle in place of `msg`, if any.
    fn faulty_message(&self, msg: Message) -> Option<Message>;

    /// Whether rounds are driven by hand.
    fn manual_rounds(&self) -> bool;
}

/// Correct behaviour: every message is handled as it came.
#[derive(Clone, Copy, Debug)]
pub struct NoFault;

impl FaultInjection for NoFault {
    fn faulty_message(&self, msg: Message) -> Option<Message> {
        Some(msg)
    }

    fn manual_rounds(&self) -> bool {
        false
    }
}

/// Configuration of this peer's consensus.
#[derive(Debug)]
pub struct SumeragiWithFault<F: FaultInjection> {
    /// This peer.
    pub peer_id: PeerId,
    /// Time the proxy tail has to gather a quorum.
    pub commit_time_ms: u64,
    /// Time the leader waits for transactions before proposing.
    pub block_time_ms: u64,
    /// Largest number of transactions in one gossip message.
    pub gossip_batch_size: u32,
    /// Time between two gossip messages.
    pub gossip_period_ms: u64,
    /// Age at which a transaction expires.
    pub tx_time_to_live_ms: u64,
    /// Largest number of transactions in a block and in the cache.
    pub txs_in_block: usize,
    /// Peers currently connected.
    pub current_online_peers: Vec<PeerId>,
    pub fault_injection: F,
}

/// A proposal this peer voted on, and when.
#[derive(Debug)]
pub struct VotingBlock {
    pub voted_at_ms: u64,
    pub block: ValidBlock,
}

impl VotingBlock {
    /// The vote on `block` made at `now_ms`.
    pub fn new(block: ValidBlock, now_ms: u64) -> (r: VotingBlock)
        ensures
            r.block == block,
            r.voted_at_ms == now_ms,
    {
        VotingBlock { voted_at_ms: now_ms, block }
    }
}

/// Why a committed block could not be recorded.
#[derive(Clone, Copy, Debug, PartialEq, Eq, Structural)]
pub enum CommitError {
    /// The block does not extend the latest block.
    PreviousHashMismatch,
    /// The block is not at the height after the latest block.
    HeightMismatch,
}

/// A committed block as the chain records it: the hash it extends and its
/// own hash.
pub type ChainLink = (u64, u64);

/// `links` is a chain from `base` to `tip`: each block extends the one
/// before it.
pub open spec fn chain_linked(links: Seq<ChainLink>, base: u64, tip: u64) -> bool {
    &&& links.len() == 0 ==> tip == base
    &&& links.len() > 0 ==> links[0].0 == base && links.last().1 == tip
    &&& forall|i: int| 1 <= i < links.len() ==> (#[trigger] links[i]).0 == links[i - 1].1
}

/// State of the consensus that outlives a round.
pub struct SumeragiStateMachineData {
    /// Hash of the latest committed block; zero before the first block.
    pub latest_block_hash: u64,
    /// Height of the latest committed block; zero before the first block.
    pub latest_block_height: u64,
    pub current_topology: Topology,
    pub transaction_cache: TransactionCache,
    /// Transactions of the first block, on the peer that publishes it.
    pub genesis_transactions: Option<Vec<Transaction>>,
    /// Hash and height the state started from.
    pub start_hash: Ghost<u64>,
    pub start_height: Ghost<u64>,
    /// The blocks committed since, in order.
    pub committed: Ghost<Seq<ChainLink>>,
}

impl SumeragiStateMachineData {
    /// A valid topology, a valid cache, and the committed blocks form a
    /// chain from the start to the latest block.
    pub open spec fn wf(&self) -> bool {
        &&& self.current_topology.wf()
        &&& self.transaction_cache.wf()
        &&& chain_linked(self.committed@, self.start_hash@, self.latest_block_hash)
        &&& self.latest_block_height == self.start_height@ + self.committed@.len()
    }

    /// State at block `latest_block_hash` of height `latest_block_height`,
    /// with an empty cache for `txs_in_block` transactions.
    pub fn new(
        topology: Topology,
        latest_block_hash: u64,
        latest_block_height: u64,
        txs_in_block: usize,
        genesis_transactions: Option<Vec<Transaction>>,
    ) -> (r: SumeragiStateMachineData)
        requires
            topology.wf(),
        ensures
            r.wf(),
            r.current_topology == topology,
            r.latest_block_hash == latest_block_hash,
            r.latest_block_height == latest_block_height,
            r.transaction_cache.capacity == txs_in_block,
            r.transaction_cache.transactions@.len() == 0,
            r.genesis_transactions == genesis_transactions,
            r.committed@.len() == 0,
    {
        SumeragiStateMachineData {
            latest_block_hash,
            latest_block_height,
            current_topology: topology,
            transaction_cache: TransactionCache::new(txs_in_block),
            genesis_transactions,
            start_hash: Ghost(latest_block_hash),
            start_height: Ghost(latest_block_height),
            committed: Ghost(Seq::empty()),
        }
    }
}

/// Every block committed at a height above the start extends the block
/// committed at the height below it.
pub proof fn lemma_chain_integrity(state: SumeragiStateMachineData, i: int)
    requires
        state.wf(),
        1 <= i < state.committed@.len(),
    ensures
        state.committed@[i].0 == state.committed@[i - 1].1,
{
    assert(chain_linked(state.committed@, state.start_hash@, state.latest_block_hash));
    let l = state.committed@[i];
}

/// What `update_network_topology` leaves: the same members keep the
/// topology; other valid members replace it at the same block with no
/// view change; invalid ones leave it.
pub open spec fn topology_after_update(old_t: Topology, new_t: Topology, peers: Seq<PeerId>) -> bool {
    if members_within(old_t.peers@, peers) && members_within(peers, old_t.peers@) {
        new_t == old_t
    } else if peers.len() > 0 && crate::topology::keys_distinct(peers) {
        new_t.peers@ == peers && new_t.at_block == old_t.at_block && new_t.view_change_index == 0
    } else {
        new_t == old_t
    }
}

impl<F: FaultInjection> SumeragiWithFault<F> {
    /// Public keys of the peers currently connected.
    pub fn get_online_peer_keys(&self) -> (r: Vec<PublicKey>)
        ensures
            r@ == self.current_online_peers@.map_values(|p: PeerId| p.public_key),
    {
        let mut r: Vec<PublicKey> = Vec::new();
        let mut i: usize = 0;
        while i < self.current_online_peers.len()
            invariant
                0 <= i <= self.current_online_peers@.len(),
                r@ =~= self.current_online_peers@.subrange(0, i as int).map_values(
                    |p: PeerId| p.public_key,
                ),
            decreases self.current_online_peers@.len() - i,
        {
            r.push(self.current_online_peers[i].public_key);
            i = i + 1;
        }
        assert(self.current_online_peers@.subrange(0, i as int) =~= self.current_online_peers@);
        r
    }

    /// The longest a round takes without faulty peers: block time plus
    /// commit time, saturating at `u64::MAX` milliseconds.
    pub fn pipeline_time(&self) -> (r: u64)
        ensures
            r == sat_add(self.block_time_ms, self.commit_time_ms),
    {
        later(self.block_time_ms, self.commit_time_ms)
    }

    /// Replaces the topology's peers with those the world state trusts,
    /// when they are other members; the order is kept when the members
    /// are the same. A trusted list that cannot form a topology (no peers,
    /// or two peers with one key) leaves the topology as it is: a committed
    /// block has already been applied, and the peers keep a topology they
    /// can run consensus under rather than stopping.
    pub fn update_network_topology(topology: &mut Topology, trusted_peers: &Vec<PeerId>)
        requires
            old(topology).wf(),
        ensures
            final(topology).wf(),
            topology_after_update(*old(topology), *final(topology), trusted_peers@),
    {
        if topology.same_members(trusted_peers) {
            return;
        }
        match topology.with_peers(copy_peers(trusted_peers)) {
            Ok(t) => {
                *topology = t;
            },
            Err(_) => {},
        }
    }

    /// Records the commit of `block`, once it is applied to the world
    /// state: it becomes the latest block, the roles rotate, the topology
    /// follows the peers the world state trusts, and the cache drops the
    /// block's transactions and those expired at `now_ms`.
    pub fn block_commit(
        &self,
        state: &mut SumeragiStateMachineData,
        block: &ValidBlock,
        now_ms: u64,
        trusted_peers: &Vec<PeerId>,
    ) -> (r: Result<(), CommitError>)
        requires
            old(state).wf(),
        ensures
            final(state).wf(),
            block.header.previous_block_hash != old(state).latest_block_hash ==> r == Err::<
                (),
                CommitError,
            >(CommitError::PreviousHashMismatch),
            block.header.previous_block_hash == old(state).latest_block_hash
                && block.header.height != old(state).latest_block_height + 1 ==> r == Err::<
                (),
                CommitError,
            >(CommitError::HeightMismatch),
            r is Err ==> *final(state) == *old(state),
            block.header.previous_block_hash == old(state).latest_block_hash
                && block.header.height == old(state).latest_block_height + 1 ==> r is Ok,
            r is Ok ==> {
                &&& block.header.previous_block_hash == old(state).latest_block_hash
                &&& block.header.height == old(state).latest_block_height + 1
                &&& final(state).latest_block_hash == block.hash
                &&& final(state).latest_block_height == block.header.height
                &&& final(state).committed@ == old(state).committed@.push(
                    (block.header.previous_block_hash, block.hash),
                )
                &&& exists|refreshed: Topology|
                    refreshed.peers@ == old(state).current_topology.peers@ && refreshed.at_block
                        == block.hash && refreshed.view_change_index == 0
                        && topology_after_update(
                        refreshed,
                        final(state).current_topology,
                        trusted_peers@,
                    )
                &&& final(state).transaction_cache.capacity
                    == old(state).transaction_cache.capacity
                &&& final(state).transaction_cache.transactions@
                    == old(state).transaction_cache.transactions@.filter(
                    |t: Transaction| stays(t, now_ms, self.tx_time_to_live_ms, block.transactions@),
                )
                &&& final(state).genesis_transactions == old(state).genesis_transactions
            },
    {
        if block.header.previous_block_hash != state.latest_block_hash {
            return Err(CommitError::PreviousHashMismatch);
        }
        if state.latest_block_height == u64::MAX || block.header.height
            != state.latest_block_height + 1 {
            return Err(CommitError::HeightMismatch);
        }
        proof {
            assert(state.latest_block_height + 1 <= u64::MAX);
        }
        let ghost old_links = state.committed@;
        state.latest_block_height = block.header.height;
        state.latest_block_hash = block.hash;
        state.committed = Ghost(state.committed@.push((block.header.previous_block_hash, block.hash)));
        proof {
            let links = state.committed@;
            assert forall|i: int| 1 <= i < links.len() implies (#[trigger] links[i]).0 == links[i
                - 1].1 by {
                if i < links.len() - 1 {
                    assert(links[i] == old_links[i]);
                    assert(links[i - 1] == old_links[i - 1]);
                }
            }
        }
        state.current_topology.refresh_at_new_block(block.hash);
        let ghost refreshed = state.current_topology;
        Self::update_network_topology(&mut state.current_topology, trusted_peers);
        state.transaction_cache.prune(now_ms, self.tx_time_to_live_ms, &block.transactions);
        Ok(())
    }
}


/// `a + b`, or `u64::MAX` when that overflows.
pub open spec fn sat_add(a: u64, b: u64) -> u64 {
    if a + b > u64::MAX {
        u64::MAX
    } else {
        (a + b) as u64
    }
}

fn later(now: u64, dur: u64) -> (r: u64)
    ensures
        r == sat_add(now, dur),
{
    now.saturating_add(dur)
}

/// No action of `actions` commits a block that lacks a commit quorum under
/// `t` or does not extend `latest_hash`.
pub open spec fn commits_allowed(actions: Seq<Action>, t: Topology, latest_hash: u64) -> bool {
    forall|i: int|
        0 <= i < actions.len() ==> match #[trigger] actions[i] {
            Action::Commit(b) => commit_allowed(t, b, latest_hash),
            _ => true,
        }
}

/// No action of `actions` commits a block.
pub open spec fn no_commit(actions: Seq<Action>) -> bool {
    forall|i: int| 0 <= i < actions.len() ==> !(#[trigger] actions[i] is Commit)
}

proof fn lemma_no_commit_allowed(actions: Seq<Action>, t: Topology, h: u64)
    requires
        no_commit(actions),
    ensures
        commits_allowed(actions, t, h),
{
    assert forall|i: int| 0 <= i < actions.len() implies match #[trigger] actions[i] {
        Action::Commit(b) => commit_allowed(t, b, h),
        _ => true,
    } by {
        assert(!(actions[i] is Commit));
    }
}

/// Relies on rand's `SliceRandom::choose` with the thread-local generator:
/// an element of the slice picked at random, `None` for an empty slice.
#[verifier::external_body]
fn choose_transaction(txs: &Vec<Transaction>) -> (r: Option<Transaction>)
    ensures
        (r == None::<Transaction>) == (txs@.len() == 0),
        forall|t: Transaction| r == Some(t) ==> txs@.contains(t),
{
    rand::seq::SliceRandom::choose(txs.as_slice(), &mut rand::thread_rng()).copied()
}

/// Relies on rand's `SliceRandom::shuffle` with the thread-local
/// generator: the slice is permuted in place.
#[verifier::external_body]
fn shuffle_peers(peers: &mut Vec<PeerId>)
    ensures
        final(peers)@.to_multiset() == old(peers)@.to_multiset(),
{
    rand::seq::SliceRandom::shuffle(peers.as_mut_slice(), &mut rand::thread_rng())
}

/// Relies on rand's `RngCore::next_u32` on the thread-local generator: a
/// random number, of which nothing is promised.
#[verifier::external_body]
fn random_u32() -> (r: u32) {
    rand::RngCore::next_u32(&mut rand::thread_rng())
}

fn contains_u64(v: &Vec<u64>, x: u64) -> (r: bool)
    ensures
        r == v@.contains(x),
{
    let mut i: usize = 0;
    while i < v.len()
        invariant
            0 <= i <= v@.len(),
            forall|j: int| 0 <= j < i ==> v@[j] != x,
        decreases v@.len() - i,
    {
        if v[i] == x {
            assert(v@[i as int] == x);
            return true;
        }
        i = i + 1;
    }
    false
}

fn contains_key(v: &Vec<PublicKey>, k: PublicKey) -> (r: bool)
    ensures
        r == v@.contains(k),
{
    let mut i: usize = 0;
    while i < v.len()
        invariant
            0 <= i <= v@.len(),
            forall|j: int| 0 <= j < i ==> v@[j] != k,
        decreases v@.len() - i,
    {
        if v[i] == k {
            assert(v@[i as int] == k);
            return true;
        }
        i = i + 1;
    }
    false
}

/// State of the round in progress.
#[derive(Debug)]
pub struct RoundState {
    /// The block this peer voted on in this round.
    pub voting_block: Option<VotingBlock>,
    /// Signatures the proxy tail collected, with the block hash each is on.
    pub block_signature_acc: Vec<CollectedSignature>,
    /// Whether this peer forwarded a transaction to the leader this round.
    pub has_sent_transactions: bool,
    pub sent_transaction_time_ms: u64,
    pub last_gossip_time_ms: u64,
    /// When the leader proposes even with a cache that is not full.
    pub block_deadline_ms: u64,
    /// When a missing commit makes this peer suggest a view change.
    pub commit_deadline_ms: u64,
    pub view_change_proof_chain: ProofChain,
    /// Verified view-change index the topology was last rebuilt for.
    pub view_change_index: u64,
    /// Block height the round was last reset for.
    pub seen_height: u64,
}

impl RoundState {
    /// Round state at `now_ms`, before any block of the current height.
    pub fn new(now_ms: u64, block_time_ms: u64) -> (r: RoundState)
        ensures
            r.voting_block is None,
            r.block_signature_acc@.len() == 0,
            !r.has_sent_transactions,
            r.view_change_proof_chain.proofs@.len() == 0,
            r.view_change_index == 0,
            r.seen_height == 0,
            r.block_deadline_ms == sat_add(now_ms, block_time_ms),
    {
        RoundState {
            voting_block: None,
            block_signature_acc: Vec::new(),
            has_sent_transactions: false,
            sent_transaction_time_ms: now_ms,
            last_gossip_time_ms: now_ms,
            block_deadline_ms: later(now_ms, block_time_ms),
            commit_deadline_ms: now_ms,
            view_change_proof_chain: ProofChain::new(),
            view_change_index: 0,
            seen_height: 0,
        }
    }

    /// Forgets the votes of the round.
    fn reset_votes(&mut self)
        ensures
            final(self).voting_block is None,
            final(self).block_signature_acc@.len() == 0,
            !final(self).has_sent_transactions,
            final(self).view_change_proof_chain == old(self).view_change_proof_chain,
            final(self).view_change_index == old(self).view_change_index,
            final(self).seen_height == old(self).seen_height,
            final(self).block_deadline_ms == old(self).block_deadline_ms,
            final(self).commit_deadline_ms == old(self).commit_deadline_ms,
            final(self).sent_transaction_time_ms == old(self).sent_transaction_time_ms,
            final(self).last_gossip_time_ms == old(self).last_gossip_time_ms,
    {
        self.voting_block = None;
        self.block_signature_acc.clear();
        self.has_sent_transactions = false;
    }
}

impl<F: FaultInjection> SumeragiWithFault<F> {
    /// Drops the cached transactions that expired at `now_ms`.
    pub fn refresh_transaction_cache(&self, state: &mut SumeragiStateMachineData, now_ms: u64)
        requires
            old(state).wf(),
        ensures
            final(state).wf(),
            final(state).latest_block_hash == old(state).latest_block_hash,
            final(state).latest_block_height == old(state).latest_block_height,
            final(state).committed == old(state).committed,
            final(state).current_topology == old(state).current_topology,
            final(state).transaction_cache.capacity == old(state).transaction_cache.capacity,
            final(state).transaction_cache.transactions@
                == old(state).transaction_cache.transactions@.filter(
                |t: Transaction| stays(t, now_ms, self.tx_time_to_live_ms, Seq::empty()),
            ),
            final(state).genesis_transactions == old(state).genesis_transactions,
    {
        let none: Vec<Transaction> = Vec::new();
        assert(none@ =~= Seq::<Transaction>::empty());
        state.transaction_cache.prune(now_ms, self.tx_time_to_live_ms, &none);
    }

    /// The gossip message due at `now_ms`: the oldest cached transactions,
    /// once a gossip period has passed since the last one.
    pub fn gossip(&self, state: &SumeragiStateMachineData, round: &mut RoundState, now_ms: u64) -> (r:
        Option<Action>)
        ensures
            final(round).view_change_index == old(round).view_change_index,
            final(round).seen_height == old(round).seen_height,
            final(round).voting_block == old(round).voting_block,
            final(round).block_deadline_ms == old(round).block_deadline_ms,
            r matches Some(a) ==> a matches Action::Broadcast(Message::TransactionGossip(txs))
                && txs@.len() > 0 && txs@ == state.transaction_cache.transactions@.subrange(
                0,
                txs@.len() as int,
            ) && txs@.len() == if state.transaction_cache.transactions@.len()
                < self.gossip_batch_size {
                state.transaction_cache.transactions@.len()
            } else {
                self.gossip_batch_size as nat
            },
            r is Some <==> (now_ms as int - old(round).last_gossip_time_ms as int
                > self.gossip_period_ms as int && state.transaction_cache.transactions@.len() > 0
                && self.gossip_batch_size > 0),
            r is Some ==> final(round).last_gossip_time_ms == now_ms,
            r is None ==> *final(round) == *old(round),
    {
        if now_ms > round.last_gossip_time_ms && now_ms - round.last_gossip_time_ms
            > self.gossip_period_ms {
            let txs = state.transaction_cache.gossip_batch(self.gossip_batch_size);
            if txs.len() > 0 {
                round.last_gossip_time_ms = now_ms;
                return Some(Action::Broadcast(Message::TransactionGossip(txs)));
            }
        }
        None
    }

    /// Takes the proofs of a received chain into this peer's chain.
    /// The chain's verified length does not drop.
    fn absorb_proofs(&self, state: &SumeragiStateMachineData, chain: &mut ProofChain, proofs: &ProofChain)
        requires
            state.wf(),
        ensures
            forall|a: int, b: int|
                is_verified_length(
                    state.current_topology,
                    state.latest_block_hash,
                    old(chain).proofs@,
                    a,
                ) && is_verified_length(
                    state.current_topology,
                    state.latest_block_hash,
                    final(chain).proofs@,
                    b,
                ) ==> a <= b,
    {
        let ghost t = state.current_topology;
        let ghost h = state.latest_block_hash;
        let ghost start = chain.proofs@;
        let mut i: usize = 0;
        while i < proofs.proofs.len()
            invariant
                state.wf(),
                t == state.current_topology,
                h == state.latest_block_hash,
                forall|a: int, b: int|
                    is_verified_length(t, h, start, a) && is_verified_length(t, h, chain.proofs@, b)
                        ==> a <= b,
            decreases proofs.proofs@.len() - i,
        {
            let ghost before = chain.proofs@;
            let _ = chain.insert_proof(
                &state.current_topology,
                state.latest_block_hash,
                &proofs.proofs[i],
            );
            proof {
                assert forall|a: int, c: int|
                    is_verified_length(t, h, start, a) && is_verified_length(t, h, chain.proofs@, c)
                        implies a <= c by {
                    crate::view_change::lemma_verified_length_exists(t, h, before);
                    let b = choose|b: int| is_verified_length(t, h, before, b);
                }
            }
            i = i + 1;
        }
    }

    /// Suggests a view change at `index`: signs the proof, adds it to the
    /// chain, and returns the broadcast of the chain.
    pub fn request_view_change(
        &self,
        state: &SumeragiStateMachineData,
        chain: &mut ProofChain,
        index: u64,
    ) -> (r: Action)
        requires
            state.wf(),
        ensures
            r matches Action::Broadcast(Message::ViewChangeSuggested(c)) && crate::view_change::proofs_agree(
                c.proofs@,
                final(chain).proofs@,
            ),
            view_change_suggested(
                state.current_topology,
                state.latest_block_hash,
                old(chain).proofs@,
                final(chain).proofs@,
                index,
                self.peer_id.public_key,
            ),
    {
        let ghost t = state.current_topology;
        let ghost h = state.latest_block_hash;
        let ghost key = self.peer_id.public_key;
        let ghost old_proofs = chain.proofs@;
        let mut proof = Proof {
            latest_block_hash: state.latest_block_hash,
            view_change_index: index,
            signatures: Vec::new(),
        };
        proof {
            assert(signers(proof.signatures@) =~= Set::<PublicKey>::empty());
        }
        proof.sign(self.peer_id.public_key);
        proof {
            assert(signers(proof.signatures@) =~= set![key]);
        }
        let _ = chain.insert_proof(&state.current_topology, state.latest_block_hash, &proof);
        proof {
            let new_proofs = chain.proofs@;
            assert forall|k: int| #[trigger] is_verified_length(t, h, old_proofs, k) implies {
                &&& index != k ==> crate::view_change::proofs_agree(new_proofs, old_proofs)
                &&& index == k ==> {
                    &&& new_proofs.len() == if k < old_proofs.len() {
                        old_proofs.len() as int
                    } else {
                        k + 1
                    }
                    &&& forall|i: int|
                        0 <= i < new_proofs.len() && i != k ==> crate::view_change::proof_agrees(
                            #[trigger] new_proofs[i],
                            old_proofs[i],
                        )
                    &&& new_proofs[k].latest_block_hash == h
                    &&& new_proofs[k].view_change_index == k
                    &&& signers(new_proofs[k].signatures@) == if k < old_proofs.len()
                        && old_proofs[k].latest_block_hash == h
                        && old_proofs[k].view_change_index == k {
                        signers(old_proofs[k].signatures@).insert(key)
                    } else {
                        set![key]
                    }
                }
                &&& (index != k || (k < old_proofs.len() && old_proofs[k].latest_block_hash == h
                    && old_proofs[k].view_change_index == k && signers(
                    old_proofs[k].signatures@,
                ).contains(key))) ==> is_verified_length(t, h, new_proofs, k)
                &&& (index == k && !(k < old_proofs.len() && old_proofs[k].latest_block_hash == h
                    && old_proofs[k].view_change_index == k) && t.spec_min_votes() > 1)
                    ==> is_verified_length(t, h, new_proofs, k)
            } by {
                if index == k && !(k < old_proofs.len() && old_proofs[k].latest_block_hash == h
                    && old_proofs[k].view_change_index == k) && t.spec_min_votes() > 1 {
                    crate::view_change::lemma_single_signer_no_quorum(t, new_proofs[k], key);
                    assert(crate::view_change::prefix_ok(t, h, new_proofs, k)) by {
                        assert forall|i: int| 0 <= i < k implies crate::view_change::proof_ok(
                            t,
                            h,
                            #[trigger] new_proofs[i],
                            i,
                        ) by {
                            assert(crate::view_change::proof_ok(t, h, old_proofs[i], i));
                            assert(crate::view_change::proof_agrees(new_proofs[i], old_proofs[i]));
                        }
                    }
                }
                if index != k {
                    crate::view_change::lemma_verified_length_agree(t, h, new_proofs, old_proofs, k);
                } else {
                    if k < old_proofs.len() && old_proofs[k].latest_block_hash == h
                        && old_proofs[k].view_change_index == k {
                        assert(signers(old_proofs[k].signatures@).union(set![key]) =~= signers(
                            old_proofs[k].signatures@,
                        ).insert(key));
                        if signers(old_proofs[k].signatures@).contains(key) {
                            assert(set![key].subset_of(signers(old_proofs[k].signatures@)));
                            assert(crate::view_change::proofs_agree(new_proofs, old_proofs)) by {
                                assert forall|i: int| 0 <= i < new_proofs.len() implies crate::view_change::proof_agrees(
                                    #[trigger] new_proofs[i],
                                    old_proofs[i],
                                ) by {
                                    if i == k {
                                        assert(new_proofs[k].signatures@ == old_proofs[k].signatures@);
                                    }
                                }
                            }
                            crate::view_change::lemma_verified_length_agree(t, h, new_proofs, old_proofs, k);
                        }
                    }
                }
            }
        }
        Action::Broadcast(Message::ViewChangeSuggested(chain.clone()))
    }

    /// Prunes and verifies the proof chain, and starts a new round when the
    /// height or the verified view-change index moved. Returns that index.
    fn update_view(&self, state: &mut SumeragiStateMachineData, round: &mut RoundState, now_ms: u64) -> (r:
        u64)
        requires
            old(state).wf(),
        ensures
            (old(round).seen_height == old(state).latest_block_height && r
                == old(round).view_change_index) ==> final(round).voting_block
                == old(round).voting_block,
            final(state).wf(),
            final(state).latest_block_hash == old(state).latest_block_hash,
            final(state).latest_block_height == old(state).latest_block_height,
            final(state).committed == old(state).committed,
            final(state).transaction_cache == old(state).transaction_cache,
            final(state).current_topology.peers@ == old(state).current_topology.peers@,
            final(state).current_topology.at_block == old(state).current_topology.at_block,
            final(round).view_change_index == r,
            r != old(round).view_change_index ==> final(state).current_topology.view_change_index
                == r,
            r == old(round).view_change_index ==> final(state).current_topology
                == old(state).current_topology,
            final(round).seen_height == final(state).latest_block_height,
            (old(round).seen_height != old(state).latest_block_height || r
                != old(round).view_change_index) ==> final(round).voting_block is None
                && final(round).block_signature_acc@.len() == 0
                && !final(round).has_sent_transactions,
            old(round).seen_height != old(state).latest_block_height
                ==> final(round).block_deadline_ms == sat_add(now_ms, self.block_time_ms),
            is_verified_length(
                old(state).current_topology,
                old(state).latest_block_hash,
                final(round).view_change_proof_chain.proofs@,
                r as int,
            ),
    {
        round.view_change_proof_chain.prune(state.latest_block_hash);
        let current = round.view_change_proof_chain.verify_with_state(
            &state.current_topology,
            state.latest_block_hash,
        ) as u64;
        if round.seen_height != state.latest_block_height {
            round.reset_votes();
            round.block_deadline_ms = later(now_ms, self.block_time_ms);
            round.seen_height = state.latest_block_height;
        }
        if current != round.view_change_index {
            state.current_topology.rebuild_with_new_view_change_count(current);
            round.reset_votes();
            round.view_change_index = current;
        }
        current
    }

    /// The commit that a received `BlockCommitted` calls for: the block has
    /// a commit quorum and extends the latest block.
    pub fn on_block_committed(&self, state: &SumeragiStateMachineData, block: ValidBlock) -> (r:
        Option<Action>)
        requires
            state.wf(),
        ensures
            r is Some <==> commit_allowed(state.current_topology, block, state.latest_block_hash),
            r matches Some(a) ==> a == Action::Commit(block),
    {
        if can_commit(&state.current_topology, &block, state.latest_block_hash) {
            Some(Action::Commit(block))
        } else {
            None
        }
    }

    /// Keys of the peers currently connected.
    pub open spec fn online_keys(&self) -> Seq<PublicKey> {
        self.current_online_peers@.map_values(|q: PeerId| q.public_key)
    }

    /// `p` is a member of `t` other than this peer.
    pub open spec fn expects(&self, t: Topology, p: PeerId) -> bool {
        t.peers@.contains(p) && p.address@ != self.peer_id.address@
    }

    /// Some member of `t` other than this peer holds `k`.
    pub open spec fn expects_key(&self, t: Topology, k: PublicKey) -> bool {
        exists|m: int|
            0 <= m < t.peers@.len() && t.peers@[m].address@ != self.peer_id.address@
                && #[trigger] t.peers@[m].public_key == k
    }

    /// Connections to open and close so that this peer is connected to
    /// exactly the other members of `topology`: every member whose key is
    /// not connected is connected, in a random order, and every connected
    /// key that no member holds is disconnected.
    pub fn connect_peers(&self, topology: &Topology) -> (r: Vec<Action>)
        requires
            topology.wf(),
        ensures
            forall|i: int|
                0 <= i < r@.len() ==> match #[trigger] r@[i] {
                    Action::ConnectPeer(p) => self.expects(*topology, p)
                        && !self.online_keys().contains(p.public_key),
                    Action::DisconnectPeer(k) => self.online_keys().contains(k)
                        && !self.expects_key(*topology, k),
                    _ => false,
                },
            forall|j: int|
                0 <= j < topology.peers@.len() && topology.peers@[j].address@
                    != self.peer_id.address@ && !self.online_keys().contains(
                    topology.peers@[j].public_key,
                ) ==> r@.contains(Action::ConnectPeer(#[trigger] topology.peers@[j])),
            forall|k: PublicKey|
                #[trigger] self.online_keys().contains(k) && !self.expects_key(*topology, k)
                    ==> r@.contains(Action::DisconnectPeer(k)),
            r@.no_duplicates(),
    {
        let mut expected: Vec<PeerId> = Vec::new();
        let mut i: usize = 0;
        while i < topology.peers.len()
            invariant
                0 <= i <= topology.peers@.len(),
                forall|j: int|
                    0 <= j < expected@.len() ==> self.expects(*topology, #[trigger] expected@[j]),
                forall|j: int|
                    0 <= j < i && topology.peers@[j].address@ != self.peer_id.address@
                        ==> expected@.contains(#[trigger] topology.peers@[j]),
                topology.wf(),
                expected@.no_duplicates(),
                forall|j: int|
                    0 <= j < expected@.len() ==> exists|m: int|
                        0 <= m < i && #[trigger] expected@[j] == topology.peers@[m],
            decreases topology.peers@.len() - i,
        {
            let p = topology.peers[i].clone();
            if !(p.address == self.peer_id.address) {
                proof {
                    assert(topology.peers@[i as int] == p);
                    assert forall|j: int| 0 <= j < expected@.len() implies expected@[j] != p by {
                        let m = choose|m: int|
                            0 <= m < i && #[trigger] expected@[j] == topology.peers@[m];
                        assert(topology.peers@[m].public_key != topology.peers@[i as int].public_key);
                    }
                    assert forall|j: int| 0 <= j < expected@.len() + 1 implies exists|m: int|
                        0 <= m < i + 1 && #[trigger] expected@.push(p)[j] == topology.peers@[m] by {
                        if j < expected@.len() {
                            let m = choose|m: int|
                                0 <= m < i && #[trigger] expected@[j] == topology.peers@[m];
                            assert(expected@.push(p)[j] == topology.peers@[m]);
                        } else {
                            assert(expected@.push(p)[j] == topology.peers@[i as int]);
                        }
                    }
                    assert forall|j: int|
                        0 <= j < i && topology.peers@[j].address@ != self.peer_id.address@
                            implies expected@.push(p).contains(#[trigger] topology.peers@[j]) by {
                        lemma_contains_push(expected@, p, topology.peers@[j]);
                    }
                    assert(expected@.push(p)[expected@.len() as int] == p);
                }
                expected.push(p);
            }
            i = i + 1;
        }
        let ghost before = expected@;
        shuffle_peers(&mut expected);
        proof {
            before.to_multiset_ensures();
            expected@.to_multiset_ensures();
            before.lemma_multiset_has_no_duplicates();
            expected@.lemma_multiset_has_no_duplicates_conv();
            assert forall|j: int| 0 <= j < expected@.len() implies self.expects(
                *topology,
                #[trigger] expected@[j],
            ) by {
                let x = expected@[j];
                assert(expected@.contains(x));
                assert(expected@.to_multiset().count(x) > 0);
                assert(before.to_multiset().count(x) > 0);
                assert(before.contains(x));
                let k = choose|k: int| 0 <= k < before.len() && before[k] == expected@[j];
            }
            assert forall|j: int|
                0 <= j < topology.peers@.len() && topology.peers@[j].address@
                    != self.peer_id.address@ implies expected@.contains(
                #[trigger] topology.peers@[j],
            ) by {
                let x = topology.peers@[j];
                assert(before.contains(x));
                assert(before.to_multiset().count(x) > 0);
                assert(expected@.to_multiset().count(x) > 0);
            }
        }
        let online = self.get_online_peer_keys();
        let mut actions: Vec<Action> = Vec::new();
        let mut i: usize = 0;
        while i < expected.len()
            invariant
                0 <= i <= expected@.len(),
                online@ == self.online_keys(),
                forall|j: int|
                    0 <= j < expected@.len() ==> self.expects(*topology, #[trigger] expected@[j]),
                forall|j: int|
                    0 <= j < actions@.len() ==> match #[trigger] actions@[j] {
                        Action::ConnectPeer(p) => self.expects(*topology, p) && !online@.contains(
                            p.public_key,
                        ),
                        _ => false,
                    },
                forall|j: int|
                    0 <= j < i && !online@.contains(expected@[j].public_key) ==> actions@.contains(
                        Action::ConnectPeer(#[trigger] expected@[j]),
                    ),
                expected@.no_duplicates(),
                actions@.no_duplicates(),
                forall|j: int|
                    0 <= j < actions@.len() ==> exists|m: int|
                        0 <= m < i && #[trigger] actions@[j] == Action::ConnectPeer(expected@[m]),
            decreases expected@.len() - i,
        {
            let p = expected[i].clone();
            if !contains_key(&online, p.public_key) {
                proof {
                    let a = Action::ConnectPeer(p);
                    assert forall|j: int| 0 <= j < actions@.len() implies actions@[j] != a by {
                        let m = choose|m: int|
                            0 <= m < i && #[trigger] actions@[j] == Action::ConnectPeer(expected@[m]);
                        assert(expected@[m] != expected@[i as int]);
                    }
                    assert forall|j: int| 0 <= j < actions@.len() + 1 implies exists|m: int|
                        0 <= m < i + 1 && #[trigger] actions@.push(a)[j] == Action::ConnectPeer(
                            expected@[m],
                        ) by {
                        if j < actions@.len() {
                            let m = choose|m: int|
                                0 <= m < i && #[trigger] actions@[j] == Action::ConnectPeer(
                                    expected@[m],
                                );
                            assert(actions@.push(a)[j] == Action::ConnectPeer(expected@[m]));
                        } else {
                            assert(actions@.push(a)[j] == Action::ConnectPeer(expected@[i as int]));
                        }
                    }
                    assert forall|j: int|
                        0 <= j < i && !online@.contains(expected@[j].public_key) implies actions@.push(
                            Action::ConnectPeer(p),
                        ).contains(Action::ConnectPeer(#[trigger] expected@[j])) by {
                        lemma_contains_push(
                            actions@,
                            Action::ConnectPeer(p),
                            Action::ConnectPeer(expected@[j]),
                        );
                    }
                    assert(actions@.push(Action::ConnectPeer(p))[actions@.len() as int]
                        == Action::ConnectPeer(expected@[i as int]));
                }
                actions.push(Action::ConnectPeer(p));
            }
            i = i + 1;
        }
        let mut dropped: Vec<PublicKey> = Vec::new();
        let mut k: usize = 0;
        while k < online.len()
            invariant
                0 <= k <= online@.len(),
                online@ == self.online_keys(),
                topology.wf(),
                actions@.no_duplicates(),
                forall|j: int|
                    0 <= j < actions@.len() ==> ((#[trigger] actions@[j]) is DisconnectPeer
                        ==> dropped@.contains(actions@[j]->DisconnectPeer_0)),
                forall|q: int|
                    0 <= q < k && !self.expects_key(*topology, online@[q]) ==> #[trigger] dropped@.contains(
                        online@[q],
                    ),
                forall|j: int|
                    0 <= j < dropped@.len() ==> actions@.contains(
                        Action::DisconnectPeer(#[trigger] dropped@[j]),
                    ),
                forall|j: int|
                    0 <= j < actions@.len() ==> match #[trigger] actions@[j] {
                        Action::ConnectPeer(p) => self.expects(*topology, p) && !online@.contains(
                            p.public_key,
                        ),
                        Action::DisconnectPeer(key) => online@.contains(key) && !self.expects_key(
                            *topology,
                            key,
                        ),
                        _ => false,
                    },
                forall|j: int|
                    0 <= j < expected@.len() && !online@.contains(expected@[j].public_key)
                        ==> actions@.contains(Action::ConnectPeer(#[trigger] expected@[j])),
                forall|q: int|
                    0 <= q < k && !self.expects_key(*topology, online@[q]) ==> actions@.contains(
                        Action::DisconnectPeer(#[trigger] online@[q]),
                    ),
            decreases online@.len() - k,
        {
            let key = online[k];
            let mut expected_key = false;
            let mut m: usize = 0;
            while m < topology.peers.len()
                invariant
                    0 <= m <= topology.peers@.len(),
                    expected_key ==> self.expects_key(*topology, key),
                    !expected_key ==> forall|q: int|
                        0 <= q < m ==> !(topology.peers@[q].address@ != self.peer_id.address@
                            && topology.peers@[q].public_key == key),
                decreases topology.peers@.len() - m,
            {
                if topology.peers[m].public_key == key && !(topology.peers[m].address
                    == self.peer_id.address) {
                    expected_key = true;
                }
                m = m + 1;
            }
            if !expected_key && !contains_key(&dropped, key) {
                proof {
                    assert(online@[k as int] == key);
                    assert(online@.contains(key));
                    let a = Action::DisconnectPeer(key);
                    assert forall|j: int| 0 <= j < actions@.len() implies actions@[j] != a by {
                        if actions@[j] == a {
                            assert(dropped@.contains(key));
                        }
                    }
                    assert forall|j: int| 0 <= j < dropped@.len() + 1 implies actions@.push(a).contains(
                        Action::DisconnectPeer(#[trigger] dropped@.push(key)[j]),
                    ) by {
                        if j < dropped@.len() {
                            assert(dropped@.push(key)[j] == dropped@[j]);
                            lemma_contains_push(actions@, a, Action::DisconnectPeer(dropped@[j]));
                        } else {
                            assert(actions@.push(a)[actions@.len() as int] == a);
                        }
                    }
                    assert forall|j: int| 0 <= j < actions@.len() + 1 && (#[trigger] actions@.push(a)[j]) is DisconnectPeer
                        implies dropped@.push(key).contains(actions@.push(a)[j]->DisconnectPeer_0) by {
                        if j < actions@.len() {
                            if actions@[j] is DisconnectPeer {
                                lemma_contains_push(dropped@, key, actions@[j]->DisconnectPeer_0);
                            }
                        } else {
                            assert(dropped@.push(key)[dropped@.len() as int] == key);
                        }
                    }
                    assert forall|q: int| 0 <= q < k && !self.expects_key(*topology, online@[q]) implies #[trigger] dropped@.push(key).contains(online@[q]) by {
                        lemma_contains_push(dropped@, key, online@[q]);
                    }
                    assert forall|j: int|
                        0 <= j < expected@.len() && !online@.contains(expected@[j].public_key)
                            implies actions@.push(a).contains(
                            Action::ConnectPeer(#[trigger] expected@[j]),
                        ) by {
                        lemma_contains_push(actions@, a, Action::ConnectPeer(expected@[j]));
                    }
                    assert forall|q: int|
                        0 <= q < k && !self.expects_key(*topology, online@[q]) implies actions@.push(
                            a,
                        ).contains(Action::DisconnectPeer(#[trigger] online@[q])) by {
                        lemma_contains_push(actions@, a, Action::DisconnectPeer(online@[q]));
                    }
                    assert(actions@.push(a)[actions@.len() as int] == a);
                }
                actions.push(Action::DisconnectPeer(key));
                dropped.push(key);
            }
            k = k + 1;
        }
        proof {
            assert forall|j: int|
                0 <= j < topology.peers@.len() && topology.peers@[j].address@
                    != self.peer_id.address@ && !self.online_keys().contains(
                    topology.peers@[j].public_key,
                ) implies actions@.contains(Action::ConnectPeer(#[trigger] topology.peers@[j])) by {
                let e = choose|e: int| 0 <= e < expected@.len() && expected@[e] == topology.peers@[j];
                assert(actions@.contains(Action::ConnectPeer(expected@[e])));
            }
            assert forall|key: PublicKey|
                #[trigger] self.online_keys().contains(key) && !self.expects_key(*topology, key)
                    implies actions@.contains(Action::DisconnectPeer(key)) by {
                let q = choose|q: int| 0 <= q < online@.len() && online@[q] == key;
                assert(dropped@.contains(online@[q]));
                let j = choose|j: int| 0 <= j < dropped@.len() && dropped@[j] == key;
                assert(actions@.contains(Action::DisconnectPeer(dropped@[j])));
            }
        }
        actions
    }

    /// A random connected peer to synchronise blocks from, if any is
    /// connected.
    pub fn get_random_peer_for_block_sync(&self) -> (r: Option<PeerId>)
        ensures
            r is None <==> self.current_online_peers@.len() == 0,
            r matches Some(p) ==> self.current_online_peers@.contains(p),
    {
        let n = self.current_online_peers.len();
        if n == 0 {
            return None;
        }
        let pick = (random_u32() as usize) % n;
        let p = self.current_online_peers[pick].clone();
        assert(self.current_online_peers@[pick as int] == p);
        Some(p)
    }
}


/// `new` is the proof chain `old` after this peer, holding `key`,
/// suggested view change `index` on top of block `h` under `t`.
///
/// With `k` the verified length of `old`: a suggestion for another index
/// than `k` leaves the chain; one for `k` keeps every other proof and puts
/// at `k` the proof for `k`, signed by the signers it had plus `key`, or by
/// `key` alone when `old` held no proof for `k`. When `key` had signed that
/// proof already, the verified length stays `k`.
pub open spec fn view_change_suggested(
    t: Topology,
    h: u64,
    old: Seq<Proof>,
    new: Seq<Proof>,
    index: u64,
    key: PublicKey,
) -> bool {
    forall|k: int|
        #[trigger] is_verified_length(t, h, old, k) ==> {
            &&& index != k ==> crate::view_change::proofs_agree(new, old)
            &&& index == k ==> {
                &&& new.len() == if k < old.len() {
                    old.len() as int
                } else {
                    k + 1
                }
                &&& forall|i: int|
                    0 <= i < new.len() && i != k ==> crate::view_change::proof_agrees(
                        #[trigger] new[i],
                        old[i],
                    )
                &&& new[k].latest_block_hash == h
                &&& new[k].view_change_index == k
                &&& signers(new[k].signatures@) == if k < old.len() && old[k].latest_block_hash
                    == h && old[k].view_change_index == k {
                    signers(old[k].signatures@).insert(key)
                } else {
                    set![key]
                }
            }
            &&& (index != k || (k < old.len() && old[k].latest_block_hash == h
                && old[k].view_change_index == k && signers(old[k].signatures@).contains(key)))
                ==> is_verified_length(t, h, new, k)
            &&& (index == k && !(k < old.len() && old[k].latest_block_hash == h
                && old[k].view_change_index == k) && t.spec_min_votes() > 1)
                ==> is_verified_length(t, h, new, k)
        }
}

/// `message` is a proposal of the first block reaching a peer with an
/// empty chain: a validating peer adopts the topology it carries.
pub open spec fn adopts_genesis(message: Option<Message>, height: u64) -> bool {
    match message {
        Some(Message::BlockCreated(b)) => b.header.height == 1 && height == 0,
        _ => false,
    }
}

/// The round that a step starts from `round` at height `height` holds no
/// voting block once a step has verified view-change index `index`: none
/// was held, or the height or the index moved.
pub open spec fn fresh_round(round: RoundState, height: u64, index: u64) -> bool {
    round.voting_block is None || round.seen_height != height || index
        != round.view_change_index
}

/// `actions` is empty and neither the state nor the round changed: the
/// message was rejected.
pub open spec fn rejected(
    actions: Seq<Action>,
    old_state: SumeragiStateMachineData,
    new_state: SumeragiStateMachineData,
    old_round: RoundState,
    new_round: RoundState,
) -> bool {
    actions.len() == 0 && new_state == old_state && new_round == old_round
}

impl<F: FaultInjection> SumeragiWithFault<F> {
    /// A validating peer receives a proposal. It rejects the proposal when
    /// it already holds a voting block, when the proposal's proofs verify
    /// to another view-change index than `current_index`, or when the
    /// leader did not sign it. Otherwise it keeps the proposal as its voting
    /// block and, when the proposal extends the latest block and passed
    /// validation against the world state, signs it for the proxy tail.
    pub fn validator_on_block_created(
        &self,
        state: &mut SumeragiStateMachineData,
        round: &mut RoundState,
        block: ValidBlock,
        now_ms: u64,
        current_index: u64,
        block_check_passed: bool,
    ) -> (r: Vec<Action>)
        requires
            old(state).wf(),
        ensures
            final(round).view_change_index == old(round).view_change_index,
            final(round).seen_height == old(round).seen_height,
            final(state).wf(),
            no_commit(r@),
            final(state).latest_block_hash == old(state).latest_block_hash,
            final(state).latest_block_height == old(state).latest_block_height,
            final(state).committed == old(state).committed,
            final(state).transaction_cache == old(state).transaction_cache,
            old(round).voting_block is Some ==> rejected(
                r@,
                *old(state),
                *final(state),
                *old(round),
                *final(round),
            ),
            !is_verified_length(
                old(state).current_topology,
                old(state).latest_block_hash,
                block.header.view_change_proofs.proofs@,
                current_index as int,
            ) ==> rejected(r@, *old(state), *final(state), *old(round), *final(round)),
            r@.len() > 0 ==> r@.len() == 1 && (r@[0] matches Action::SendTo(to, Message::BlockSigned(b))
                && to@ == seq![final(state).current_topology.spec_sorted_peers()[final(state).current_topology.proxy_tail_position()]] && b.hash == block.hash
                && signers(b.signatures@) == signers(block.signatures@).insert(
                self.peer_id.public_key,
            )),
            (old(round).voting_block is None && is_verified_length(
                old(state).current_topology,
                old(state).latest_block_hash,
                block.header.view_change_proofs.proofs@,
                current_index as int,
            ) && crate::block::spec_signed_by_leader(final(state).current_topology, block))
                ==> (final(round).voting_block matches Some(v) && v.block == block
                && v.voted_at_ms == now_ms),
            !(block.header.height == 1 && old(state).latest_block_height == 0)
                ==> final(state).current_topology == old(state).current_topology,
            r@.len() > 0 <==> (old(round).voting_block is None && is_verified_length(
                old(state).current_topology,
                old(state).latest_block_hash,
                block.header.view_change_proofs.proofs@,
                current_index as int,
            ) && crate::block::spec_signed_by_leader(final(state).current_topology, block)
                && block_check_passed && block.header.previous_block_hash
                == old(state).latest_block_hash && block.header.height
                == old(state).latest_block_height + 1),
    {
        if round.voting_block.is_some() {
            return Vec::new();
        }
        let index = block.header.view_change_proofs.verify_with_state(
            &state.current_topology,
            state.latest_block_hash,
        );
        if index as u64 != current_index {
            proof {
                if is_verified_length(
                    state.current_topology,
                    state.latest_block_hash,
                    block.header.view_change_proofs.proofs@,
                    current_index as int,
                ) {
                    crate::view_change::lemma_verified_length_unique(
                        state.current_topology,
                        state.latest_block_hash,
                        block.header.view_change_proofs.proofs@,
                        index as int,
                        current_index as int,
                    );
                }
            }
            return Vec::new();
        }
        if block.header.is_genesis() && state.latest_block_height == 0 {
            match &block.header.genesis_topology {
                Some(peers) => {
                    match Topology::new(copy_peers(peers), state.latest_block_hash, 0) {
                        Ok(t) => {
                            state.current_topology = t;
                        },
                        Err(_) => {},
                    }
                },
                None => {},
            }
        }
        if !signed_by_leader(&state.current_topology, &block) {
            return Vec::new();
        }
        let mut actions: Vec<Action> = Vec::new();
        if block_check_passed && block.header.previous_block_hash == state.latest_block_hash
            && state.latest_block_height < u64::MAX && block.header.height
            == state.latest_block_height + 1 {
            let mut signed = block.clone();
            push_unique_signer(&mut signed.signatures, Signature::new(self.peer_id.public_key));
            let proxy_tail = state.current_topology.proxy_tail();
            actions.push(Action::SendTo(vec![proxy_tail], Message::BlockSigned(signed)));
        }
        round.voting_block = Some(VotingBlock::new(block, now_ms));
        actions
    }

    /// The proxy tail receives a proposal. It rejects the proposal when it
    /// already holds a voting block, when the proposal's proofs verify to
    /// another view-change index than `current_index`, when it claims to be
    /// the first block, when the leader did not sign it, or when it does not
    /// extend the latest block. Otherwise the signatures of validating peers
    /// and the leader on it are collected, it becomes the voting block, and
    /// the commit deadline is set `commit_time_ms` ahead.
    pub fn proxy_tail_on_block_created(
        &self,
        state: &SumeragiStateMachineData,
        round: &mut RoundState,
        block: ValidBlock,
        now_ms: u64,
        current_index: u64,
    )
        requires
            state.wf(),
        ensures
            final(round).view_change_index == old(round).view_change_index,
            final(round).seen_height == old(round).seen_height,
            old(round).voting_block is Some ==> *final(round) == *old(round),
            !is_verified_length(
                state.current_topology,
                state.latest_block_hash,
                block.header.view_change_proofs.proofs@,
                current_index as int,
            ) ==> *final(round) == *old(round),
            block.header.height == 1 ==> *final(round) == *old(round),
            (old(round).voting_block is None && is_verified_length(
                state.current_topology,
                state.latest_block_hash,
                block.header.view_change_proofs.proofs@,
                current_index as int,
            ) && block.header.height != 1 && crate::block::spec_signed_by_leader(
                state.current_topology,
                block,
            ) && block.header.previous_block_hash == state.latest_block_hash
                && block.header.height == state.latest_block_height + 1) ==> {
                &&& final(round).voting_block matches Some(v) && v.block == block
                    && v.voted_at_ms == now_ms
                &&& final(round).commit_deadline_ms == sat_add(now_ms, self.commit_time_ms)
                &&& final(round).block_signature_acc@ == old(round).block_signature_acc@ + state.current_topology.spec_filter_signatures(
                    seq![Role::ValidatingPeer, Role::Leader],
                    block.signatures@,
                ).map_values(|s: Signature| (block.hash, s))
            },
            !(old(round).voting_block is None && is_verified_length(
                state.current_topology,
                state.latest_block_hash,
                block.header.view_change_proofs.proofs@,
                current_index as int,
            ) && block.header.height != 1 && crate::block::spec_signed_by_leader(
                state.current_topology,
                block,
            ) && block.header.previous_block_hash == state.latest_block_hash
                && block.header.height == state.latest_block_height + 1) ==> *final(round)
                == *old(round),
    {
        if round.voting_block.is_some() {
            return;
        }
        let index = block.header.view_change_proofs.verify_with_state(
            &state.current_topology,
            state.latest_block_hash,
        );
        if index as u64 != current_index {
            proof {
                if is_verified_length(
                    state.current_topology,
                    state.latest_block_hash,
                    block.header.view_change_proofs.proofs@,
                    current_index as int,
                ) {
                    crate::view_change::lemma_verified_length_unique(
                        state.current_topology,
                        state.latest_block_hash,
                        block.header.view_change_proofs.proofs@,
                        index as int,
                        current_index as int,
                    );
                }
            }
            return;
        }
        if block.header.is_genesis() || !signed_by_leader(&state.current_topology, &block) {
            return;
        }
        if block.header.previous_block_hash != state.latest_block_hash || state.latest_block_height
            == u64::MAX || block.header.height != state.latest_block_height + 1 {
            return;
        }
        self.collect_signatures(state, round, &block);
        round.voting_block = Some(VotingBlock::new(block, now_ms));
        round.commit_deadline_ms = later(now_ms, self.commit_time_ms);
    }

    /// Adds the signatures of validating peers and of the leader on
    /// `block` to the proxy tail's collection.
    fn collect_signatures(&self, state: &SumeragiStateMachineData, round: &mut RoundState, block: &ValidBlock)
        requires
            state.wf(),
        ensures
            final(round).block_signature_acc@ == old(round).block_signature_acc@ + state.current_topology.spec_filter_signatures(
                seq![Role::ValidatingPeer, Role::Leader],
                block.signatures@,
            ).map_values(|s: Signature| (block.hash, s)),
            final(round).voting_block == old(round).voting_block,
            final(round).commit_deadline_ms == old(round).commit_deadline_ms,
            final(round).view_change_proof_chain == old(round).view_change_proof_chain,
            final(round).view_change_index == old(round).view_change_index,
            final(round).seen_height == old(round).seen_height,
            final(round).has_sent_transactions == old(round).has_sent_transactions,
            final(round).sent_transaction_time_ms == old(round).sent_transaction_time_ms,
            final(round).block_deadline_ms == old(round).block_deadline_ms,
            final(round).last_gossip_time_ms == old(round).last_gossip_time_ms,
    {
        let roles = vec![Role::ValidatingPeer, Role::Leader];
        assert(roles@ =~= seq![Role::ValidatingPeer, Role::Leader]);
        let sigs = state.current_topology.filter_signatures_by_roles(&roles, &block.signatures);
        let ghost start = round.block_signature_acc@;
        let mut i: usize = 0;
        while i < sigs.len()
            invariant
                0 <= i <= sigs@.len(),
                round.block_signature_acc@ =~= start + sigs@.subrange(0, i as int).map_values(
                    |s: Signature| (block.hash, s),
                ),
                round.voting_block == old(round).voting_block,
                round.commit_deadline_ms == old(round).commit_deadline_ms,
                round.view_change_proof_chain == old(round).view_change_proof_chain,
                round.view_change_index == old(round).view_change_index,
                round.seen_height == old(round).seen_height,
                round.has_sent_transactions == old(round).has_sent_transactions,
                round.sent_transaction_time_ms == old(round).sent_transaction_time_ms,
                round.block_deadline_ms == old(round).block_deadline_ms,
                round.last_gossip_time_ms == old(round).last_gossip_time_ms,
            decreases sigs@.len() - i,
        {
            round.block_signature_acc.push((block.hash, sigs[i]));
            i = i + 1;
        }
        assert(sigs@.subrange(0, sigs@.len() as int) =~= sigs@);
    }

    /// The proxy tail receives a validating peer's signed copy of a block.
    /// A copy of another block than the voting block is ignored; otherwise
    /// the signatures of validating peers and the leader on it are
    /// collected.
    pub fn proxy_tail_on_block_signed(
        &self,
        state: &SumeragiStateMachineData,
        round: &mut RoundState,
        block: &ValidBlock,
    )
        requires
            state.wf(),
        ensures
            (old(round).voting_block matches Some(v) && v.block.hash != block.hash) ==> *final(round) == *old(round),
            !(old(round).voting_block matches Some(v) && v.block.hash != block.hash) ==> final(round).block_signature_acc@ == old(round).block_signature_acc@ + state.current_topology.spec_filter_signatures(
                seq![Role::ValidatingPeer, Role::Leader],
                block.signatures@,
            ).map_values(|s: Signature| (block.hash, s)),
            final(round).voting_block == old(round).voting_block,
            final(round).commit_deadline_ms == old(round).commit_deadline_ms,
            final(round).view_change_proof_chain == old(round).view_change_proof_chain,
            final(round).view_change_index == old(round).view_change_index,
            final(round).seen_height == old(round).seen_height,
            final(round).has_sent_transactions == old(round).has_sent_transactions,
            final(round).sent_transaction_time_ms == old(round).sent_transaction_time_ms,
            final(round).block_deadline_ms == old(round).block_deadline_ms,
            final(round).last_gossip_time_ms == old(round).last_gossip_time_ms,
    {
        match &round.voting_block {
            Some(v) => {
                if v.block.hash != block.hash {
                    return;
                }
            },
            None => {},
        }
        self.collect_signatures(state, round, block);
    }

    /// The proxy tail counts the votes on its voting block: one per
    /// validating peer that signed it, however many of its signatures were
    /// collected, plus its own. With `2f + 1` votes it re-signs the block
    /// with one signature per such validating peer and its own, and
    /// broadcasts and commits it when it extends the latest block. Short of
    /// `2f + 1` votes it commits nothing; once the commit deadline has
    /// passed, it suggests a view change and moves the deadline
    /// `commit_time_ms` on.
    pub fn proxy_tail_count_votes(
        &self,
        state: &SumeragiStateMachineData,
        round: &mut RoundState,
        now_ms: u64,
        current_index: u64,
    ) -> (r: Vec<Action>)
        requires
            state.wf(),
        ensures
            final(round).view_change_index == old(round).view_change_index,
            final(round).seen_height == old(round).seen_height,
            commits_allowed(r@, state.current_topology, state.latest_block_hash),
            old(round).voting_block is None ==> r@.len() == 0 && *final(round) == *old(round),
            old(round).voting_block matches Some(v) ==> {
                let voter_set = voters(
                    state.current_topology,
                    old(round).block_signature_acc@,
                    v.block.hash,
                );
                let votes = voter_set.len() + 1;
                let min = state.current_topology.spec_min_votes();
                &&& votes >= min ==> final(round).voting_block is None
                &&& (votes >= min && r@.len() > 0) ==> r@.len() == 2 && (r@[0] matches Action::Broadcast(
                    Message::BlockCommitted(b),
                ) && b.hash == v.block.hash && signers(b.signatures@) == voter_set.insert(
                    self.peer_id.public_key,
                ) && signer_keys(b.signatures@).no_duplicates()) && (r@[1] matches Action::Commit(b) && b.hash == v.block.hash
                    && b.header.previous_block_hash == v.block.header.previous_block_hash
                    && b.header.height == v.block.header.height && signers(b.signatures@)
                    == voter_set.insert(self.peer_id.public_key)
                    && signer_keys(b.signatures@).no_duplicates())
                &&& (votes >= min && state.current_topology.key_role(self.peer_id.public_key)
                    == Some(Role::ProxyTail) && v.block.header.previous_block_hash
                    == state.latest_block_hash) ==> r@.len() == 2
                &&& votes < min ==> no_commit(r@) && final(round).voting_block
                    == old(round).voting_block
                &&& (votes < min && now_ms <= old(round).commit_deadline_ms) ==> r@.len() == 0
                    && *final(round) == *old(round)
                &&& (votes < min && now_ms > old(round).commit_deadline_ms) ==> r@.len() == 1
                    && (r@[0] matches Action::Broadcast(Message::ViewChangeSuggested(c))
                    && crate::view_change::proofs_agree(
                    c.proofs@,
                    final(round).view_change_proof_chain.proofs@,
                )) && final(round).commit_deadline_ms == sat_add(
                    old(round).commit_deadline_ms,
                    self.commit_time_ms,
                ) && view_change_suggested(
                    state.current_topology,
                    state.latest_block_hash,
                    old(round).view_change_proof_chain.proofs@,
                    final(round).view_change_proof_chain.proofs@,
                    current_index,
                    self.peer_id.public_key,
                )
            },
    {
        let hash = match &round.voting_block {
            None => {
                return Vec::new();
            },
            Some(v) => v.block.hash,
        };
        let ghost t = state.current_topology;
        let votes = collect_votes(&state.current_topology, &round.block_signature_acc, hash);
        let min_votes = state.current_topology.min_votes_for_commit();
        let mut actions: Vec<Action> = Vec::new();
        if votes.len() >= min_votes - 1 {
            let taken = round.voting_block.take();
            match taken {
                Some(v) => {
                    let mut block = v.block;
                    let ghost vs = votes@;
                    let me = Signature::new(self.peer_id.public_key);
                    block.signatures = votes;
                    proof {
                        if signers(vs).contains(me.public_key) {
                            let i = choose|i: int|
                                0 <= i < vs.len() && crate::peer::signer_keys(vs)[i]
                                    == me.public_key;
                            assert(t.key_role(vs[i].public_key) == Some(Role::ValidatingPeer));
                        }
                    }
                    push_unique_signer(&mut block.signatures, me);
                    proof {
                        crate::peer::lemma_signers_push(vs, me);
                        if !signers(vs).contains(me.public_key) {
                            assert(!signer_keys(vs).contains(me.public_key));
                        }
                        assert(signer_keys(block.signatures@).no_duplicates());
                        if t.key_role(me.public_key) == Some(Role::ProxyTail) {
                            assert(!signers(vs).contains(me.public_key)) by {
                                if signers(vs).contains(me.public_key) {
                                    let i = choose|i: int|
                                        0 <= i < vs.len() && crate::peer::signer_keys(vs)[i]
                                            == me.public_key;
                                    assert(vs[i].public_key == me.public_key);
                                    assert(t.key_role(vs[i].public_key) == Some(
                                        Role::ValidatingPeer,
                                    ));
                                }
                            }
                            assert(block.signatures@ == vs.push(me));
                            let voting = crate::block::voting_roles();
                            assert(voting[0] == Role::ValidatingPeer);
                            assert(voting[2] == Role::ProxyTail);
                            assert forall|i: int| 0 <= i < vs.len() implies (t.role_filter(voting))(
                                #[trigger] vs[i],
                            ) by {
                                assert(t.key_role(vs[i].public_key) == Some(Role::ValidatingPeer));
                                assert(voting.contains(Role::ValidatingPeer));
                            }
                            crate::topology::lemma_filter_all(vs, t.role_filter(voting));
                            assert(voting.contains(Role::ProxyTail));
                            crate::topology::lemma_filter_push(vs, me, t.role_filter(voting));
                            crate::peer::lemma_signers_push(vs, me);
                            assert(signers(vs).len() == vs.len());
                            let tail = seq![Role::ProxyTail];
                            assert forall|i: int| 0 <= i < vs.len() implies !(t.role_filter(tail))(
                                #[trigger] vs[i],
                            ) by {
                                assert(t.key_role(vs[i].public_key) == Some(Role::ValidatingPeer));
                                if tail.contains(Role::ValidatingPeer) {
                                    let j = choose|j: int|
                                        0 <= j < tail.len() && tail[j] == Role::ValidatingPeer;
                                }
                            }
                            crate::topology::lemma_filter_none(vs, t.role_filter(tail));
                            assert(tail[0] == Role::ProxyTail);
                            assert(tail.contains(Role::ProxyTail));
                            crate::topology::lemma_filter_push(vs, me, t.role_filter(tail));
                        }
                    }
                    if can_commit(&state.current_topology, &block, state.latest_block_hash) {
                        actions.push(Action::Broadcast(Message::BlockCommitted(block.clone())));
                        actions.push(Action::Commit(block));
                    }
                },
                None => {},
            }
            return actions;
        }
        if now_ms > round.commit_deadline_ms {
            actions.push(self.request_view_change(state, &mut round.view_change_proof_chain, current_index));
            round.commit_deadline_ms = later(round.commit_deadline_ms, self.commit_time_ms);
        }
        proof {
            lemma_no_commit_allowed(actions@, state.current_topology, state.latest_block_hash);
        }
        actions
    }
}


proof fn lemma_commits_allowed_push(actions: Seq<Action>, a: Action, t: Topology, h: u64)
    requires
        commits_allowed(actions, t, h),
        match a {
            Action::Commit(b) => commit_allowed(t, b, h),
            _ => true,
        },
    ensures
        commits_allowed(actions.push(a), t, h),
{
    assert forall|i: int| 0 <= i < actions.push(a).len() implies match #[trigger] actions.push(
        a,
    )[i] {
        Action::Commit(b) => commit_allowed(t, b, h),
        _ => true,
    } by {
        if i < actions.len() {
            assert(actions.push(a)[i] == actions[i]);
        }
    }
}

proof fn lemma_contains_push<A>(s: Seq<A>, x: A, y: A)
    requires
        s.contains(y),
    ensures
        s.push(x).contains(y),
{
    let i = choose|i: int| 0 <= i < s.len() && s[i] == y;
    assert(s.push(x)[i] == y);
}

proof fn lemma_contains_append<A>(a: Seq<A>, b: Seq<A>, y: A)
    requires
        a.contains(y),
    ensures
        (a + b).contains(y),
{
    let i = choose|i: int| 0 <= i < a.len() && a[i] == y;
    assert((a + b)[i] == y);
}

proof fn lemma_commits_allowed_append(a: Seq<Action>, b: Seq<Action>, t: Topology, h: u64)
    requires
        commits_allowed(a, t, h),
        commits_allowed(b, t, h),
    ensures
        commits_allowed(a + b, t, h),
{
    assert forall|i: int| 0 <= i < (a + b).len() implies match #[trigger] (a + b)[i] {
        Action::Commit(x) => commit_allowed(t, x, h),
        _ => true,
    } by {
        if i < a.len() {
            assert((a + b)[i] == a[i]);
        } else {
            assert((a + b)[i] == b[i - a.len()]);
        }
    }
}

impl<F: FaultInjection> SumeragiWithFault<F> {
    /// The leader's proposal, when it holds no voting block: with an empty
    /// cache it moves the block deadline `block_time_ms` past `now_ms`;
    /// with cached transactions it proposes all of them on top of the
    /// latest block once the deadline has passed or the cache is full.
    /// While a proposal waits for its commit, a passed commit deadline
    /// makes it suggest a view change and move that deadline on.
    pub fn leader_propose(
        &self,
        state: &SumeragiStateMachineData,
        round: &mut RoundState,
        now_ms: u64,
        current_index: u64,
    ) -> (r: Vec<Action>)
        requires
            state.wf(),
        ensures
            final(round).view_change_index == old(round).view_change_index,
            final(round).seen_height == old(round).seen_height,
            state.transaction_cache.transactions@.len() > 0 ==> final(round).block_deadline_ms
                == old(round).block_deadline_ms,
            no_commit(r@),
            final(round).voting_block == old(round).voting_block,
            (old(round).voting_block is None && state.transaction_cache.transactions@.len()
                == 0) ==> r@.len() == 0 && final(round).block_deadline_ms == sat_add(
                now_ms,
                self.block_time_ms,
            ),
            (old(round).voting_block is None && state.transaction_cache.transactions@.len() > 0
                && (now_ms > old(round).block_deadline_ms
                || state.transaction_cache.transactions@.len()
                >= state.transaction_cache.capacity) && state.latest_block_height < u64::MAX)
                ==> r@.len() == 1 && (r@[0] matches Action::Propose(p) && p.header.height
                == state.latest_block_height + 1 && p.header.previous_block_hash
                == state.latest_block_hash && p.header.genesis_topology is None
                && p.transactions@ == state.transaction_cache.transactions@
                && crate::view_change::proofs_agree(
                p.header.view_change_proofs.proofs@,
                old(round).view_change_proof_chain.proofs@,
            )),
            (old(round).voting_block is None && !(state.transaction_cache.transactions@.len() > 0
                && (now_ms > old(round).block_deadline_ms
                || state.transaction_cache.transactions@.len()
                >= state.transaction_cache.capacity) && state.latest_block_height < u64::MAX))
                ==> r@.len() == 0,
            (old(round).voting_block is Some && now_ms <= old(round).commit_deadline_ms) ==> r@.len()
                == 0 && *final(round) == *old(round),
            (old(round).voting_block is Some && now_ms > old(round).commit_deadline_ms) ==> r@.len()
                == 1 && (r@[0] matches Action::Broadcast(Message::ViewChangeSuggested(_)))
                && final(round).commit_deadline_ms == sat_add(
                old(round).commit_deadline_ms,
                self.commit_time_ms,
            ),
    {
        let mut actions: Vec<Action> = Vec::new();
        if round.voting_block.is_none() {
            if state.transaction_cache.is_empty() {
                round.block_deadline_ms = later(now_ms, self.block_time_ms);
                return actions;
            }
            if (now_ms > round.block_deadline_ms || state.transaction_cache.is_full())
                && state.latest_block_height < u64::MAX {
                let pending = PendingBlock::chain(
                    copy_transactions(&state.transaction_cache.transactions),
                    state.latest_block_height,
                    state.latest_block_hash,
                    round.view_change_proof_chain.clone(),
                );
                actions.push(Action::Propose(pending));
            }
        } else if now_ms > round.commit_deadline_ms {
            actions.push(
                self.request_view_change(state, &mut round.view_change_proof_chain, current_index),
            );
            round.commit_deadline_ms = later(round.commit_deadline_ms, self.commit_time_ms);
        }
        actions
    }

    /// The leader gets its proposal back validated and hashed. It rejects
    /// it unless it is the leader, holds no voting block, and the block
    /// extends the latest block. Otherwise it signs the block. Alone in the
    /// network it broadcasts and commits it at once, and clears the round's
    /// view-change state; else it sends it to the validating peers and the
    /// proxy tail, keeps it as its voting block and sets the commit deadline
    /// `commit_time_ms` ahead.
    pub fn on_block_assembled(
        &self,
        state: &SumeragiStateMachineData,
        round: &mut RoundState,
        block: ValidBlock,
        now_ms: u64,
    ) -> (r: Vec<Action>)
        requires
            state.wf(),
        ensures
            !(state.current_topology.peer_role(self.peer_id) == Role::Leader
                && old(round).voting_block is None && block.header.previous_block_hash
                == state.latest_block_hash && block.header.height == state.latest_block_height
                + 1) ==> r@.len() == 0 && *final(round) == *old(round),
            (state.current_topology.peer_role(self.peer_id) == Role::Leader
                && old(round).voting_block is None && block.header.previous_block_hash
                == state.latest_block_hash && block.header.height == state.latest_block_height
                + 1) ==> {
                &&& state.current_topology.n() == 1 ==> {
                    &&& r@.len() == 2
                    &&& r@[0] matches Action::Broadcast(Message::BlockCommitted(b)) && b.hash
                        == block.hash
                    &&& r@[1] matches Action::Commit(b) && b.hash == block.hash
                        && b.header.previous_block_hash == state.latest_block_hash
                        && b.header.height == state.latest_block_height + 1 && signers(
                        b.signatures@,
                    ) == signers(block.signatures@).insert(self.peer_id.public_key)
                    &&& final(round).voting_block is None
                    &&& final(round).view_change_index == 0
                    &&& final(round).view_change_proof_chain.proofs@.len() == 0
                }
                &&& state.current_topology.n() > 1 ==> {
                    &&& r@.len() == 1
                    &&& r@[0] matches Action::SendTo(to, Message::BlockCreated(b)) && to@
                        == state.current_topology.spec_sorted_peers().subrange(
                        1,
                        state.current_topology.proxy_tail_position() + 1,
                    ) && b.hash == block.hash && signers(b.signatures@) == signers(
                        block.signatures@,
                    ).insert(self.peer_id.public_key)
                    &&& final(round).voting_block matches Some(v) && v.block.hash == block.hash
                    &&& final(round).commit_deadline_ms == sat_add(now_ms, self.commit_time_ms)
                }
            },
    {
        if state.current_topology.role(&self.peer_id) != Role::Leader || round.voting_block.is_some()
            || block.header.previous_block_hash != state.latest_block_hash
            || state.latest_block_height == u64::MAX || block.header.height
            != state.latest_block_height + 1 {
            return Vec::new();
        }
        let mut block = block;
        push_unique_signer(&mut block.signatures, Signature::new(self.peer_id.public_key));
        let mut actions: Vec<Action> = Vec::new();
        if !state.current_topology.is_consensus_required() {
            round.has_sent_transactions = false;
            round.voting_block = None;
            round.view_change_index = 0;
            round.view_change_proof_chain.clear();
            actions.push(Action::Broadcast(Message::BlockCommitted(block.clone())));
            actions.push(Action::Commit(block));
            return actions;
        }
        let set_a = state.current_topology.peers_set_a();
        round.voting_block = Some(VotingBlock::new(block.clone(), now_ms));
        round.commit_deadline_ms = later(now_ms, self.commit_time_ms);
        actions.push(Action::SendTo(set_a, Message::BlockCreated(block)));
        actions
    }

    /// A peer other than the leader checks that the leader is alive: once a
    /// round, it forwards a random cached transaction to the leader when the
    /// transaction's signature conditions are met (its hash is in `ready`).
    /// When no block came a pipeline time after that, it suggests a view
    /// change.
    pub fn probe_leader(
        &self,
        state: &SumeragiStateMachineData,
        round: &mut RoundState,
        now_ms: u64,
        current_index: u64,
        ready: &Vec<u64>,
    ) -> (r: Vec<Action>)
        requires
            state.wf(),
        ensures
            final(round).view_change_index == old(round).view_change_index,
            final(round).seen_height == old(round).seen_height,
            no_commit(r@),
            final(round).voting_block == old(round).voting_block,
            old(round).has_sent_transactions ==> final(round).has_sent_transactions,
            forall|i: int|
                0 <= i < r@.len() ==> match #[trigger] r@[i] {
                    Action::SendTo(to, Message::TransactionForwarded(f)) => to@ == seq![
                        state.current_topology.spec_sorted_peers()[0],
                    ] && state.transaction_cache.transactions@.contains(f.transaction)
                        && ready@.contains(f.transaction.hash) && !old(round).has_sent_transactions,
                    Action::Broadcast(Message::ViewChangeSuggested(_)) => final(round).has_sent_transactions,
                    _ => false,
                },
            (!old(round).has_sent_transactions && state.transaction_cache.transactions@.len() > 0
                && forall|t: Transaction|
                #[trigger] state.transaction_cache.transactions@.contains(t) ==> ready@.contains(
                    t.hash,
                )) ==> r@.len() == 1 && (r@[0] matches Action::SendTo(
                _,
                Message::TransactionForwarded(_),
            )) && final(round).has_sent_transactions && final(round).sent_transaction_time_ms
                == now_ms,
            (old(round).has_sent_transactions && now_ms as int
                - old(round).sent_transaction_time_ms as int > sat_add(
                self.block_time_ms,
                self.commit_time_ms,
            ) as int) ==> r@.len() == 1 && (r@[0] matches Action::Broadcast(
                Message::ViewChangeSuggested(c),
            ) && crate::view_change::proofs_agree(
                c.proofs@,
                final(round).view_change_proof_chain.proofs@,
            )) && final(round).sent_transaction_time_ms == now_ms && view_change_suggested(
                state.current_topology,
                state.latest_block_hash,
                old(round).view_change_proof_chain.proofs@,
                final(round).view_change_proof_chain.proofs@,
                current_index,
                self.peer_id.public_key,
            ),
    {
        let mut actions: Vec<Action> = Vec::new();
        if !state.transaction_cache.is_empty() && !round.has_sent_transactions {
            match choose_transaction(&state.transaction_cache.transactions) {
                Some(tx) => {
                    proof {
                        assert(state.transaction_cache.transactions@.contains(tx));
                    }
                    if contains_u64(ready, tx.hash) {
                        let leader = state.current_topology.leader();
                        let forwarded = TransactionForwarded {
                            transaction: tx,
                            peer: self.peer_id.clone(),
                            view_change_proofs: round.view_change_proof_chain.clone(),
                        };
                        actions.push(
                            Action::SendTo(vec![leader], Message::TransactionForwarded(forwarded)),
                        );
                        round.has_sent_transactions = true;
                        round.sent_transaction_time_ms = now_ms;
                    }
                },
                None => {},
            }
        }
        if round.has_sent_transactions && now_ms > round.sent_transaction_time_ms && now_ms
            - round.sent_transaction_time_ms > self.pipeline_time() {
            let a = self.request_view_change(
                state,
                &mut round.view_change_proof_chain,
                current_index,
            );
            actions.push(a);
            round.sent_transaction_time_ms = now_ms;
        }
        actions
    }

    /// One turn of the consensus loop at time `now_ms`, with the message
    /// received, if any. `block_check_passed` says whether a received
    /// proposal passed validation against the world state; `ready` holds
    /// the hashes of the cached transactions whose signature conditions are
    /// met.
    ///
    /// Proofs carried by the message join the view-change chain; a new
    /// height or a new verified view-change index starts a new round and
    /// rebuilds the topology. Then the peer acts in its role. Every block
    /// it commits carries a commit quorum and extends the latest block.
    pub fn step(
        &self,
        state: &mut SumeragiStateMachineData,
        round: &mut RoundState,
        now_ms: u64,
        message: Option<Message>,
        block_check_passed: bool,
        ready: &Vec<u64>,
    ) -> (r: Vec<Action>)
        requires
            old(state).wf(),
        ensures
            final(state).wf(),
            final(state).latest_block_hash == old(state).latest_block_hash,
            final(state).latest_block_height == old(state).latest_block_height,
            final(state).committed == old(state).committed,
            final(state).transaction_cache == old(state).transaction_cache,
            commits_allowed(r@, final(state).current_topology, final(state).latest_block_hash),
            (message matches Some(Message::BlockCommitted(b)) && final(state).current_topology.peer_role(self.peer_id) != Role::ProxyTail && commit_allowed(
                final(state).current_topology,
                b,
                final(state).latest_block_hash,
            )) ==> r@.len() > 0 && r@.last() == Action::Commit(message->Some_0->BlockCommitted_0),
            (message matches Some(Message::TransactionForwarded(_)) && final(state).current_topology.peer_role(self.peer_id) == Role::Leader) ==> r@.contains(
                Action::Enqueue(message->Some_0->TransactionForwarded_0.transaction),
            ),
            message matches Some(Message::TransactionGossip(txs)) ==> forall|j: int|
                0 <= j < txs@.len() ==> r@.contains(Action::Enqueue(#[trigger] txs@[j])),
            final(round).seen_height == final(state).latest_block_height,
            !adopts_genesis(message, old(state).latest_block_height) ==> {
                &&& final(state).current_topology.peers@ == old(state).current_topology.peers@
                &&& final(state).current_topology.at_block == old(state).current_topology.at_block
                &&& final(round).view_change_index != old(round).view_change_index
                    ==> final(state).current_topology.view_change_index
                    == final(round).view_change_index
                &&& final(round).view_change_index == old(round).view_change_index
                    ==> final(state).current_topology == old(state).current_topology
            },
            (final(state).current_topology.peer_role(self.peer_id) == Role::Leader && !(
            message matches Some(Message::BlockCommitted(_))) && !adopts_genesis(
                message,
                old(state).latest_block_height,
            ) && final(round).voting_block is None
                && final(state).transaction_cache.transactions@.len() > 0 && (now_ms
                > final(round).block_deadline_ms || final(state).transaction_cache.transactions@.len()
                >= final(state).transaction_cache.capacity) && final(state).latest_block_height
                < u64::MAX) ==> r@.len() > 0 && (r@.last() matches Action::Propose(p)
                && p.header.height == final(state).latest_block_height + 1
                && p.header.previous_block_hash == final(state).latest_block_hash
                && p.transactions@ == final(state).transaction_cache.transactions@),
            (final(state).current_topology.peer_role(self.peer_id) == Role::ValidatingPeer && (
            message matches Some(Message::BlockCreated(_))) && !adopts_genesis(
                message,
                old(state).latest_block_height,
            )) ==> {
                let b = message->Some_0->BlockCreated_0;
                let t = final(state).current_topology;
                let fresh = fresh_round(
                    *old(round),
                    old(state).latest_block_height,
                    final(round).view_change_index,
                );
                let accepted = fresh && is_verified_length(
                    t,
                    final(state).latest_block_hash,
                    b.header.view_change_proofs.proofs@,
                    final(round).view_change_index as int,
                ) && crate::block::spec_signed_by_leader(t, b);
                &&& !fresh ==> final(round).voting_block == old(round).voting_block
                &&& accepted ==> (final(round).voting_block matches Some(v) && v.block == b)
                &&& (accepted && block_check_passed && b.header.previous_block_hash
                    == final(state).latest_block_hash && b.header.height
                    == final(state).latest_block_height + 1) ==> r@.len() > 0 && (r@.last() matches Action::SendTo(
                    to,
                    Message::BlockSigned(signed),
                ) && to@ == seq![t.spec_sorted_peers()[t.proxy_tail_position()]] && signed.hash
                    == b.hash && signers(signed.signatures@) == signers(b.signatures@).insert(
                    self.peer_id.public_key,
                ))
            },
    {
        let mut actions: Vec<Action> = Vec::new();
        let ghost gossip: Seq<Transaction> = Seq::empty();
        match self.gossip(state, round, now_ms) {
            Some(a) => actions.push(a),
            None => {},
        }
        let message = match message {
            Some(Message::TransactionGossip(txs)) => {
                let mut i: usize = 0;
                while i < txs.len()
                    invariant
                        0 <= i <= txs@.len(),
                        no_commit(actions@),
                        forall|j: int|
                            0 <= j < i ==> actions@.contains(Action::Enqueue(#[trigger] txs@[j])),
                    decreases txs@.len() - i,
                {
                    proof {
                        assert forall|j: int| 0 <= j < i implies actions@.push(
                            Action::Enqueue(txs[i as int]),
                        ).contains(Action::Enqueue(#[trigger] txs@[j])) by {
                            lemma_contains_push(actions@, Action::Enqueue(txs[i as int]), Action::Enqueue(txs@[j]));
                        }
                        assert(actions@.push(Action::Enqueue(txs[i as int]))[actions@.len() as int]
                            == Action::Enqueue(txs@[i as int]));
                    }
                    actions.push(Action::Enqueue(txs[i]));
                    i = i + 1;
                }
                proof {
                    gossip = txs@;
                }
                None
            },
            Some(Message::ViewChangeSuggested(proofs)) => {
                self.absorb_proofs(state, &mut round.view_change_proof_chain, &proofs);
                None
            },
            Some(Message::TransactionForwarded(f)) => {
                self.absorb_proofs(state, &mut round.view_change_proof_chain, &f.view_change_proofs);
                Some(Message::TransactionForwarded(f))
            },
            Some(Message::BlockCreated(b)) => {
                self.absorb_proofs(
                    state,
                    &mut round.view_change_proof_chain,
                    &b.header.view_change_proofs,
                );
                Some(Message::BlockCreated(b))
            },
            Some(Message::BlockSigned(b)) => {
                self.absorb_proofs(
                    state,
                    &mut round.view_change_proof_chain,
                    &b.header.view_change_proofs,
                );
                Some(Message::BlockSigned(b))
            },
            Some(Message::BlockCommitted(b)) => {
                self.absorb_proofs(
                    state,
                    &mut round.view_change_proof_chain,
                    &b.header.view_change_proofs,
                );
                Some(Message::BlockCommitted(b))
            },
            None => None,
        };
        let current = self.update_view(state, round, now_ms);
        let ghost mid_round = *round;
        let ghost mid_state = *state;
        let role = state.current_topology.role(&self.peer_id);
        if role != Role::Leader {
            let mut probe = self.probe_leader(state, round, now_ms, current, ready);
            proof {
                assert forall|j: int| 0 <= j < gossip.len() && actions@.contains(Action::Enqueue(gossip[j])) implies (actions@ + probe@).contains(
                    Action::Enqueue(#[trigger] gossip[j]),
                ) by {
                    lemma_contains_append(actions@, probe@, Action::Enqueue(gossip[j]));
                }
            }
            actions.append(&mut probe);
        }
        proof {
            lemma_no_commit_allowed(actions@, state.current_topology, state.latest_block_hash);
        }
        let ghost before = actions@;
        let ghost mut forwarded: Option<Transaction> = None;
        let mut handled: Vec<Action> = Vec::new();
        if role == Role::ObservingPeer {
            match message {
                Some(Message::BlockCommitted(b)) => match self.on_block_committed(state, b) {
                    Some(a) => handled.push(a),
                    None => {},
                },
                _ => {},
            }
        } else if role == Role::Leader {
            let mut committed = false;
            match message {
                Some(Message::TransactionForwarded(f)) => {
                    handled.push(Action::Enqueue(f.transaction));
                    proof {
                        forwarded = Some(f.transaction);
                        assert(handled@[0] == Action::Enqueue(f.transaction));
                    }
                },
                Some(Message::BlockCommitted(b)) => match self.on_block_committed(state, b) {
                    Some(a) => {
                        handled.push(a);
                        committed = true;
                    },
                    None => {},
                },
                _ => {},
            }
            if !committed {
                let mut proposal = self.leader_propose(state, round, now_ms, current);
                let ghost proposed = proposal@;
                proof {
                    lemma_no_commit_allowed(
                        proposal@,
                        state.current_topology,
                        state.latest_block_hash,
                    );
                    lemma_commits_allowed_append(
                        handled@,
                        proposal@,
                        state.current_topology,
                        state.latest_block_hash,
                    );
                    if forwarded is Some {
                        lemma_contains_append(handled@, proposal@, Action::Enqueue(forwarded->Some_0));
                    }
                }
                handled.append(&mut proposal);
                proof {
                    if proposed.len() > 0 {
                        assert(handled@.last() == proposed.last());
                    }
                }
            }
        } else if role == Role::ValidatingPeer {
            match message {
                Some(Message::BlockCreated(b)) => {
                    let mut out = self.validator_on_block_created(
                        state,
                        round,
                        b,
                        now_ms,
                        current,
                        block_check_passed,
                    );
                    proof {
                        lemma_no_commit_allowed(
                            out@,
                            state.current_topology,
                            state.latest_block_hash,
                        );
                        lemma_no_commit_allowed(
                            actions@,
                            state.current_topology,
                            state.latest_block_hash,
                        );
                    }
                    let ghost signed_out = out@;
                    handled.append(&mut out);
                    proof {
                        assert(handled@ == signed_out);
                    }
                },
                Some(Message::BlockCommitted(b)) => match self.on_block_committed(state, b) {
                    Some(a) => handled.push(a),
                    None => {},
                },
                _ => {},
            }
        } else {
            match message {
                Some(Message::BlockCreated(b)) => {
                    self.proxy_tail_on_block_created(state, round, b, now_ms, current);
                },
                Some(Message::BlockSigned(b)) => {
                    self.proxy_tail_on_block_signed(state, round, &b);
                },
                _ => {},
            }
            let mut out = self.proxy_tail_count_votes(state, round, now_ms, current);
            handled.append(&mut out);
        }
        proof {
            lemma_commits_allowed_append(
                actions@,
                handled@,
                state.current_topology,
                state.latest_block_hash,
            );
            assert forall|j: int| 0 <= j < gossip.len() && actions@.contains(Action::Enqueue(gossip[j])) implies (actions@ + handled@).contains(
                Action::Enqueue(#[trigger] gossip[j]),
            ) by {
                lemma_contains_append(actions@, handled@, Action::Enqueue(gossip[j]));
            }
            if forwarded is Some {
                let tx = forwarded->Some_0;
                let i = choose|i: int| 0 <= i < handled@.len() && handled@[i] == Action::Enqueue(tx);
                assert((actions@ + handled@)[actions@.len() + i] == Action::Enqueue(tx));
            }
        }
        actions.append(&mut handled);
        actions
    }

    /// The first block that this peer publishes, when it holds the genesis
    /// transactions: those transactions, under the zero hash, carrying the
    /// current peers as the genesis topology. `None` on a peer that waits
    /// for the first block from another.
    pub fn genesis_proposal(&self, state: &SumeragiStateMachineData) -> (r: Option<PendingBlock>)
        requires
            state.latest_block_height == 0,
            state.latest_block_hash == 0,
            state.genesis_transactions matches Some(txs) ==> txs@.len() > 0,
        ensures
            state.genesis_transactions is None ==> r is None,
            state.genesis_transactions matches Some(txs) ==> (r matches Some(p)
                && p.header.height == 1 && p.header.previous_block_hash == 0
                && p.header.view_change_proofs.proofs@.len() == 0 && p.transactions@ == txs@
                && (p.header.genesis_topology matches Some(g) && g@
                == state.current_topology.peers@)),
    {
        match &state.genesis_transactions {
            None => None,
            Some(txs) => Some(
                PendingBlock::chain_first_with_genesis_topology(
                    copy_transactions(txs),
                    copy_peers(&state.current_topology.peers),
                ),
            ),
        }
    }

    /// The genesis peer publishes its first block, validated and hashed:
    /// signed, it is broadcast and committed. Rejected unless the chain is
    /// empty and the block is the first one.
    pub fn publish_genesis(&self, state: &SumeragiStateMachineData, block: ValidBlock) -> (r: Vec<
        Action,
    >)
        ensures
            !(state.latest_block_height == 0 && state.latest_block_hash == 0
                && block.header.height == 1 && block.header.previous_block_hash == 0) ==> r@.len()
                == 0,
            (state.latest_block_height == 0 && state.latest_block_hash == 0
                && block.header.height == 1 && block.header.previous_block_hash == 0) ==> {
                &&& r@.len() == 2
                &&& r@[0] matches Action::Broadcast(Message::BlockCommitted(b)) && b.hash
                    == block.hash
                &&& r@[1] matches Action::Commit(b) && b.hash == block.hash && b.header.height == 1
                    && b.header.previous_block_hash == 0 && signers(b.signatures@) == signers(
                    block.signatures@,
                ).insert(self.peer_id.public_key)
            },
    {
        if state.latest_block_height != 0 || state.latest_block_hash != 0 || block.header.height
            != 1 || block.header.previous_block_hash != 0 {
            return Vec::new();
        }
        let mut block = block;
        push_unique_signer(&mut block.signatures, Signature::new(self.peer_id.public_key));
        let mut actions: Vec<Action> = Vec::new();
        actions.push(Action::Broadcast(Message::BlockCommitted(block.clone())));
        actions.push(Action::Commit(block));
        actions
    }

    /// A peer waiting for the first block receives a message; a peer alone
    /// in its topology has nobody to receive it from. A committed
    /// first block that carries a valid genesis topology is taken as it is:
    /// this peer adopts the topology and returns the block to commit. Any
    /// other message is ignored.
    pub fn accept_genesis(&self, state: &mut SumeragiStateMachineData, message: Message) -> (r:
        Option<ValidBlock>)
        requires
            old(state).wf(),
            old(state).current_topology.n() > 1,
        ensures
            final(state).wf(),
            final(state).latest_block_hash == old(state).latest_block_hash,
            final(state).latest_block_height == old(state).latest_block_height,
            final(state).committed == old(state).committed,
            final(state).transaction_cache == old(state).transaction_cache,
            r is None ==> *final(state) == *old(state),
            r matches Some(x) ==> (message matches Message::BlockCommitted(b) && x == b),
            r matches Some(b) ==> b.header.height == 1 && (b.header.genesis_topology matches Some(
                g,
            ) && final(state).current_topology.peers@ == g@)
                && final(state).current_topology.at_block == old(state).latest_block_hash
                && final(state).current_topology.view_change_index == 0,
            (message matches Message::BlockCommitted(b) && b.header.height == 1 && (
            b.header.genesis_topology matches Some(g) && g@.len() > 0
                && crate::topology::keys_distinct(g@))) ==> r is Some,
    {
        match message {
            Message::BlockCommitted(block) => {
                if !block.header.is_genesis() {
                    return None;
                }
                let adopted = match &block.header.genesis_topology {
                    Some(peers) => Topology::new(copy_peers(peers), state.latest_block_hash, 0),
                    None => Err(TopologyError::EmptyPeerSet),
                };
                match adopted {
                    Ok(t) => {
                        state.current_topology = t;
                        Some(block)
                    },
                    Err(_) => None,
                }
            },
            _ => None,
        }
    }
}

} // verus!
