//! Blocks as consensus moves them, and the signature rules that let a peer
//! vote for one or commit it.

use vstd::prelude::*;
use crate::peer::{PeerId, PublicKey, Signature, signers, signer_keys, push_unique_signer, count_signers};
use crate::topology::{Role, Topology, lemma_filter_push};
use crate::transaction::Transaction;
use crate::view_change::{ProofChain, proofs_agree};

verus! {

/// Header of a block.
#[derive(Debug)]
pub struct BlockHeader {
    /// Height of the block; the first block has height 1.
    pub height: u64,
    /// Hash of the block at `height - 1`; zero for the first block.
    pub previous_block_hash: u64,
    /// View changes that led to the view in which the block was proposed.
    pub view_change_proofs: ProofChain,
    /// The first block's peer order, which every peer adopts.
    pub genesis_topology: Option<Vec<PeerId>>,
}

/// A block whose transactions were validated against the world state, with
/// the signatures gathered so far. `hash` is the hash of its canonical
/// encoding, which does not cover the signatures.
#[derive(Debug)]
pub struct ValidBlock {
    pub header: BlockHeader,
    pub transactions: Vec<Transaction>,
    pub signatures: Vec<Signature>,
    pub hash: u64,
}

/// A block proposal before validation: the transactions and the header that
/// chains them to the latest block.
#[derive(Debug)]
pub struct PendingBlock {
    pub header: BlockHeader,
    pub transactions: Vec<Transaction>,
}

/// Same peers, position by position.
pub open spec fn same_peer_list(a: Option<Vec<PeerId>>, b: Option<Vec<PeerId>>) -> bool {
    match (a, b) {
        (Some(x), Some(y)) => x@ == y@,
        (None, None) => true,
        _ => false,
    }
}

/// `a` is a copy of `b`.
pub open spec fn header_agrees(a: BlockHeader, b: BlockHeader) -> bool {
    &&& a.height == b.height
    &&& a.previous_block_hash == b.previous_block_hash
    &&& proofs_agree(a.view_change_proofs.proofs@, b.view_change_proofs.proofs@)
    &&& same_peer_list(a.genesis_topology, b.genesis_topology)
}

/// `a` is a copy of `b`.
pub open spec fn block_agrees(a: ValidBlock, b: ValidBlock) -> bool {
    &&& header_agrees(a.header, b.header)
    &&& a.transactions@ == b.transactions@
    &&& a.signatures@ == b.signatures@
    &&& a.hash == b.hash
}

/// Copy of a peer list.
pub fn copy_peers(peers: &Vec<PeerId>) -> (r: Vec<PeerId>)
    ensures
        r@ == peers@,
{
    let mut r: Vec<PeerId> = Vec::new();
    let mut i: usize = 0;
    while i < peers.len()
        invariant
            0 <= i <= peers@.len(),
            r@ =~= peers@.subrange(0, i as int),
        decreases peers@.len() - i,
    {
        r.push(peers[i].clone());
        i = i + 1;
    }
    r
}

pub fn copy_transactions(txs: &Vec<Transaction>) -> (r: Vec<Transaction>)
    ensures
        r@ == txs@,
{
    let mut r: Vec<Transaction> = Vec::new();
    let mut i: usize = 0;
    while i < txs.len()
        invariant
            0 <= i <= txs@.len(),
            r@ =~= txs@.subrange(0, i as int),
        decreases txs@.len() - i,
    {
        r.push(txs[i]);
        i = i + 1;
    }
    r
}

impl Clone for BlockHeader {
    fn clone(&self) -> (r: Self)
        ensures
            header_agrees(r, *self),
    {
        let genesis_topology = match &self.genesis_topology {
            Some(peers) => Some(copy_peers(peers)),
            None => None,
        };
        BlockHeader {
            height: self.height,
            previous_block_hash: self.previous_block_hash,
            view_change_proofs: self.view_change_proofs.clone(),
            genesis_topology,
        }
    }
}

impl Clone for ValidBlock {
    fn clone(&self) -> (r: Self)
        ensures
            block_agrees(r, *self),
    {
        ValidBlock {
            header: self.header.clone(),
            transactions: copy_transactions(&self.transactions),
            signatures: crate::view_change::copy_signatures(&self.signatures),
            hash: self.hash,
        }
    }
}

impl BlockHeader {
    /// The first block is the one at height 1.
    pub open spec fn spec_is_genesis(&self) -> bool {
        self.height == 1
    }

    /// Whether this is the header of the first block.
    pub fn is_genesis(&self) -> (r: bool)
        ensures
            r == self.spec_is_genesis(),
    {
        self.height == 1
    }
}

impl PendingBlock {
    /// Proposal of `transactions` on top of the block at `latest_height`
    /// with hash `latest_hash`, after the view changes of `proofs`.
    pub fn chain(
        transactions: Vec<Transaction>,
        latest_height: u64,
        latest_hash: u64,
        proofs: ProofChain,
    ) -> (r: PendingBlock)
        requires
            latest_height < u64::MAX,
        ensures
            r.header.height == latest_height + 1,
            r.header.previous_block_hash == latest_hash,
            r.header.view_change_proofs == proofs,
            r.header.genesis_topology is None,
            r.transactions == transactions,
    {
        PendingBlock {
            header: BlockHeader {
                height: latest_height + 1,
                previous_block_hash: latest_hash,
                view_change_proofs: proofs,
                genesis_topology: None,
            },
            transactions,
        }
    }

    /// The first block: `transactions` under the zero hash, carrying the
    /// peer order `topology` that every peer adopts.
    pub fn chain_first_with_genesis_topology(
        transactions: Vec<Transaction>,
        topology: Vec<PeerId>,
    ) -> (r: PendingBlock)
        ensures
            r.header.height == 1,
            r.header.previous_block_hash == 0,
            r.header.view_change_proofs.proofs@.len() == 0,
            r.header.genesis_topology == Some(topology),
            r.transactions == transactions,
    {
        PendingBlock {
            header: BlockHeader {
                height: 1,
                previous_block_hash: 0,
                view_change_proofs: ProofChain::new(),
                genesis_topology: Some(topology),
            },
            transactions,
        }
    }
}

/// The roles whose signatures count towards a commit.
pub open spec fn voting_roles() -> Seq<Role> {
    seq![Role::ValidatingPeer, Role::Leader, Role::ProxyTail]
}

/// Distinct signers of `b` that are validating peers, the leader or the
/// proxy tail of `t`.
pub open spec fn commit_signers(t: Topology, b: ValidBlock) -> Set<PublicKey> {
    signers(t.spec_filter_signatures(voting_roles(), b.signatures@))
}

/// Number of signatures of `b` made by the proxy tail of `t`.
pub open spec fn proxy_tail_signature_count(t: Topology, b: ValidBlock) -> nat {
    t.spec_filter_signatures(seq![Role::ProxyTail], b.signatures@).len()
}

/// `b` carries a commit quorum under `t`: `2f + 1` distinct voters, and
/// exactly one signature of the proxy tail.
pub open spec fn has_commit_quorum(t: Topology, b: ValidBlock) -> bool {
    commit_signers(t, b).len() >= t.spec_min_votes() && proxy_tail_signature_count(t, b) == 1
}

/// A peer at block `latest_hash` may commit `b`: it has a commit quorum and
/// extends that block.
pub open spec fn commit_allowed(t: Topology, b: ValidBlock, latest_hash: u64) -> bool {
    has_commit_quorum(t, b) && b.header.previous_block_hash == latest_hash
}

/// The leader of `t` signed `b`.
pub open spec fn spec_signed_by_leader(t: Topology, b: ValidBlock) -> bool {
    t.spec_filter_signatures(seq![Role::Leader], b.signatures@).len() > 0
}

/// Whether `b` carries a commit quorum under `t` and extends the block with
/// hash `latest_hash`.
pub fn can_commit(t: &Topology, b: &ValidBlock, latest_hash: u64) -> (r: bool)
    requires
        t.wf(),
    ensures
        r == commit_allowed(*t, *b, latest_hash),
{
    let voting = vec![Role::ValidatingPeer, Role::Leader, Role::ProxyTail];
    assert(voting@ =~= voting_roles());
    let valid = t.filter_signatures_by_roles(&voting, &b.signatures);
    let tail_roles = vec![Role::ProxyTail];
    assert(tail_roles@ =~= seq![Role::ProxyTail]);
    let tail = t.filter_signatures_by_roles(&tail_roles, &b.signatures);
    count_signers(&valid) >= t.min_votes_for_commit() && tail.len() == 1
        && b.header.previous_block_hash == latest_hash
}

/// Whether the leader of `t` signed `b`.
pub fn signed_by_leader(t: &Topology, b: &ValidBlock) -> (r: bool)
    requires
        t.wf(),
    ensures
        r == spec_signed_by_leader(*t, *b),
{
    let roles = vec![Role::Leader];
    assert(roles@ =~= seq![Role::Leader]);
    let sigs = t.filter_signatures_by_roles(&roles, &b.signatures);
    sigs.len() > 0
}

/// A signature collected by the proxy tail, with the hash of the block it
/// was found on.
pub type CollectedSignature = (u64, Signature);

/// A collected signature is on block `h` and made by a validating peer of
/// `t`.
pub open spec fn validator_vote_on(t: Topology, h: u64) -> spec_fn(CollectedSignature) -> bool {
    |e: CollectedSignature| e.0 == h && t.key_role(e.1.public_key) == Some(Role::ValidatingPeer)
}

/// The signature of a collected entry.
pub open spec fn entry_signature() -> spec_fn(CollectedSignature) -> Signature {
    |e: CollectedSignature| e.1
}

/// The collected signatures on block `h` made by validating peers of `t`.
pub open spec fn validator_signatures_on(t: Topology, acc: Seq<CollectedSignature>, h: u64) -> Seq<
    Signature,
> {
    acc.filter(validator_vote_on(t, h)).map_values(entry_signature())
}

/// The validating peers of `t` that voted for block `h`.
pub open spec fn voters(t: Topology, acc: Seq<CollectedSignature>, h: u64) -> Set<PublicKey> {
    signers(validator_signatures_on(t, acc, h))
}

/// One signature per validating peer of `t` that signed block `h`, in the
/// order their first signatures were collected. Its length plus the proxy
/// tail's own vote is the vote count of the block.
pub fn collect_votes(t: &Topology, acc: &Vec<CollectedSignature>, h: u64) -> (r: Vec<Signature>)
    requires
        t.wf(),
    ensures
        signers(r@) == voters(*t, acc@, h),
        signer_keys(r@).no_duplicates(),
        r@.len() == voters(*t, acc@, h).len(),
        forall|i: int|
            0 <= i < r@.len() ==> t.key_role((#[trigger] r@[i]).public_key) == Some(
                Role::ValidatingPeer,
            ),
{
    let ghost pred = validator_vote_on(*t, h);
    let mut r: Vec<Signature> = Vec::new();
    let mut i: usize = 0;
    while i < acc.len()
        invariant
            t.wf(),
            pred == validator_vote_on(*t, h),
            0 <= i <= acc@.len(),
            signers(r@) == signers(
                acc@.subrange(0, i as int).filter(pred).map_values(entry_signature()),
            ),
            signer_keys(r@).no_duplicates(),
            forall|j: int|
                0 <= j < r@.len() ==> t.key_role((#[trigger] r@[j]).public_key) == Some(
                    Role::ValidatingPeer,
                ),
        decreases acc@.len() - i,
    {
        let e = acc[i];
        let ghost before = acc@.subrange(0, i as int);
        proof {
            assert(acc@.subrange(0, i + 1) =~= before.push(e));
            lemma_filter_push(before, e, pred);
            assert(before.push(e).filter(pred).map_values(entry_signature()) =~= if pred(
                e,
            ) {
                before.filter(pred).map_values(entry_signature()).push(e.1)
            } else {
                before.filter(pred).map_values(entry_signature())
            });
            crate::peer::lemma_signers_push(
                before.filter(pred).map_values(entry_signature()),
                e.1,
            );
            crate::peer::lemma_signers_push(r@, e.1);
        }
        if e.0 == h && t.role_of_key(e.1.public_key) == Some(Role::ValidatingPeer) {
            push_unique_signer(&mut r, e.1);
        }
        i = i + 1;
    }
    proof {
        assert(acc@.subrange(0, acc@.len() as int) =~= acc@);
        signer_keys(r@).unique_seq_to_set();
    }
    r
}

/// Two blocks with commit quorums under a topology of `3f + 1` peers
/// share more than `f` signers: at least one correct peer signed both.
/// A correct peer signs one block per height and view, so two correct
/// peers never commit different blocks at one height.
///
/// With `n = 3f + 2` or `n = 3f + 3` peers, two quorums of `2f + 1` may
/// share fewer than `f + 1` signers (six peers: two disjoint groups of
/// three), so the law is stated for `n = 3f + 1`.
pub proof fn lemma_commit_quorums_intersect(t: Topology, a: ValidBlock, b: ValidBlock)
    requires
        t.wf(),
        t.n() % 3 == 1,
        has_commit_quorum(t, a),
        has_commit_quorum(t, b),
    ensures
        commit_signers(t, a).intersect(commit_signers(t, b)).len() > t.spec_max_faults(),
{
    let sa = commit_signers(t, a);
    let sb = commit_signers(t, b);
    let keys = crate::topology::member_keys(t);
    crate::topology::lemma_member_keys_len(t);
    crate::topology::lemma_filtered_signers_are_members(t, voting_roles(), a.signatures@);
    crate::topology::lemma_filtered_signers_are_members(t, voting_roles(), b.signatures@);
    vstd::set_lib::lemma_len_subset(sa, keys);
    vstd::set_lib::lemma_len_subset(sb, keys);
    assert((sa + sb).subset_of(keys));
    vstd::set_lib::lemma_len_subset(sa + sb, keys);
    vstd::set_lib::lemma_set_intersect_union_lens(sa, sb);
}

} // verus!
