//! Ordered peer set of one view and the roles derived from it.

use vstd::prelude::*;
use crate::peer::{PeerId, PublicKey, Signature, same_peer};

verus! {

/// What a peer does in the current view.
#[derive(Clone, Copy, Debug, PartialEq, Eq, Structural)]
pub enum Role {
    /// Proposes the block of the round.
    Leader,
    /// Checks the proposal and signs it.
    ValidatingPeer,
    /// Collects the votes and commits the block.
    ProxyTail,
    /// Follows committed blocks only.
    ObservingPeer,
}

/// Why a peer list cannot form a topology.
#[derive(Clone, Copy, Debug, PartialEq, Eq, Structural)]
pub enum TopologyError {
    /// There are no peers.
    EmptyPeerSet,
    /// Two peers share a public key.
    DuplicateKey,
}

/// Peer set of the network, rotated by the latest block hash and the
/// number of view changes in the current round.
///
/// `peers` is the membership in its canonical order; the order in which
/// roles are handed out is that list shifted cyclically by
/// `(at_block + view_change_index) mod n`.
#[derive(Debug)]
pub struct Topology {
    pub peers: Vec<PeerId>,
    /// Hash of the block that the current round builds on.
    pub at_block: u64,
    /// Number of view changes since that block.
    pub view_change_index: u64,
}

/// No two peers of `peers` share a public key.
pub open spec fn keys_distinct(peers: Seq<PeerId>) -> bool {
    forall|i: int, j: int|
        0 <= i < peers.len() && 0 <= j < peers.len() && i != j ==> peers[i].public_key
            != peers[j].public_key
}

/// Largest number of faulty peers that `n` peers tolerate.
pub open spec fn faults_of(n: int) -> int {
    (n - 1) / 3
}

/// Role of the peer at position `i` of the rotated order, with `f` faults.
pub open spec fn role_at(f: int, i: int) -> Role {
    if i == 0 {
        Role::Leader
    } else if i <= 2 * f {
        Role::ValidatingPeer
    } else if i == 2 * f + 1 {
        Role::ProxyTail
    } else {
        Role::ObservingPeer
    }
}

/// `x % n` for `0 <= x < 2n`, without division.
proof fn lemma_mod_once(x: int, n: int)
    requires
        n > 0,
        0 <= x < 2 * n,
    ensures
        x % n == if x < n { x } else { x - n },
{
    if x < n {
        vstd::arithmetic::div_mod::lemma_small_mod(x as nat, n as nat);
    } else {
        vstd::arithmetic::div_mod::lemma_small_mod((x - n) as nat, n as nat);
        vstd::arithmetic::div_mod::lemma_mod_sub_multiples_vanish(x, n);
    }
}

/// `s.push(x)` filtered is `s` filtered, then `x` if it passes.
pub proof fn lemma_filter_push<A>(s: Seq<A>, x: A, pred: spec_fn(A) -> bool)
    ensures
        s.push(x).filter(pred) == if pred(x) {
            s.filter(pred).push(x)
        } else {
            s.filter(pred)
        },
{
    reveal(Seq::filter);
    assert(s.push(x).drop_last() =~= s);
}

/// Filtering keeps a sequence whose elements all pass.
pub proof fn lemma_filter_all<A>(s: Seq<A>, pred: spec_fn(A) -> bool)
    requires
        forall|i: int| 0 <= i < s.len() ==> pred(#[trigger] s[i]),
    ensures
        s.filter(pred) == s,
    decreases s.len(),
{
    if s.len() > 0 {
        let init = s.drop_last();
        assert(s =~= init.push(s.last()));
        assert forall|i: int| 0 <= i < init.len() implies pred(#[trigger] init[i]) by {
            assert(init[i] == s[i]);
        }
        lemma_filter_all(init, pred);
        lemma_filter_push(init, s.last(), pred);
    } else {
        reveal(Seq::filter);
    }
}

/// Filtering empties a sequence whose elements all fail.
pub proof fn lemma_filter_none<A>(s: Seq<A>, pred: spec_fn(A) -> bool)
    requires
        forall|i: int| 0 <= i < s.len() ==> !pred(#[trigger] s[i]),
    ensures
        s.filter(pred).len() == 0,
    decreases s.len(),
{
    if s.len() > 0 {
        let init = s.drop_last();
        assert(s =~= init.push(s.last()));
        assert forall|i: int| 0 <= i < init.len() implies !pred(#[trigger] init[i]) by {
            assert(init[i] == s[i]);
        }
        lemma_filter_none(init, pred);
        lemma_filter_push(init, s.last(), pred);
    } else {
        reveal(Seq::filter);
    }
}

impl Topology {
    pub open spec fn n(&self) -> int {
        self.peers@.len() as int
    }

    /// At least one peer, and no key shared by two of them.
    pub open spec fn wf(&self) -> bool {
        self.n() >= 1 && keys_distinct(self.peers@)
    }

    pub open spec fn spec_max_faults(&self) -> int {
        faults_of(self.n())
    }

    pub open spec fn spec_min_votes(&self) -> int {
        2 * self.spec_max_faults() + 1
    }

    /// Cyclic shift from the canonical order to the role order.
    pub open spec fn rotation(&self) -> int {
        ((self.at_block as int % self.n()) + (self.view_change_index as int % self.n()))
            % self.n()
    }

    /// Index in `peers` of the peer at position `i` of the role order.
    pub open spec fn base_index(&self, i: int) -> int {
        (i + self.rotation()) % self.n()
    }

    /// Position in the role order of `peers[p]`.
    pub open spec fn position(&self, p: int) -> int {
        (p + self.n() - self.rotation()) % self.n()
    }

    /// The peers in role order: leader first, then the validating peers,
    /// the proxy tail and the observing peers.
    pub open spec fn spec_sorted_peers(&self) -> Seq<PeerId> {
        Seq::new(self.n() as nat, |i: int| self.peers@[self.base_index(i)])
    }

    /// Position of the proxy tail in the role order.
    pub open spec fn proxy_tail_position(&self) -> int {
        if self.n() == 1 {
            0
        } else {
            2 * self.spec_max_faults() + 1
        }
    }

    pub open spec fn has_key(&self, k: PublicKey) -> bool {
        exists|p: int| 0 <= p < self.n() && self.peers@[p].public_key == k
    }

    pub open spec fn key_index(&self, k: PublicKey) -> int {
        choose|p: int| 0 <= p < self.n() && self.peers@[p].public_key == k
    }

    /// Role of the peer holding key `k`, if any peer does.
    pub open spec fn key_role(&self, k: PublicKey) -> Option<Role> {
        if self.has_key(k) {
            Some(role_at(self.spec_max_faults(), self.position(self.key_index(k))))
        } else {
            None
        }
    }

    /// Role of `peer`: that of its position, or observing when it is not a
    /// member.
    pub open spec fn peer_role(&self, peer: PeerId) -> Role {
        if self.has_key(peer.public_key) && same_peer(
            self.peers@[self.key_index(peer.public_key)],
            peer,
        ) {
            role_at(self.spec_max_faults(), self.position(self.key_index(peer.public_key)))
        } else {
            Role::ObservingPeer
        }
    }

    /// The signer of `s` holds one of `roles`.
    pub open spec fn signed_in_roles(&self, roles: Seq<Role>, s: Signature) -> bool {
        match self.key_role(s.public_key) {
            Some(r) => roles.contains(r),
            None => false,
        }
    }

    /// Whether a signature's signer holds one of `roles`.
    pub open spec fn role_filter(&self, roles: Seq<Role>) -> spec_fn(Signature) -> bool {
        |s: Signature| self.signed_in_roles(roles, s)
    }

    /// The signatures of `sigs` whose signer holds one of `roles`, in order.
    pub open spec fn spec_filter_signatures(&self, roles: Seq<Role>, sigs: Seq<Signature>) -> Seq<
        Signature,
    > {
        sigs.filter(self.role_filter(roles))
    }

    /// Topology over `peers`, at block `at_block` after `view_change_index`
    /// view changes.
    pub fn new(peers: Vec<PeerId>, at_block: u64, view_change_index: u64) -> (r: Result<
        Topology,
        TopologyError,
    >)
        ensures
            peers@.len() == 0 ==> r == Err::<Topology, TopologyError>(TopologyError::EmptyPeerSet),
            peers@.len() > 0 && !keys_distinct(peers@) ==> r == Err::<Topology, TopologyError>(
                TopologyError::DuplicateKey,
            ),
            peers@.len() > 0 && keys_distinct(peers@) ==> r is Ok,
            r matches Ok(t) ==> t.wf() && t.peers@ == peers@ && t.at_block == at_block
                && t.view_change_index == view_change_index,
    {
        if peers.len() == 0 {
            return Err(TopologyError::EmptyPeerSet);
        }
        let mut i: usize = 0;
        while i < peers.len()
            invariant
                0 <= i <= peers@.len(),
                forall|a: int, b: int|
                    0 <= a < i && 0 <= b < peers@.len() && a != b ==> peers@[a].public_key
                        != peers@[b].public_key,
            decreases peers@.len() - i,
        {
            let mut j: usize = 0;
            while j < peers.len()
                invariant
                    0 <= i < peers@.len(),
                    0 <= j <= peers@.len(),
                    forall|b: int|
                        0 <= b < j && b != i ==> peers@[i as int].public_key
                            != peers@[b].public_key,
                decreases peers@.len() - j,
            {
                if j != i && peers[i].public_key == peers[j].public_key {
                    return Err(TopologyError::DuplicateKey);
                }
                j = j + 1;
            }
            i = i + 1;
        }
        Ok(Topology { peers, at_block, view_change_index })
    }

    /// Topology over other peers, at the same block, with no view change.
    pub fn with_peers(&self, peers: Vec<PeerId>) -> (r: Result<Topology, TopologyError>)
        ensures
            peers@.len() == 0 ==> r == Err::<Topology, TopologyError>(TopologyError::EmptyPeerSet),
            peers@.len() > 0 && !keys_distinct(peers@) ==> r == Err::<Topology, TopologyError>(
                TopologyError::DuplicateKey,
            ),
            peers@.len() > 0 && keys_distinct(peers@) ==> r is Ok,
            r matches Ok(t) ==> t.wf() && t.peers@ == peers@ && t.at_block == self.at_block
                && t.view_change_index == 0,
    {
        Topology::new(peers, self.at_block, 0)
    }

    /// Number of peers.
    pub fn len(&self) -> (r: usize)
        ensures
            r == self.n(),
    {
        self.peers.len()
    }

    /// Largest number of faulty peers tolerated: `(n - 1) / 3`.
    pub fn max_faults(&self) -> (r: usize)
        requires
            self.wf(),
        ensures
            r == self.spec_max_faults(),
    {
        (self.peers.len() - 1) / 3
    }

    /// Signatures needed to commit a block: `2f + 1`.
    pub fn min_votes_for_commit(&self) -> (r: usize)
        requires
            self.wf(),
        ensures
            r == self.spec_min_votes(),
            r <= self.n(),
    {
        let n = self.peers.len();
        let f = self.max_faults();
        assert(2 * f + 1 <= n);
        2 * f + 1
    }

    /// Consensus needs other peers than the leader.
    pub fn is_consensus_required(&self) -> (r: bool)
        ensures
            r == (self.n() > 1),
    {
        self.peers.len() > 1
    }

    fn rotation_exec(&self) -> (r: usize)
        requires
            self.wf(),
        ensures
            r == self.rotation(),
            r < self.n(),
    {
        let n = self.peers.len() as u64;
        let a = self.at_block % n;
        let b = self.view_change_index % n;
        proof {
            lemma_mod_once(a + b, n as int);
        }
        if a >= n - b {
            (a - (n - b)) as usize
        } else {
            (a + b) as usize
        }
    }

    /// Index in `peers` of the peer at position `i` of the role order.
    fn base_index_exec(&self, i: usize) -> (r: usize)
        requires
            self.wf(),
            i < self.n(),
        ensures
            r == self.base_index(i as int),
            r < self.n(),
    {
        let n = self.peers.len();
        let rot = self.rotation_exec();
        proof {
            lemma_mod_once(i + rot, n as int);
        }
        if i >= n - rot {
            i - (n - rot)
        } else {
            i + rot
        }
    }

    /// Position in the role order of `peers[p]`.
    fn position_exec(&self, p: usize) -> (r: usize)
        requires
            self.wf(),
            p < self.n(),
        ensures
            r == self.position(p as int),
            r < self.n(),
    {
        let n = self.peers.len();
        let rot = self.rotation_exec();
        proof {
            lemma_mod_once(p + n - rot, n as int);
        }
        if p >= rot {
            p - rot
        } else {
            p + (n - rot)
        }
    }

    /// The peers in role order.
    pub fn sorted_peers(&self) -> (r: Vec<PeerId>)
        requires
            self.wf(),
        ensures
            r@ == self.spec_sorted_peers(),
    {
        let n = self.peers.len();
        let mut r: Vec<PeerId> = Vec::new();
        let mut i: usize = 0;
        while i < n
            invariant
                self.wf(),
                n == self.n(),
                0 <= i <= n,
                r@ =~= self.spec_sorted_peers().subrange(0, i as int),
            decreases n - i,
        {
            let p = self.base_index_exec(i);
            r.push(self.peers[p].clone());
            i = i + 1;
        }
        r
    }

    /// The peer at position `i` of the role order.
    pub fn peer_at(&self, i: usize) -> (r: PeerId)
        requires
            self.wf(),
            i < self.n(),
        ensures
            r == self.spec_sorted_peers()[i as int],
    {
        let p = self.base_index_exec(i);
        self.peers[p].clone()
    }

    /// The leader of the view.
    pub fn leader(&self) -> (r: PeerId)
        requires
            self.wf(),
        ensures
            r == self.spec_sorted_peers()[0],
    {
        self.peer_at(0)
    }

    /// The proxy tail of the view; with a single peer, the leader.
    pub fn proxy_tail(&self) -> (r: PeerId)
        requires
            self.wf(),
        ensures
            r == self.spec_sorted_peers()[self.proxy_tail_position()],
    {
        if self.peers.len() == 1 {
            self.peer_at(0)
        } else {
            let f = self.max_faults();
            self.peer_at(2 * f + 1)
        }
    }

    /// The validating peers and the proxy tail, in role order: the peers a
    /// proposed block goes to.
    pub fn peers_set_a(&self) -> (r: Vec<PeerId>)
        requires
            self.wf(),
        ensures
            r@ == self.spec_sorted_peers().subrange(1, self.proxy_tail_position() + 1),
    {
        let mut r: Vec<PeerId> = Vec::new();
        if self.peers.len() == 1 {
            assert(r@ =~= self.spec_sorted_peers().subrange(1, 1));
            return r;
        }
        let last = self.min_votes_for_commit();
        let mut i: usize = 1;
        while i <= last
            invariant
                self.wf(),
                self.n() > 1,
                last == self.proxy_tail_position(),
                last < self.n(),
                self.n() <= usize::MAX,
                1 <= i <= last + 1,
                r@ =~= self.spec_sorted_peers().subrange(1, i as int),
            decreases last + 1 - i,
        {
            r.push(self.peer_at(i));
            i = i + 1;
        }
        r
    }

    /// Index in `peers` of the peer holding `k`.
    fn find_key(&self, k: PublicKey) -> (r: Option<usize>)
        requires
            self.wf(),
        ensures
            r is None <==> !self.has_key(k),
            r matches Some(p) ==> p == self.key_index(k) && p < self.n(),
    {
        let mut p: usize = 0;
        while p < self.peers.len()
            invariant
                self.wf(),
                0 <= p <= self.n(),
                forall|q: int| 0 <= q < p ==> self.peers@[q].public_key != k,
            decreases self.n() - p,
        {
            if self.peers[p].public_key == k {
                proof {
                    let q = self.key_index(k);
                    assert(self.has_key(k));
                    assert(self.peers@[q].public_key == k);
                }
                return Some(p);
            }
            p = p + 1;
        }
        None
    }

    /// Role of the peer holding `k`, if a member does.
    pub fn role_of_key(&self, k: PublicKey) -> (r: Option<Role>)
        requires
            self.wf(),
        ensures
            r == self.key_role(k),
    {
        match self.find_key(k) {
            None => None,
            Some(p) => {
                let pos = self.position_exec(p);
                Some(role_of_position(self.max_faults(), pos))
            },
        }
    }

    /// Role of `peer` in this view; observing when it is not a member.
    pub fn role(&self, peer: &PeerId) -> (r: Role)
        requires
            self.wf(),
        ensures
            r == self.peer_role(*peer),
    {
        match self.find_key(peer.public_key) {
            None => Role::ObservingPeer,
            Some(p) => {
                if self.peers[p].same_as(peer) {
                    let pos = self.position_exec(p);
                    role_of_position(self.max_faults(), pos)
                } else {
                    Role::ObservingPeer
                }
            },
        }
    }

    /// The signatures whose signer holds one of `roles`; signatures by keys
    /// outside the topology are dropped.
    pub fn filter_signatures_by_roles(&self, roles: &Vec<Role>, sigs: &Vec<Signature>) -> (r: Vec<
        Signature,
    >)
        requires
            self.wf(),
        ensures
            r@ == self.spec_filter_signatures(roles@, sigs@),
    {
        let mut r: Vec<Signature> = Vec::new();
        let mut i: usize = 0;
        while i < sigs.len()
            invariant
                self.wf(),
                0 <= i <= sigs@.len(),
                r@ == self.spec_filter_signatures(roles@, sigs@.subrange(0, i as int)),
            decreases sigs@.len() - i,
        {
            let s = sigs[i];
            let keep = match self.role_of_key(s.public_key) {
                None => false,
                Some(role) => contains_role(roles, role),
            };
            proof {
                assert(sigs@.subrange(0, i + 1) =~= sigs@.subrange(0, i as int).push(s));
                lemma_filter_push(
                    sigs@.subrange(0, i as int),
                    s,
                    self.role_filter(roles@),
                );
            }
            if keep {
                r.push(s);
            }
            i = i + 1;
        }
        proof {
            assert(sigs@.subrange(0, sigs@.len() as int) =~= sigs@);
        }
        r
    }

    /// Same peers after `v` view changes since the latest block.
    pub fn rebuild_with_new_view_change_count(&mut self, v: u64)
        ensures
            final(self).peers@ == old(self).peers@,
            final(self).at_block == old(self).at_block,
            final(self).view_change_index == v,
    {
        self.view_change_index = v;
    }

    /// Same peers, at a newly committed block, with no view change.
    pub fn refresh_at_new_block(&mut self, block_hash: u64)
        ensures
            final(self).peers@ == old(self).peers@,
            final(self).at_block == block_hash,
            final(self).view_change_index == 0,
    {
        self.at_block = block_hash;
        self.view_change_index = 0;
    }

    /// Whether `peers` holds exactly the members of this topology, in any
    /// order.
    pub fn same_members(&self, peers: &Vec<PeerId>) -> (r: bool)
        ensures
            r == (members_within(self.peers@, peers@) && members_within(peers@, self.peers@)),
    {
        members_included(&self.peers, peers) && members_included(peers, &self.peers)
    }
}

/// `p` is a peer of `b`.
pub open spec fn member_in(p: PeerId, b: Seq<PeerId>) -> bool {
    exists|j: int| 0 <= j < b.len() && #[trigger] same_peer(p, b[j])
}

/// Every peer of `a` is a peer of `b`.
pub open spec fn members_within(a: Seq<PeerId>, b: Seq<PeerId>) -> bool {
    forall|i: int| 0 <= i < a.len() ==> member_in(#[trigger] a[i], b)
}

fn member_of(p: &PeerId, b: &Vec<PeerId>) -> (r: bool)
    ensures
        r == member_in(*p, b@),
{
    let mut j: usize = 0;
    while j < b.len()
        invariant
            0 <= j <= b@.len(),
            forall|q: int| 0 <= q < j ==> !same_peer(*p, b@[q]),
        decreases b@.len() - j,
    {
        if p.same_as(&b[j]) {
            return true;
        }
        j = j + 1;
    }
    false
}

fn members_included(a: &Vec<PeerId>, b: &Vec<PeerId>) -> (r: bool)
    ensures
        r == members_within(a@, b@),
{
    let mut i: usize = 0;
    while i < a.len()
        invariant
            0 <= i <= a@.len(),
            forall|q: int| 0 <= q < i ==> member_in(#[trigger] a@[q], b@),
        decreases a@.len() - i,
    {
        if !member_of(&a[i], b) {
            return false;
        }
        i = i + 1;
    }
    true
}

fn role_of_position(f: usize, i: usize) -> (r: Role)
    ensures
        r == role_at(f as int, i as int),
{
    if i == 0 {
        Role::Leader
    } else if i / 2 < f || (i % 2 == 0 && i / 2 == f) {
        Role::ValidatingPeer
    } else if i % 2 == 1 && i / 2 == f {
        Role::ProxyTail
    } else {
        Role::ObservingPeer
    }
}

/// Whether `r` is one of `roles`.
pub fn contains_role(roles: &Vec<Role>, r: Role) -> (b: bool)
    ensures
        b == roles@.contains(r),
{
    let mut i: usize = 0;
    while i < roles.len()
        invariant
            0 <= i <= roles@.len(),
            forall|j: int| 0 <= j < i ==> roles@[j] != r,
        decreases roles@.len() - i,
    {
        if roles[i] == r {
            return true;
        }
        i = i + 1;
    }
    false
}


/// Keys of the members of `t`.
pub open spec fn member_keys(t: Topology) -> Set<PublicKey> {
    t.peers@.map_values(|p: PeerId| p.public_key).to_set()
}

/// The members of `t` hold `n` distinct keys.
pub proof fn lemma_member_keys_len(t: Topology)
    requires
        t.wf(),
    ensures
        member_keys(t).len() == t.n(),
        member_keys(t).finite(),
{
    let keys = t.peers@.map_values(|p: PeerId| p.public_key);
    assert(keys.no_duplicates()) by {
        assert forall|i: int, j: int| 0 <= i < keys.len() && 0 <= j < keys.len() && i != j implies keys[i]
            != keys[j] by {
            assert(keys[i] == t.peers@[i].public_key);
            assert(keys[j] == t.peers@[j].public_key);
        }
    }
    keys.unique_seq_to_set();
}

/// Every key filtered by role belongs to a member.
pub proof fn lemma_filtered_signers_are_members(t: Topology, roles: Seq<Role>, sigs: Seq<Signature>)
    ensures
        crate::peer::signers(t.spec_filter_signatures(roles, sigs)).subset_of(member_keys(t)),
{
    let f = t.spec_filter_signatures(roles, sigs);
    let pred = t.role_filter(roles);
    broadcast use vstd::seq_lib::group_filter_ensures;

    assert forall|k: PublicKey| crate::peer::signers(f).contains(k) implies member_keys(t).contains(
        k,
    ) by {
        let keys = crate::peer::signer_keys(f);
        let i = choose|i: int| 0 <= i < keys.len() && keys[i] == k;
        assert(f[i].public_key == k);
        assert(pred(f[i]));
        assert(t.has_key(k));
        let p = choose|p: int| 0 <= p < t.n() && t.peers@[p].public_key == k;
        let mk = t.peers@.map_values(|q: PeerId| q.public_key);
        assert(mk[p] == k);
    }
}

/// Roles depend on the peer list, the block hash and the view-change
/// index alone: two peers holding the same three values assign every peer
/// the same role and order the peers alike.
pub proof fn lemma_roles_deterministic(t1: Topology, t2: Topology, p: PeerId)
    requires
        t1.peers@ == t2.peers@,
        t1.at_block == t2.at_block,
        t1.view_change_index == t2.view_change_index,
    ensures
        t1.peer_role(p) == t2.peer_role(p),
        t1.spec_sorted_peers() == t2.spec_sorted_peers(),
        forall|k: PublicKey| t1.key_role(k) == t2.key_role(k),
{
    assert(t1.spec_sorted_peers() =~= t2.spec_sorted_peers());
}

} // verus!
