//! View-change proofs and the chain in which peers accumulate them.

use vstd::prelude::*;
use crate::peer::{PublicKey, Signature, signers, push_unique_signer, count_signers};
use crate::topology::{Role, Topology};

verus! {

/// A suggestion, signed by the peers that agree with it, that view
/// `view_change_index` on top of block `latest_block_hash` has failed.
#[derive(Debug)]
pub struct Proof {
    pub latest_block_hash: u64,
    pub view_change_index: u64,
    pub signatures: Vec<Signature>,
}

/// Why a proof was not taken into a chain.
#[derive(Clone, Copy, Debug, PartialEq, Eq, Structural)]
pub enum ProofError {
    /// The proof is about another block than the latest one.
    BlockHashMismatch,
    /// The proof's index is not the next one the chain waits for: a stale,
    /// early or wrapped-around index.
    ViewChangeIndexMismatch,
}

/// Ordered proofs, the one at position `i` for view change `i`.
#[derive(Debug)]
pub struct ProofChain {
    pub proofs: Vec<Proof>,
}

impl Clone for Proof {
    fn clone(&self) -> (r: Self)
        ensures
            r.latest_block_hash == self.latest_block_hash,
            r.view_change_index == self.view_change_index,
            r.signatures@ == self.signatures@,
    {
        Proof {
            latest_block_hash: self.latest_block_hash,
            view_change_index: self.view_change_index,
            signatures: copy_signatures(&self.signatures),
        }
    }
}

impl Clone for ProofChain {
    fn clone(&self) -> (r: Self)
        ensures
            proofs_agree(r.proofs@, self.proofs@),
    {
        let mut proofs: Vec<Proof> = Vec::new();
        let mut i: usize = 0;
        while i < self.proofs.len()
            invariant
                0 <= i <= self.proofs@.len(),
                proofs_agree(proofs@, self.proofs@.subrange(0, i as int)),
            decreases self.proofs@.len() - i,
        {
            proofs.push(self.proofs[i].clone());
            i = i + 1;
        }
        ProofChain { proofs }
    }
}

/// Copy of a signature list.
pub fn copy_signatures(sigs: &Vec<Signature>) -> (r: Vec<Signature>)
    ensures
        r@ == sigs@,
{
    let mut r: Vec<Signature> = Vec::new();
    let mut i: usize = 0;
    while i < sigs.len()
        invariant
            0 <= i <= sigs@.len(),
            r@ =~= sigs@.subrange(0, i as int),
        decreases sigs@.len() - i,
    {
        r.push(sigs[i]);
        i = i + 1;
    }
    r
}

/// Two proofs carry the same block hash, index and signatures.
pub open spec fn proof_agrees(a: Proof, b: Proof) -> bool {
    a.latest_block_hash == b.latest_block_hash && a.view_change_index == b.view_change_index
        && a.signatures@ == b.signatures@
}

/// Two proof lists agree position by position.
pub open spec fn proofs_agree(a: Seq<Proof>, b: Seq<Proof>) -> bool {
    a.len() == b.len() && forall|i: int| 0 <= i < a.len() ==> proof_agrees(#[trigger] a[i], b[i])
}

/// Every role: filtering by it keeps the signatures of all members.
pub open spec fn all_roles() -> Seq<Role> {
    seq![Role::Leader, Role::ValidatingPeer, Role::ProxyTail, Role::ObservingPeer]
}

/// Members of `t` that signed `p`.
pub open spec fn member_signers(t: Topology, p: Proof) -> Set<PublicKey> {
    signers(t.spec_filter_signatures(all_roles(), p.signatures@))
}

/// `p` carries the signatures of `2f + 1` distinct members of `t`.
pub open spec fn proof_has_quorum(t: Topology, p: Proof) -> bool {
    member_signers(t, p).len() >= t.spec_min_votes()
}

/// `p` is a complete proof for view change `i` on top of block `h`.
pub open spec fn proof_ok(t: Topology, h: u64, p: Proof, i: int) -> bool {
    p.latest_block_hash == h && p.view_change_index == i && proof_has_quorum(t, p)
}

/// The first `k` proofs of `chain` are complete, each at its own index.
pub open spec fn prefix_ok(t: Topology, h: u64, chain: Seq<Proof>, k: int) -> bool {
    forall|i: int| 0 <= i < k ==> proof_ok(t, h, #[trigger] chain[i], i)
}

/// `k` is the verified length of `chain`: its first `k` proofs are
/// complete and the next one, if any, is not.
pub open spec fn is_verified_length(t: Topology, h: u64, chain: Seq<Proof>, k: int) -> bool {
    &&& 0 <= k <= chain.len()
    &&& prefix_ok(t, h, chain, k)
    &&& k < chain.len() ==> !proof_ok(t, h, chain[k], k)
}

/// A chain has one verified length.
pub proof fn lemma_verified_length_unique(t: Topology, h: u64, chain: Seq<Proof>, a: int, b: int)
    requires
        is_verified_length(t, h, chain, a),
        is_verified_length(t, h, chain, b),
    ensures
        a == b,
{
    if a < b {
        assert(proof_ok(t, h, chain[a], a));
    } else if b < a {
        assert(proof_ok(t, h, chain[b], b));
    }
}

/// From a complete prefix of length `k`, the chain has a verified length.
proof fn lemma_verified_length_from(t: Topology, h: u64, chain: Seq<Proof>, k: int)
    requires
        0 <= k <= chain.len(),
        prefix_ok(t, h, chain, k),
    ensures
        exists|j: int| is_verified_length(t, h, chain, j),
    decreases chain.len() - k,
{
    if k == chain.len() || !proof_ok(t, h, chain[k], k) {
        assert(is_verified_length(t, h, chain, k));
    } else {
        assert(prefix_ok(t, h, chain, k + 1));
        lemma_verified_length_from(t, h, chain, k + 1);
    }
}

/// Every chain has a verified length.
pub proof fn lemma_verified_length_exists(t: Topology, h: u64, chain: Seq<Proof>)
    ensures
        exists|j: int| is_verified_length(t, h, chain, j),
{
    lemma_verified_length_from(t, h, chain, 0);
}

/// Chains that agree proof by proof verify to the same length.
pub proof fn lemma_verified_length_agree(t: Topology, h: u64, a: Seq<Proof>, b: Seq<Proof>, k: int)
    requires
        proofs_agree(a, b),
        is_verified_length(t, h, b, k),
    ensures
        is_verified_length(t, h, a, k),
{
    assert forall|i: int| 0 <= i < k implies proof_ok(t, h, #[trigger] a[i], i) by {
        assert(proof_ok(t, h, b[i], i));
        lemma_proof_ok_agree(t, h, a[i], b[i], i);
    }
    if k < a.len() {
        lemma_proof_ok_agree(t, h, a[k], b[k], k);
    }
}

/// A proof that one peer alone signed is no quorum once a topology needs
/// more than one vote.
pub proof fn lemma_single_signer_no_quorum(t: Topology, p: Proof, key: PublicKey)
    requires
        signers(p.signatures@) == set![key],
        t.spec_min_votes() > 1,
    ensures
        !proof_has_quorum(t, p),
{
    broadcast use vstd::seq_lib::group_filter_ensures;

    let f = t.spec_filter_signatures(all_roles(), p.signatures@);
    assert forall|k: PublicKey| signers(f).contains(k) implies set![key].contains(k) by {
        let fk = crate::peer::signer_keys(f);
        let i = choose|i: int| 0 <= i < fk.len() && fk[i] == k;
        assert(f[i].public_key == k);
        assert(f.contains(f[i]));
        p.signatures@.lemma_filter_contains_rev(t.role_filter(all_roles()), f[i]);
        let j = choose|j: int| 0 <= j < p.signatures@.len() && p.signatures@[j] == f[i];
        assert(crate::peer::signer_keys(p.signatures@)[j] == k);
        assert(signers(p.signatures@).contains(k));
    }
    vstd::set_lib::lemma_len_subset(signers(f), set![key]);
    assert(set![key].len() == 1) by {
        assert(set![key] =~= Set::<PublicKey>::empty().insert(key));
    }
}

/// A chain whose first `k` proofs are complete verifies at least `k` deep.
pub proof fn lemma_prefix_bounds_verified_length(
    t: Topology,
    h: u64,
    chain: Seq<Proof>,
    k: int,
    b: int,
)
    requires
        0 <= k,
        prefix_ok(t, h, chain, k),
        is_verified_length(t, h, chain, b),
        k <= chain.len(),
    ensures
        k <= b,
{
    if b < k {
        assert(proof_ok(t, h, chain[b], b));
    }
}

/// A proof for the block `h` agrees with another on everything that
/// `proof_ok` reads.
proof fn lemma_proof_ok_agree(t: Topology, h: u64, a: Proof, b: Proof, i: int)
    requires
        proof_agrees(a, b),
    ensures
        proof_ok(t, h, a, i) == proof_ok(t, h, b, i),
{
}

impl Proof {
    /// Adds the signature of the holder of `key`, unless it signed already.
    pub fn sign(&mut self, key: PublicKey)
        ensures
            final(self).latest_block_hash == old(self).latest_block_hash,
            final(self).view_change_index == old(self).view_change_index,
            signers(final(self).signatures@) == signers(old(self).signatures@).insert(key),
    {
        push_unique_signer(&mut self.signatures, Signature::new(key));
    }

    /// Whether `2f + 1` distinct members of `t` signed.
    pub fn has_quorum(&self, t: &Topology) -> (r: bool)
        requires
            t.wf(),
        ensures
            r == proof_has_quorum(*t, *self),
    {
        let roles = vec![Role::Leader, Role::ValidatingPeer, Role::ProxyTail, Role::ObservingPeer];
        assert(roles@ =~= all_roles());
        let members = t.filter_signatures_by_roles(&roles, &self.signatures);
        count_signers(&members) >= t.min_votes_for_commit()
    }
}

/// Adds every signer of `src` to `dst`.
/// When every signer of `src` already signed `dst`, `dst` is left as it is.
pub fn merge_signatures(dst: &mut Vec<Signature>, src: &Vec<Signature>)
    ensures
        signers(final(dst)@) == signers(old(dst)@).union(signers(src@)),
        signers(src@).subset_of(signers(old(dst)@)) ==> final(dst)@ == old(dst)@,
{
    let mut i: usize = 0;
    while i < src.len()
        invariant
            0 <= i <= src@.len(),
            signers(dst@) == signers(old(dst)@).union(signers(src@.subrange(0, i as int))),
            signers(src@).subset_of(signers(old(dst)@)) ==> dst@ == old(dst)@,
        decreases src@.len() - i,
    {
        proof {
            assert(src@.subrange(0, i + 1) =~= src@.subrange(0, i as int).push(src@[i as int]));
            crate::peer::lemma_signers_push(src@.subrange(0, i as int), src@[i as int]);
            assert(crate::peer::signer_keys(src@)[i as int] == src@[i as int].public_key);
            assert(signers(src@).contains(src@[i as int].public_key));
        }
        push_unique_signer(dst, src[i]);
        proof {
            assert(signers(dst@) =~= signers(old(dst)@).union(
                signers(src@.subrange(0, i + 1)),
            ));
        }
        i = i + 1;
    }
    proof {
        assert(src@.subrange(0, src@.len() as int) =~= src@);
    }
}

impl ProofChain {
    /// The empty chain.
    pub fn new() -> (r: ProofChain)
        ensures
            r.proofs@.len() == 0,
    {
        ProofChain { proofs: Vec::new() }
    }

    /// Number of proofs held.
    pub fn len(&self) -> (r: usize)
        ensures
            r == self.proofs@.len(),
    {
        self.proofs.len()
    }

    /// Drops every proof.
    pub fn clear(&mut self)
        ensures
            final(self).proofs@.len() == 0,
    {
        self.proofs.clear();
    }

    /// Number of leading proofs that are complete for block `h` under `t`:
    /// the number of view changes that the chain proves.
    pub fn verify_with_state(&self, t: &Topology, h: u64) -> (r: usize)
        requires
            t.wf(),
        ensures
            is_verified_length(*t, h, self.proofs@, r as int),
    {
        let mut k: usize = 0;
        while k < self.proofs.len()
            invariant
                t.wf(),
                0 <= k <= self.proofs@.len(),
                prefix_ok(*t, h, self.proofs@, k as int),
            decreases self.proofs@.len() - k,
        {
            let p = &self.proofs[k];
            if p.latest_block_hash != h || p.view_change_index != k as u64 || !p.has_quorum(t) {
                return k;
            }
            k = k + 1;
        }
        k
    }

    /// Takes `proof` into the chain: its signatures join those of the proof
    /// at the same index, or it becomes the next proof.
    ///
    /// Rejected when it is about another block than `h`, or when its index
    /// is not the chain's verified length (the next view change).
    pub fn insert_proof(&mut self, t: &Topology, h: u64, proof: &Proof) -> (r: Result<
        (),
        ProofError,
    >)
        requires
            t.wf(),
        ensures
            proof.latest_block_hash != h ==> r == Err::<(), ProofError>(
                ProofError::BlockHashMismatch,
            ),
            forall|k: int|
                is_verified_length(*t, h, old(self).proofs@, k) ==> {
                    &&& (proof.latest_block_hash == h && proof.view_change_index != k) ==> r
                        == Err::<(), ProofError>(ProofError::ViewChangeIndexMismatch)
                    &&& (proof.latest_block_hash == h && proof.view_change_index == k) ==> {
                        &&& r is Ok
                        &&& final(self).proofs@.len() == if k < old(self).proofs@.len() {
                            old(self).proofs@.len() as int
                        } else {
                            k + 1
                        }
                        &&& forall|i: int|
                            0 <= i < final(self).proofs@.len() && i != k ==> proof_agrees(
                                #[trigger] final(self).proofs@[i],
                                old(self).proofs@[i],
                            )
                        &&& final(self).proofs@[k].latest_block_hash == h
                        &&& final(self).proofs@[k].view_change_index == k
                        &&& signers(final(self).proofs@[k].signatures@) == if k
                            < old(self).proofs@.len() && old(self).proofs@[k].latest_block_hash
                            == h && old(self).proofs@[k].view_change_index == k {
                            signers(old(self).proofs@[k].signatures@).union(
                                signers(proof.signatures@),
                            )
                        } else {
                            signers(proof.signatures@)
                        }
                    }
                },
            forall|k: int|
                is_verified_length(*t, h, old(self).proofs@, k) && proof.latest_block_hash == h
                    && proof.view_change_index == k && k < old(self).proofs@.len()
                    && old(self).proofs@[k].latest_block_hash == h
                    && old(self).proofs@[k].view_change_index == k && signers(
                    proof.signatures@,
                ).subset_of(signers(old(self).proofs@[k].signatures@)) ==> final(self).proofs@[k].signatures@
                    == old(self).proofs@[k].signatures@,
            r is Err ==> proofs_agree(final(self).proofs@, old(self).proofs@),
            forall|a: int, b: int|
                is_verified_length(*t, h, old(self).proofs@, a) && is_verified_length(
                    *t,
                    h,
                    final(self).proofs@,
                    b,
                ) ==> a <= b,
    {
        let ghost old_proofs = self.proofs@;
        if proof.latest_block_hash != h {
            proof {
                assert(proofs_agree(self.proofs@, old_proofs));
                assert forall|a: int, b: int|
                    is_verified_length(*t, h, old_proofs, a) && is_verified_length(
                        *t,
                        h,
                        self.proofs@,
                        b,
                    ) implies a <= b by {
                    lemma_verified_length_unique(*t, h, old_proofs, a, b);
                }
            }
            return Err(ProofError::BlockHashMismatch);
        }
        let k = self.verify_with_state(t, h);
        if proof.view_change_index != k as u64 {
            proof {
                assert(proofs_agree(self.proofs@, old_proofs));
                assert forall|a: int, b: int|
                    is_verified_length(*t, h, old_proofs, a) && is_verified_length(
                        *t,
                        h,
                        self.proofs@,
                        b,
                    ) implies a <= b by {
                    lemma_verified_length_unique(*t, h, old_proofs, a, b);
                }
                assert forall|j: int| is_verified_length(*t, h, old_proofs, j) implies j == k by {
                    lemma_verified_length_unique(*t, h, old_proofs, j, k as int);
                }
            }
            return Err(ProofError::ViewChangeIndexMismatch);
        }
        let same_view = k < self.proofs.len() && self.proofs[k].latest_block_hash == h
            && self.proofs[k].view_change_index == k as u64;
        if same_view {
            merge_signatures(&mut self.proofs[k].signatures, &proof.signatures);
        } else if k < self.proofs.len() {
            self.proofs[k] = proof.clone();
        } else {
            self.proofs.push(proof.clone());
        }
        proof {
            assert forall|i: int| 0 <= i < self.proofs@.len() && i != k implies proof_agrees(
                #[trigger] self.proofs@[i],
                old_proofs[i],
            ) by {}
            assert(prefix_ok(*t, h, self.proofs@, k as int)) by {
                assert forall|i: int| 0 <= i < k implies proof_ok(
                    *t,
                    h,
                    #[trigger] self.proofs@[i],
                    i,
                ) by {
                    assert(proof_ok(*t, h, old_proofs[i], i));
                    lemma_proof_ok_agree(*t, h, self.proofs@[i], old_proofs[i], i);
                }
            }
            assert forall|a: int, b: int|
                is_verified_length(*t, h, old_proofs, a) && is_verified_length(
                    *t,
                    h,
                    self.proofs@,
                    b,
                ) implies a <= b by {
                lemma_verified_length_unique(*t, h, old_proofs, a, k as int);
                lemma_prefix_bounds_verified_length(*t, h, self.proofs@, k as int, b);
            }
            assert forall|j: int| is_verified_length(*t, h, old_proofs, j) implies j == k by {
                lemma_verified_length_unique(*t, h, old_proofs, j, k as int);
            }
        }
        Ok(())
    }

    /// Drops the proofs from the first one that is not about block `h` at
    /// its own index.
    pub fn prune(&mut self, h: u64)
        ensures
            exists|k: int|
                0 <= k <= old(self).proofs@.len() && final(self).proofs@ == old(
                    self,
                ).proofs@.subrange(0, k) && (forall|i: int|
                    0 <= i < k ==> (#[trigger] old(self).proofs@[i]).latest_block_hash == h
                        && old(self).proofs@[i].view_change_index == i) && (k < old(
                    self,
                ).proofs@.len() ==> !(old(self).proofs@[k].latest_block_hash == h && old(
                    self,
                ).proofs@[k].view_change_index == k)),
            forall|t: Topology, a: int, b: int|
                is_verified_length(t, h, old(self).proofs@, a) && is_verified_length(
                    t,
                    h,
                    final(self).proofs@,
                    b,
                ) ==> a <= b,
    {
        let ghost old_proofs = self.proofs@;
        let mut k: usize = 0;
        while k < self.proofs.len() && self.proofs[k].latest_block_hash == h
            && self.proofs[k].view_change_index == k as u64
            invariant
                self.proofs@ == old_proofs,
                0 <= k <= old_proofs.len(),
                forall|i: int|
                    0 <= i < k ==> (#[trigger] old_proofs[i]).latest_block_hash == h
                        && old_proofs[i].view_change_index == i,
            decreases old_proofs.len() - k,
        {
            k = k + 1;
        }
        self.proofs.truncate(k);
        proof {
            assert(self.proofs@ =~= old_proofs.subrange(0, k as int));
            assert forall|t: Topology, a: int, b: int|
                is_verified_length(t, h, old_proofs, a) && is_verified_length(
                    t,
                    h,
                    self.proofs@,
                    b,
                ) implies a <= b by {
                if a > k {
                    assert(proof_ok(t, h, old_proofs[k as int], k as int));
                }
                assert(a <= k);
                assert(prefix_ok(t, h, self.proofs@, a)) by {
                    assert forall|i: int| 0 <= i < a implies proof_ok(
                        t,
                        h,
                        #[trigger] self.proofs@[i],
                        i,
                    ) by {
                        assert(proof_ok(t, h, old_proofs[i], i));
                    }
                }
                lemma_prefix_bounds_verified_length(t, h, self.proofs@, a, b);
            }
        }
    }
}

} // verus!
