//! Peer identities and signatures.

use vstd::prelude::*;

verus! {

/// Public key of a peer, identified by the digest of its key material.
#[derive(Clone, Copy, Debug, PartialEq, Eq, Structural, Hash)]
pub struct PublicKey {
    pub id: u64,
}

/// A signature over a block or a view-change proof.
///
/// Cryptographic verification happens before a signature reaches this
/// library: every signature held here is one that verified, and all that
/// the consensus rules read from it is who signed.
#[derive(Clone, Copy, Debug, PartialEq, Eq, Structural, Hash)]
pub struct Signature {
    pub public_key: PublicKey,
}

/// Identity of a peer: its transport address and its public key.
#[derive(Debug)]
pub struct PeerId {
    pub address: String,
    pub public_key: PublicKey,
}

/// Two peer ids name the same topology member: address and key both agree.
pub open spec fn same_peer(a: PeerId, b: PeerId) -> bool {
    a.address@ == b.address@ && a.public_key == b.public_key
}

impl Clone for PeerId {
    fn clone(&self) -> (r: Self)
        ensures
            r == *self,
    {
        PeerId { address: self.address.clone(), public_key: self.public_key }
    }
}

impl PeerId {
    /// Peer id with the given address and key.
    pub fn new(address: String, public_key: PublicKey) -> (r: PeerId)
        ensures
            r.address == address,
            r.public_key == public_key,
    {
        PeerId { address, public_key }
    }

    /// Whether `self` and `other` are the same topology member.
    pub fn same_as(&self, other: &PeerId) -> (r: bool)
        ensures
            r == same_peer(*self, *other),
    {
        self.public_key == other.public_key && self.address == other.address
    }
}

impl Signature {
    /// The signature that the holder of `public_key` makes.
    pub fn new(public_key: PublicKey) -> (r: Signature)
        ensures
            r.public_key == public_key,
    {
        Signature { public_key }
    }
}

/// Keys of the signers of `s`, in order.
pub open spec fn signer_keys(s: Seq<Signature>) -> Seq<PublicKey> {
    s.map_values(|x: Signature| x.public_key)
}

/// The set of keys that signed some signature of `s`.
pub open spec fn signers(s: Seq<Signature>) -> Set<PublicKey> {
    signer_keys(s).to_set()
}

pub(crate) proof fn lemma_signers_push(s: Seq<Signature>, sig: Signature)
    ensures
        signers(s.push(sig)) == signers(s).insert(sig.public_key),
        signer_keys(s.push(sig)) == signer_keys(s).push(sig.public_key),
{
    assert(signer_keys(s.push(sig)) =~= signer_keys(s).push(sig.public_key));
    Seq::<PublicKey>::lemma_to_set_insert_commutes(signer_keys(s), sig.public_key);
    assert(signer_keys(s) + seq![sig.public_key] =~= signer_keys(s).push(sig.public_key));
}

/// Appends `sig` to `sigs` unless its signer already signed.
pub fn push_unique_signer(sigs: &mut Vec<Signature>, sig: Signature)
    ensures
        signers(old(sigs)@).contains(sig.public_key) ==> final(sigs)@ == old(sigs)@,
        !signers(old(sigs)@).contains(sig.public_key) ==> final(sigs)@ == old(sigs)@.push(sig),
        signers(final(sigs)@) == signers(old(sigs)@).insert(sig.public_key),
{
    let mut i: usize = 0;
    while i < sigs.len()
        invariant
            0 <= i <= sigs@.len(),
            sigs@ == old(sigs)@,
            forall|j: int| 0 <= j < i ==> sigs@[j].public_key != sig.public_key,
        decreases sigs@.len() - i,
    {
        if sigs[i].public_key == sig.public_key {
            proof {
                assert(signer_keys(sigs@)[i as int] == sig.public_key);
                assert(signers(sigs@).contains(sig.public_key));
                assert(signers(sigs@).insert(sig.public_key) =~= signers(sigs@));
            }
            return;
        }
        i = i + 1;
    }
    proof {
        lemma_signers_push(sigs@, sig);
        if signers(sigs@).contains(sig.public_key) {
            let j = choose|j: int| 0 <= j < sigs@.len() && signer_keys(sigs@)[j] == sig.public_key;
            assert(sigs@[j].public_key == sig.public_key);
        }
    }
    sigs.push(sig);
}

/// Number of distinct signers among `sigs`.
pub fn count_signers(sigs: &Vec<Signature>) -> (r: usize)
    ensures
        r == signers(sigs@).len(),
        r <= sigs@.len(),
{
    let mut seen: Vec<Signature> = Vec::new();
    let mut i: usize = 0;
    while i < sigs.len()
        invariant
            0 <= i <= sigs@.len(),
            signers(seen@) == signers(sigs@.subrange(0, i as int)),
            seen@.len() <= i,
            signer_keys(seen@).no_duplicates(),
        decreases sigs@.len() - i,
    {
        proof {
            assert(sigs@.subrange(0, i + 1) =~= sigs@.subrange(0, i as int).push(sigs@[i as int]));
            lemma_signers_push(sigs@.subrange(0, i as int), sigs@[i as int]);
            lemma_signers_push(seen@, sigs@[i as int]);
        }
        push_unique_signer(&mut seen, sigs[i]);
        i = i + 1;
    }
    proof {
        assert(sigs@.subrange(0, sigs@.len() as int) =~= sigs@);
        signer_keys(seen@).unique_seq_to_set();
    }
    seen.len()
}

} // verus!
