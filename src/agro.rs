//! Commitment batches, per-origin chains and the cross-origin aggregator.

use vstd::prelude::*;

use crate::keyed::{
    assoc, find_address, find_hash, lemma_assoc_at, lemma_assoc_push, lemma_assoc_update,
    lemma_unique_subseq_len,
};
use crate::primitives::{keccak256, keccak256_of, Address, Signature, H256};

verus! {

/// A value with a stable content digest.
pub trait SeqHash {
    /// The digest of this value.
    spec fn spec_hash(&self) -> H256;

    fn hash(&self) -> (r: H256)
        ensures
            r == self.spec_hash(),
    ;
}

/// The bytes that are hashed for a commitment sequence: every element's
/// digest, concatenated in sequence order.
pub open spec fn digest_bytes<D: SeqHash>(cs: Seq<D>) -> Seq<u8>
    decreases cs.len(),
{
    if cs.len() == 0 {
        Seq::empty()
    } else {
        digest_bytes(cs.drop_last()) + cs.last().spec_hash().0@
    }
}

/// The content hash of a commitment sequence.
pub open spec fn content_hash<D: SeqHash>(cs: Seq<D>) -> H256 {
    H256(keccak256_of(digest_bytes(cs)))
}

/// A commitment whose digest is the code hash it carries.
#[derive(Clone, Copy, Debug)]
pub struct CodeHashCommitment(pub H256);

impl SeqHash for CodeHashCommitment {
    open spec fn spec_hash(&self) -> H256 {
        self.0
    }

    fn hash(&self) -> (r: H256) {
        self.0
    }
}

impl<T: SeqHash> SeqHash for Vec<T> {
    open spec fn spec_hash(&self) -> H256 {
        content_hash(self@)
    }

    fn hash(&self) -> (r: H256) {
        let mut array: Vec<u8> = Vec::new();
        let mut i: usize = 0;
        while i < self.len()
            invariant
                i <= self@.len(),
                array@ == digest_bytes(self@.subrange(0, i as int)),
            decreases self@.len() - i,
        {
            let digest = self[i].hash();
            let ghost before = array@;
            let mut j: usize = 0;
            while j < 32
                invariant
                    j <= 32,
                    digest.0@.len() == 32,
                    array@ == before + digest.0@.subrange(0, j as int),
                decreases 32 - j,
            {
                array.push(digest.0[j]);
                proof {
                    assert(digest.0@.subrange(0, j + 1) =~= digest.0@.subrange(0, j as int).push(
                        digest.0@[j as int],
                    ));
                }
                j = j + 1;
            }
            proof {
                assert(digest.0@.subrange(0, 32) =~= digest.0@);
                assert(self@.subrange(0, i + 1).drop_last() =~= self@.subrange(0, i as int));
            }
            i = i + 1;
        }
        proof {
            assert(self@.subrange(0, self@.len() as int) =~= self@);
        }
        keccak256(&array)
    }
}

/// Two sequences whose elements have the same digests, position by
/// position, have the same content hash, whatever else the elements hold.
pub proof fn lemma_content_hash_deterministic<D: SeqHash>(a: Seq<D>, b: Seq<D>)
    requires
        a.len() == b.len(),
        forall|i: int| 0 <= i < a.len() ==> #[trigger] a[i].spec_hash() == b[i].spec_hash(),
    ensures
        digest_bytes(a) == digest_bytes(b),
        content_hash(a) == content_hash(b),
    decreases a.len(),
{
    if a.len() > 0 {
        let (ra, rb) = (a.drop_last(), b.drop_last());
        assert forall|i: int| 0 <= i < ra.len() implies #[trigger] ra[i].spec_hash()
            == rb[i].spec_hash() by {
            assert(ra[i] == a[i] && rb[i] == b[i]);
        }
        lemma_content_hash_deterministic(ra, rb);
        assert(a.last().spec_hash() == b.last().spec_hash()) by {
            assert(a[a.len() - 1].spec_hash() == b[b.len() - 1].spec_hash());
        }
    }
}

/// The hashed bytes hold one 32-byte digest per commitment.
pub proof fn lemma_digest_bytes_len<D: SeqHash>(cs: Seq<D>)
    ensures
        digest_bytes(cs).len() == 32 * cs.len(),
    decreases cs.len(),
{
    if cs.len() > 0 {
        lemma_digest_bytes_len(cs.drop_last());
    }
}

/// Equal hashed bytes come only from sequences of equal length whose
/// elements have the same digests, position by position: distinct digest
/// sequences reach the hash function as distinct inputs.
pub proof fn lemma_hash_input_injective<D: SeqHash>(a: Seq<D>, b: Seq<D>)
    requires
        digest_bytes(a) == digest_bytes(b),
    ensures
        a.len() == b.len(),
        forall|i: int| 0 <= i < a.len() ==> #[trigger] a[i].spec_hash() == b[i].spec_hash(),
    decreases a.len(),
{
    lemma_digest_bytes_len(a);
    lemma_digest_bytes_len(b);
    if a.len() > 0 {
        let (ra, rb) = (a.drop_last(), b.drop_last());
        lemma_digest_bytes_len(ra);
        lemma_digest_bytes_len(rb);
        let (da, db) = (digest_bytes(ra), digest_bytes(rb));
        let (la, lb) = (a.last().spec_hash().0@, b.last().spec_hash().0@);
        let n = da.len() as int;
        assert(digest_bytes(a) == da + la);
        assert(digest_bytes(b) == db + lb);
        assert(da =~= (da + la).subrange(0, n));
        assert(db =~= (db + lb).subrange(0, n));
        assert(la =~= (da + la).subrange(n, n + 32));
        assert(lb =~= (db + lb).subrange(n, n + 32));
        lemma_hash_input_injective(ra, rb);
        broadcast use vstd::array::axiom_array_ext_equal;
        assert(a.last().spec_hash().0 =~= b.last().spec_hash().0);
        assert forall|i: int| 0 <= i < a.len() implies #[trigger] a[i].spec_hash()
            == b[i].spec_hash() by {
            if i < a.len() - 1 {
                assert(ra[i] == a[i] && rb[i] == b[i]);
            }
        }
    }
}

/// Swapping two commitments with different digests changes the bytes that
/// are hashed: the hash input is ordered, not a set.
pub proof fn lemma_hash_input_order_sensitive<D: SeqHash>(x: D, y: D)
    requires
        x.spec_hash() != y.spec_hash(),
    ensures
        digest_bytes(seq![x, y]) != digest_bytes(seq![y, x]),
{
    let xy = digest_bytes(seq![x, y]);
    let yx = digest_bytes(seq![y, x]);
    assert(seq![x, y].drop_last() =~= seq![x]);
    assert(seq![y, x].drop_last() =~= seq![y]);
    assert(seq![x].drop_last() =~= Seq::<D>::empty());
    assert(seq![y].drop_last() =~= Seq::<D>::empty());
    assert(digest_bytes(Seq::<D>::empty()) == Seq::<u8>::empty());
    assert(digest_bytes(seq![x]) =~= x.spec_hash().0@);
    assert(digest_bytes(seq![y]) =~= y.spec_hash().0@);
    assert(xy == digest_bytes(seq![x]) + y.spec_hash().0@);
    assert(yx == digest_bytes(seq![y]) + x.spec_hash().0@);
    if xy == yx {
        assert(x.spec_hash().0@ =~= xy.subrange(0, 32));
        assert(y.spec_hash().0@ =~= yx.subrange(0, 32));
        broadcast use vstd::array::axiom_array_ext_equal;
        assert(x.spec_hash().0 =~= y.spec_hash().0);
        assert(x.spec_hash() == y.spec_hash());
    }
}

/// One origin's signed batch of commitments.
#[derive(Clone, Debug)]
pub struct AggregatedCommitments<D> {
    pub commitments: Vec<D>,
    pub signature: Signature,
}

impl<D: SeqHash> AggregatedCommitments<D> {
    /// The content hash of the batch's commitments.
    pub fn hash(&self) -> (r: H256)
        ensures
            r == content_hash(self.commitments@),
    {
        self.commitments.hash()
    }

    /// Signs the content hash of `commitments` with `sign` and builds the
    /// batch; a failure of `sign` is handed back unchanged.
    pub fn aggregate_commitments<E, F: Fn(H256) -> Result<Signature, E>>(
        commitments: Vec<D>,
        sign: F,
    ) -> (r: Result<AggregatedCommitments<D>, E>)
        requires
            sign.requires((content_hash(commitments@),)),
        ensures
            match r {
                Ok(batch) => batch.commitments@ == commitments@ && sign.ensures(
                    (content_hash(commitments@),),
                    Ok(batch.signature),
                ),
                Err(e) => sign.ensures((content_hash(commitments@),), Err(e)),
            },
    {
        let digest = commitments.hash();
        match sign(digest) {
            Ok(signature) => Ok(AggregatedCommitments { commitments, signature }),
            Err(e) => Err(e),
        }
    }
}

/// A batch in an origin's chain, with the hash of the batch before it.
#[derive(Debug)]
pub struct LinkedAggregation<D> {
    pub aggregated: AggregatedCommitments<D>,
    pub previous: Option<H256>,
}

/// One origin's append-only history of batches, keyed by content hash.
pub struct AggregatedQueue<D> {
    hashes: Vec<H256>,
    links: Vec<LinkedAggregation<D>>,
    last: H256,
    pushed: Ghost<Seq<H256>>,
}

impl<D> View for AggregatedQueue<D> {
    type V = Map<H256, LinkedAggregation<D>>;

    /// The link stored under each content hash of the chain.
    closed spec fn view(&self) -> Map<H256, LinkedAggregation<D>> {
        assoc(self.hashes@, self.links@)
    }
}

impl<D: SeqHash> AggregatedQueue<D> {
    /// The hash of the most recently pushed batch.
    pub closed spec fn tip(&self) -> H256 {
        self.last
    }

    /// The content hashes of all batches pushed so far, oldest first.
    pub closed spec fn history(&self) -> Seq<H256> {
        self.pushed@
    }

    /// The hash of the link before `h`, or none if `h` is the first link or
    /// not in the chain.
    pub open spec fn previous_of(&self, h: H256) -> Option<H256> {
        if self@.contains_key(h) {
            self@[h].previous
        } else {
            None
        }
    }

    /// The chain's invariant: links are keyed by the content hash of their
    /// batch, back-links stay inside the chain, the tip is the last pushed
    /// hash, and while no hash was pushed twice each link points back to
    /// the batch pushed just before it.
    pub closed spec fn wf(&self) -> bool {
        &&& self.hashes@.len() == self.links@.len()
        &&& self.hashes@.no_duplicates()
        &&& forall|i: int|
            0 <= i < self.hashes@.len() ==> #[trigger] self.hashes@[i] == content_hash(
                self.links@[i].aggregated.commitments@,
            )
        &&& forall|k: H256| #[trigger]
            self@.contains_key(k) ==> match self@[k].previous {
                Some(p) => self@.contains_key(p),
                None => true,
            }
        &&& self.pushed@.len() >= 1
        &&& self.pushed@.last() == self.last
        &&& forall|k: H256| #[trigger] self@.contains_key(k) == self.pushed@.contains(k)
        &&& self.pushed@.no_duplicates() ==> {
            &&& self@[self.pushed@[0]].previous == None::<H256>
            &&& forall|i: int|
                0 < i < self.pushed@.len() ==> #[trigger] self@[self.pushed@[i]].previous == Some(
                    self.pushed@[i - 1],
                )
        }
    }

    /// Every link of the chain is keyed by the content hash of its batch, and
    /// every back-link points into the chain.
    pub proof fn lemma_wf_facts(&self)
        requires
            self.wf(),
        ensures
            self@.contains_key(self.tip()),
            forall|k: H256| #[trigger]
                self@.contains_key(k) ==> k == content_hash(self@[k].aggregated.commitments@),
            forall|k: H256| #[trigger]
                self@.contains_key(k) ==> match self@[k].previous {
                    Some(p) => self@.contains_key(p),
                    None => true,
                },
    {
        assert(self.pushed@.contains(self.last)) by {
            assert(self.pushed@[self.pushed@.len() - 1] == self.last);
        }
        assert forall|k: H256| #[trigger] self@.contains_key(k) implies k == content_hash(
            self@[k].aggregated.commitments@,
        ) by {
            let j = self.hashes@.index_of(k);
            lemma_assoc_at(self.hashes@, self.links@, j);
        }
    }

    /// Starts a chain with `initial` as its only link.
    pub fn new(initial: AggregatedCommitments<D>) -> (r: Self)
        ensures
            r.wf(),
            r@ == map![
                content_hash(initial.commitments@) => (LinkedAggregation {
                    aggregated: initial,
                    previous: None,
                }),
            ],
            r.tip() == content_hash(initial.commitments@),
            r.history() == seq![content_hash(initial.commitments@)],
    {
        let hash = initial.hash();
        let mut hashes: Vec<H256> = Vec::new();
        let mut links: Vec<LinkedAggregation<D>> = Vec::new();
        let ghost link = LinkedAggregation { aggregated: initial, previous: None };
        proof {
            lemma_assoc_push(hashes@, links@, hash, link);
        }
        hashes.push(hash);
        links.push(LinkedAggregation { aggregated: initial, previous: None });
        let r = AggregatedQueue {
            hashes,
            links,
            last: hash,
            pushed: Ghost(Seq::empty().push(hash)),
        };
        proof {
            assert(hashes@ =~= Seq::<H256>::empty().push(hash));
            assert(links@ =~= Seq::<LinkedAggregation<D>>::empty().push(link));
            assert(assoc(Seq::<H256>::empty(), Seq::<LinkedAggregation<D>>::empty()) =~= Map::<
                H256,
                LinkedAggregation<D>,
            >::empty());
            assert(r@ =~= map![hash => link]);
            assert forall|k: H256| #[trigger] r@.contains_key(k) == r.pushed@.contains(k) by {
                if k == hash {
                    assert(r.pushed@[0] == k);
                }
            }
        }
        r
    }

    /// Appends `commitment` as the new tip, linked back to the old tip. A
    /// batch whose hash is already in the chain replaces the link stored
    /// under that hash.
    pub fn push(&mut self, commitment: AggregatedCommitments<D>)
        requires
            old(self).wf(),
        ensures
            final(self).wf(),
            final(self)@ == old(self)@.insert(
                content_hash(commitment.commitments@),
                (LinkedAggregation { aggregated: commitment, previous: Some(old(self).tip()) }),
            ),
            final(self).tip() == content_hash(commitment.commitments@),
            final(self).history() == old(self).history().push(
                content_hash(commitment.commitments@),
            ),
    {
        let hash = commitment.hash();
        let ghost link = LinkedAggregation { aggregated: commitment, previous: Some(self.last) };
        let ghost old_map = self@;
        let ghost old_pushed = self.pushed@;
        proof {
            self.lemma_wf_facts();
        }
        let new_link = LinkedAggregation { aggregated: commitment, previous: Some(self.last) };
        match find_hash(&self.hashes, &hash) {
            Some(i) => {
                proof {
                    lemma_assoc_update(self.hashes@, self.links@, i as int, link);
                }
                self.links.set(i, new_link);
            },
            None => {
                proof {
                    lemma_assoc_push(self.hashes@, self.links@, hash, link);
                }
                self.hashes.push(hash);
                self.links.push(new_link);
            },
        }
        self.last = hash;
        self.pushed = Ghost(old_pushed.push(hash));
        proof {
            assert(self@ == old_map.insert(hash, link));
            let np = self.pushed@;
            assert forall|k: H256| #[trigger] self@.contains_key(k) == np.contains(k) by {
                if k == hash {
                    assert(np[np.len() - 1] == k);
                }
                if old_pushed.contains(k) {
                    let j = old_pushed.index_of(k);
                    assert(np[j] == k);
                }
                if np.contains(k) && k != hash {
                    let j = np.index_of(k);
                    assert(old_pushed[j] == k);
                }
            }
            assert forall|i: int| 0 <= i < self.hashes@.len() implies #[trigger] self.hashes@[i]
                == content_hash(self.links@[i].aggregated.commitments@) by {}
            if np.no_duplicates() {
                assert(old_pushed.no_duplicates()) by {
                    assert forall|a: int, b: int| 0 <= a < b < old_pushed.len() implies old_pushed[a]
                        != old_pushed[b] by {
                        assert(np[a] == old_pushed[a] && np[b] == old_pushed[b]);
                    }
                }
                assert(!old_pushed.contains(hash)) by {
                    if old_pushed.contains(hash) {
                        let j = old_pushed.index_of(hash);
                        assert(np[j] == np[np.len() - 1]);
                    }
                }
                assert(np[0] != hash) by {
                    if old_pushed.len() >= 1 {
                        assert(np[0] == old_pushed[0]);
                        assert(old_pushed.contains(old_pushed[0]));
                    }
                }
                assert forall|i: int| 0 < i < np.len() implies #[trigger] self@[np[i]].previous
                    == Some(np[i - 1]) by {
                    if i < np.len() - 1 {
                        assert(np[i] == old_pushed[i]);
                        assert(old_pushed.contains(old_pushed[i]));
                    }
                }
            }
        }
    }

    /// The signature stored under `commitment`, anywhere in the chain.
    pub fn get_signature(&self, commitment: H256) -> (r: Option<Signature>)
        requires
            self.wf(),
        ensures
            r == (if self@.contains_key(commitment) {
                Some(self@[commitment].aggregated.signature)
            } else {
                None
            }),
    {
        match find_hash(&self.hashes, &commitment) {
            Some(i) => {
                proof {
                    lemma_assoc_at(self.hashes@, self.links@, i as int);
                }
                Some(self.links[i].aggregated.signature)
            },
            None => None,
        }
    }

    /// The hash of the link before `commitment` in this chain.
    pub fn previous(&self, commitment: H256) -> (r: Option<H256>)
        requires
            self.wf(),
        ensures
            r == self.previous_of(commitment),
    {
        match find_hash(&self.hashes, &commitment) {
            Some(i) => {
                proof {
                    lemma_assoc_at(self.hashes@, self.links@, i as int);
                }
                self.links[i].previous
            },
            None => None,
        }
    }
}

/// Where `n` steps back along `previous_of` from `h` lead, if they can be taken.
pub open spec fn walk_back<D: SeqHash>(q: &AggregatedQueue<D>, h: H256, n: nat) -> Option<H256>
    decreases n,
{
    if n == 0 {
        Some(h)
    } else {
        match walk_back(q, h, (n - 1) as nat) {
            Some(x) => q.previous_of(x),
            None => None,
        }
    }
}

/// After pushes of pairwise distinct batches into a chain, walking back `k`
/// steps from the tip reaches the batch pushed `k` pushes before it; after
/// as many steps as there were batches, less one, the walk stands at the
/// first batch, and one step further there is nothing.
pub proof fn lemma_chain_integrity<D: SeqHash>(q: &AggregatedQueue<D>, k: nat)
    requires
        q.wf(),
        q.history().no_duplicates(),
        k <= q.history().len(),
    ensures
        k < q.history().len() ==> walk_back(q, q.tip(), k) == Some(
            q.history()[q.history().len() - 1 - k],
        ),
        k == q.history().len() ==> walk_back(q, q.tip(), k) == None::<H256>,
    decreases k,
{
    let hs = q.history();
    let n = hs.len();
    if k > 0 {
        lemma_chain_integrity(q, (k - 1) as nat);
        let x = hs[n - k];
        assert(hs.contains(x));
        assert(q@.contains_key(x));
        if k < n {
            assert(q@[hs[n - k]].previous == Some(hs[n - k - 1]));
        } else {
            assert(q@[hs[0]].previous == None::<H256>);
        }
    }
}

/// A commitment set with the origins that signed it: `sources[i]` produced
/// `signatures[i]`.
#[derive(Clone, Debug)]
pub struct MultisignedCommitments<D> {
    pub commitments: Vec<D>,
    pub sources: Vec<Address>,
    pub signatures: Vec<Signature>,
}

fn copy_commitments<D: Copy>(v: &Vec<D>) -> (r: Vec<D>)
    ensures
        r@ == v@,
{
    let mut r: Vec<D> = Vec::new();
    let mut i: usize = 0;
    while i < v.len()
        invariant
            i <= v@.len(),
            r@ == v@.subrange(0, i as int),
        decreases v@.len() - i,
    {
        let c: D = v[i];
        r.push(c);
        proof {
            assert(v@.subrange(0, i + 1) =~= v@.subrange(0, i as int).push(c));
        }
        i = i + 1;
    }
    proof {
        assert(v@.subrange(0, v@.len() as int) =~= v@);
    }
    r
}

/// Collects the chains of all origins for one aggregation window and finds
/// the nearest commitment set that enough distinct origins have signed.
pub struct Aggregator<D> {
    threshold: usize,
    origins: Vec<Address>,
    queues: Vec<AggregatedQueue<D>>,
    plain_hashes: Vec<H256>,
    plain_commitments: Vec<Vec<D>>,
    rolling: Option<H256>,
}

impl<D: SeqHash + Copy> Aggregator<D> {
    /// How many distinct origins must have signed a commitment set.
    pub closed spec fn threshold(&self) -> nat {
        self.threshold as nat
    }

    /// The origins that have pushed in this window, in order of first push.
    pub closed spec fn origins(&self) -> Seq<Address> {
        self.origins@
    }

    /// The chain of each origin, in the order of `origins`.
    pub closed spec fn chains(&self) -> Seq<AggregatedQueue<D>> {
        self.queues@
    }

    /// The commitments last pushed under each content hash, by any origin.
    pub closed spec fn plain(&self) -> Map<H256, Seq<D>> {
        assoc(self.plain_hashes@, self.plain_commitments@.map_values(|v: Vec<D>| v@))
    }

    /// The hash of the batch pushed last, by any origin.
    pub closed spec fn rolling(&self) -> Option<H256> {
        self.rolling
    }

    /// The window's invariant: one well-formed chain per distinct origin,
    /// and the commitments of every linked hash and of the rolling hash are
    /// recorded.
    pub closed spec fn wf(&self) -> bool {
        &&& self.origins@.len() == self.queues@.len()
        &&& self.origins@.no_duplicates()
        &&& forall|i: int| 0 <= i < self.queues@.len() ==> #[trigger] self.queues@[i].wf()
        &&& self.plain_hashes@.len() == self.plain_commitments@.len()
        &&& self.plain_hashes@.no_duplicates()
        &&& forall|i: int, k: H256|
            0 <= i < self.queues@.len() && #[trigger] self.queues@[i]@.contains_key(k)
                ==> self.plain_hashes@.contains(k)
        &&& match self.rolling {
            Some(r) => self.plain_hashes@.contains(r) && self.origins@.len() > 0,
            None => self.origins@.len() == 0,
        }
    }

    /// The origins, among the first `n`, whose chain holds `h`.
    pub open spec fn attesters(&self, h: H256, n: nat) -> Seq<Address>
        decreases n,
    {
        if n == 0 {
            Seq::empty()
        } else {
            let rest = self.attesters(h, (n - 1) as nat);
            if self.chains()[n - 1]@.contains_key(h) {
                rest.push(self.origins()[n - 1])
            } else {
                rest
            }
        }
    }

    /// The signatures that the first `n` origins stored under `h`, in the
    /// order of `attesters`.
    pub open spec fn attest_signatures(&self, h: H256, n: nat) -> Seq<Signature>
        decreases n,
    {
        if n == 0 {
            Seq::empty()
        } else {
            let rest = self.attest_signatures(h, (n - 1) as nat);
            if self.chains()[n - 1]@.contains_key(h) {
                rest.push(self.chains()[n - 1]@[h].aggregated.signature)
            } else {
                rest
            }
        }
    }

    /// The search order after the back-links of `h` in the first `n` chains
    /// are appended to `order`, each unless it is there already.
    pub open spec fn expand(&self, h: H256, order: Seq<H256>, n: nat) -> Seq<H256>
        decreases n,
    {
        if n == 0 {
            order
        } else {
            let o = self.expand(h, order, (n - 1) as nat);
            match self.chains()[n - 1].previous_of(h) {
                Some(p) => if o.contains(p) {
                    o
                } else {
                    o.push(p)
                },
                None => o,
            }
        }
    }

    /// Breadth-first search: `order` holds every hash queued so far, and
    /// those from `head` on are still to be examined. The first one that
    /// `threshold` origins attest is the answer.
    pub open spec fn bfs(&self, order: Seq<H256>, head: nat, fuel: nat) -> Option<H256>
        decreases fuel,
    {
        if fuel == 0 || head >= order.len() {
            None
        } else {
            let h = order[head as int];
            if self.attesters(h, self.origins().len()).len() >= self.threshold() {
                Some(h)
            } else {
                self.bfs(self.expand(h, order, self.origins().len()), head + 1, (fuel - 1) as nat)
            }
        }
    }

    /// The hash that the search settles on: the nearest to the rolling hash,
    /// in breadth-first order along back-links, that enough origins attest.
    /// No hash is examined twice, so the search takes at most one step per
    /// distinct pushed hash.
    pub open spec fn quorum_hash(&self) -> Option<H256> {
        match self.rolling() {
            None => None,
            Some(r) => self.bfs(seq![r], 0, self.plain().dom().len()),
        }
    }

    /// The window is fresh: no pushes yet, and `threshold` as given.
    pub open spec fn is_fresh(&self, threshold: nat) -> bool {
        &&& self.threshold() == threshold
        &&& self.origins().len() == 0
        &&& self.plain() == Map::<H256, Seq<D>>::empty()
        &&& self.rolling() == None::<H256>
    }

    /// What a push of `batch` from `origin` makes of `prev`: the commitments
    /// are recorded under their content hash, which becomes the rolling hash,
    /// and the batch is linked into the origin's chain, which is started at
    /// the end of the chains if the origin had none.
    pub open spec fn pushed_from(
        &self,
        prev: Self,
        origin: Address,
        aggregated: AggregatedCommitments<D>,
    ) -> bool {
        &&& self.threshold() == prev.threshold()
        &&& self.plain() == prev.plain().insert(
            content_hash(aggregated.commitments@),
            aggregated.commitments@,
        )
        &&& self.rolling() == Some(content_hash(aggregated.commitments@))
        &&& (prev.origins().contains(origin) ==> {
            &&& self.origins() == prev.origins()
            &&& forall|i: int|
                0 <= i < prev.origins().len() ==> if prev.origins()[i] == origin {
                    &&& (#[trigger] self.chains()[i])@ == prev.chains()[i]@.insert(
                        content_hash(aggregated.commitments@),
                        (LinkedAggregation {
                            aggregated,
                            previous: Some(prev.chains()[i].tip()),
                        }),
                    )
                    &&& self.chains()[i].tip() == content_hash(aggregated.commitments@)
                } else {
                    self.chains()[i] == prev.chains()[i]
                }
        })
        &&& (!prev.origins().contains(origin) ==> {
            &&& self.origins() == prev.origins().push(origin)
            &&& self.chains().len() == prev.chains().len() + 1
            &&& forall|i: int|
                0 <= i < prev.chains().len() ==> #[trigger] self.chains()[i] == prev.chains()[i]
            &&& self.chains().last()@ == map![
                content_hash(aggregated.commitments@) => (LinkedAggregation {
                    aggregated,
                    previous: None,
                }),
            ]
            &&& self.chains().last().tip() == content_hash(aggregated.commitments@)
        })
    }

    /// Origins are distinct, every hash linked in a chain has its raw
    /// commitments recorded, and so does the rolling hash.
    pub proof fn lemma_window_invariants(&self)
        requires
            self.wf(),
        ensures
            self.origins().no_duplicates(),
            self.chains().len() == self.origins().len(),
            forall|i: int, h: H256|
                0 <= i < self.chains().len() && #[trigger] self.chains()[i]@.contains_key(h)
                    ==> self.plain().contains_key(h),
            self.rolling() matches Some(r) ==> self.plain().contains_key(r),
    {
    }

    /// A window without pushes has no rolling hash, so the search finds
    /// nothing.
    pub proof fn lemma_empty_has_no_quorum(&self)
        requires
            self.wf(),
            self.origins().len() == 0,
        ensures
            self.quorum_hash() == None::<H256>,
    {
    }

    /// A fresh aggregator that asks for `threshold` distinct origins.
    pub fn new(threshold: usize) -> (r: Self)
        ensures
            r.wf(),
            r.is_fresh(threshold as nat),
    {
        let r = Aggregator {
            threshold,
            origins: Vec::new(),
            queues: Vec::new(),
            plain_hashes: Vec::new(),
            plain_commitments: Vec::new(),
            rolling: None,
        };
        proof {
            assert(r.plain() =~= Map::<H256, Seq<D>>::empty());
        }
        r
    }

    /// The number of distinct origins that have pushed.
    pub fn len(&self) -> (r: usize)
        requires
            self.wf(),
        ensures
            r == self.origins().len(),
    {
        self.origins.len()
    }

    /// Consumes the aggregator. Returns the commitments stored under
    /// `quorum_hash`, with the origins whose chains hold that hash and the
    /// signatures they stored under it; none if there is no such hash.
    pub fn find_root(self) -> (r: Option<MultisignedCommitments<D>>)
        requires
            self.wf(),
        ensures
            match (self.quorum_hash(), r) {
                (None, None) => true,
                (Some(h), Some(m)) => {
                    &&& m.commitments@ == self.plain()[h]
                    &&& m.sources@ == self.attesters(h, self.origins().len())
                    &&& m.signatures@ == self.attest_signatures(h, self.origins().len())
                },
                _ => false,
            },
    {
        let rolling = match self.rolling {
            Some(r) => r,
            None => return None,
        };
        let ghost n = self.plain_hashes@.len();
        let ghost f = |v: Vec<D>| v@;
        proof {
            assert(self.plain().dom() =~= self.plain_hashes@.to_set());
            self.plain_hashes@.unique_seq_to_set();
        }
        let mut order: Vec<H256> = Vec::new();
        order.push(rolling);
        let mut head: usize = 0;
        proof {
            assert(order@ =~= seq![rolling]);
            assert(forall|k: H256| order@.contains(k) ==> k == rolling);
            lemma_unique_subseq_len(order@, self.plain_hashes@);
        }
        while head < order.len()
            invariant
                self.wf(),
                head <= order@.len(),
                order@.no_duplicates(),
                forall|k: H256| order@.contains(k) ==> self.plain_hashes@.contains(k),
                order@.len() <= n,
                n == self.plain_hashes@.len(),
                self.bfs(order@, head as nat, (n - head) as nat) == self.quorum_hash(),
            decreases n - head,
        {
            let h = order[head];
            assert(order@.contains(h));
            let mut sources: Vec<Address> = Vec::new();
            let mut signatures: Vec<Signature> = Vec::new();
            let mut i: usize = 0;
            while i < self.queues.len()
                invariant
                    self.wf(),
                    i <= self.queues@.len(),
                    sources@ == self.attesters(h, i as nat),
                    signatures@ == self.attest_signatures(h, i as nat),
                decreases self.queues@.len() - i,
            {
                match self.queues[i].get_signature(h) {
                    Some(signature) => {
                        sources.push(self.origins[i]);
                        signatures.push(signature);
                    },
                    None => {},
                }
                i = i + 1;
            }
            if sources.len() >= self.threshold {
                match find_hash(&self.plain_hashes, &h) {
                    Some(j) => {
                        proof {
                            lemma_assoc_at(
                                self.plain_hashes@,
                                self.plain_commitments@.map_values(f),
                                j as int,
                            );
                        }
                        let commitments = copy_commitments(&self.plain_commitments[j]);
                        return Some(MultisignedCommitments { commitments, sources, signatures });
                    },
                    None => {
                        return None;
                    },
                }
            }
            let ghost start = order@;
            let mut i: usize = 0;
            while i < self.queues.len()
                invariant
                    self.wf(),
                    i <= self.queues@.len(),
                    order@ == self.expand(h, start, i as nat),
                    head < start.len() <= order@.len(),
                    order@.no_duplicates(),
                    forall|k: H256| order@.contains(k) ==> self.plain_hashes@.contains(k),
                decreases self.queues@.len() - i,
            {
                match self.queues[i].previous(h) {
                    Some(p) => {
                        if find_hash(&order, &p).is_none() {
                            proof {
                                assert(self.queues@[i as int].wf());
                                self.queues@[i as int].lemma_wf_facts();
                                assert(self.queues@[i as int]@.contains_key(h));
                                assert(self.queues@[i as int]@.contains_key(p));
                                assert(self.plain_hashes@.contains(p));
                                assert forall|a: int, b: int|
                                    0 <= a < b < order@.len() + 1 implies order@.push(p)[a]
                                    != order@.push(p)[b] by {
                                    if b == order@.len() {
                                        assert(order@[a] == order@.push(p)[a]);
                                    }
                                }
                                assert forall|k: H256| order@.push(p).contains(k)
                                    implies self.plain_hashes@.contains(k) by {
                                    if k != p {
                                        let j = order@.push(p).index_of(k);
                                        assert(j < order@.len());
                                        assert(order@[j] == k);
                                        assert(order@.contains(k));
                                    }
                                }
                            }
                            order.push(p);
                        }
                    },
                    None => {},
                }
                i = i + 1;
            }
            proof {
                lemma_unique_subseq_len(order@, self.plain_hashes@);
            }
            head = head + 1;
        }
        None
    }

    /// Records `aggregated` from `origin`: its commitments under its content
    /// hash, and the batch in the origin's chain, which is started if the
    /// origin has none. The batch's hash becomes the rolling hash.
    pub fn push(&mut self, origin: Address, aggregated: AggregatedCommitments<D>)
        requires
            old(self).wf(),
        ensures
            final(self).wf(),
            final(self).pushed_from(*old(self), origin, aggregated),
    {
        let hash = aggregated.hash();
        let copied = copy_commitments(&aggregated.commitments);
        let ghost f = |v: Vec<D>| v@;
        match find_hash(&self.plain_hashes, &hash) {
            Some(i) => {
                proof {
                    lemma_assoc_update(
                        self.plain_hashes@,
                        self.plain_commitments@.map_values(f),
                        i as int,
                        copied@,
                    );
                    assert(self.plain_commitments@.update(i as int, copied).map_values(f)
                        =~= self.plain_commitments@.map_values(f).update(i as int, copied@));
                }
                self.plain_commitments.set(i, copied);
                assert(self.plain_hashes@[i as int] == hash);
            },
            None => {
                proof {
                    lemma_assoc_push(
                        self.plain_hashes@,
                        self.plain_commitments@.map_values(f),
                        hash,
                        copied@,
                    );
                    assert(self.plain_commitments@.push(copied).map_values(f)
                        =~= self.plain_commitments@.map_values(f).push(copied@));
                }
                self.plain_hashes.push(hash);
                self.plain_commitments.push(copied);
                assert(self.plain_hashes@[self.plain_hashes@.len() - 1] == hash);
            },
        }
        assert(self.plain_hashes@.contains(hash));
        let ghost old_queues = self.queues@;
        match find_address(&self.origins, &origin) {
            Some(i) => {
                proof {
                    assert(self.origins@.index_of(origin) == i) by {
                        assert(self.origins@[i as int] == origin);
                    }
                }
                self.queues[i].push(aggregated);
                proof {
                    assert forall|j: int|
                        0 <= j < self.origins@.len() && self.origins@[j] == origin implies j
                        == i by {}
                }
            },
            None => {
                proof {
                    let pushed = self.origins@.push(origin);
                    assert forall|a: int, b: int|
                        0 <= a < b < pushed.len() implies pushed[a] != pushed[b] by {
                        if b == self.origins@.len() {
                            assert(self.origins@[a] == pushed[a]);
                        }
                    }
                }
                self.origins.push(origin);
                self.queues.push(AggregatedQueue::new(aggregated));
            },
        }
        self.rolling = Some(hash);
        proof {
            assert forall|i: int, k: H256|
                0 <= i < self.queues@.len() && #[trigger] self.queues@[i]@.contains_key(k)
                    implies self.plain_hashes@.contains(k) by {
                if i < old_queues.len() && old_queues[i]@.contains_key(k) {
                    assert(old(self).plain_hashes@.contains(k));
                    let j = old(self).plain_hashes@.index_of(k);
                    assert(self.plain_hashes@[j] == k);
                }
            }
        }
    }
}

/// A hash that the search settles on is attested by at least `threshold`
/// origins, and carries one signature per attesting origin.
pub proof fn lemma_quorum_is_attested<D: SeqHash + Copy>(agg: &Aggregator<D>)
    requires
        agg.quorum_hash() is Some,
    ensures
        ({
            let h = agg.quorum_hash()->0;
            let n = agg.origins().len();
            &&& agg.attesters(h, n).len() >= agg.threshold()
            &&& agg.attest_signatures(h, n).len() == agg.attesters(h, n).len()
        }),
{
    let r = agg.rolling()->0;
    lemma_bfs_attested(agg, seq![r], 0, agg.plain().dom().len());
    lemma_one_signature_per_source(agg, agg.quorum_hash()->0, agg.origins().len());
}

proof fn lemma_bfs_attested<D: SeqHash + Copy>(
    agg: &Aggregator<D>,
    order: Seq<H256>,
    head: nat,
    fuel: nat,
)
    ensures
        agg.bfs(order, head, fuel) matches Some(h) ==> agg.attesters(h, agg.origins().len()).len()
            >= agg.threshold(),
    decreases fuel,
{
    if fuel > 0 && head < order.len() {
        let h = order[head as int];
        if agg.attesters(h, agg.origins().len()).len() < agg.threshold() {
            lemma_bfs_attested(
                agg,
                agg.expand(h, order, agg.origins().len()),
                head + 1,
                (fuel - 1) as nat,
            );
        }
    }
}

/// Each attesting origin contributes exactly one signature: a result of the
/// search carries as many signatures as origins.
pub proof fn lemma_one_signature_per_source<D: SeqHash + Copy>(
    agg: &Aggregator<D>,
    h: H256,
    n: nat,
)
    ensures
        agg.attesters(h, n).len() == agg.attest_signatures(h, n).len(),
    decreases n,
{
    if n > 0 {
        lemma_one_signature_per_source(agg, h, (n - 1) as nat);
    }
}

} // verus!
