//! The mempool's store of unconfirmed transactions, indexed by id, with
//! materialized parent, ancestor and descendant sets and aggregate fee
//! scores, kept consistent under insertion and removal.

use vstd::prelude::*;

use crate::encode::signed_tx_bytes;
use crate::feerate::Fee;
use crate::primitives::{Amount, H256, Time};
use crate::transaction::{OutPoint, SignedTransaction};
use crate::vecmap::VecMap;

verus! {

/// One pool entry: the transaction, its fee and size, when it arrived,
/// and its materialized relatives with their aggregate scores.
pub struct TxMempoolEntry {
    pub tx: SignedTransaction,
    pub fee: Fee,
    pub creation_time: Time,
    pub encoded_size: usize,
    pub parents: Vec<H256>,
    pub ancestors: Vec<H256>,
    pub descendants: Vec<H256>,
    pub ancestor_score: Fee,
    pub descendant_score: Fee,
}

impl TxMempoolEntry {
    pub fn tx_id(&self) -> (r: H256)
        ensures
            r == crate::encode::tx_id_spec(self.tx.transaction),
    {
        self.tx.get_id()
    }

    pub fn fee(&self) -> (r: Fee)
        ensures
            r == self.fee,
    {
        self.fee
    }

    pub fn creation_time(&self) -> (r: Time)
        ensures
            r == self.creation_time,
    {
        self.creation_time
    }

    pub fn size(&self) -> (r: usize)
        ensures
            r == self.encoded_size,
    {
        self.encoded_size
    }

    pub fn transaction(&self) -> (r: &SignedTransaction)
        ensures
            *r == self.tx,
    {
        &self.tx
    }

    pub fn ancestor_score(&self) -> (r: Fee)
        ensures
            r == self.ancestor_score,
    {
        self.ancestor_score
    }

    pub fn descendant_score(&self) -> (r: Fee)
        ensures
            r == self.descendant_score,
    {
        self.descendant_score
    }

    /// This entry and all its in-pool descendants.
    pub fn count_with_descendants(&self) -> (r: usize)
        ensures
            r == 1 + self.descendants@.len() || r == usize::MAX,
    {
        if self.descendants.len() < usize::MAX {
            1 + self.descendants.len()
        } else {
            usize::MAX
        }
    }

    /// Whether the entry signals replaceability.
    pub fn is_replaceable(&self) -> (r: bool)
        ensures
            r <==> crate::transaction::tx_flags(self.tx.transaction) & 1 == 1,
    {
        self.tx.transaction.is_replaceable()
    }
}

/// Whether an id occurs in a list.
pub open spec fn id_in(s: Seq<H256>, x: H256) -> bool {
    exists|i: int| 0 <= i < s.len() && s[i] == x
}

/// No id occurs twice.
pub open spec fn distinct_ids(s: Seq<H256>) -> bool {
    forall|i: int, j: int| 0 <= i < j < s.len() ==> s[i] != s[j]
}

/// Saturating addition of fee atoms.
pub open spec fn sat_add(a: u128, b: u128) -> u128 {
    if a + b > u128::MAX {
        u128::MAX
    } else {
        (a + b) as u128
    }
}

/// The saturating sum of the fees of the listed entries.
pub open spec fn sum_fees_sat(m: Map<H256, TxMempoolEntry>, ids: Seq<H256>) -> u128
    decreases ids.len(),
{
    if ids.len() == 0 {
        0
    } else {
        sat_add(sum_fees_sat(m, ids.drop_last()), m[ids.last()].fee.atoms)
    }
}

/// Fee-only congruence: the saturating sums agree when every listed
/// entry keeps its fee.
pub proof fn lemma_sum_fees_congruence(
    m1: Map<H256, TxMempoolEntry>,
    m2: Map<H256, TxMempoolEntry>,
    ids: Seq<H256>,
)
    requires
        forall|i: int|
            0 <= i < ids.len() ==> m1.dom().contains(#[trigger] ids[i]) && m2.dom().contains(
                ids[i],
            ) && m1[ids[i]].fee == m2[ids[i]].fee,
    ensures
        sum_fees_sat(m1, ids) == sum_fees_sat(m2, ids),
    decreases ids.len(),
{
    if ids.len() > 0 {
        assert forall|i: int|
            0 <= i < ids.drop_last().len() implies m1.dom().contains(
            #[trigger] ids.drop_last()[i],
        ) && m2.dom().contains(ids.drop_last()[i]) && m1[ids.drop_last()[i]].fee
            == m2[ids.drop_last()[i]].fee by {
            assert(ids.drop_last()[i] == ids[i]);
        }
        lemma_sum_fees_congruence(m1, m2, ids.drop_last());
        assert(ids[ids.len() - 1] == ids.last());
    }
}

/// The per-entry consistency the pool maintains: the entry is keyed by
/// its transaction's id and sized by its encoding; its lists are
/// duplicate-free and point at pool entries; ancestor and descendant
/// links mirror each other; and each score is the saturating fee sum
/// over the matching set.
pub open spec fn entry_ok(m: Map<H256, TxMempoolEntry>, id: H256) -> bool {
    let e = m[id];
    &&& crate::encode::tx_id_spec(e.tx.transaction) == id
    &&& e.tx.wf()
    &&& e.encoded_size == signed_tx_bytes(e.tx).len()
    &&& distinct_ids(e.ancestors@)
    &&& distinct_ids(e.descendants@)
    &&& !id_in(e.ancestors@, id)
    &&& !id_in(e.descendants@, id)
    &&& (forall|i: int| 0 <= i < e.parents@.len() ==> id_in(e.ancestors@, #[trigger] e.parents@[i]))
    &&& (forall|i: int|
        0 <= i < e.ancestors@.len() ==> m.dom().contains(#[trigger] e.ancestors@[i]) && id_in(
            m[e.ancestors@[i]].descendants@,
            id,
        ))
    &&& (forall|i: int|
        0 <= i < e.descendants@.len() ==> m.dom().contains(#[trigger] e.descendants@[i]) && id_in(
            m[e.descendants@[i]].ancestors@,
            id,
        ))
    &&& e.ancestor_score.atoms == sat_add(e.fee.atoms, sum_fees_sat(m, e.ancestors@))
    &&& e.descendant_score.atoms == sat_add(e.fee.atoms, sum_fees_sat(m, e.descendants@))
}

/// The pool store's invariant: every entry is consistent.
pub open spec fn store_ok(m: Map<H256, TxMempoolEntry>) -> bool {
    forall|id: H256| #[trigger] m.dom().contains(id) ==> entry_ok(m, id)
}

/// Law: the materialized indices mirror each other — an entry lies among
/// the ancestors of another exactly when the other lies among its
/// descendants; a parent is an ancestor; and each score is the stated
/// function of the entry's fee and its relatives' fees.
pub proof fn lemma_indices_consistent(m: Map<H256, TxMempoolEntry>, a: H256, d: H256)
    requires
        store_ok(m),
        m.dom().contains(a),
        m.dom().contains(d),
    ensures
        id_in(m[d].ancestors@, a) <==> id_in(m[a].descendants@, d),
        forall|i: int|
            0 <= i < m[d].parents@.len() ==> id_in(m[d].ancestors@, #[trigger] m[d].parents@[i]),
        m[d].ancestor_score.atoms == sat_add(m[d].fee.atoms, sum_fees_sat(m, m[d].ancestors@)),
        m[d].descendant_score.atoms == sat_add(m[d].fee.atoms, sum_fees_sat(m, m[d].descendants@)),
{
    assert(entry_ok(m, a));
    assert(entry_ok(m, d));
    if id_in(m[d].ancestors@, a) {
        let i = choose|i: int| 0 <= i < m[d].ancestors@.len() && m[d].ancestors@[i] == a;
        assert(id_in(m[m[d].ancestors@[i]].descendants@, d));
    }
    if id_in(m[a].descendants@, d) {
        let i = choose|i: int| 0 <= i < m[a].descendants@.len() && m[a].descendants@[i] == d;
        assert(id_in(m[m[a].descendants@[i]].ancestors@, a));
    }
}

/// The saturating-sum of all entry sizes.
pub open spec fn sum_sizes(m: Map<H256, TxMempoolEntry>, ids: Seq<H256>) -> int
    decreases ids.len(),
{
    if ids.len() == 0 {
        0
    } else {
        sum_sizes(m, ids.drop_last()) + m[ids.last()].encoded_size
    }
}

/// The store of unconfirmed transactions, with its tracked total of
/// encoded bytes.
pub struct MempoolStore {
    pub(crate) txs_by_id: VecMap<H256, TxMempoolEntry>,
    pub(crate) total_size: u128,
}

impl MempoolStore {
    pub closed spec fn view(&self) -> Map<H256, TxMempoolEntry> {
        self.txs_by_id@
    }

    pub closed spec fn total_size_spec(&self) -> u128 {
        self.total_size
    }

    pub closed spec fn wf(&self) -> bool {
        &&& self.txs_by_id.wf()
        &&& store_ok(self.txs_by_id@)
    }

    pub fn new() -> (r: Self)
        ensures
            r.wf(),
            r@ == Map::<H256, TxMempoolEntry>::empty(),
            r.total_size_spec() == 0,
    {
        MempoolStore { txs_by_id: VecMap::new(), total_size: 0 }
    }

    pub fn contains(&self, id: &H256) -> (r: bool)
        requires
            self.wf(),
        ensures
            r <==> self@.dom().contains(*id),
    {
        self.txs_by_id.contains_key(id)
    }

    pub fn get_entry(&self, id: &H256) -> (r: Option<&TxMempoolEntry>)
        requires
            self.wf(),
        ensures
            match r {
                Some(e) => self@.dom().contains(*id) && *e == self@[*id],
                None => !self@.dom().contains(*id),
            },
    {
        self.txs_by_id.get(id)
    }

    pub fn is_empty(&self) -> (r: bool)
        requires
            self.wf(),
        ensures
            r <==> self@ == Map::<H256, TxMempoolEntry>::empty(),
    {
        self.txs_by_id.is_empty()
    }

    pub fn len(&self) -> (r: usize)
        requires
            self.wf(),
        ensures
            r == self@.dom().len(),
    {
        self.txs_by_id.len()
    }

    /// The tracked total of encoded bytes held.
    pub fn memory_usage(&self) -> (r: u128)
        ensures
            r == self.total_size_spec(),
    {
        self.total_size
    }

    /// The in-pool transaction spending the outpoint, if one does.
    #[verifier::loop_isolation(false)]
    pub fn find_conflicting_tx(&self, outpoint: &OutPoint) -> (r: Option<H256>)
        requires
            self.wf(),
        ensures
            match r {
                Some(id) => self@.dom().contains(id) && spends_outpoint(self@[id], *outpoint),
                None => forall|id: H256|
                    #[trigger] self@.dom().contains(id) ==> !spends_outpoint(self@[id], *outpoint),
            },
    {
        let entries = self.txs_by_id.entries();
        let n = entries.len();
        let ghost full = entries@;
        let mut i: usize = 0;
        while i < n
            invariant
                i <= n,
                n == full.len(),
                entries@ == full,
                forall|j: int| 0 <= j < i ==> !spends_outpoint((#[trigger] full[j]).1, *outpoint),
            decreases n - i,
        {
            let e = &entries[i].1;
            let ins = e.tx.inputs();
            let m = ins.len();
            let mut k: usize = 0;
            let mut found = false;
            while k < m
                invariant
                    k <= m,
                    m == crate::transaction::tx_inputs(e.tx.transaction).len(),
                    found <==> (exists|t: int|
                        0 <= t < k && (#[trigger] crate::transaction::tx_inputs(
                            e.tx.transaction,
                        )[t]).outpoint == *outpoint),
                decreases m - k,
            {
                if ins[k].outpoint == *outpoint {
                    found = true;
                }
                k = k + 1;
            }
            if found {
                proof {
                    crate::vecmap::lemma_assoc_map_index(full, i as int);
                }
                return Some(entries[i].0);
            }
            i = i + 1;
        }
        proof {
            assert forall|id: H256| #[trigger] self@.dom().contains(id) implies !spends_outpoint(
                self@[id],
                *outpoint,
            ) by {
                crate::vecmap::lemma_assoc_map_contains(full, id);
                let j = choose|j: int| 0 <= j < full.len() && full[j].0 == id;
                crate::vecmap::lemma_assoc_map_index(full, j);
            }
        }
        None
    }
}

/// Saturating addition associates.
proof fn lemma_sat_assoc(a: u128, b: u128, c: u128)
    ensures
        sat_add(sat_add(a, b), c) == sat_add(a, sat_add(b, c)),
{
}

/// Saturating exec addition.
fn sat_add_exec(a: u128, b: u128) -> (r: u128)
    ensures
        r == sat_add(a, b),
{
    match a.checked_add(b) {
        Some(s) => s,
        None => u128::MAX,
    }
}

/// A copy of an id list.
fn copy_ids(v: &Vec<H256>) -> (r: Vec<H256>)
    ensures
        r@ == v@,
{
    let mut out: Vec<H256> = Vec::new();
    let n = v.len();
    let mut i: usize = 0;
    while i < n
        invariant
            i <= n,
            n == v@.len(),
            out@ == v@.take(i as int),
        decreases n - i,
    {
        out.push(v[i]);
        proof {
            assert(out@ =~= v@.take(i + 1 as int));
        }
        i = i + 1;
    }
    proof {
        assert(out@ =~= v@);
    }
    out
}

impl MempoolStore {
    /// Insert a new entry whose relatives have been resolved against the
    /// current pool: the listed ancestors gain it as a descendant and
    /// their descendant scores absorb its fee.
    #[verifier::rlimit(100)]
    #[verifier::loop_isolation(false)]
    pub fn add_tx(&mut self, entry: TxMempoolEntry) -> (r: Result<(), ()>)
        requires
            old(self).wf(),
            !old(self)@.dom().contains(crate::encode::tx_id_spec(entry.tx.transaction)),
            entry.tx.wf(),
            entry.encoded_size == signed_tx_bytes(entry.tx).len(),
            entry.descendants@.len() == 0,
            distinct_ids(entry.ancestors@),
            forall|i: int|
                0 <= i < entry.ancestors@.len() ==> old(self)@.dom().contains(
                    #[trigger] entry.ancestors@[i],
                ),
            forall|i: int|
                0 <= i < entry.parents@.len() ==> id_in(
                    entry.ancestors@,
                    #[trigger] entry.parents@[i],
                ),
            entry.ancestor_score.atoms == sat_add(
                entry.fee.atoms,
                sum_fees_sat(old(self)@, entry.ancestors@),
            ),
            entry.descendant_score.atoms == entry.fee.atoms,
        ensures
            final(self).wf(),
            r is Ok,
            final(self)@.dom() == old(self)@.dom().insert(
                crate::encode::tx_id_spec(entry.tx.transaction),
            ),
            final(self)@[crate::encode::tx_id_spec(entry.tx.transaction)] == entry,
            forall|k: H256|
                old(self)@.dom().contains(k) ==> unchanged_core(final(self)@[k], old(self)@[k]),
            final(self).total_size_spec() == sat_add(
                old(self).total_size_spec(),
                entry.encoded_size as u128,
            ),
    {
        let id = entry.tx.get_id();
        let fee_atoms = entry.fee.atoms;
        let size = entry.encoded_size;
        let anc_ids = copy_ids(&entry.ancestors);
        let ghost m0 = self@;
        let ghost e0 = entry;
        self.txs_by_id.insert(id, entry);
        self.total_size = sat_add_exec(self.total_size, size as u128);
        let n = anc_ids.len();
        let mut i: usize = 0;
        while i < n
            invariant
                i <= n,
                n == e0.ancestors@.len(),
                anc_ids@ == e0.ancestors@,
                self.txs_by_id.wf(),
                self@.dom() == m0.dom().insert(id),
                self@[id] == e0,
                forall|k: H256|
                    m0.dom().contains(k) && !id_in(e0.ancestors@.take(i as int), k)
                        ==> #[trigger] self@[k] == m0[k],
                forall|j: int|
                    0 <= j < i ==> updated_ancestor(
                        #[trigger] self@[e0.ancestors@[j]],
                        m0[e0.ancestors@[j]],
                        id,
                        fee_atoms,
                    ),
                self.total_size_spec() == sat_add(old(self).total_size_spec(), size as u128),
            decreases n - i,
        {
            let a = anc_ids[i];
            proof {
                assert(m0.dom().contains(a));
                assert(!id_in(e0.ancestors@.take(i as int), a)) by {
                    if id_in(e0.ancestors@.take(i as int), a) {
                        let j = choose|j: int|
                            0 <= j < i && e0.ancestors@.take(i as int)[j] == a;
                        assert(e0.ancestors@[j] == e0.ancestors@[i as int]);
                    }
                }
                assert(self@[a] == m0[a]);
            }
            let ghost pre = self@;
            match self.txs_by_id.remove(&a) {
                Some(mut ae) => {
                    ae.descendants.push(id);
                    ae.descendant_score = Amount {
                        atoms: sat_add_exec(ae.descendant_score.atoms, fee_atoms),
                    };
                    self.txs_by_id.insert(a, ae);
                    proof {
                        assert(ae.descendants@ =~= m0[a].descendants@.push(id));
                        assert(updated_ancestor(ae, m0[a], id, fee_atoms));
                        assert(self@.dom() =~= pre.dom());
                        lemma_add_loop_step(m0, pre, self@, e0, id, fee_atoms, i as int);
                    }
                },
                None => {
                    proof {
                        assert(false);
                    }
                },
            }
            i = i + 1;
        }
        proof {
            assert(e0.ancestors@.take(n as int) =~= e0.ancestors@);
            let m1 = self@;
            assert forall|k: H256| #[trigger] m1.dom().contains(k) implies entry_ok(m1, k) by {
                lemma_add_entry_ok(m0, m1, e0, id, fee_atoms, k);
            }
        }
        Ok(())
    }
}

/// One ancestor update keeps the loop's book-keeping relations.
#[verifier::spinoff_prover]
proof fn lemma_add_loop_step(
    m0: Map<H256, TxMempoolEntry>,
    pre: Map<H256, TxMempoolEntry>,
    post: Map<H256, TxMempoolEntry>,
    e0: TxMempoolEntry,
    id: H256,
    fee_atoms: u128,
    i: int,
)
    requires
        0 <= i < e0.ancestors@.len(),
        distinct_ids(e0.ancestors@),
        forall|t: int| 0 <= t < e0.ancestors@.len() ==> m0.dom().contains(#[trigger] e0.ancestors@[t]),
        !m0.dom().contains(id),
        pre.dom() == m0.dom().insert(id),
        pre[id] == e0,
        forall|k: H256|
            m0.dom().contains(k) && !id_in(e0.ancestors@.take(i), k) ==> #[trigger] pre[k]
                == m0[k],
        forall|j: int|
            0 <= j < i ==> updated_ancestor(
                #[trigger] pre[e0.ancestors@[j]],
                m0[e0.ancestors@[j]],
                id,
                fee_atoms,
            ),
        post.dom() == pre.dom(),
        updated_ancestor(post[e0.ancestors@[i]], m0[e0.ancestors@[i]], id, fee_atoms),
        forall|k: H256|
            k != e0.ancestors@[i] && pre.dom().contains(k) ==> #[trigger] post[k] == pre[k],
    ensures
        post.dom() == m0.dom().insert(id),
        post[id] == e0,
        forall|k: H256|
            m0.dom().contains(k) && !id_in(e0.ancestors@.take(i + 1), k) ==> #[trigger] post[k]
                == m0[k],
        forall|j: int|
            0 <= j < i + 1 ==> updated_ancestor(
                #[trigger] post[e0.ancestors@[j]],
                m0[e0.ancestors@[j]],
                id,
                fee_atoms,
            ),
{
    let a = e0.ancestors@[i];
    assert(id != a);
    assert(post[id] == pre[id]);
    assert forall|k: H256|
        m0.dom().contains(k) && !id_in(e0.ancestors@.take(i + 1), k) implies #[trigger] post[k]
        == m0[k] by {
        assert(!id_in(e0.ancestors@.take(i), k)) by {
            if id_in(e0.ancestors@.take(i), k) {
                let j = choose|j: int| 0 <= j < i && e0.ancestors@.take(i)[j] == k;
                assert(e0.ancestors@.take(i + 1)[j] == k);
            }
        }
        assert(k != a) by {
            assert(e0.ancestors@.take(i + 1)[i] == a);
        }
    }
    assert forall|j: int| 0 <= j < i + 1 implies updated_ancestor(
        #[trigger] post[e0.ancestors@[j]],
        m0[e0.ancestors@[j]],
        id,
        fee_atoms,
    ) by {
        if j < i {
            assert(e0.ancestors@[j] != a);
            assert(pre.dom().contains(e0.ancestors@[j]));
            assert(post[e0.ancestors@[j]] == pre[e0.ancestors@[j]]);
        }
    }
}

/// Every entry stays consistent once a new entry and its ancestor
/// updates have landed.
#[verifier::rlimit(100)]
#[verifier::spinoff_prover]
proof fn lemma_add_entry_ok(
    m0: Map<H256, TxMempoolEntry>,
    m1: Map<H256, TxMempoolEntry>,
    e0: TxMempoolEntry,
    id: H256,
    fee_atoms: u128,
    k: H256,
)
    requires
        store_ok(m0),
        !m0.dom().contains(id),
        crate::encode::tx_id_spec(e0.tx.transaction) == id,
        e0.tx.wf(),
        e0.encoded_size == signed_tx_bytes(e0.tx).len(),
        e0.fee.atoms == fee_atoms,
        e0.descendants@.len() == 0,
        distinct_ids(e0.ancestors@),
        forall|i: int| 0 <= i < e0.ancestors@.len() ==> m0.dom().contains(#[trigger] e0.ancestors@[i]),
        forall|i: int|
            0 <= i < e0.parents@.len() ==> id_in(e0.ancestors@, #[trigger] e0.parents@[i]),
        e0.ancestor_score.atoms == sat_add(fee_atoms, sum_fees_sat(m0, e0.ancestors@)),
        e0.descendant_score.atoms == fee_atoms,
        m1.dom() == m0.dom().insert(id),
        m1[id] == e0,
        forall|x: H256|
            m0.dom().contains(x) && !id_in(e0.ancestors@, x) ==> #[trigger] m1[x] == m0[x],
        forall|j: int|
            0 <= j < e0.ancestors@.len() ==> updated_ancestor(
                #[trigger] m1[e0.ancestors@[j]],
                m0[e0.ancestors@[j]],
                id,
                fee_atoms,
            ),
        m1.dom().contains(k),
    ensures
        entry_ok(m1, k),
{
    // Fees are everywhere preserved, so saturating fee sums over ids
    // held by the old pool transfer.
    assert forall|x: H256| m0.dom().contains(x) implies m1.dom().contains(x) && (
    #[trigger] m1[x]).fee == m0[x].fee by {
        if id_in(e0.ancestors@, x) {
            let j = choose|j: int| 0 <= j < e0.ancestors@.len() && e0.ancestors@[j] == x;
            assert(updated_ancestor(m1[e0.ancestors@[j]], m0[e0.ancestors@[j]], id, fee_atoms));
        }
    }
    if k == id {
        assert(!id_in(e0.ancestors@, id)) by {
            if id_in(e0.ancestors@, id) {
                let j = choose|j: int| 0 <= j < e0.ancestors@.len() && e0.ancestors@[j] == id;
                assert(m0.dom().contains(e0.ancestors@[j]));
            }
        }
        assert forall|i: int| 0 <= i < e0.ancestors@.len() implies m1.dom().contains(
            #[trigger] e0.ancestors@[i],
        ) && id_in(m1[e0.ancestors@[i]].descendants@, id) by {
            assert(updated_ancestor(m1[e0.ancestors@[i]], m0[e0.ancestors@[i]], id, fee_atoms));
            let d = m1[e0.ancestors@[i]].descendants@;
            assert(d[d.len() - 1] == id);
        }
        assert(sum_fees_sat(m1, e0.ancestors@) == sum_fees_sat(m0, e0.ancestors@)) by {
            lemma_sum_fees_congruence(m1, m0, e0.ancestors@);
        }
        assert(entry_ok(m1, id));
    } else if id_in(e0.ancestors@, k) {
        let jk = choose|jk: int| 0 <= jk < e0.ancestors@.len() && e0.ancestors@[jk] == k;
        assert(updated_ancestor(m1[k], m0[k], id, fee_atoms));
        assert(entry_ok(m0, k));
        let ek0 = m0[k];
        let ek1 = m1[k];
        // The pushed descendant is new, so the list stays duplicate-free.
        assert(!id_in(ek0.descendants@, id)) by {
            if id_in(ek0.descendants@, id) {
                let j = choose|j: int| 0 <= j < ek0.descendants@.len() && ek0.descendants@[j] == id;
                assert(m0.dom().contains(ek0.descendants@[j]));
            }
        }
        assert(distinct_ids(ek1.descendants@)) by {
            assert forall|x: int, y: int|
                0 <= x < y < ek1.descendants@.len() implies ek1.descendants@[x]
                != ek1.descendants@[y] by {
                if y < ek0.descendants@.len() {
                    assert(ek1.descendants@[x] == ek0.descendants@[x]);
                    assert(ek1.descendants@[y] == ek0.descendants@[y]);
                } else {
                    assert(ek1.descendants@[y] == id);
                    assert(ek1.descendants@[x] == ek0.descendants@[x]);
                    assert(id_in(ek0.descendants@, ek0.descendants@[x]));
                }
            }
        }
        assert(!id_in(ek1.descendants@, k)) by {
            if id_in(ek1.descendants@, k) {
                let j = choose|j: int| 0 <= j < ek1.descendants@.len() && ek1.descendants@[j] == k;
                if j < ek0.descendants@.len() {
                    assert(id_in(ek0.descendants@, k));
                } else {
                    assert(k == id);
                    assert(m0.dom().contains(k));
                }
            }
        }
        assert(!id_in(ek1.ancestors@, k)) by {
            assert(ek1.ancestors == ek0.ancestors);
        }
        assert forall|i: int| 0 <= i < ek1.ancestors@.len() implies m1.dom().contains(
            #[trigger] ek1.ancestors@[i],
        ) && id_in(m1[ek1.ancestors@[i]].descendants@, k) by {
            assert(ek1.ancestors == ek0.ancestors);
            assert(m0.dom().contains(ek0.ancestors@[i]));
            assert(id_in(m0[ek0.ancestors@[i]].descendants@, k));
            let a2 = ek0.ancestors@[i];
            if id_in(e0.ancestors@, a2) {
                let j2 = choose|j2: int| 0 <= j2 < e0.ancestors@.len() && e0.ancestors@[j2] == a2;
                assert(updated_ancestor(m1[a2], m0[a2], id, fee_atoms));
                let t = choose|t: int|
                    0 <= t < m0[a2].descendants@.len() && m0[a2].descendants@[t] == k;
                assert(m1[a2].descendants@[t] == k);
            } else {
                assert(m1[a2] == m0[a2]);
            }
        }
        assert forall|i: int| 0 <= i < ek1.descendants@.len() implies m1.dom().contains(
            #[trigger] ek1.descendants@[i],
        ) && id_in(m1[ek1.descendants@[i]].ancestors@, k) by {
            if i < ek0.descendants@.len() {
                assert(ek1.descendants@[i] == ek0.descendants@[i]);
                let d = ek0.descendants@[i];
                assert(m0.dom().contains(d));
                assert(id_in(m0[d].ancestors@, k));
                if id_in(e0.ancestors@, d) {
                    assert(updated_ancestor(m1[d], m0[d], id, fee_atoms));
                    assert(m1[d].ancestors == m0[d].ancestors);
                } else {
                    assert(m1[d] == m0[d]);
                }
            } else {
                assert(ek1.descendants@[i] == id);
                assert(m1[id] == e0);
                assert(e0.ancestors@[jk] == k);
                assert(id_in(e0.ancestors@, k));
            }
        }
        assert(sum_fees_sat(m1, ek1.ancestors@) == sum_fees_sat(m0, ek0.ancestors@)) by {
            assert(ek1.ancestors == ek0.ancestors);
            assert forall|i: int| 0 <= i < ek0.ancestors@.len() implies m1.dom().contains(
                #[trigger] ek0.ancestors@[i],
            ) && m0.dom().contains(ek0.ancestors@[i]) && m1[ek0.ancestors@[i]].fee
                == m0[ek0.ancestors@[i]].fee by {}
            lemma_sum_fees_congruence(m1, m0, ek0.ancestors@);
        }
        assert(ek1.descendant_score.atoms == sat_add(
            ek1.fee.atoms,
            sum_fees_sat(m1, ek1.descendants@),
        )) by {
            assert(ek1.descendants@.drop_last() =~= ek0.descendants@);
            assert(ek1.descendants@.last() == id);
            assert(m1[id].fee.atoms == fee_atoms);
            assert(sum_fees_sat(m1, ek1.descendants@) == sat_add(
                sum_fees_sat(m1, ek0.descendants@),
                fee_atoms,
            ));
            assert(sum_fees_sat(m1, ek0.descendants@) == sum_fees_sat(m0, ek0.descendants@)) by {
                assert forall|i: int| 0 <= i < ek0.descendants@.len() implies m1.dom().contains(
                    #[trigger] ek0.descendants@[i],
                ) && m0.dom().contains(ek0.descendants@[i]) && m1[ek0.descendants@[i]].fee
                    == m0[ek0.descendants@[i]].fee by {}
                lemma_sum_fees_congruence(m1, m0, ek0.descendants@);
            }
            lemma_sat_assoc(ek0.fee.atoms, sum_fees_sat(m0, ek0.descendants@), fee_atoms);
        }
        assert(entry_ok(m1, k));
    } else {
        assert(m1[k] == m0[k]);
        assert(entry_ok(m0, k));
        let ek = m0[k];
        assert forall|i: int| 0 <= i < ek.ancestors@.len() implies m1.dom().contains(
            #[trigger] ek.ancestors@[i],
        ) && id_in(m1[ek.ancestors@[i]].descendants@, k) by {
            let a2 = ek.ancestors@[i];
            assert(m0.dom().contains(a2));
            assert(id_in(m0[a2].descendants@, k));
            if id_in(e0.ancestors@, a2) {
                assert(updated_ancestor(m1[a2], m0[a2], id, fee_atoms));
                let t = choose|t: int|
                    0 <= t < m0[a2].descendants@.len() && m0[a2].descendants@[t] == k;
                assert(m1[a2].descendants@[t] == k);
            } else {
                assert(m1[a2] == m0[a2]);
            }
        }
        assert forall|i: int| 0 <= i < ek.descendants@.len() implies m1.dom().contains(
            #[trigger] ek.descendants@[i],
        ) && id_in(m1[ek.descendants@[i]].ancestors@, k) by {
            let d = ek.descendants@[i];
            assert(m0.dom().contains(d));
            assert(id_in(m0[d].ancestors@, k));
            if id_in(e0.ancestors@, d) {
                assert(updated_ancestor(m1[d], m0[d], id, fee_atoms));
                assert(m1[d].ancestors == m0[d].ancestors);
            } else {
                assert(m1[d] == m0[d]);
            }
        }
        assert(sum_fees_sat(m1, ek.ancestors@) == sum_fees_sat(m0, ek.ancestors@)) by {
            assert forall|i: int| 0 <= i < ek.ancestors@.len() implies m1.dom().contains(
                #[trigger] ek.ancestors@[i],
            ) && m0.dom().contains(ek.ancestors@[i]) && m1[ek.ancestors@[i]].fee
                == m0[ek.ancestors@[i]].fee by {}
            lemma_sum_fees_congruence(m1, m0, ek.ancestors@);
        }
        assert(sum_fees_sat(m1, ek.descendants@) == sum_fees_sat(m0, ek.descendants@)) by {
            assert forall|i: int| 0 <= i < ek.descendants@.len() implies m1.dom().contains(
                #[trigger] ek.descendants@[i],
            ) && m0.dom().contains(ek.descendants@[i]) && m1[ek.descendants@[i]].fee
                == m0[ek.descendants@[i]].fee by {}
            lemma_sum_fees_congruence(m1, m0, ek.descendants@);
        }
        assert(entry_ok(m1, k));
    }
}

/// The fields eviction and expiry rely on are kept across bookkeeping
/// updates: the transaction, its fee, size and arrival time.
pub open spec fn unchanged_core(a: TxMempoolEntry, b: TxMempoolEntry) -> bool {
    a.tx == b.tx && a.fee == b.fee && a.encoded_size == b.encoded_size && a.creation_time
        == b.creation_time
}

/// How one ancestor entry changes when a new descendant arrives: it
/// gains the descendant's id and its descendant score absorbs the fee;
/// nothing else moves.
pub open spec fn updated_ancestor(
    cur: TxMempoolEntry,
    prev: TxMempoolEntry,
    id: H256,
    fee_atoms: u128,
) -> bool {
    &&& cur.descendants@ == prev.descendants@.push(id)
    &&& cur.descendant_score.atoms == sat_add(prev.descendant_score.atoms, fee_atoms)
    &&& cur.ancestors == prev.ancestors
    &&& cur.parents == prev.parents
    &&& cur.tx == prev.tx
    &&& cur.fee == prev.fee
    &&& cur.creation_time == prev.creation_time
    &&& cur.encoded_size == prev.encoded_size
    &&& cur.ancestor_score == prev.ancestor_score
}

/// The listed ids that the pool still holds, in order.
pub open spec fn filtered_ids(dom: Set<H256>, s: Seq<H256>) -> Seq<H256>
    decreases s.len(),
{
    if s.len() == 0 {
        Seq::empty()
    } else {
        if dom.contains(s.last()) {
            filtered_ids(dom, s.drop_last()).push(s.last())
        } else {
            filtered_ids(dom, s.drop_last())
        }
    }
}

#[verifier::rlimit(100)]
#[verifier::spinoff_prover]
proof fn lemma_filtered_membership(dom: Set<H256>, s: Seq<H256>, x: H256)
    ensures
        id_in(filtered_ids(dom, s), x) <==> (id_in(s, x) && dom.contains(x)),
    decreases s.len(),
{
    if s.len() > 0 {
        lemma_filtered_membership(dom, s.drop_last(), x);
        let f = filtered_ids(dom, s);
        let fp = filtered_ids(dom, s.drop_last());
        if id_in(f, x) {
            let i = choose|i: int| 0 <= i < f.len() && f[i] == x;
            if dom.contains(s.last()) && i == f.len() - 1 {
                assert(s[s.len() - 1] == x);
            } else {
                assert(fp[i] == x);
                assert(id_in(fp, x));
                let j = choose|j: int| 0 <= j < s.drop_last().len() && s.drop_last()[j] == x;
                assert(s[j] == x);
            }
        }
        if id_in(s, x) && dom.contains(x) {
            let j = choose|j: int| 0 <= j < s.len() && s[j] == x;
            if j < s.len() - 1 {
                assert(s.drop_last()[j] == x);
                assert(id_in(fp, x));
                let i = choose|i: int| 0 <= i < fp.len() && fp[i] == x;
                assert(f[i] == x);
            } else {
                assert(f[f.len() - 1] == x);
            }
        }
    }
}

#[verifier::rlimit(100)]
#[verifier::spinoff_prover]
proof fn lemma_filtered_distinct(dom: Set<H256>, s: Seq<H256>)
    requires
        distinct_ids(s),
    ensures
        distinct_ids(filtered_ids(dom, s)),
        forall|i: int|
            0 <= i < filtered_ids(dom, s).len() ==> id_in(s, #[trigger] filtered_ids(dom, s)[i])
                && dom.contains(filtered_ids(dom, s)[i]),
    decreases s.len(),
{
    if s.len() > 0 {
        assert forall|i: int, j: int| 0 <= i < j < s.drop_last().len() implies s.drop_last()[i]
            != s.drop_last()[j] by {
            assert(s[i] == s.drop_last()[i] && s[j] == s.drop_last()[j]);
        }
        lemma_filtered_distinct(dom, s.drop_last());
        let f = filtered_ids(dom, s);
        let fp = filtered_ids(dom, s.drop_last());
        assert forall|i: int| 0 <= i < f.len() implies id_in(s, #[trigger] f[i]) && dom.contains(
            f[i],
        ) by {
            if dom.contains(s.last()) && i == f.len() - 1 {
                assert(f[i] == s[s.len() - 1]);
            } else {
                assert(f[i] == fp[i]);
                let j = choose|j: int| 0 <= j < s.drop_last().len() && s.drop_last()[j] == fp[i];
                assert(s[j] == fp[i]);
            }
        }
        if dom.contains(s.last()) {
            assert(!id_in(s.drop_last(), s.last()));
            assert(!id_in(fp, s.last())) by {
                lemma_filtered_membership(dom, s.drop_last(), s.last());
            }
            assert forall|i: int, j: int| 0 <= i < j < f.len() implies f[i] != f[j] by {
                if j < f.len() - 1 {
                    assert(f[i] == fp[i] && f[j] == fp[j]);
                } else {
                    assert(f[i] == fp[i] && f[j] == s.last());
                    assert(id_in(fp, fp[i]));
                }
            }
        }
    }
}

/// Filtering against a domain that lacks an id occurring nowhere in the
/// list gives the same result.
#[verifier::rlimit(100)]
#[verifier::spinoff_prover]
proof fn lemma_filter_same_without(d1: Set<H256>, d2: Set<H256>, s: Seq<H256>, k: H256)
    requires
        !id_in(s, k),
        forall|x: H256| x != k ==> (d1.contains(x) <==> d2.contains(x)),
    ensures
        filtered_ids(d1, s) == filtered_ids(d2, s),
    decreases s.len(),
{
    if s.len() > 0 {
        assert(!id_in(s.drop_last(), k)) by {
            if id_in(s.drop_last(), k) {
                let i = choose|i: int| 0 <= i < s.drop_last().len() && s.drop_last()[i] == k;
                assert(s[i] == k);
            }
        }
        lemma_filter_same_without(d1, d2, s.drop_last(), k);
        assert(s.last() != k) by {
            assert(s[s.len() - 1] == s.last());
            if s.last() == k {
                assert(id_in(s, k));
            }
        }
    }
}

/// How a surviving entry looks after a removal pass: its lists filtered
/// to the surviving ids, its scores recomputed, its core untouched.
pub open spec fn rebuilt_entry(
    cur: TxMempoolEntry,
    prev: TxMempoolEntry,
    m0: Map<H256, TxMempoolEntry>,
    dom: Set<H256>,
) -> bool {
    &&& unchanged_core(cur, prev)
    &&& cur.parents@ == filtered_ids(dom, prev.parents@)
    &&& cur.ancestors@ == filtered_ids(dom, prev.ancestors@)
    &&& cur.descendants@ == filtered_ids(dom, prev.descendants@)
    &&& cur.ancestor_score.atoms == sat_add(cur.fee.atoms, sum_fees_sat(m0, cur.ancestors@))
    &&& cur.descendant_score.atoms == sat_add(cur.fee.atoms, sum_fees_sat(m0, cur.descendants@))
}

/// Fees survive a rebuild.
#[verifier::rlimit(100)]
#[verifier::spinoff_prover]
proof fn lemma_rebuilt_fees(
    m0: Map<H256, TxMempoolEntry>,
    m2: Map<H256, TxMempoolEntry>,
    ids: Seq<H256>,
)
    requires
        forall|x: H256| #[trigger] m2.dom().contains(x) ==> m0.dom().contains(x),
        forall|x: H256|
            #[trigger] m2.dom().contains(x) ==> rebuilt_entry(m2[x], m0[x], m0, m2.dom()),
        forall|i: int| 0 <= i < ids.len() ==> m2.dom().contains(#[trigger] ids[i]),
    ensures
        sum_fees_sat(m2, ids) == sum_fees_sat(m0, ids),
{
    assert forall|i: int| 0 <= i < ids.len() implies m2.dom().contains(#[trigger] ids[i])
        && m0.dom().contains(ids[i]) && m2[ids[i]].fee == m0[ids[i]].fee by {
        assert(rebuilt_entry(m2[ids[i]], m0[ids[i]], m0, m2.dom()));
    }
    lemma_sum_fees_congruence(m2, m0, ids);
}

/// Filtered lists stay duplicate-free and exclude the entry itself.
#[verifier::rlimit(100)]
#[verifier::spinoff_prover]
proof fn lemma_rebuilt_lists_distinct(
    dom: Set<H256>,
    e2: TxMempoolEntry,
    e0: TxMempoolEntry,
    k: H256,
)
    requires
        distinct_ids(e0.ancestors@),
        distinct_ids(e0.descendants@),
        !id_in(e0.ancestors@, k),
        !id_in(e0.descendants@, k),
        e2.ancestors@ == filtered_ids(dom, e0.ancestors@),
        e2.descendants@ == filtered_ids(dom, e0.descendants@),
    ensures
        distinct_ids(e2.ancestors@),
        distinct_ids(e2.descendants@),
        !id_in(e2.ancestors@, k),
        !id_in(e2.descendants@, k),
{
    lemma_filtered_distinct(dom, e0.ancestors@);
    lemma_filtered_distinct(dom, e0.descendants@);
    lemma_filtered_membership(dom, e0.ancestors@, k);
    lemma_filtered_membership(dom, e0.descendants@, k);
}

/// A filtered parent stays among the filtered ancestors.
#[verifier::rlimit(100)]
#[verifier::spinoff_prover]
proof fn lemma_rebuilt_parents(dom: Set<H256>, e2: TxMempoolEntry, e0: TxMempoolEntry)
    requires
        forall|i: int| 0 <= i < e0.parents@.len() ==> id_in(e0.ancestors@, #[trigger] e0.parents@[i]),
        e2.parents@ == filtered_ids(dom, e0.parents@),
        e2.ancestors@ == filtered_ids(dom, e0.ancestors@),
    ensures
        forall|i: int|
            0 <= i < e2.parents@.len() ==> id_in(e2.ancestors@, #[trigger] e2.parents@[i]),
{
    assert forall|i: int| 0 <= i < e2.parents@.len() implies id_in(
        e2.ancestors@,
        #[trigger] e2.parents@[i],
    ) by {
        let p = e2.parents@[i];
        assert(id_in(e0.parents@, p) && dom.contains(p)) by {
            lemma_filtered_membership(dom, e0.parents@, p);
        }
        let j = choose|j: int| 0 <= j < e0.parents@.len() && e0.parents@[j] == p;
        assert(id_in(e0.ancestors@, p));
        lemma_filtered_membership(dom, e0.ancestors@, p);
    }
}

/// The local conjuncts of one rebuilt entry.
#[verifier::rlimit(100)]
#[verifier::spinoff_prover]
proof fn lemma_drop_entry_basic(
    m0: Map<H256, TxMempoolEntry>,
    m2: Map<H256, TxMempoolEntry>,
    k: H256,
)
    requires
        store_ok(m0),
        forall|x: H256| #[trigger] m2.dom().contains(x) ==> m0.dom().contains(x),
        forall|x: H256|
            #[trigger] m2.dom().contains(x) ==> rebuilt_entry(m2[x], m0[x], m0, m2.dom()),
        m2.dom().contains(k),
    ensures
        distinct_ids(m2[k].ancestors@),
        distinct_ids(m2[k].descendants@),
        !id_in(m2[k].ancestors@, k),
        !id_in(m2[k].descendants@, k),
        forall|i: int|
            0 <= i < m2[k].parents@.len() ==> id_in(m2[k].ancestors@, #[trigger] m2[k].parents@[i]),
{
    assert(entry_ok(m0, k));
    assert(rebuilt_entry(m2[k], m0[k], m0, m2.dom()));
    lemma_rebuilt_lists_distinct(m2.dom(), m2[k], m0[k], k);
    lemma_rebuilt_parents(m2.dom(), m2[k], m0[k]);
}

/// The mirrored links of one rebuilt entry.
#[verifier::rlimit(100)]
#[verifier::spinoff_prover]
proof fn lemma_drop_entry_links(
    m0: Map<H256, TxMempoolEntry>,
    m2: Map<H256, TxMempoolEntry>,
    k: H256,
)
    requires
        store_ok(m0),
        forall|x: H256| #[trigger] m2.dom().contains(x) ==> m0.dom().contains(x),
        forall|x: H256|
            #[trigger] m2.dom().contains(x) ==> rebuilt_entry(m2[x], m0[x], m0, m2.dom()),
        m2.dom().contains(k),
    ensures
        forall|i: int|
            0 <= i < m2[k].ancestors@.len() ==> m2.dom().contains(#[trigger] m2[k].ancestors@[i])
                && id_in(m2[m2[k].ancestors@[i]].descendants@, k),
        forall|i: int|
            0 <= i < m2[k].descendants@.len() ==> m2.dom().contains(
                #[trigger] m2[k].descendants@[i],
            ) && id_in(m2[m2[k].descendants@[i]].ancestors@, k),
{
    let e2 = m2[k];
    let e0 = m0[k];
    assert(entry_ok(m0, k));
    assert(rebuilt_entry(e2, e0, m0, m2.dom()));
    assert forall|i: int| 0 <= i < e2.ancestors@.len() implies m2.dom().contains(
        #[trigger] e2.ancestors@[i],
    ) && id_in(m2[e2.ancestors@[i]].descendants@, k) by {
        let a = e2.ancestors@[i];
        assert(id_in(e0.ancestors@, a) && m2.dom().contains(a)) by {
            lemma_filtered_membership(m2.dom(), e0.ancestors@, a);
        }
        let j = choose|j: int| 0 <= j < e0.ancestors@.len() && e0.ancestors@[j] == a;
        assert(id_in(m0[a].descendants@, k));
        assert(rebuilt_entry(m2[a], m0[a], m0, m2.dom()));
        lemma_filtered_membership(m2.dom(), m0[a].descendants@, k);
    }
    assert forall|i: int| 0 <= i < e2.descendants@.len() implies m2.dom().contains(
        #[trigger] e2.descendants@[i],
    ) && id_in(m2[e2.descendants@[i]].ancestors@, k) by {
        let d = e2.descendants@[i];
        assert(id_in(e0.descendants@, d) && m2.dom().contains(d)) by {
            lemma_filtered_membership(m2.dom(), e0.descendants@, d);
        }
        let j = choose|j: int| 0 <= j < e0.descendants@.len() && e0.descendants@[j] == d;
        assert(id_in(m0[d].ancestors@, k));
        assert(rebuilt_entry(m2[d], m0[d], m0, m2.dom()));
        lemma_filtered_membership(m2.dom(), m0[d].ancestors@, k);
    }
}

/// The score conjuncts of one rebuilt entry.
#[verifier::rlimit(100)]
#[verifier::spinoff_prover]
proof fn lemma_drop_entry_scores(
    m0: Map<H256, TxMempoolEntry>,
    m2: Map<H256, TxMempoolEntry>,
    k: H256,
)
    requires
        store_ok(m0),
        forall|x: H256| #[trigger] m2.dom().contains(x) ==> m0.dom().contains(x),
        forall|x: H256|
            #[trigger] m2.dom().contains(x) ==> rebuilt_entry(m2[x], m0[x], m0, m2.dom()),
        m2.dom().contains(k),
    ensures
        m2[k].ancestor_score.atoms == sat_add(m2[k].fee.atoms, sum_fees_sat(m2, m2[k].ancestors@)),
        m2[k].descendant_score.atoms == sat_add(
            m2[k].fee.atoms,
            sum_fees_sat(m2, m2[k].descendants@),
        ),
{
    let e2 = m2[k];
    let e0 = m0[k];
    assert(entry_ok(m0, k));
    assert(rebuilt_entry(e2, e0, m0, m2.dom()));
    lemma_filtered_distinct(m2.dom(), e0.ancestors@);
    lemma_filtered_distinct(m2.dom(), e0.descendants@);
    assert(sum_fees_sat(m2, e2.ancestors@) == sum_fees_sat(m0, e2.ancestors@)) by {
        lemma_rebuilt_fees(m0, m2, e2.ancestors@);
    }
    assert(sum_fees_sat(m2, e2.descendants@) == sum_fees_sat(m0, e2.descendants@)) by {
        lemma_rebuilt_fees(m0, m2, e2.descendants@);
    }
}

/// Every surviving entry is consistent once all of them are rebuilt
/// against the surviving ids.
#[verifier::rlimit(100)]
#[verifier::spinoff_prover]
proof fn lemma_drop_entry_ok(m0: Map<H256, TxMempoolEntry>, m2: Map<H256, TxMempoolEntry>, k: H256)
    requires
        store_ok(m0),
        forall|x: H256| #[trigger] m2.dom().contains(x) ==> m0.dom().contains(x),
        forall|x: H256|
            #[trigger] m2.dom().contains(x) ==> rebuilt_entry(m2[x], m0[x], m0, m2.dom()),
        m2.dom().contains(k),
    ensures
        entry_ok(m2, k),
{
    assert(entry_ok(m0, k));
    assert(rebuilt_entry(m2[k], m0[k], m0, m2.dom()));
    lemma_drop_entry_basic(m0, m2, k);
    lemma_drop_entry_links(m0, m2, k);
    lemma_drop_entry_scores(m0, m2, k);
    assert(entry_ok(m2, k));
}

/// Mid-rebuild, fees still agree with the original pool, so saturating
/// fee sums over surviving ids transfer.
#[verifier::rlimit(100)]
#[verifier::spinoff_prover]
proof fn lemma_mid_rebuild_sum(
    cur: Map<H256, TxMempoolEntry>,
    m0: Map<H256, TxMempoolEntry>,
    dfin: Set<H256>,
    keys: Seq<H256>,
    ki: int,
    ids: Seq<H256>,
)
    requires
        0 <= ki <= keys.len(),
        forall|k: H256| #[trigger] dfin.contains(k) ==> id_in(keys, k),
        forall|i: int| 0 <= i < ids.len() ==> cur.dom().contains(#[trigger] ids[i]),
        forall|k: H256| #[trigger] dfin.contains(k) ==> m0.dom().contains(k),
        forall|k: H256| #[trigger] cur.dom().contains(k) ==> dfin.contains(k),
        forall|k: H256|
            #[trigger] cur.dom().contains(k) && !id_in(keys.take(ki), k) ==> cur[k] == m0[k],
        forall|t: int|
            0 <= t < ki && cur.dom().contains(keys[t]) ==> rebuilt_entry(
                #[trigger] cur[keys[t]],
                m0[keys[t]],
                m0,
                dfin,
            ),
    ensures
        sum_fees_sat(cur, ids) == sum_fees_sat(m0, ids),
{
    assert forall|i: int| 0 <= i < ids.len() implies cur.dom().contains(#[trigger] ids[i])
        && m0.dom().contains(ids[i]) && cur[ids[i]].fee == m0[ids[i]].fee by {
        let x = ids[i];
        if id_in(keys.take(ki), x) {
            let q = choose|q: int| 0 <= q < ki && keys.take(ki)[q] == x;
            assert(rebuilt_entry(cur[keys[q]], m0[keys[q]], m0, dfin));
        }
    }
    lemma_sum_fees_congruence(cur, m0, ids);
}

/// The map relations after one survivor is rebuilt.
#[verifier::rlimit(100)]
#[verifier::spinoff_prover]
proof fn lemma_rebuild_post(
    pre: Map<H256, TxMempoolEntry>,
    post: Map<H256, TxMempoolEntry>,
    m0: Map<H256, TxMempoolEntry>,
    dfin: Set<H256>,
    keys: Seq<H256>,
    ki: int,
    e: TxMempoolEntry,
)
    requires
        0 <= ki < keys.len(),
        distinct_ids(keys),
        pre.dom() == dfin,
        post.dom() == dfin,
        dfin.contains(keys[ki]),
        post == pre.insert(keys[ki], e),
        rebuilt_entry(e, m0[keys[ki]], m0, dfin),
        forall|k: H256|
            #[trigger] dfin.contains(k) && !id_in(keys.take(ki), k) ==> pre[k] == m0[k],
        forall|t: int|
            0 <= t < ki ==> rebuilt_entry(#[trigger] pre[keys[t]], m0[keys[t]], m0, dfin),
    ensures
        forall|k: H256|
            #[trigger] dfin.contains(k) && !id_in(keys.take(ki + 1), k) ==> post[k] == m0[k],
        forall|t: int|
            0 <= t < ki + 1 ==> rebuilt_entry(#[trigger] post[keys[t]], m0[keys[t]], m0, dfin),
{
    let k0 = keys[ki];
    assert forall|k: H256|
        #[trigger] dfin.contains(k) && !id_in(keys.take(ki + 1), k) implies post[k] == m0[k] by {
        assert(!id_in(keys.take(ki), k)) by {
            if id_in(keys.take(ki), k) {
                let t = choose|t: int| 0 <= t < ki && keys.take(ki)[t] == k;
                assert(keys.take(ki + 1)[t] == k);
            }
        }
        assert(k != k0) by {
            assert(keys.take(ki + 1)[ki] == k0);
        }
    }
    assert forall|t: int| 0 <= t < ki + 1 implies rebuilt_entry(
        #[trigger] post[keys[t]],
        m0[keys[t]],
        m0,
        dfin,
    ) by {
        if t < ki {
            assert(keys[t] != k0);
            assert(post[keys[t]] == pre[keys[t]]);
        }
    }
}

/// A set inside another with one member taken out is strictly smaller.
pub proof fn lemma_dom_shrinks(small: Set<H256>, big: Set<H256>, gone: H256)
    requires
        big.finite(),
        small.finite(),
        small.subset_of(big.remove(gone)),
        big.contains(gone),
    ensures
        small.len() < big.len(),
{
    vstd::set_lib::lemma_len_subset(small, big.remove(gone));
    assert(big.remove(gone).len() == big.len() - 1);
}

/// Whether an entry is swept out when the given transaction leaves: the
/// transaction itself and every in-pool descendant of it.
pub open spec fn is_removed(m: Map<H256, TxMempoolEntry>, id: H256, k: H256) -> bool {
    k == id || (m.dom().contains(id) && id_in(m[id].descendants@, k))
}

impl MempoolStore {
    /// Just the duplicate-free backing map, without the entry invariant;
    /// what removal keeps while links are being rebuilt.
    pub closed spec fn wf_map_only(&self) -> bool {
        self.txs_by_id.wf()
    }

    /// The held id set is finite.
    pub proof fn lemma_dom_finite(&self)
        requires
            self.wf_map_only(),
        ensures
            self@.dom().finite(),
    {
        self.txs_by_id.lemma_view_entries();
    }

    /// The full invariant carries the backing-map one and every entry's
    /// consistency.
    pub proof fn lemma_wf_implies_map_only(&self)
        requires
            self.wf(),
        ensures
            self.wf_map_only(),
            store_ok(self@),
    {
    }

    /// Filter an id list to those the pool still holds, and sum their
    /// fees.
    #[verifier::rlimit(100)]
    fn filter_live(&self, ids: &Vec<H256>) -> (r: (Vec<H256>, u128))
        requires
            self.wf_map_only(),
        ensures
            r.0@ == filtered_ids(self@.dom(), ids@),
            r.1 == sum_fees_sat(self@, r.0@),
    {
        let mut out: Vec<H256> = Vec::new();
        let mut sum: u128 = 0;
        let n = ids.len();
        let mut i: usize = 0;
        while i < n
            invariant
                i <= n,
                n == ids@.len(),
                self.wf_map_only(),
                out@ == filtered_ids(self@.dom(), ids@.take(i as int)),
                sum == sum_fees_sat(self@, out@),
            decreases n - i,
        {
            proof {
                assert(ids@.take(i + 1 as int).drop_last() =~= ids@.take(i as int));
            }
            let x = ids[i];
            match self.txs_by_id.get(&x) {
                Some(e) => {
                    out.push(x);
                    sum = sat_add_exec(sum, e.fee.atoms);
                    proof {
                        assert(out@.drop_last() =~= filtered_ids(self@.dom(), ids@.take(i as int)));
                    }
                },
                None => {},
            }
            i = i + 1;
        }
        proof {
            assert(ids@.take(n as int) =~= ids@);
        }
        (out, sum)
    }

    /// Rebuild one survivor against the surviving ids: lists filtered,
    /// scores recomputed, core kept.
    #[verifier::rlimit(100)]
    #[verifier::spinoff_prover]
    fn rebuild_one(
        &mut self,
        k: H256,
        Ghost(m0): Ghost<Map<H256, TxMempoolEntry>>,
        Ghost(dfin): Ghost<Set<H256>>,
        Ghost(keys): Ghost<Seq<H256>>,
        Ghost(ki): Ghost<int>,
    )
        requires
            old(self).wf_map_only(),
            entry_ok(m0, keys[ki]),
            old(self)@.dom() == dfin,
            0 <= ki < keys.len(),
            distinct_ids(keys),
            k == keys[ki],
            dfin.contains(k),
            forall|x: H256| #[trigger] dfin.contains(x) ==> id_in(keys, x),
            forall|x: H256| #[trigger] dfin.contains(x) ==> m0.dom().contains(x),
            forall|x: H256|
                #[trigger] dfin.contains(x) && !id_in(keys.take(ki), x) ==> old(self)@[x] == m0[x],
            forall|t: int|
                0 <= t < ki ==> rebuilt_entry(#[trigger] old(self)@[keys[t]], m0[keys[t]], m0, dfin),
        ensures
            final(self).wf_map_only(),
            final(self)@.dom() == dfin,
            final(self).total_size_spec() == old(self).total_size_spec(),
            forall|x: H256|
                #[trigger] dfin.contains(x) && !id_in(keys.take(ki + 1), x) ==> final(self)@[x]
                    == m0[x],
            forall|t: int|
                0 <= t < ki + 1 ==> rebuilt_entry(
                    #[trigger] final(self)@[keys[t]],
                    m0[keys[t]],
                    m0,
                    dfin,
                ),
    {
        proof {
            assert(!id_in(keys.take(ki), k)) by {
                if id_in(keys.take(ki), k) {
                    let t = choose|t: int| 0 <= t < ki && keys.take(ki)[t] == k;
                    assert(keys[t] == keys[ki]);
                }
            }
            assert(old(self)@[k] == m0[k]);
            assert(!id_in(m0[k].parents@, k)) by {
                if id_in(m0[k].parents@, k) {
                    let t = choose|t: int| 0 <= t < m0[k].parents@.len() && m0[k].parents@[t] == k;
                    assert(id_in(m0[k].ancestors@, k));
                }
            }
        }
        let ghost pre = self@;
        match self.txs_by_id.remove(&k) {
            Some(mut e) => {
                let (new_parents, _psum) = self.filter_live(&e.parents);
                let (new_ancestors, asum) = self.filter_live(&e.ancestors);
                let (new_descendants, dsum) = self.filter_live(&e.descendants);
                proof {
                    lemma_filter_same_without(pre.dom(), self@.dom(), m0[k].parents@, k);
                    lemma_filter_same_without(pre.dom(), self@.dom(), m0[k].ancestors@, k);
                    lemma_filter_same_without(pre.dom(), self@.dom(), m0[k].descendants@, k);
                }
                e.parents = new_parents;
                e.ancestors = new_ancestors;
                e.descendants = new_descendants;
                e.ancestor_score = Amount { atoms: sat_add_exec(e.fee.atoms, asum) };
                e.descendant_score = Amount { atoms: sat_add_exec(e.fee.atoms, dsum) };
                proof {
                    assert forall|k2: H256| #[trigger] self@.dom().contains(k2) implies dfin.contains(
                        k2,
                    ) by {}
                    lemma_filtered_distinct(self@.dom(), m0[k].ancestors@);
                    lemma_filtered_distinct(self@.dom(), m0[k].descendants@);
                    assert forall|x: H256|
                        #[trigger] self@.dom().contains(x) && !id_in(keys.take(ki), x)
                            implies self@[x] == m0[x] by {
                        assert(dfin.contains(x));
                        assert(pre[x] == old(self)@[x]);
                    }
                    assert forall|t: int|
                        0 <= t < ki && self@.dom().contains(keys[t]) implies rebuilt_entry(
                        #[trigger] self@[keys[t]],
                        m0[keys[t]],
                        m0,
                        dfin,
                    ) by {
                        assert(self@[keys[t]] == old(self)@[keys[t]]);
                    }
                    lemma_mid_rebuild_sum(self@, m0, dfin, keys, ki, e.ancestors@);
                    lemma_mid_rebuild_sum(self@, m0, dfin, keys, ki, e.descendants@);
                    assert(rebuilt_entry(e, m0[k], m0, dfin));
                }
                self.txs_by_id.insert(k, e);
                proof {
                    assert(self@.dom() =~= dfin);
                    assert(self@ =~= pre.insert(k, e));
                    lemma_rebuild_post(pre, self@, m0, dfin, keys, ki, e);
                }
            },
            None => {
                proof {
                    assert(false);
                }
            },
        }
    }

    /// Rebuild every held entry against the current set of held ids.
    /// `m0` is the consistent pool the current entries were taken from.
    #[verifier::rlimit(100)]
    fn rebuild_all(&mut self, Ghost(m0): Ghost<Map<H256, TxMempoolEntry>>)
        requires
            old(self).wf_map_only(),
            store_ok(m0),
            forall|k: H256| #[trigger] old(self)@.dom().contains(k) ==> m0.dom().contains(k),
            forall|k: H256| #[trigger] old(self)@.dom().contains(k) ==> old(self)@[k] == m0[k],
        ensures
            final(self).wf(),
            final(self)@.dom() == old(self)@.dom(),
            forall|k: H256|
                #[trigger] final(self)@.dom().contains(k) ==> unchanged_core(
                    final(self)@[k],
                    m0[k],
                ),
            final(self).total_size_spec() == old(self).total_size_spec(),
    {
        let ghost dfin = self@.dom();
        let keys = self.txs_by_id.key_list();
        let kn = keys.len();
        let mut ki: usize = 0;
        while ki < kn
            invariant
                ki <= kn,
                kn == keys@.len(),
                distinct_ids(keys@),
                store_ok(m0),
                self.wf_map_only(),
                self@.dom() == dfin,
                self.total_size_spec() == old(self).total_size_spec(),
                forall|t: int| 0 <= t < kn ==> dfin.contains(#[trigger] keys@[t]),
                forall|k: H256| #[trigger] dfin.contains(k) ==> id_in(keys@, k),
                forall|k: H256| #[trigger] dfin.contains(k) ==> m0.dom().contains(k),
                forall|k: H256|
                    #[trigger] dfin.contains(k) && !id_in(keys@.take(ki as int), k) ==> self@[k]
                        == m0[k],
                forall|t: int|
                    0 <= t < ki ==> rebuilt_entry(
                        #[trigger] self@[keys@[t]],
                        m0[keys@[t]],
                        m0,
                        dfin,
                    ),
            decreases kn - ki,
        {
            let k = keys[ki];
            proof {
                assert(m0.dom().contains(k));
                assert(entry_ok(m0, k));
            }
            self.rebuild_one(k, Ghost(m0), Ghost(dfin), Ghost(keys@), Ghost(ki as int));
            ki = ki + 1;
        }
        proof {
            let m2 = self@;
            assert forall|x: H256| #[trigger] m2.dom().contains(x) implies rebuilt_entry(
                m2[x],
                m0[x],
                m0,
                m2.dom(),
            ) by {
                let q = choose|q: int| 0 <= q < keys@.len() && keys@[q] == x;
                assert(rebuilt_entry(m2[keys@[q]], m0[keys@[q]], m0, dfin));
            }
            assert forall|x: H256| #[trigger] m2.dom().contains(x) implies entry_ok(m2, x)
                && unchanged_core(m2[x], m0[x]) by {
                lemma_drop_entry_ok(m0, m2, x);
                assert(rebuilt_entry(m2[x], m0[x], m0, m2.dom()));
            }
        }
    }

    /// Take the listed entries out of the map, value bookkeeping only.
    #[verifier::rlimit(100)]
    #[verifier::spinoff_prover]
    fn sweep_ids(&mut self, ids: &Vec<H256>, Ghost(m0): Ghost<Map<H256, TxMempoolEntry>>)
        requires
            old(self).wf_map_only(),
            m0 == old(self)@,
        ensures
            final(self).wf_map_only(),
            forall|k: H256|
                #[trigger] final(self)@.dom().contains(k) <==> (m0.dom().contains(k) && !id_in(
                    ids@,
                    k,
                )),
            forall|k: H256| #[trigger] final(self)@.dom().contains(k) ==> final(self)@[k] == m0[k],
            final(self).total_size_spec() <= old(self).total_size_spec(),
    {
        let ghost rset = ids@;
        let rn = ids.len();
        let mut ri: usize = 0;
        while ri < rn
            invariant
                ri <= rn,
                rn == rset.len(),
                ids@ == rset,
                m0 == old(self)@,
                self.wf_map_only(),
                forall|k: H256|
                    #[trigger] self@.dom().contains(k) <==> (m0.dom().contains(k) && !(exists|
                        t: int,
                    |
                        0 <= t < ri && rset[t] == k)),
                forall|k: H256| #[trigger] self@.dom().contains(k) ==> self@[k] == m0[k],
                self.total_size_spec() <= old(self).total_size_spec(),
            decreases rn - ri,
        {
            let ghost pre = self@;
            let rid = ids[ri];
            match self.txs_by_id.remove(&rid) {
                Some(gone) => {
                    self.total_size = match self.total_size.checked_sub(
                        gone.encoded_size as u128,
                    ) {
                        Some(t) => t,
                        None => 0,
                    };
                },
                None => {},
            }
            proof {
                assert forall|k: H256|
                    #[trigger] self@.dom().contains(k) <==> (m0.dom().contains(k) && !(exists|
                        t: int,
                    |
                        0 <= t < ri + 1 && rset[t] == k)) by {
                    if self@.dom().contains(k) {
                        assert(pre.dom().contains(k));
                    }
                    if m0.dom().contains(k) {
                        if exists|t: int| 0 <= t < ri && rset[t] == k {
                            let t = choose|t: int| 0 <= t < ri && rset[t] == k;
                            assert(0 <= t < ri + 1 && rset[t] == k);
                        }
                        if k == rid {
                            assert(rset[ri as int] == k);
                        }
                        if !(exists|t: int| 0 <= t < ri + 1 && rset[t] == k) {
                            assert(!(exists|t: int| 0 <= t < ri && rset[t] == k));
                            assert(pre.dom().contains(k));
                            assert(k != rid);
                        }
                    }
                }
                assert forall|k: H256| #[trigger] self@.dom().contains(k) implies self@[k]
                    == m0[k] by {
                    assert(pre.dom().contains(k));
                }
            }
            ri = ri + 1;
        }
        proof {
            assert forall|k: H256| #[trigger] self@.dom().contains(k) <==> (m0.dom().contains(k)
                && !id_in(rset, k)) by {
                if m0.dom().contains(k) {
                    if exists|t: int| 0 <= t < rn && rset[t] == k {
                        assert(id_in(rset, k));
                    }
                    if id_in(rset, k) {
                        let t = choose|t: int| 0 <= t < rset.len() && rset[t] == k;
                        assert(0 <= t < rn && rset[t] == k);
                    }
                }
            }
        }
    }

    /// Remove a transaction together with every in-pool descendant of
    /// it; the surviving entries' relative lists and scores are rebuilt
    /// against what survives.
    #[verifier::rlimit(100)]
    #[verifier::spinoff_prover]
    pub fn drop_tx_and_descendants(&mut self, id: &H256)
        requires
            old(self).wf(),
        ensures
            final(self).wf(),
            forall|k: H256|
                #[trigger] final(self)@.dom().contains(k) <==> (old(self)@.dom().contains(k)
                    && !is_removed(old(self)@, *id, k)),
            forall|k: H256|
                #[trigger] final(self)@.dom().contains(k) ==> unchanged_core(
                    final(self)@[k],
                    old(self)@[k],
                ),
            final(self).total_size_spec() <= old(self).total_size_spec(),
    {
        let ghost m0 = self@;
        let to_remove = match self.txs_by_id.get(id) {
            None => {
                proof {
                    assert forall|k: H256|
                        #[trigger] self@.dom().contains(k) <==> (m0.dom().contains(k)
                            && !is_removed(m0, *id, k)) by {}
                }
                return ;
            },
            Some(e) => {
                let mut r = copy_ids(&e.descendants);
                r.push(*id);
                r
            },
        };
        let ghost rset = to_remove@;
        proof {
            assert(rset =~= m0[*id].descendants@.push(*id));
            assert forall|k: H256| id_in(rset, k) <==> is_removed(m0, *id, k) by {
                if id_in(rset, k) {
                    let i = choose|i: int| 0 <= i < rset.len() && rset[i] == k;
                    if i < rset.len() - 1 {
                        assert(m0[*id].descendants@[i] == k);
                    }
                }
                if is_removed(m0, *id, k) {
                    if k == *id {
                        assert(rset[rset.len() - 1] == k);
                    } else {
                        let i = choose|i: int|
                            0 <= i < m0[*id].descendants@.len() && m0[*id].descendants@[i] == k;
                        assert(rset[i] == k);
                    }
                }
            }
        }
        // Sweep the removed entries out, then rebuild the survivors.
        self.sweep_ids(&to_remove, Ghost(m0));
        proof {
            assert forall|k: H256| #[trigger] self@.dom().contains(k) <==> (m0.dom().contains(k)
                && !is_removed(m0, *id, k)) by {}
        }
        self.rebuild_all(Ghost(m0));
    }

    /// The id of an entry with the least descendant score, the pool's
    /// next eviction victim.
    #[verifier::rlimit(100)]
    #[verifier::spinoff_prover]
    #[verifier::loop_isolation(false)]
    pub fn min_descendant_score_id(&self) -> (r: Option<H256>)
        requires
            self.wf_map_only(),
        ensures
            match r {
                Some(id) => self@.dom().contains(id) && (forall|k: H256|
                    #[trigger] self@.dom().contains(k) ==> self@[id].descendant_score.atoms
                        <= self@[k].descendant_score.atoms),
                None => self@ == Map::<H256, TxMempoolEntry>::empty(),
            },
    {
        let entries = self.txs_by_id.entries();
        let n = entries.len();
        if n == 0 {
            proof {
                crate::vecmap::lemma_assoc_map_len(entries@);
                assert(self@ =~= Map::<H256, TxMempoolEntry>::empty());
            }
            return None;
        }
        let ghost full = entries@;
        let mut best: usize = 0;
        let mut i: usize = 1;
        while i < n
            invariant
                1 <= i <= n,
                best < i,
                n == full.len(),
                entries@ == full,
                forall|j: int|
                    0 <= j < i ==> full[best as int].1.descendant_score.atoms
                        <= (#[trigger] full[j]).1.descendant_score.atoms,
            decreases n - i,
        {
            if entries[i].1.descendant_score.atoms < entries[best].1.descendant_score.atoms {
                best = i;
            }
            i = i + 1;
        }
        proof {
            crate::vecmap::lemma_assoc_map_index(full, best as int);
            let ghost best_id = full[best as int].0;
            assert forall|k: H256| #[trigger] self@.dom().contains(k) implies self@[
                best_id
            ].descendant_score.atoms <= self@[k].descendant_score.atoms by {
                crate::vecmap::lemma_assoc_map_contains(full, k);
                let j = choose|j: int| 0 <= j < full.len() && full[j].0 == k;
                crate::vecmap::lemma_assoc_map_index(full, j);
            }
        }
        Some(entries[best].0)
    }

    /// The ids of every entry older than the age bound at `now`.
    #[verifier::rlimit(100)]
    #[verifier::spinoff_prover]
    #[verifier::loop_isolation(false)]
    pub fn expired_ids(&self, now: Time, max_tx_age_secs: u64) -> (r: Vec<H256>)
        requires
            self.wf_map_only(),
        ensures
            forall|i: int|
                0 <= i < r@.len() ==> self@.dom().contains(#[trigger] r@[i]) && now.secs
                    - self@[r@[i]].creation_time.secs > max_tx_age_secs,
            forall|k: H256|
                #[trigger] self@.dom().contains(k) && now.secs - self@[k].creation_time.secs
                    > max_tx_age_secs ==> id_in(r@, k),
    {
        let entries = self.txs_by_id.entries();
        let n = entries.len();
        let ghost full = entries@;
        let mut out: Vec<H256> = Vec::new();
        let mut i: usize = 0;
        while i < n
            invariant
                i <= n,
                n == full.len(),
                entries@ == full,
                forall|t: int|
                    0 <= t < out@.len() ==> self@.dom().contains(#[trigger] out@[t]) && now.secs
                        - self@[out@[t]].creation_time.secs > max_tx_age_secs,
                forall|j: int|
                    0 <= j < i && now.secs - (#[trigger] full[j]).1.creation_time.secs
                        > max_tx_age_secs ==> id_in(out@, full[j].0),
            decreases n - i,
        {
            let ghost pre_out = out@;
            let expired = now.saturating_sub(entries[i].1.creation_time) > max_tx_age_secs;
            proof {
                assert(expired <==> now.secs - full[i as int].1.creation_time.secs
                    > max_tx_age_secs);
            }
            if expired {
                proof {
                    crate::vecmap::lemma_assoc_map_index(full, i as int);
                }
                out.push(entries[i].0);
            }
            proof {
                assert forall|j: int|
                    0 <= j < i + 1 && now.secs - (#[trigger] full[j]).1.creation_time.secs
                        > max_tx_age_secs implies id_in(out@, full[j].0) by {
                    if j < i {
                        let t = choose|t: int| 0 <= t < pre_out.len() && pre_out[t] == full[j].0;
                        assert(out@[t] == full[j].0);
                    } else {
                        assert(out@[out@.len() - 1] == full[i as int].0);
                    }
                }
            }
            i = i + 1;
        }
        proof {
            assert forall|k: H256|
                #[trigger] self@.dom().contains(k) && now.secs - self@[k].creation_time.secs
                    > max_tx_age_secs implies id_in(out@, k) by {
                crate::vecmap::lemma_assoc_map_contains(full, k);
                let j = choose|j: int| 0 <= j < full.len() && full[j].0 == k;
                crate::vecmap::lemma_assoc_map_index(full, j);
            }
        }
        out
    }
}

/// Whether the entry's transaction consumes the outpoint.
pub open spec fn spends_outpoint(e: TxMempoolEntry, op: OutPoint) -> bool {
    exists|t: int|
        0 <= t < crate::transaction::tx_inputs(e.tx.transaction).len()
            && (#[trigger] crate::transaction::tx_inputs(e.tx.transaction)[t]).outpoint == op
}

} // verus!
