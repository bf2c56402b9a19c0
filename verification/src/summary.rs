//! The slim transaction summaries that a block's transaction list is made of.

use vstd::prelude::*;

use crate::amounts::{checked_vout_total, vout_total, TxOut};

verus! {

/// A fee rate in satoshis per virtual byte, held by the bits of its double-precision number: the
/// rate is carried from the explorer to the reply and never computed with.
#[derive(Debug, Clone, Copy, PartialEq, Eq, Structural)]
pub struct FeeRate {
    pub bits: u64,
}

/// A transaction as a page of a block's transactions lists it.
#[derive(Debug)]
pub struct MempoolTx {
    pub txid: String,
    pub weight: Option<u64>,
    pub size: Option<u64>,
    pub fee: Option<u64>,
    pub feerate: Option<FeeRate>,
    pub vout: Option<Vec<TxOut>>,
}

/// The summary of one transaction.
#[derive(Debug)]
pub struct TxSummary {
    pub txid: Option<String>,
    pub vsize: u64,
    pub fee: Option<u64>,
    pub feerate: Option<FeeRate>,
    pub value: u64,
}

/// What a summary says.
pub struct SummaryView {
    pub txid: Option<Seq<char>>,
    pub vsize: nat,
    pub fee: Option<u64>,
    pub feerate: Option<FeeRate>,
    pub value: nat,
}

impl View for TxSummary {
    type V = SummaryView;

    open spec fn view(&self) -> SummaryView {
        SummaryView {
            txid: match self.txid {
                Some(id) => Some(id@),
                None => None,
            },
            vsize: self.vsize as nat,
            fee: self.fee,
            feerate: self.feerate,
            value: self.value as nat,
        }
    }
}

/// What a list of summaries says.
pub open spec fn summary_views(summaries: Seq<TxSummary>) -> Seq<SummaryView> {
    summaries.map_values(|s: TxSummary| s@)
}

impl Clone for TxSummary {
    fn clone(&self) -> (r: Self)
        ensures
            r@ == self@,
    {
        let txid: Option<String> = match &self.txid {
            Some(id) => Some(id.clone()),
            None => None,
        };
        TxSummary {
            txid,
            vsize: self.vsize,
            fee: self.fee,
            feerate: self.feerate,
            value: self.value,
        }
    }
}

/// Copies a list of summaries.
pub fn clone_summaries(summaries: &Vec<TxSummary>) -> (r: Vec<TxSummary>)
    ensures
        summary_views(r@) == summary_views(summaries@),
{
    let mut copy: Vec<TxSummary> = Vec::new();
    let mut i: usize = 0;
    while i < summaries.len()
        invariant
            i <= summaries@.len(),
            summary_views(copy@) =~= summary_views(summaries@).take(i as int),
        decreases summaries@.len() - i,
    {
        let ghost before = copy@;
        copy.push(summaries[i].clone());
        assert(summary_views(copy@) =~= summary_views(before).push(summaries@[i as int]@));
        i = i + 1;
    }
    assert(summary_views(summaries@).take(i as int) =~= summary_views(summaries@));
    copy
}

/// The virtual size of a transaction of the given weight: a quarter of it, rounded up.
pub open spec fn vsize_of_weight(weight: nat) -> nat {
    (weight + 3) / 4
}

/// The virtual size that is reported for a listed transaction: by its weight, where that is
/// missing its plain size, and 0 where both are missing.
pub open spec fn listed_vsize(weight: Option<u64>, size: Option<u64>) -> nat {
    match (weight, size) {
        (Some(w), _) => vsize_of_weight(w as nat),
        (None, Some(s)) => s as nat,
        (None, None) => 0,
    }
}

/// What the summary of a listed transaction says.
pub open spec fn mempool_summary(tx: MempoolTx) -> SummaryView {
    SummaryView {
        txid: Some(tx.txid@),
        vsize: listed_vsize(tx.weight, tx.size),
        fee: tx.fee,
        feerate: tx.feerate,
        value: vout_total(tx.vout),
    }
}

/// Whether a listed transaction can be summed up in 64 bits: its weight leaves room for rounding
/// up, and what it moves is in range.
pub open spec fn mempool_tx_fits(tx: MempoolTx) -> bool {
    &&& tx.weight matches Some(w) ==> w + 3 <= u64::MAX
    &&& vout_total(tx.vout) <= u64::MAX
}

/// What the summaries of listed transactions say, in order.
pub open spec fn mempool_summaries(txs: Seq<MempoolTx>) -> Seq<SummaryView> {
    txs.map_values(|tx: MempoolTx| mempool_summary(tx))
}

/// Whether every listed transaction can be summed up in 64 bits.
pub open spec fn mempool_txs_fit(txs: Seq<MempoolTx>) -> bool {
    forall|i: int| 0 <= i < txs.len() ==> mempool_tx_fits(#[trigger] txs[i])
}

/// The virtual size that is reported for a listed transaction.
pub fn mempool_vsize(weight: Option<u64>, size: Option<u64>) -> (r: u64)
    requires
        weight matches Some(w) ==> w + 3 <= u64::MAX,
    ensures
        r as nat == listed_vsize(weight, size),
{
    match weight {
        Some(w) => (w + 3) / 4,
        None => match size {
            Some(s) => s,
            None => 0,
        },
    }
}

/// Sums up a listed transaction, where its numbers are in range.
pub fn mempool_tx_summary(tx: &MempoolTx) -> (r: Option<TxSummary>)
    ensures
        r is Some <==> mempool_tx_fits(*tx),
        r matches Some(summary) ==> summary@ == mempool_summary(*tx),
{
    if let Some(w) = tx.weight {
        if w > u64::MAX - 3 {
            return None;
        }
    }
    match checked_vout_total(&tx.vout) {
        Some(value) => Some(
            TxSummary {
                txid: Some(tx.txid.clone()),
                vsize: mempool_vsize(tx.weight, tx.size),
                fee: tx.fee,
                feerate: tx.feerate,
                value,
            },
        ),
        None => None,
    }
}

/// Sums up the listed transactions of a block, in order, where all their numbers are in range.
pub fn mempool_tx_summaries(txs: &Vec<MempoolTx>) -> (r: Option<Vec<TxSummary>>)
    ensures
        r is Some <==> mempool_txs_fit(txs@),
        r matches Some(summaries) ==> summary_views(summaries@) == mempool_summaries(txs@),
{
    let mut summaries: Vec<TxSummary> = Vec::new();
    let mut i: usize = 0;
    while i < txs.len()
        invariant
            i <= txs@.len(),
            forall|j: int| 0 <= j < i ==> mempool_tx_fits(#[trigger] txs@[j]),
            summary_views(summaries@) =~= mempool_summaries(txs@).take(i as int),
        decreases txs@.len() - i,
    {
        match mempool_tx_summary(&txs[i]) {
            Some(summary) => {
                let ghost before = summaries@;
                summaries.push(summary);
                assert(summary_views(summaries@) =~= summary_views(before).push(summary@));
            },
            None => {
                assert(!mempool_tx_fits(txs@[i as int]));
                return None;
            },
        }
        i = i + 1;
    }
    assert(mempool_summaries(txs@).take(i as int) =~= mempool_summaries(txs@));
    Some(summaries)
}

/// The virtual size of a listed transaction is the least whole number of quarters that its weight
/// fits in, whatever its plain size; the plain size stands in only for a missing weight.
pub proof fn law_listed_vsize(weight: u64, size: Option<u64>, plain: u64, any_weight: nat)
    ensures
        weight <= 4 * listed_vsize(Some(weight), size) < weight + 4,
        any_weight <= 4 * vsize_of_weight(any_weight) < any_weight + 4,
        listed_vsize(None, Some(plain)) == plain,
        listed_vsize(None, None) == 0,
{
}

/// A summary is described in full: by its identifier, virtual size, fee, fee rate and value.
pub proof fn law_summary_view(summary: TxSummary)
    ensures
        summary@.txid is Some <==> summary.txid is Some,
        summary.txid matches Some(id) ==> summary@.txid == Some(id@),
        summary@.vsize == summary.vsize,
        summary@.fee == summary.fee,
        summary@.feerate == summary.feerate,
        summary@.value == summary.value,
{
}

/// A list of summaries is described one by one, in order.
pub proof fn law_summary_views(a: Seq<TxSummary>, b: Seq<TxSummary>)
    ensures
        summary_views(a).len() == a.len(),
        forall|i: int| 0 <= i < a.len() ==> #[trigger] summary_views(a)[i] == a[i]@,
        summary_views(a + b) == summary_views(a) + summary_views(b),
{
    assert(summary_views(a + b) =~= summary_views(a) + summary_views(b));
}

/// There is one summary for each listed transaction, at the same place. It carries the
/// transaction's identifier, fee and fee rate, the sum of its outputs, and the least number of
/// quarters that its weight fits in; and the summaries of two runs of transactions, such as two
/// pages, are the one list after the other.
pub proof fn law_mempool_summaries(a: Seq<MempoolTx>, b: Seq<MempoolTx>)
    ensures
        mempool_summaries(a).len() == a.len(),
        forall|i: int|
            0 <= i < a.len() ==> {
                let s = #[trigger] mempool_summaries(a)[i];
                &&& s == mempool_summary(a[i])
                &&& s.txid == Some(a[i].txid@)
                &&& s.fee == a[i].fee
                &&& s.feerate == a[i].feerate
                &&& s.value == vout_total(a[i].vout)
                &&& a[i].weight matches Some(w) ==> w <= 4 * s.vsize < w + 4
                &&& a[i].weight is None && a[i].size is Some ==> s.vsize == a[i].size->0
                &&& a[i].weight is None && a[i].size is None ==> s.vsize == 0
            },
        mempool_summaries(a + b) == mempool_summaries(a) + mempool_summaries(b),
{
    assert(mempool_summaries(a + b) =~= mempool_summaries(a) + mempool_summaries(b));
}

/// Listed transactions can be summed up exactly where each of them can: where its weight can be
/// rounded up, and the sum of its outputs be held, in 64 bits.
pub proof fn law_mempool_txs_fit(txs: Seq<MempoolTx>)
    ensures
        mempool_txs_fit(txs) <==> forall|i: int|
            0 <= i < txs.len() ==> mempool_tx_fits(#[trigger] txs[i]),
        mempool_txs_fit(txs) <==> forall|i: int|
            0 <= i < txs.len() ==> {
                &&& vout_total((#[trigger] txs[i]).vout) <= u64::MAX
                &&& txs[i].weight is None || txs[i].weight->0 + 3 <= u64::MAX
            },
{
    if mempool_txs_fit(txs) {
        assert forall|i: int| 0 <= i < txs.len() implies {
            &&& vout_total((#[trigger] txs[i]).vout) <= u64::MAX
            &&& txs[i].weight is None || txs[i].weight->0 + 3 <= u64::MAX
        } by {
            assert(mempool_tx_fits(txs[i]));
        }
    }
}

} // verus!
