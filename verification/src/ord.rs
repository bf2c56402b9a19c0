//! Blocks as the `ord` indexer reports them, and the virtual size of their transactions.

use vstd::arithmetic::power::pow;
use vstd::prelude::*;
use vstd::utf8::encode_utf8;

use crate::amounts::{
    bitmap, capped, capped_add, law_bitmap_range, law_size_class_bounds, law_total, log_tx_size,
    output_values, size_class, total, totals_fit, tx_totals, uncapped, vout_total, Tx,
};
use crate::summary::{summary_views, vsize_of_weight, SummaryView, TxSummary};

verus! {

/// An input; its script and its witness items are hexadecimal text.
#[derive(Debug)]
pub struct OrdInput {
    pub script_sig: String,
    pub witness: Vec<String>,
}

/// An output; its script is hexadecimal text.
#[derive(Debug)]
pub struct OrdOutput {
    pub value: Option<u64>,
    pub script_pubkey: String,
}

/// A transaction.
#[derive(Debug)]
pub struct OrdTx {
    pub input: Vec<OrdInput>,
    pub output: Vec<OrdOutput>,
}

/// A block with its transactions.
#[derive(Debug)]
pub struct OrdBlock {
    pub hash: String,
    pub height: u64,
    pub transactions: Vec<OrdTx>,
}

/// The bytes that the length prefix of `n` items takes.
pub open spec fn prefix_size(n: nat) -> nat {
    if n < 0xfd {
        1
    } else if n <= 0xffff {
        3
    } else {
        5
    }
}

/// The bytes that a hexadecimal text stands for: one for every two of its own.
pub open spec fn hex_bytes(s: Seq<char>) -> nat {
    encode_utf8(s).len() / 2
}

/// The bytes of a script or witness item with its length prefix.
pub open spec fn prefixed_size(s: Seq<char>) -> nat {
    prefix_size(hex_bytes(s)) + hex_bytes(s)
}

/// The bytes of inputs without their witnesses: each has the output it spends, its script and
/// its sequence number.
pub open spec fn inputs_size(inputs: Seq<OrdInput>) -> nat
    decreases inputs.len(),
{
    if inputs.len() == 0 {
        0
    } else {
        inputs_size(inputs.drop_last()) + 36 + prefixed_size(inputs.last().script_sig@) + 4
    }
}

/// The bytes of outputs: each has its value and its script.
pub open spec fn outputs_size(outputs: Seq<OrdOutput>) -> nat
    decreases outputs.len(),
{
    if outputs.len() == 0 {
        0
    } else {
        outputs_size(outputs.drop_last()) + 8 + prefixed_size(outputs.last().script_pubkey@)
    }
}

/// The bytes of the items of one witness.
pub open spec fn items_size(items: Seq<String>) -> nat
    decreases items.len(),
{
    if items.len() == 0 {
        0
    } else {
        items_size(items.drop_last()) + prefixed_size(items.last()@)
    }
}

/// The bytes of the witnesses of inputs, each with its item count.
pub open spec fn witnesses_size(inputs: Seq<OrdInput>) -> nat
    decreases inputs.len(),
{
    if inputs.len() == 0 {
        0
    } else {
        witnesses_size(inputs.drop_last()) + prefix_size(inputs.last().witness@.len())
            + items_size(inputs.last().witness@)
    }
}

/// Whether an input has a witness.
pub open spec fn has_witness(inputs: Seq<OrdInput>) -> bool {
    exists|i: int| 0 <= i < inputs.len() && (#[trigger] inputs[i]).witness@.len() > 0
}

/// The bytes of a transaction without its witnesses: version, inputs, outputs and lock time.
pub open spec fn base_size(tx: OrdTx) -> nat {
    8 + prefix_size(tx.input@.len()) + inputs_size(tx.input@) + prefix_size(tx.output@.len())
        + outputs_size(tx.output@)
}

/// The bytes that witnesses add to a transaction: a marker, a flag and the witnesses, or nothing
/// where no input has one.
pub open spec fn segwit_size(tx: OrdTx) -> nat {
    if has_witness(tx.input@) {
        2 + witnesses_size(tx.input@)
    } else {
        0
    }
}

/// The virtual size of a transaction: its bytes without witnesses, and a quarter of the bytes
/// that witnesses add, rounded up.
pub open spec fn tx_vsize(tx: OrdTx) -> nat {
    base_size(tx) + (segwit_size(tx) + 3) / 4
}

/// Whether the sizes of a transaction are in the range of `u64`.
pub open spec fn vsize_fits(tx: OrdTx) -> bool {
    tx_vsize(tx) <= u64::MAX && segwit_size(tx) <= u64::MAX
}

/// The values of a list of outputs, in order.
pub open spec fn ord_output_values(outputs: Seq<OrdOutput>) -> Seq<Option<u64>> {
    outputs.map_values(|o: OrdOutput| o.value)
}

/// The satoshis that a transaction moves.
pub open spec fn ord_tx_total(tx: OrdTx) -> nat {
    total(ord_output_values(tx.output@))
}

/// What each of a block's transactions moves, in order.
pub open spec fn ord_totals(txs: Seq<OrdTx>) -> Seq<nat> {
    txs.map_values(|tx: OrdTx| ord_tx_total(tx))
}

/// What the summary of a transaction says: the indexer knows neither its identifier nor its fee.
pub open spec fn ord_summary(tx: OrdTx) -> SummaryView {
    SummaryView {
        txid: None,
        vsize: tx_vsize(tx),
        fee: None,
        feerate: None,
        value: ord_tx_total(tx),
    }
}

/// Whether a transaction can be summed up in 64 bits.
pub open spec fn ord_tx_fits(tx: OrdTx) -> bool {
    vsize_fits(tx) && ord_tx_total(tx) <= u64::MAX
}

/// What the summaries of transactions say, in order.
pub open spec fn ord_summaries(txs: Seq<OrdTx>) -> Seq<SummaryView> {
    txs.map_values(|tx: OrdTx| ord_summary(tx))
}

/// Whether every transaction can be summed up in 64 bits.
pub open spec fn ord_txs_fit(txs: Seq<OrdTx>) -> bool {
    forall|i: int| 0 <= i < txs.len() ==> ord_tx_fits(#[trigger] txs[i])
}

/// The bytes that the length prefix of `n` items takes.
pub fn varint_size(n: usize) -> (r: u64)
    ensures
        r as nat == prefix_size(n as nat),
{
    if n < 0xfd {
        1
    } else if n <= 0xffff {
        3
    } else {
        5
    }
}

/// Adds a prefixed hexadecimal text to a capped sum of bytes.
fn add_prefixed(sum: u128, text: &String) -> (r: u128)
    requires
        sum <= u64::MAX as u128 + 1,
    ensures
        r as nat == capped(sum as nat + prefixed_size(text@)),
{
    let bytes: &[u8] = text.as_str().as_bytes();
    let len: usize = bytes.len() / 2;
    capped_add(capped_add(sum, varint_size(len)), len as u64)
}

/// Whether one of the inputs has a witness.
fn any_witness(inputs: &Vec<OrdInput>) -> (r: bool)
    ensures
        r == has_witness(inputs@),
{
    let mut i: usize = 0;
    while i < inputs.len()
        invariant
            i <= inputs@.len(),
            forall|j: int| 0 <= j < i ==> (#[trigger] inputs@[j]).witness@.len() == 0,
        decreases inputs@.len() - i,
    {
        if inputs[i].witness.len() > 0 {
            assert(inputs@[i as int].witness@.len() > 0);
            return true;
        }
        i = i + 1;
    }
    false
}

/// Sums the bytes of a transaction without its witnesses.
fn capped_base_size(tx: &OrdTx) -> (r: u128)
    ensures
        r as nat == capped(base_size(*tx)),
{
    let mut sum: u128 = capped_add(8, varint_size(tx.input.len()));
    let mut i: usize = 0;
    assert(tx.input@.take(0) =~= Seq::empty());
    while i < tx.input.len()
        invariant
            i <= tx.input@.len(),
            sum as nat == capped(
                8 + prefix_size(tx.input@.len()) + inputs_size(tx.input@.take(i as int)),
            ),
        decreases tx.input@.len() - i,
    {
        assert(tx.input@.take(i + 1).drop_last() =~= tx.input@.take(i as int));
        sum = capped_add(add_prefixed(capped_add(sum, 36), &tx.input[i].script_sig), 4);
        i = i + 1;
    }
    assert(tx.input@.take(i as int) =~= tx.input@);
    sum = capped_add(sum, varint_size(tx.output.len()));
    let mut k: usize = 0;
    assert(tx.output@.take(0) =~= Seq::empty());
    while k < tx.output.len()
        invariant
            k <= tx.output@.len(),
            sum as nat == capped(
                8 + prefix_size(tx.input@.len()) + inputs_size(tx.input@) + prefix_size(
                    tx.output@.len(),
                ) + outputs_size(tx.output@.take(k as int)),
            ),
        decreases tx.output@.len() - k,
    {
        assert(tx.output@.take(k + 1).drop_last() =~= tx.output@.take(k as int));
        sum = add_prefixed(capped_add(sum, 8), &tx.output[k].script_pubkey);
        k = k + 1;
    }
    assert(tx.output@.take(k as int) =~= tx.output@);
    sum
}

/// Sums the bytes of the witnesses of inputs, with their marker and flag.
fn capped_witness_size(inputs: &Vec<OrdInput>) -> (r: u128)
    ensures
        r as nat == capped(2 + witnesses_size(inputs@)),
{
    let mut sum: u128 = 2;
    let mut i: usize = 0;
    assert(inputs@.take(0) =~= Seq::empty());
    while i < inputs.len()
        invariant
            i <= inputs@.len(),
            sum as nat == capped(2 + witnesses_size(inputs@.take(i as int))),
        decreases inputs@.len() - i,
    {
        let ghost before = 2 + witnesses_size(inputs@.take(i as int));
        assert(inputs@.take(i + 1).drop_last() =~= inputs@.take(i as int));
        let items: &Vec<String> = &inputs[i].witness;
        sum = capped_add(sum, varint_size(items.len()));
        let mut k: usize = 0;
        assert(items@.take(0) =~= Seq::empty());
        while k < items.len()
            invariant
                k <= items@.len(),
                sum as nat == capped(
                    before + prefix_size(items@.len()) + items_size(items@.take(k as int)),
                ),
            decreases items@.len() - k,
        {
            assert(items@.take(k + 1).drop_last() =~= items@.take(k as int));
            sum = add_prefixed(sum, &items[k]);
            k = k + 1;
        }
        assert(items@.take(k as int) =~= items@);
        i = i + 1;
    }
    assert(inputs@.take(i as int) =~= inputs@);
    sum
}

/// The virtual size of a transaction.
pub fn ord_tx_vsize(tx: &OrdTx) -> (r: u64)
    requires
        vsize_fits(*tx),
    ensures
        r as nat == tx_vsize(*tx),
{
    checked_ord_tx_vsize(tx).unwrap()
}

/// The virtual size of a transaction, where its sizes are in the range of `u64`.
pub fn checked_ord_tx_vsize(tx: &OrdTx) -> (r: Option<u64>)
    ensures
        r is Some <==> vsize_fits(*tx),
        r matches Some(v) ==> v as nat == tx_vsize(*tx),
{
    let base: u128 = capped_base_size(tx);
    if !any_witness(&tx.input) {
        return uncapped(base);
    }
    let witness: u64 = match uncapped(capped_witness_size(&tx.input)) {
        Some(w) => w,
        None => {
            return None;
        },
    };
    let quarter: u64 = witness / 4 + (if witness % 4 == 0 {
        0
    } else {
        1
    });
    uncapped(capped_add(base, quarter))
}

/// Sums the values of a transaction's outputs, where the sum is in the range of `u64`.
pub fn checked_ord_tx_total(tx: &OrdTx) -> (r: Option<u64>)
    ensures
        r is Some <==> ord_tx_total(*tx) <= u64::MAX,
        r matches Some(v) ==> v as nat == ord_tx_total(*tx),
{
    let mut sum: u128 = 0;
    let mut i: usize = 0;
    let ghost values = ord_output_values(tx.output@);
    assert(values.take(0) =~= Seq::empty());
    while i < tx.output.len()
        invariant
            i <= tx.output@.len(),
            values == ord_output_values(tx.output@),
            sum as nat == capped(total(values.take(i as int))),
        decreases tx.output@.len() - i,
    {
        assert(values.take(i + 1).drop_last() =~= values.take(i as int));
        if let Some(v) = tx.output[i].value {
            sum = capped_add(sum, v);
        }
        i = i + 1;
    }
    assert(values.take(i as int) =~= values);
    uncapped(sum)
}

/// Sums up a transaction.
pub fn tx_summary_from_ord(tx: &OrdTx) -> (r: TxSummary)
    requires
        ord_tx_fits(*tx),
    ensures
        r@ == ord_summary(*tx),
{
    TxSummary {
        txid: None,
        vsize: ord_tx_vsize(tx),
        fee: None,
        feerate: None,
        value: checked_ord_tx_total(tx).unwrap(),
    }
}

/// Sums up the transactions of a block, in order, where all their numbers are in range.
pub fn ord_tx_summaries(txs: &Vec<OrdTx>) -> (r: Option<Vec<TxSummary>>)
    ensures
        r is Some <==> ord_txs_fit(txs@),
        r matches Some(summaries) ==> summary_views(summaries@) == ord_summaries(txs@),
{
    let mut summaries: Vec<TxSummary> = Vec::new();
    let mut i: usize = 0;
    while i < txs.len()
        invariant
            i <= txs@.len(),
            forall|j: int| 0 <= j < i ==> ord_tx_fits(#[trigger] txs@[j]),
            summary_views(summaries@) =~= ord_summaries(txs@).take(i as int),
        decreases txs@.len() - i,
    {
        if checked_ord_tx_vsize(&txs[i]).is_none() || checked_ord_tx_total(&txs[i]).is_none() {
            assert(!ord_tx_fits(txs@[i as int]));
            return None;
        }
        let ghost before = summaries@;
        let summary: TxSummary = tx_summary_from_ord(&txs[i]);
        summaries.push(summary);
        assert(summary_views(summaries@) =~= summary_views(before).push(summary@));
        i = i + 1;
    }
    assert(ord_summaries(txs@).take(i as int) =~= ord_summaries(txs@));
    Some(summaries)
}

/// Encodes transactions as the bitmap of their block, where what each of them moves is in the
/// range of `u64`.
pub fn encode_ord_transactions(txs: &Vec<OrdTx>) -> (r: Option<Vec<u8>>)
    ensures
        r is Some <==> totals_fit(ord_totals(txs@)),
        r matches Some(encoded) ==> encoded@ == bitmap(ord_totals(txs@)),
{
    let mut encoded: Vec<u8> = Vec::new();
    let mut i: usize = 0;
    let ghost totals = ord_totals(txs@);
    while i < txs.len()
        invariant
            i <= txs@.len(),
            totals == ord_totals(txs@),
            forall|j: int| 0 <= j < i ==> #[trigger] totals[j] <= u64::MAX,
            encoded@ =~= bitmap(totals).take(i as int),
        decreases txs@.len() - i,
    {
        match checked_ord_tx_total(&txs[i]) {
            Some(sum) => {
                encoded.push(log_tx_size(sum));
            },
            None => {
                assert(!(totals[i as int] <= u64::MAX));
                return None;
            },
        }
        i = i + 1;
    }
    assert(bitmap(totals).take(i as int) =~= bitmap(totals));
    Some(encoded)
}

/// The virtual size is a quarter of the weight, rounded up, where a byte outside the witnesses
/// weighs four and a byte that they add weighs one: the rule by which a listed transaction's
/// virtual size follows from its weight.
pub proof fn law_vsize_is_quarter_of_weight(tx: OrdTx)
    ensures
        tx_vsize(tx) == vsize_of_weight(4 * base_size(tx) + segwit_size(tx)),
{
}

/// A transaction without witnesses has its plain size as virtual size; with witnesses it is
/// larger, by less than all the bytes that they add.
pub proof fn law_witness_discount(tx: OrdTx)
    ensures
        !has_witness(tx.input@) ==> tx_vsize(tx) == base_size(tx),
        has_witness(tx.input@) ==> base_size(tx) < tx_vsize(tx) < base_size(tx) + segwit_size(tx),
{
    if has_witness(tx.input@) {
        lemma_witness_bytes(tx.input@);
    }
}

/// Each input's witness takes at least the byte of its item count.
proof fn lemma_witness_bytes(inputs: Seq<OrdInput>)
    ensures
        witnesses_size(inputs) >= inputs.len(),
    decreases inputs.len(),
{
    if inputs.len() > 0 {
        lemma_witness_bytes(inputs.drop_last());
    }
}

/// A block has the same bitmap whether its transactions come from an explorer's pages or from the
/// indexer, as long as both report the same output values.
pub proof fn law_sources_agree(listed: Seq<Tx>, indexed: Seq<OrdTx>)
    requires
        listed.len() == indexed.len(),
        forall|i: int|
            #![trigger listed[i]]
            #![trigger indexed[i]]
            0 <= i < listed.len() ==> {
                &&& listed[i].vout is Some
                &&& output_values(listed[i].vout->0@) == ord_output_values(indexed[i].output@)
            },
    ensures
        bitmap(tx_totals(listed)) == bitmap(ord_totals(indexed)),
{
    assert forall|i: int| 0 <= i < listed.len() implies tx_totals(listed)[i] == ord_totals(
        indexed,
    )[i] by {
        assert(vout_total(listed[i].vout) == ord_tx_total(indexed[i]));
    }
    assert(tx_totals(listed) =~= ord_totals(indexed));
}

/// The bitmap and the summaries of a block belong together: each byte is the size class of the
/// value that the summary at the same place reports.
pub proof fn law_bitmap_matches_summaries(txs: Seq<OrdTx>)
    ensures
        bitmap(ord_totals(txs)).len() == ord_summaries(txs).len(),
        forall|i: int|
            0 <= i < txs.len() ==> #[trigger] bitmap(ord_totals(txs))[i] == size_class(
                ord_summaries(txs)[i].value,
            ) as u8,
{
}

/// The length prefix has one byte below 253, three below 65536 and five from there on.
pub proof fn law_prefix_size(n: nat, more: nat)
    ensures
        prefix_size(n) == 1 <==> n < 253,
        prefix_size(n) == 3 <==> 253 <= n < 65536,
        prefix_size(n) == 5 <==> 65536 <= n,
        n <= more ==> prefix_size(n) <= prefix_size(more),
{
}

/// A script or witness item takes one byte for every two of its hexadecimal text, and the length
/// prefix of as many bytes.
pub proof fn law_prefixed_size(s: Seq<char>)
    ensures
        2 * hex_bytes(s) <= encode_utf8(s).len() < 2 * hex_bytes(s) + 2,
        prefixed_size(s) == prefix_size(encode_utf8(s).len() / 2) + encode_utf8(s).len() / 2,
{
}

/// The bytes of inputs outside the witnesses are counted input by input: 36 for the output that
/// is spent, the script with its prefix, and 4 for the sequence number.
pub proof fn law_inputs_size(a: Seq<OrdInput>, b: Seq<OrdInput>, input: OrdInput)
    ensures
        inputs_size(a + b) == inputs_size(a) + inputs_size(b),
        inputs_size(Seq::<OrdInput>::empty()) == 0,
        inputs_size(seq![input]) == 36 + prefix_size(encode_utf8(input.script_sig@).len() / 2)
            + encode_utf8(input.script_sig@).len() / 2 + 4,
    decreases b.len(),
{
    if b.len() == 0 {
        assert(a + b =~= a);
    } else {
        law_inputs_size(a, b.drop_last(), input);
        assert((a + b).drop_last() =~= a + b.drop_last());
    }
    assert(seq![input].drop_last() =~= Seq::<OrdInput>::empty());
    assert(inputs_size(Seq::<OrdInput>::empty()) == 0);
}

/// The bytes outside the witnesses do not depend on the witnesses: inputs with the same scripts
/// take the same number of them.
pub proof fn law_inputs_size_ignores_witnesses(a: Seq<OrdInput>, b: Seq<OrdInput>)
    requires
        a.len() == b.len(),
        forall|i: int|
            #![trigger a[i]]
            #![trigger b[i]]
            0 <= i < a.len() ==> a[i].script_sig@ == b[i].script_sig@,
    ensures
        inputs_size(a) == inputs_size(b),
    decreases a.len(),
{
    if a.len() > 0 {
        assert forall|i: int|
            #![trigger a.drop_last()[i]]
            #![trigger b.drop_last()[i]]
            0 <= i < a.len() - 1 implies a.drop_last()[i].script_sig@
            == b.drop_last()[i].script_sig@ by {
            assert(a[i].script_sig@ == b[i].script_sig@);
        }
        law_inputs_size_ignores_witnesses(a.drop_last(), b.drop_last());
        assert(a[a.len() - 1].script_sig@ == b[b.len() - 1].script_sig@);
    }
}

/// The bytes of outputs are counted output by output: 8 for the value, and the script with its
/// prefix.
pub proof fn law_outputs_size(a: Seq<OrdOutput>, b: Seq<OrdOutput>, output: OrdOutput)
    ensures
        outputs_size(a + b) == outputs_size(a) + outputs_size(b),
        outputs_size(Seq::<OrdOutput>::empty()) == 0,
        outputs_size(seq![output]) == 8 + prefix_size(
            encode_utf8(output.script_pubkey@).len() / 2,
        ) + encode_utf8(output.script_pubkey@).len() / 2,
    decreases b.len(),
{
    if b.len() == 0 {
        assert(a + b =~= a);
    } else {
        law_outputs_size(a, b.drop_last(), output);
        assert((a + b).drop_last() =~= a + b.drop_last());
    }
    assert(seq![output].drop_last() =~= Seq::<OrdOutput>::empty());
    assert(outputs_size(Seq::<OrdOutput>::empty()) == 0);
}

/// The bytes of a witness are counted item by item, each with its prefix.
pub proof fn law_items_size(a: Seq<String>, b: Seq<String>, item: String)
    ensures
        items_size(a + b) == items_size(a) + items_size(b),
        items_size(Seq::<String>::empty()) == 0,
        items_size(seq![item]) == prefix_size(encode_utf8(item@).len() / 2) + encode_utf8(
            item@,
        ).len() / 2,
    decreases b.len(),
{
    if b.len() == 0 {
        assert(a + b =~= a);
    } else {
        law_items_size(a, b.drop_last(), item);
        assert((a + b).drop_last() =~= a + b.drop_last());
    }
    assert(seq![item].drop_last() =~= Seq::<String>::empty());
    assert(items_size(Seq::<String>::empty()) == 0);
}

/// The bytes of witnesses are counted input by input: the prefix for the number of items, which
/// an input without items has too, and the items.
pub proof fn law_witnesses_size(a: Seq<OrdInput>, b: Seq<OrdInput>, input: OrdInput)
    ensures
        witnesses_size(a + b) == witnesses_size(a) + witnesses_size(b),
        witnesses_size(Seq::<OrdInput>::empty()) == 0,
        witnesses_size(seq![input]) == prefix_size(input.witness@.len()) + items_size(
            input.witness@,
        ),
    decreases b.len(),
{
    if b.len() == 0 {
        assert(a + b =~= a);
    } else {
        law_witnesses_size(a, b.drop_last(), input);
        assert((a + b).drop_last() =~= a + b.drop_last());
    }
    assert(seq![input].drop_last() =~= Seq::<OrdInput>::empty());
    assert(witnesses_size(Seq::<OrdInput>::empty()) == 0);
}

/// There is a witness exactly where some input has an item.
pub proof fn law_has_witness(a: Seq<OrdInput>, b: Seq<OrdInput>, input: OrdInput)
    ensures
        has_witness(a + b) <==> has_witness(a) || has_witness(b),
        !has_witness(Seq::<OrdInput>::empty()),
        has_witness(seq![input]) <==> input.witness@.len() > 0,
{
    if has_witness(a) {
        let i = choose|i: int| 0 <= i < a.len() && (#[trigger] a[i]).witness@.len() > 0;
        assert((a + b)[i].witness@.len() > 0);
    }
    if has_witness(b) {
        let i = choose|i: int| 0 <= i < b.len() && (#[trigger] b[i]).witness@.len() > 0;
        assert((a + b)[a.len() + i].witness@.len() > 0);
    }
    if has_witness(a + b) {
        let i = choose|i: int|
            0 <= i < (a + b).len() && (#[trigger] (a + b)[i]).witness@.len() > 0;
        if i < a.len() {
            assert(a[i].witness@.len() > 0);
        } else {
            assert(b[i - a.len()].witness@.len() > 0);
        }
    }
    assert(seq![input][0] == input);
}

/// An empty transaction has ten bytes: four of version, four of lock time and two counts. Each
/// input and each output adds its own bytes, and what its count grows by.
pub proof fn law_base_size_grows(tx: OrdTx, next: OrdTx, input: OrdInput, output: OrdOutput)
    ensures
        tx.input@.len() == 0 && tx.output@.len() == 0 ==> base_size(tx) == 10,
        next.input@ == tx.input@.push(input) && next.output@ == tx.output@ ==> base_size(next)
            - base_size(tx) == inputs_size(seq![input]) + prefix_size(tx.input@.len() + 1)
            - prefix_size(tx.input@.len()),
        next.output@ == tx.output@.push(output) && next.input@ == tx.input@ ==> base_size(next)
            - base_size(tx) == outputs_size(seq![output]) + prefix_size(tx.output@.len() + 1)
            - prefix_size(tx.output@.len()),
{
    assert(tx.input@.push(input) =~= tx.input@ + seq![input]);
    assert(tx.output@.push(output) =~= tx.output@ + seq![output]);
    law_inputs_size(tx.input@, seq![input], input);
    law_outputs_size(tx.output@, seq![output], output);
}

/// Without a witness nothing is added to a transaction; with one, the marker, the flag and the
/// witnesses of all inputs are. The virtual size is the least whole number of quarters that the
/// weight fits in, and it can be held where it and the witness bytes are in range.
pub proof fn law_segwit_size(tx: OrdTx)
    ensures
        !has_witness(tx.input@) ==> segwit_size(tx) == 0,
        has_witness(tx.input@) ==> segwit_size(tx) == 2 + witnesses_size(tx.input@),
        4 * base_size(tx) + segwit_size(tx) <= 4 * tx_vsize(tx) < 4 * base_size(tx) + segwit_size(
            tx,
        ) + 4,
        vsize_fits(tx) <==> tx_vsize(tx) <= u64::MAX && segwit_size(tx) <= u64::MAX,
{
}

/// What a transaction moves is the sum of the values of all its outputs.
pub proof fn law_ord_tx_total(a: OrdTx, b: OrdTx, all: OrdTx)
    requires
        all.output@ == a.output@ + b.output@,
    ensures
        ord_tx_total(all) == ord_tx_total(a) + ord_tx_total(b),
        a.output@.len() == 0 ==> ord_tx_total(a) == 0,
        a.output@.len() == 1 ==> ord_tx_total(a) == (match a.output@[0].value {
            Some(v) => v as nat,
            None => 0,
        }),
{
    assert(ord_output_values(all.output@) =~= ord_output_values(a.output@) + ord_output_values(
        b.output@,
    ));
    law_total(ord_output_values(a.output@), ord_output_values(b.output@), 0);
    if a.output@.len() == 1 {
        assert(ord_output_values(a.output@).drop_last() =~= Seq::<Option<u64>>::empty());
    }
}

/// A block of the indexer has one total and one summary for each transaction, at the
/// transaction's place; a summary has the virtual size and the total, and neither an identifier
/// nor a fee. The summaries of two runs of transactions are the one list after the other.
pub proof fn law_ord_summaries(a: Seq<OrdTx>, b: Seq<OrdTx>)
    ensures
        ord_totals(a).len() == a.len(),
        ord_summaries(a).len() == a.len(),
        forall|i: int| 0 <= i < a.len() ==> #[trigger] ord_totals(a)[i] == ord_tx_total(a[i]),
        forall|i: int|
            0 <= i < a.len() ==> {
                let s = #[trigger] ord_summaries(a)[i];
                &&& s == ord_summary(a[i])
                &&& s.txid is None
                &&& s.fee is None
                &&& s.feerate is None
                &&& s.vsize == tx_vsize(a[i])
                &&& s.value == ord_tx_total(a[i])
            },
        ord_totals(a + b) == ord_totals(a) + ord_totals(b),
        ord_summaries(a + b) == ord_summaries(a) + ord_summaries(b),
{
    assert(ord_totals(a + b) =~= ord_totals(a) + ord_totals(b));
    assert(ord_summaries(a + b) =~= ord_summaries(a) + ord_summaries(b));
}

/// A block of the indexer is encoded as one byte for each transaction, at the transaction's
/// place, by the same powers of ten as a listed one.
pub proof fn law_ord_encoded(txs: Seq<OrdTx>)
    ensures
        bitmap(ord_totals(txs)).len() == txs.len(),
        totals_fit(ord_totals(txs)) <==> forall|i: int|
            0 <= i < txs.len() ==> ord_tx_total(#[trigger] txs[i]) <= u64::MAX,
        forall|i: int|
            0 <= i < txs.len() && ord_tx_total(txs[i]) <= u64::MAX ==> {
                let c = #[trigger] bitmap(ord_totals(txs))[i];
                let moved = ord_tx_total(txs[i]);
                &&& 1 <= c <= 15
                &&& moved <= pow(10, (c + 5) as nat)
                &&& c > 1 ==> pow(10, (c + 4) as nat) < moved
            },
{
    let totals = ord_totals(txs);
    assert forall|i: int| 0 <= i < txs.len() implies #[trigger] totals[i] == ord_tx_total(
        txs[i],
    ) by {}
    if totals_fit(totals) {
        assert forall|i: int| 0 <= i < txs.len() implies ord_tx_total(#[trigger] txs[i])
            <= u64::MAX by {
            assert(totals[i] <= u64::MAX);
        }
    }
    assert forall|i: int| 0 <= i < txs.len() && ord_tx_total(txs[i]) <= u64::MAX implies {
        let c = #[trigger] bitmap(totals)[i];
        let moved = ord_tx_total(txs[i]);
        &&& 1 <= c <= 15
        &&& moved <= pow(10, (c + 5) as nat)
        &&& c > 1 ==> pow(10, (c + 4) as nat) < moved
    } by {
        let one = seq![totals[i]];
        assert(totals_fit(one));
        law_bitmap_range(one);
        assert(bitmap(one)[0] == bitmap(totals)[i]);
        law_size_class_bounds(totals[i]);
    }
}

/// Transactions can be summed up exactly where each of them can: where its virtual size, its
/// witness bytes and the sum of its outputs are in range.
pub proof fn law_ord_txs_fit(txs: Seq<OrdTx>)
    ensures
        ord_txs_fit(txs) <==> forall|i: int|
            0 <= i < txs.len() ==> ord_tx_fits(#[trigger] txs[i]),
        ord_txs_fit(txs) <==> forall|i: int|
            0 <= i < txs.len() ==> {
                &&& tx_vsize(#[trigger] txs[i]) <= u64::MAX
                &&& segwit_size(txs[i]) <= u64::MAX
                &&& ord_tx_total(txs[i]) <= u64::MAX
            },
{
    if ord_txs_fit(txs) {
        assert forall|i: int| 0 <= i < txs.len() implies {
            &&& tx_vsize(#[trigger] txs[i]) <= u64::MAX
            &&& segwit_size(txs[i]) <= u64::MAX
            &&& ord_tx_total(txs[i]) <= u64::MAX
        } by {
            assert(ord_tx_fits(txs[i]));
        }
    }
}

} // verus!
