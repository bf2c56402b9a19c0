//! What transactions move, and the size class that a block's bitmap shows for it.

use vstd::arithmetic::power::pow;
use vstd::prelude::*;

verus! {

/// A transaction output as an explorer reports it; the value may be missing.
#[derive(Debug)]
pub struct TxOut {
    pub value: Option<u64>,
}

/// A transaction, as far as its size class depends on it.
#[derive(Debug)]
pub struct Tx {
    pub vout: Option<Vec<TxOut>>,
}

/// What one output adds to a total: nothing where its value is missing.
pub open spec fn amount(value: Option<u64>) -> nat {
    match value {
        Some(v) => v as nat,
        None => 0,
    }
}

/// The sum of the values that are there.
pub open spec fn total(values: Seq<Option<u64>>) -> nat
    decreases values.len(),
{
    if values.len() == 0 {
        0
    } else {
        total(values.drop_last()) + amount(values.last())
    }
}

/// The values of a list of outputs, in order.
pub open spec fn output_values(vout: Seq<TxOut>) -> Seq<Option<u64>> {
    vout.map_values(|o: TxOut| o.value)
}

/// The satoshis that a list of outputs moves; a missing list moves none.
pub open spec fn vout_total(vout: Option<Vec<TxOut>>) -> nat {
    match vout {
        Some(outputs) => total(output_values(outputs@)),
        None => 0,
    }
}

/// The least `k` with `10^k >= n`: the ceiling of the decimal logarithm of `n`, for `n >= 1`.
pub open spec fn ceil_log10(n: nat) -> nat
    decreases n,
{
    if n <= 1 {
        0
    } else {
        1 + ceil_log10((n + 9) / 10)
    }
}

/// The size class of a transaction that moves `satoshis`: `max(1, ceil(log10(satoshis)) - 5)`,
/// and 1 where nothing is moved.
pub open spec fn size_class(satoshis: nat) -> nat {
    let log = ceil_log10(satoshis);
    if log > 6 {
        (log - 5) as nat
    } else {
        1
    }
}

/// What each of a block's transactions moves, in order.
pub open spec fn tx_totals(transactions: Seq<Tx>) -> Seq<nat> {
    transactions.map_values(|tx: Tx| vout_total(tx.vout))
}

/// A block's bitmap: the size class of each transaction, in order, for what each of them moves.
pub open spec fn bitmap(totals: Seq<nat>) -> Seq<u8> {
    totals.map_values(|satoshis: nat| size_class(satoshis) as u8)
}

/// Whether every one of `totals` is in the range of `u64`.
pub open spec fn totals_fit(totals: Seq<nat>) -> bool {
    forall|i: int| 0 <= i < totals.len() ==> #[trigger] totals[i] <= u64::MAX
}

/// A partial sum held at `u64::MAX + 1` once it has left the range of `u64`.
pub open spec fn capped(n: nat) -> nat {
    if n <= u64::MAX {
        n
    } else {
        u64::MAX as nat + 1
    }
}

/// Adds to a capped sum.
pub(crate) fn capped_add(sum: u128, n: u64) -> (r: u128)
    requires
        sum <= u64::MAX as u128 + 1,
    ensures
        r as nat == capped((sum + n) as nat),
{
    let next: u128 = sum + n as u128;
    if next > u64::MAX as u128 {
        u64::MAX as u128 + 1
    } else {
        next
    }
}

/// The number behind a capped sum, where it is in the range of `u64`.
pub(crate) fn uncapped(sum: u128) -> (r: Option<u64>)
    requires
        sum <= u64::MAX as u128 + 1,
    ensures
        r is Some <==> sum <= u64::MAX,
        r matches Some(v) ==> v == sum,
{
    if sum <= u64::MAX as u128 {
        Some(sum as u64)
    } else {
        None
    }
}

/// Sums the values of a transaction's outputs, where the sum is in the range of `u64`.
pub fn checked_vout_total(vout: &Option<Vec<TxOut>>) -> (r: Option<u64>)
    ensures
        r is Some <==> vout_total(*vout) <= u64::MAX,
        r matches Some(v) ==> v == vout_total(*vout),
{
    match vout {
        None => Some(0),
        Some(outputs) => {
            let mut sum: u128 = 0;
            let mut i: usize = 0;
            let ghost values = output_values(outputs@);
            assert(values.take(0) =~= Seq::empty());
            while i < outputs.len()
                invariant
                    i <= outputs@.len(),
                    values == output_values(outputs@),
                    sum as nat == capped(total(values.take(i as int))),
                decreases outputs@.len() - i,
            {
                assert(values.take(i + 1).drop_last() =~= values.take(i as int));
                if let Some(v) = outputs[i].value {
                    sum = capped_add(sum, v);
                }
                i = i + 1;
            }
            assert(values.take(i as int) =~= values);
            uncapped(sum)
        },
    }
}

/// The size class that a block's bitmap shows for a transaction that moves `satoshis`:
/// `max(1, ceil(log10(satoshis)) - 5)`.
pub fn log_tx_size(satoshis: u64) -> (r: u8)
    ensures
        r as nat == size_class(satoshis as nat),
{
    let mut rest: u64 = satoshis;
    let mut log: u8 = 0;
    proof {
        lemma_u64_log(satoshis as nat);
    }
    while rest > 1
        invariant
            log + ceil_log10(rest as nat) == ceil_log10(satoshis as nat),
            ceil_log10(satoshis as nat) <= 20,
        decreases rest,
    {
        rest = rest / 10 + (if rest % 10 == 0 {
            0
        } else {
            1
        });
        log = log + 1;
    }
    if log > 6 {
        log - 5
    } else {
        1
    }
}

/// Encodes a block's transactions as its bitmap: one size class each, in order.
pub fn encode_transactions(transactions: &[Tx]) -> (r: Vec<u8>)
    requires
        totals_fit(tx_totals(transactions@)),
    ensures
        r@ == bitmap(tx_totals(transactions@)),
{
    checked_encode_transactions(transactions).unwrap()
}

/// Encodes a block's transactions, where what each of them moves is in the range of `u64`.
pub fn checked_encode_transactions(transactions: &[Tx]) -> (r: Option<Vec<u8>>)
    ensures
        r is Some <==> totals_fit(tx_totals(transactions@)),
        r matches Some(encoded) ==> encoded@ == bitmap(tx_totals(transactions@)),
{
    let mut encoded: Vec<u8> = Vec::new();
    let mut i: usize = 0;
    let ghost totals = tx_totals(transactions@);
    while i < transactions.len()
        invariant
            i <= transactions@.len(),
            totals == tx_totals(transactions@),
            totals_fit(totals.take(i as int)),
            encoded@ =~= bitmap(totals).take(i as int),
        decreases transactions@.len() - i,
    {
        assert(totals[i as int] == vout_total(transactions@[i as int].vout));
        match checked_vout_total(&transactions[i].vout) {
            Some(sum) => {
                encoded.push(log_tx_size(sum));
            },
            None => {
                return None;
            },
        }
        assert forall|j: int| 0 <= j < i + 1 implies #[trigger] totals.take(i + 1)[j]
            <= u64::MAX by {
            if j < i {
                assert(totals.take(i as int)[j] == totals.take(i + 1)[j]);
            }
        }
        i = i + 1;
    }
    assert(totals.take(i as int) =~= totals);
    assert(bitmap(totals).take(i as int) =~= bitmap(totals));
    Some(encoded)
}

/// `ceil_log10` is the ceiling of the decimal logarithm: the least power of ten that reaches `n`.
pub proof fn law_ceil_log10(n: nat)
    requires
        n >= 1,
    ensures
        n <= pow(10, ceil_log10(n)),
        forall|k: nat| #[trigger] pow(10, k) >= n ==> ceil_log10(n) <= k,
    decreases n,
{
    reveal(pow);
    if n > 1 {
        let m = (n + 9) / 10;
        law_ceil_log10(m);
        assert forall|k: nat| #[trigger] pow(10, k) >= n implies ceil_log10(n) <= k by {
            assert(k > 0);
            assert(pow(10, k) == 10 * pow(10, (k - 1) as nat));
            assert(pow(10, (k - 1) as nat) >= m);
        }
    }
}

/// A number in the range of `u64` has at most twenty digits.
proof fn lemma_u64_log(n: nat)
    requires
        n <= u64::MAX,
    ensures
        ceil_log10(n) <= 20,
{
    if n >= 1 {
        law_ceil_log10(n);
        assert(pow(10, 20) == 100000000000000000000) by {
            reveal_with_fuel(pow, 21);
        }
    }
}

/// The size class bounds what is moved from both sides: class `c` is given to at most
/// `10^(c + 5)` satoshis and, above class 1, to more than `10^(c + 4)`.
pub proof fn law_size_class_bounds(n: nat)
    ensures
        size_class(n) >= 1,
        n <= pow(10, size_class(n) + 5),
        size_class(n) > 1 ==> pow(10, (size_class(n) + 4) as nat) < n,
{
    let log = ceil_log10(n);
    if n == 0 {
        vstd::arithmetic::power::lemma_pow_positive(10, size_class(n) + 5);
    } else {
        law_ceil_log10(n);
        if log <= 6 {
            vstd::arithmetic::power::lemma_pow_increases(10, log, 6);
        } else if pow(10, (log - 1) as nat) >= n {
            assert(false);
        }
    }
}

/// Moving more never shows as a smaller square.
pub proof fn law_size_class_monotone(m: nat, n: nat)
    requires
        m <= n,
    ensures
        size_class(m) <= size_class(n),
{
    lemma_log_monotone(m, n);
}

proof fn lemma_log_monotone(m: nat, n: nat)
    requires
        m <= n,
    ensures
        ceil_log10(m) <= ceil_log10(n),
    decreases n,
{
    if m > 1 {
        lemma_log_monotone((m + 9) / 10, (n + 9) / 10);
    }
}

/// Every byte of a bitmap is between 1 and 15, so that no size class is cut off by the byte.
pub proof fn law_bitmap_range(totals: Seq<nat>)
    requires
        totals_fit(totals),
    ensures
        bitmap(totals).len() == totals.len(),
        forall|i: int|
            0 <= i < totals.len() ==> {
                &&& 1 <= #[trigger] bitmap(totals)[i] <= 15
                &&& bitmap(totals)[i] as nat == size_class(totals[i])
            },
{
    assert forall|i: int| 0 <= i < totals.len() implies {
        &&& 1 <= #[trigger] bitmap(totals)[i] <= 15
        &&& bitmap(totals)[i] as nat == size_class(totals[i])
    } by {
        lemma_u64_log(totals[i]);
    }
}

/// Transactions are encoded one by one: the bitmap of two runs of transactions, such as two pages
/// of a block, is the one bitmap after the other.
pub proof fn law_bitmap_concat(a: Seq<Tx>, b: Seq<Tx>)
    ensures
        bitmap(tx_totals(a + b)) == bitmap(tx_totals(a)) + bitmap(tx_totals(b)),
{
    assert(bitmap(tx_totals(a + b)) =~= bitmap(tx_totals(a)) + bitmap(tx_totals(b)));
}

/// The total is the sum of the values that are there: the total of two runs of values is the sum
/// of their totals, one value is its own total, and a missing value adds nothing.
pub proof fn law_total(a: Seq<Option<u64>>, b: Seq<Option<u64>>, v: u64)
    ensures
        total(a + b) == total(a) + total(b),
        total(Seq::<Option<u64>>::empty()) == 0,
        total(seq![Some(v)]) == v,
        total(seq![None::<u64>]) == 0,
    decreases b.len(),
{
    if b.len() == 0 {
        assert(a + b =~= a);
    } else {
        law_total(a, b.drop_last(), v);
        assert((a + b).drop_last() =~= a + b.drop_last());
    }
    assert(seq![Some(v)].drop_last() =~= Seq::<Option<u64>>::empty());
    assert(seq![None::<u64>].drop_last() =~= Seq::<Option<u64>>::empty());
    assert(total(Seq::<Option<u64>>::empty()) == 0);
}

/// The total does not depend on the order of the values.
pub proof fn law_total_order(a: Seq<Option<u64>>, b: Seq<Option<u64>>)
    requires
        a.to_multiset() == b.to_multiset(),
    ensures
        total(a) == total(b),
    decreases a.len(),
{
    broadcast use vstd::seq_lib::group_to_multiset_ensures;

    assert(a.len() == a.to_multiset().len() && b.len() == b.to_multiset().len());
    if a.len() > 0 {
        let x = a.last();
        assert(a.contains(x));
        assert(b.to_multiset().count(x) > 0);
        assert(b.contains(x));
        let i = choose|i: int| 0 <= i < b.len() && b[i] == x;
        assert(a.remove(a.len() - 1) =~= a.drop_last());
        assert(a.drop_last().to_multiset() =~= b.remove(i).to_multiset());
        law_total_order(a.drop_last(), b.remove(i));
        assert(b =~= b.take(i + 1) + b.skip(i + 1));
        law_total(b.take(i + 1), b.skip(i + 1), 0);
        assert(b.take(i + 1).drop_last() =~= b.take(i));
        assert(b.remove(i) =~= b.take(i) + b.skip(i + 1));
        law_total(b.take(i), b.skip(i + 1), 0);
    }
}

/// What a transaction moves is the sum of the values of all its outputs: what two lists of
/// outputs move together is the sum of what each of them moves, a single output moves its value,
/// and an output without a value, an empty list and a missing list move nothing.
pub proof fn law_vout_total(a: Vec<TxOut>, b: Vec<TxOut>, all: Vec<TxOut>)
    requires
        all@ == a@ + b@,
    ensures
        vout_total(Some(all)) == vout_total(Some(a)) + vout_total(Some(b)),
        a@.len() == 0 ==> vout_total(Some(a)) == 0,
        a@.len() == 1 ==> vout_total(Some(a)) == (match a@[0].value {
            Some(v) => v as nat,
            None => 0,
        }),
        vout_total(None) == 0,
{
    assert(output_values(all@) =~= output_values(a@) + output_values(b@));
    law_total(output_values(a@), output_values(b@), 0);
    if a@.len() == 1 {
        assert(output_values(a@).drop_last() =~= Seq::<Option<u64>>::empty());
    }
}

/// A block is encoded as one byte for each transaction, at the transaction's place. The byte `c`
/// tells the power of ten that what the transaction moves does not exceed, and above 1 the one
/// that it does. A block can be encoded where each transaction moves an amount in the range of
/// `u64`.
pub proof fn law_encoded(transactions: Seq<Tx>)
    ensures
        tx_totals(transactions).len() == transactions.len(),
        bitmap(tx_totals(transactions)).len() == transactions.len(),
        totals_fit(tx_totals(transactions)) <==> forall|i: int|
            0 <= i < transactions.len() ==> vout_total((#[trigger] transactions[i]).vout)
                <= u64::MAX,
        forall|i: int|
            0 <= i < transactions.len() && vout_total(transactions[i].vout) <= u64::MAX ==> {
                let c = #[trigger] bitmap(tx_totals(transactions))[i];
                let moved = vout_total(transactions[i].vout);
                &&& 1 <= c <= 15
                &&& moved <= pow(10, (c + 5) as nat)
                &&& c > 1 ==> pow(10, (c + 4) as nat) < moved
            },
{
    let totals = tx_totals(transactions);
    assert forall|i: int| 0 <= i < transactions.len() implies #[trigger] totals[i] == vout_total(
        transactions[i].vout,
    ) by {}
    if totals_fit(totals) {
        assert forall|i: int| 0 <= i < transactions.len() implies vout_total(
            (#[trigger] transactions[i]).vout,
        ) <= u64::MAX by {
            assert(totals[i] <= u64::MAX);
        }
    }
    assert forall|i: int|
        0 <= i < transactions.len() && vout_total(transactions[i].vout) <= u64::MAX implies {
        let c = #[trigger] bitmap(totals)[i];
        let moved = vout_total(transactions[i].vout);
        &&& 1 <= c <= 15
        &&& moved <= pow(10, (c + 5) as nat)
        &&& c > 1 ==> pow(10, (c + 4) as nat) < moved
    } by {
        let moved = vout_total(transactions[i].vout);
        law_size_class_bounds(moved);
        lemma_u64_log(moved);
    }
}

} // verus!
