use bitmap_render::amounts::{
    checked_encode_transactions, checked_vout_total, encode_transactions, log_tx_size, Tx, TxOut,
};
use bitmap_render::ord::{
    checked_ord_tx_total, checked_ord_tx_vsize, encode_ord_transactions, ord_tx_summaries,
    ord_tx_vsize, tx_summary_from_ord, varint_size, OrdInput, OrdOutput, OrdTx,
};
use bitmap_render::summary::{
    clone_summaries, mempool_tx_summaries, mempool_tx_summary, mempool_vsize, FeeRate, MempoolTx,
};

fn make_ord_tx(inputs: &[(&str, &[&str])], outputs: &[(&str, u64)]) -> OrdTx {
    OrdTx {
        input: inputs
            .iter()
            .map(|(script_sig, witness)| OrdInput {
                script_sig: script_sig.to_string(),
                witness: witness.iter().map(|item| item.to_string()).collect(),
            })
            .collect(),
        output: outputs
            .iter()
            .map(|(script_pubkey, value)| OrdOutput {
                value: Some(*value),
                script_pubkey: script_pubkey.to_string(),
            })
            .collect(),
    }
}

fn tx(values: &[Option<u64>]) -> Tx {
    Tx { vout: Some(values.iter().map(|value| TxOut { value: *value }).collect()) }
}

fn listed(weight: Option<u64>, size: Option<u64>, values: &[Option<u64>]) -> MempoolTx {
    MempoolTx {
        txid: "abc".to_string(),
        weight,
        size,
        fee: Some(1500),
        feerate: Some(FeeRate { bits: 13.51f64.to_bits() }),
        vout: Some(values.iter().map(|value| TxOut { value: *value }).collect()),
    }
}

#[test]
fn encodes_transactions_as_size_only() {
    let transactions = vec![
        Tx { vout: Some(vec![TxOut { value: Some(1_000_000_000) }]) },
        Tx { vout: Some(vec![TxOut { value: Some(0) }]) },
    ];

    let encoded = encode_transactions(&transactions);

    assert_eq!(encoded.len(), 2);
    assert_eq!(encoded[0], 4);
    assert_eq!(encoded[1], 1);
}

#[test]
fn ord_tx_vsize_legacy() {
    let tx = make_ord_tx(&[("", &[])], &[("0014fd92b03dd4f1ab7031905b79459f7abc5a5c50cb", 1000)]);
    assert_eq!(ord_tx_vsize(&tx), 82);
}

#[test]
fn ord_tx_vsize_segwit() {
    let sig = "3045022100".to_string() + &"aa".repeat(35);
    let pubkey = "02".to_string() + &"bb".repeat(32);
    let tx = make_ord_tx(
        &[("", &[&sig, &pubkey])],
        &[("0014fd92b03dd4f1ab7031905b79459f7abc5a5c50cb", 1000)],
    );
    assert_eq!(ord_tx_vsize(&tx), 82 + (78 + 3) / 4);
}

#[test]
fn tx_summary_from_ord_block() {
    let tx = make_ord_tx(
        &[("", &[])],
        &[
            ("0014fd92b03dd4f1ab7031905b79459f7abc5a5c50cb", 5_000_000),
            ("001424f39209574e117d51ebb72ae505bc6d56c26d1c", 1_000_000),
        ],
    );
    let vsize = ord_tx_vsize(&tx);
    let value: u64 = tx.output.iter().filter_map(|o| o.value).sum();
    assert_eq!(value, 6_000_000);
    assert!(vsize > 0);
    assert!(vsize < 1000);
    assert_eq!(checked_ord_tx_total(&tx), Some(value));
}

#[test]
fn tx_summary_from_ord_computes_vsize_and_value() {
    let tx = make_ord_tx(
        &[("", &[])],
        &[
            ("0014fd92b03dd4f1ab7031905b79459f7abc5a5c50cb", 500_000),
            ("001424f39209574e117d51ebb72ae505bc6d56c26d1c", 200_000),
        ],
    );

    let summary = tx_summary_from_ord(&tx);

    assert_eq!(summary.txid, None);
    assert_eq!(summary.fee, None);
    assert_eq!(summary.feerate, None);
    assert_eq!(summary.value, 700_000);
    assert_eq!(summary.vsize, 113);
}

#[test]
fn mempool_tx_summary_vsize_from_weight() {
    let tx = MempoolTx {
        txid: "abc".into(),
        weight: Some(441),
        size: Some(200),
        fee: Some(1500),
        feerate: Some(FeeRate { bits: 13.51f64.to_bits() }),
        vout: Some(vec![TxOut { value: Some(500_000) }, TxOut { value: Some(200_000) }]),
    };
    let vsize = mempool_vsize(tx.weight, tx.size);
    let value = checked_vout_total(&tx.vout).unwrap();
    assert_eq!(vsize, 111);
    assert_eq!(value, 700_000);
    let summary = mempool_tx_summary(&tx).unwrap();
    assert_eq!(summary.vsize, 111);
    assert_eq!(summary.value, 700_000);
    assert_eq!(summary.txid, Some("abc".to_string()));
    assert_eq!(summary.fee, Some(1500));
    assert_eq!(summary.feerate.map(|rate| f64::from_bits(rate.bits)), Some(13.51));
}

#[test]
fn log_tx_size_matches_bitfeed() {
    assert_eq!(log_tx_size(0), 1);
    assert_eq!(log_tx_size(100_000), 1);
    assert_eq!(log_tx_size(10_000_000), 2);
    assert_eq!(log_tx_size(100_000_000), 3);
    assert_eq!(log_tx_size(1_000_000_000), 4);
    assert_eq!(log_tx_size(2_500_000_000), 5);
}

#[test]
fn main_log_tx_size_matches_bitfeed() {
    assert_eq!(log_tx_size(0), 1);
    assert_eq!(log_tx_size(100_000), 1);
    assert_eq!(log_tx_size(10_000_000), 2);
    assert_eq!(log_tx_size(100_000_000), 3);
    assert_eq!(log_tx_size(1_000_000_000), 4);
    assert_eq!(log_tx_size(2_500_000_000), 5);
}

#[test]
fn log_tx_size_steps_just_above_powers_of_ten() {
    assert_eq!(log_tx_size(1), 1);
    assert_eq!(log_tx_size(1_000_000), 1);
    assert_eq!(log_tx_size(1_000_001), 2);
    assert_eq!(log_tx_size(10_000_001), 3);
    assert_eq!(log_tx_size(1_000_000_000_000_000), 10);
    assert_eq!(log_tx_size(1_000_000_000_000_001), 11);
    assert_eq!(log_tx_size(u64::MAX), 15);
}

#[test]
fn size_classes_never_fall_as_amounts_grow() {
    let mut last: u8 = 0;
    for exponent in 0..64u32 {
        let class = log_tx_size(1u64 << exponent);
        assert!(class >= last && (1..=15).contains(&class));
        last = class;
    }
}

#[test]
fn missing_values_and_lists_move_nothing() {
    assert_eq!(checked_vout_total(&None), Some(0));
    assert_eq!(checked_vout_total(&tx(&[None, Some(7), None, Some(5)]).vout), Some(12));
    assert_eq!(encode_transactions(&[Tx { vout: None }, tx(&[None])]), vec![1, 1]);
}

#[test]
fn totals_out_of_range_are_refused() {
    let too_much = tx(&[Some(u64::MAX), Some(1)]);
    assert_eq!(checked_vout_total(&too_much.vout), None);
    assert_eq!(checked_vout_total(&tx(&[Some(u64::MAX), Some(0)]).vout), Some(u64::MAX));
    assert_eq!(checked_encode_transactions(&[tx(&[Some(1)]), too_much]), None);
    let ord = make_ord_tx(&[], &[("", u64::MAX), ("", 1)]);
    assert_eq!(checked_ord_tx_total(&ord), None);
    assert!(ord_tx_summaries(&vec![make_ord_tx(&[], &[("", u64::MAX), ("", 1)])]).is_none());
    assert_eq!(encode_ord_transactions(&vec![ord]), None);
    assert!(mempool_tx_summary(&listed(None, None, &[Some(u64::MAX), Some(2)])).is_none());
    assert!(mempool_tx_summary(&listed(Some(u64::MAX - 2), None, &[])).is_none());
    assert_eq!(mempool_tx_summary(&listed(Some(u64::MAX - 3), None, &[])).unwrap().vsize, u64::MAX / 4);
}

#[test]
fn pages_are_encoded_one_after_the_other() {
    let first = vec![tx(&[Some(10_000_000)]), tx(&[Some(3)])];
    let second = vec![tx(&[Some(2_500_000_000)])];
    let all = vec![tx(&[Some(10_000_000)]), tx(&[Some(3)]), tx(&[Some(2_500_000_000)])];
    let mut joined = encode_transactions(&first);
    joined.extend(encode_transactions(&second));
    assert_eq!(encode_transactions(&all), joined);
    assert_eq!(joined, vec![2, 1, 5]);
}

#[test]
fn both_sources_give_the_same_bitmap() {
    let from_pages = vec![tx(&[Some(500_000), Some(200_000)]), tx(&[Some(100_000_000)])];
    let from_indexer = vec![
        make_ord_tx(&[("", &[])], &[("00", 500_000), ("00", 200_000)]),
        make_ord_tx(&[], &[("", 100_000_000)]),
    ];
    assert_eq!(encode_transactions(&from_pages), vec![1, 3]);
    assert_eq!(encode_ord_transactions(&from_indexer), Some(vec![1, 3]));
    let summaries = ord_tx_summaries(&from_indexer).unwrap();
    let classes: Vec<u8> = summaries.iter().map(|s| log_tx_size(s.value)).collect();
    assert_eq!(classes, vec![1, 3]);
}

#[test]
fn varint_size_has_three_widths() {
    assert_eq!(varint_size(0), 1);
    assert_eq!(varint_size(0xfc), 1);
    assert_eq!(varint_size(0xfd), 3);
    assert_eq!(varint_size(0xffff), 3);
    assert_eq!(varint_size(0x1_0000), 5);
}

#[test]
fn vsize_is_a_quarter_of_the_weight() {
    // 82 bytes outside of the witness, 2 + 1 + 1 + 5 bytes inside.
    let tx = make_ord_tx(
        &[("", &["0102030405"])],
        &[("0014fd92b03dd4f1ab7031905b79459f7abc5a5c50cb", 1)],
    );
    let vsize = checked_ord_tx_vsize(&tx).unwrap();
    assert_eq!(vsize, 82 + 3);
    assert_eq!(vsize, mempool_vsize(Some(4 * 82 + 9), None));
}

#[test]
fn vsize_counts_long_scripts_and_empty_witnesses() {
    let script = "ab".repeat(0xfd);
    let tx = make_ord_tx(&[(script.as_str(), &[]), ("", &["00"])], &[]);
    // 8 + 1 + (36 + 3 + 253 + 4) + (36 + 1 + 4) + 1, then 2 + 1 + 1 + 1 + 1 witness bytes.
    assert_eq!(ord_tx_vsize(&tx), 8 + 1 + 296 + 41 + 1 + 2);
    assert_eq!(ord_tx_vsize(&make_ord_tx(&[], &[])), 10);
    // An odd number of hexadecimal digits is rounded down.
    assert_eq!(ord_tx_vsize(&make_ord_tx(&[("abc", &[])], &[])), 10 + 42);
}

#[test]
fn listed_vsize_falls_back_to_the_size() {
    assert_eq!(mempool_vsize(Some(440), Some(1)), 110);
    assert_eq!(mempool_vsize(None, Some(200)), 200);
    assert_eq!(mempool_vsize(None, None), 0);
}

#[test]
fn summaries_keep_order_and_survive_copying() {
    let txs = vec![listed(Some(4), None, &[Some(1)]), listed(Some(8), None, &[Some(2)])];
    let summaries = mempool_tx_summaries(&txs).unwrap();
    let copy = clone_summaries(&summaries);
    assert_eq!(copy.len(), 2);
    for (i, summary) in copy.iter().enumerate() {
        assert_eq!(summary.vsize, i as u64 + 1);
        assert_eq!(summary.value, i as u64 + 1);
        assert_eq!(summary.txid, summaries[i].txid);
        assert_eq!(summary.feerate, summaries[i].feerate);
    }
}
