use bitmap_render::amounts::{Tx, TxOut};
use bitmap_render::cache::{BlockCache, CachedBlock, TxCache};
use bitmap_render::error::{check_block_hash, check_status, AppError};
use bitmap_render::fetch::{begin_fetch, Action, Event, Fetch, Fetched, Upstreams};
use bitmap_render::meta::{db_height, meta_from_block, meta_from_row, Block};
use bitmap_render::ord::{OrdBlock, OrdOutput, OrdTx};
use bitmap_render::proxy;
use bitmap_render::server;
use bitmap_render::summary::{MempoolTx, TxSummary};

fn block(hash: &str, payload: &[u8]) -> CachedBlock {
    CachedBlock { hash: hash.to_string(), payload: payload.to_vec() }
}

fn summary(value: u64) -> TxSummary {
    TxSummary { txid: Some(value.to_string()), vsize: 1, fee: None, feerate: None, value }
}

fn explorer() -> Upstreams {
    Upstreams { mempool_base_url: "http://m".to_string(), ord_base_url: None }
}

fn indexer() -> Upstreams {
    Upstreams { mempool_base_url: "http://m".to_string(), ord_base_url: Some("http://o".to_string()) }
}

fn described(tx_count: usize) -> Block {
    Block { id: "id9".to_string(), height: 9, timestamp: 77, size: 88, tx_count }
}

fn ord_block(values: &[u64]) -> OrdBlock {
    OrdBlock {
        hash: "h9".to_string(),
        height: 9,
        transactions: values
            .iter()
            .map(|value| OrdTx {
                input: vec![],
                output: vec![OrdOutput { value: Some(*value), script_pubkey: String::new() }],
            })
            .collect(),
    }
}

fn paid(value: u64) -> Tx {
    Tx { vout: Some(vec![TxOut { value: Some(value) }]) }
}

#[test]
fn stored_blocks_are_found_again() {
    let mut cache = BlockCache::new(2);
    assert!(cache.get(5).is_none());
    cache.put(5, block("h5", &[1, 2, 3]));
    let found = cache.get(5).unwrap();
    assert_eq!(found.hash, "h5");
    assert_eq!(found.payload, vec![1, 2, 3]);
    cache.put(5, block("other", &[4]));
    assert_eq!(cache.get(5).unwrap().hash, "other");
}

#[test]
fn the_least_recently_used_block_leaves_a_full_cache() {
    let mut cache = BlockCache::new(2);
    cache.put(1, block("h1", &[1]));
    cache.put(2, block("h2", &[2]));
    assert!(cache.get(1).is_some());
    cache.put(3, block("h3", &[3]));
    assert!(cache.get(2).is_none());
    assert_eq!(cache.get(1).unwrap().payload, vec![1]);
    assert_eq!(cache.get(3).unwrap().payload, vec![3]);
}

#[test]
fn a_block_stays_while_fewer_others_are_used_than_there_is_room_for() {
    let mut cache = BlockCache::new(4);
    cache.put(1, block("h1", &[1]));
    cache.put(2, block("h2", &[2]));
    cache.put(3, block("h3", &[3]));
    assert!(cache.get(2).is_some());
    assert!(cache.get(1).is_some());
    for height in 10..13 {
        cache.put(height, block("h", &[0]));
    }
    assert!(cache.get(1).is_some());
    assert!(cache.get(2).is_none());
    assert!(cache.get(3).is_none());
}

#[test]
fn transaction_lists_are_kept_apart_from_blocks() {
    let mut cache = TxCache::new(1);
    cache.put(1, vec![summary(10), summary(20)]);
    let found = cache.get(1).unwrap();
    assert_eq!(found.len(), 2);
    assert_eq!(found[1].value, 20);
    assert_eq!(found[1].txid, Some("20".to_string()));
    cache.put(2, vec![]);
    assert!(cache.get(1).is_none());
    assert_eq!(cache.get(2).unwrap().len(), 0);
}

#[test]
fn an_explorer_is_asked_for_hash_block_and_pages() {
    let up = explorer();
    let (fetch, action) = begin_fetch::<u32>(&up, 840000, true);
    match action {
        Action::GetText { url } => assert_eq!(url, "http://m/block-height/840000"),
        _ => panic!("the hash comes first"),
    }
    let (fetch, action) = fetch.step(&up, Event::Text("abc".to_string()));
    match action {
        Action::GetBlock { url } => assert_eq!(url, "http://m/block/abc"),
        _ => panic!("the block comes second"),
    }
    let (mut fetch, mut action) = fetch.step(&up, Event::Block(described(51)));
    let mut urls: Vec<String> = vec![];
    let mut next: u32 = 0;
    loop {
        match action {
            Action::GetPage { url } => {
                urls.push(url);
                let page: Vec<u32> = (next..next + 25).collect();
                next += 25;
                let step = fetch.step(&up, Event::Page(page));
                fetch = step.0;
                action = step.1;
            }
            Action::Done(Fetched::Listed { block, txs }) => {
                assert_eq!(block.id, "id9");
                assert_eq!(txs, (0..75).collect::<Vec<u32>>());
                break;
            }
            _ => panic!("pages come last"),
        }
    }
    assert_eq!(
        urls,
        vec!["http://m/block/id9/txs/0", "http://m/block/id9/txs/25", "http://m/block/id9/txs/50"]
    );
    assert!(matches!(fetch, Fetch::Over));
}

#[test]
fn a_block_without_transactions_has_no_pages() {
    let up = explorer();
    let (fetch, _) = begin_fetch::<u32>(&up, 9, true);
    let (fetch, _) = fetch.step(&up, Event::Text("abc".to_string()));
    let (_, action) = fetch.step(&up, Event::Block(described(0)));
    assert!(matches!(action, Action::Done(Fetched::Listed { .. })));
}

#[test]
fn full_pages_need_no_further_page() {
    let up = explorer();
    let (fetch, _) = begin_fetch::<u32>(&up, 9, true);
    let (fetch, _) = fetch.step(&up, Event::Text("abc".to_string()));
    let (fetch, action) = fetch.step(&up, Event::Block(described(25)));
    assert!(matches!(action, Action::GetPage { .. }));
    let (_, action) = fetch.step(&up, Event::Page(vec![1]));
    assert!(matches!(action, Action::Done(_)));
}

#[test]
fn an_indexer_is_asked_once() {
    let up = indexer();
    let (fetch, action) = begin_fetch::<u32>(&up, 9, true);
    match action {
        Action::GetOrdBlock { url } => assert_eq!(url, "http://o/block/9"),
        _ => panic!("the indexer is asked"),
    }
    let (_, action) = fetch.step(&up, Event::OrdBlock(ord_block(&[1])));
    match action {
        Action::Done(Fetched::Ord(block)) => assert_eq!(block.hash, "h9"),
        _ => panic!("one answer is enough"),
    }
}

#[test]
fn a_failure_ends_a_fetch() {
    let up = explorer();
    let (fetch, _) = begin_fetch::<u32>(&up, 9, true);
    let (fetch, action) = fetch.step(&up, Event::Failed(AppError::upstream_status(503)));
    assert!(matches!(fetch, Fetch::Over));
    match action {
        Action::Fail(error) => assert_eq!(error.message, "upstream returned status 503"),
        _ => panic!("the failure is passed on"),
    }
}

#[test]
fn the_proxy_keeps_what_it_fetched() {
    let up = indexer();
    let mut cache = BlockCache::new(2);
    assert!(matches!(proxy::begin_block(&mut cache, &up, 9), proxy::BlockStart::Fetching(..)));
    let fetched = Fetched::Ord(ord_block(&[1_000_000_000, 0]));
    let served = proxy::finish_block(&mut cache, 9, fetched).unwrap();
    assert_eq!(served.hash, "h9");
    assert_eq!(served.payload, vec![4, 1]);
    match proxy::begin_block(&mut cache, &up, 9) {
        proxy::BlockStart::Cached(block) => {
            assert_eq!(block.hash, "h9");
            assert_eq!(block.payload, vec![4, 1]);
        }
        _ => panic!("the block was kept"),
    }
}

#[test]
fn a_listed_block_is_known_by_its_identifier() {
    let mut cache = BlockCache::new(1);
    let txs = vec![paid(100_000_000), paid(2_500_000_000), Tx { vout: None }];
    let fetched = Fetched::Listed { block: described(3), txs };
    let served = proxy::finish_block(&mut cache, 9, fetched).unwrap();
    assert_eq!(served.hash, "id9");
    assert_eq!(served.payload, vec![3, 5, 1]);
}

#[test]
fn blocks_out_of_range_are_not_kept() {
    let mut cache = BlockCache::new(1);
    let mut bad = ord_block(&[u64::MAX]);
    bad.transactions[0].output.push(OrdOutput { value: Some(1), script_pubkey: String::new() });
    assert!(proxy::finish_block(&mut cache, 9, Fetched::Ord(bad)).is_none());
    assert!(cache.get(9).is_none());
}

#[test]
fn the_proxy_keeps_transaction_lists() {
    let up = explorer();
    let mut cache = TxCache::new(2);
    assert!(matches!(proxy::begin_txs(&mut cache, &up, 9), proxy::TxsStart::Fetching(..)));
    let txs = vec![MempoolTx {
        txid: "t".to_string(),
        weight: Some(441),
        size: None,
        fee: Some(5),
        feerate: None,
        vout: None,
    }];
    let fetched = Fetched::Listed { block: described(1), txs };
    let served = proxy::finish_txs(&mut cache, 9, fetched).unwrap();
    assert_eq!(served[0].vsize, 111);
    match proxy::begin_txs(&mut cache, &up, 9) {
        proxy::TxsStart::Cached(txs) => {
            assert_eq!(txs[0].txid, Some("t".to_string()));
            assert_eq!(txs[0].vsize, 111);
            assert_eq!(txs[0].fee, Some(5));
        }
        _ => panic!("the list was kept"),
    }
}

#[test]
fn descriptions_need_no_pages() {
    let up = explorer();
    let (fetch, _) = proxy::begin_meta(&up, 9);
    let (fetch, _) = fetch.step(&up, Event::Text("abc".to_string()));
    let (_, action) = fetch.step(&up, Event::Block(described(51)));
    match action {
        Action::Done(fetched) => {
            let meta = proxy::finish_meta(fetched);
            assert_eq!(meta.id, "id9");
            assert_eq!((meta.height, meta.timestamp, meta.size, meta.tx_count), (9, 77, 88, 51));
        }
        _ => panic!("the block is enough"),
    }
    let meta = proxy::finish_meta(Fetched::Ord(ord_block(&[1, 2, 3])));
    assert_eq!(meta.id, "h9");
    assert_eq!((meta.height, meta.timestamp, meta.size, meta.tx_count), (9, 0, 0, 3));
    assert_eq!(meta_from_block(described(2)).tx_count, 2);
}

#[test]
fn heights_are_asked_of_the_indexer_first() {
    match proxy::begin_height(&indexer(), "abc") {
        proxy::HeightAction::GetOrdHeight { url } => assert_eq!(url, "http://o/block/abc"),
        _ => panic!("there is an indexer"),
    }
    match proxy::begin_height(&explorer(), "abc") {
        proxy::HeightAction::GetBlock { url } => assert_eq!(url, "http://m/block/abc"),
        _ => panic!("there is no indexer"),
    }
}

#[test]
fn the_server_asks_database_then_indexer_then_keeps() {
    let mut cache = BlockCache::new(2);
    let (query, action) = server::begin_block(&mut cache, 840000);
    match action {
        server::BlockAction::Query { block_height } => assert_eq!(block_height, 840000),
        _ => panic!("the database is asked"),
    }
    let event = server::BlockEvent::Row(Some(vec![1, 4]));
    let (query, action) = query.step(&mut cache, "http://o", 840000, event);
    match action {
        server::BlockAction::GetText { url } => assert_eq!(url, "http://o/blockhash/840000"),
        _ => panic!("the hash is asked for"),
    }
    assert!(cache.get(840000).is_none());
    let event = server::BlockEvent::Hash("hash".to_string());
    let (_, action) = query.step(&mut cache, "http://o", 840000, event);
    match action {
        server::BlockAction::Serve(block) => assert_eq!(block.payload, vec![1, 4]),
        _ => panic!("the block is served"),
    }
    match server::begin_block(&mut cache, 840000) {
        (_, server::BlockAction::Serve(block)) => {
            assert_eq!(block.hash, "hash");
            assert_eq!(block.payload, vec![1, 4]);
        }
        _ => panic!("the block was kept"),
    }
}

#[test]
fn blocks_that_are_not_stored_are_not_found() {
    let mut cache = BlockCache::new(2);
    let (query, _) = server::begin_block(&mut cache, 7);
    match query.step(&mut cache, "http://o", 7, server::BlockEvent::Row(None)) {
        (_, server::BlockAction::Fail(error)) => {
            assert_eq!(error.status, 404);
            assert_eq!(error.message, "block 7 not found or not yet seeded");
        }
        _ => panic!("there is no row"),
    }
    let (query, _) = server::begin_block(&mut cache, 7);
    match query.step(&mut cache, "http://o", 7, server::BlockEvent::Failed(AppError::db())) {
        (_, server::BlockAction::Fail(error)) => {
            assert_eq!(error.status, 500);
            assert_eq!(error.message, "database query failed");
        }
        _ => panic!("the failure is passed on"),
    }
    assert!(server::stored_bitmap(8, None).is_err());
    assert_eq!(server::stored_bitmap(8, Some(vec![9])).unwrap(), vec![9]);
}

#[test]
fn the_server_keeps_transaction_lists() {
    let mut cache = TxCache::new(2);
    match server::begin_txs(&mut cache, "http://o", 12) {
        server::TxsStart::GetOrdBlock { url } => assert_eq!(url, "http://o/block/12"),
        _ => panic!("nothing is kept"),
    }
    let served = server::finish_txs(&mut cache, 12, &ord_block(&[5]).transactions).unwrap();
    assert_eq!(served[0].value, 5);
    match server::begin_txs(&mut cache, "http://o", 12) {
        server::TxsStart::Cached(txs) => assert_eq!(txs[0].value, 5),
        _ => panic!("the list was kept"),
    }
}

#[test]
fn only_block_hashes_are_looked_up() {
    let hash = "ab".repeat(32);
    assert_eq!(server::begin_height("http://o", &hash).unwrap(), format!("http://o/block/{}", hash));
    let error = server::begin_height("http://o", "../etc").unwrap_err();
    assert_eq!(error.status, 400);
    assert_eq!(error.message, "invalid block hash format");
    assert!(check_block_hash(&hash).is_ok());
}

#[test]
fn descriptions_come_from_rows() {
    let meta = meta_from_row(9, Some((3, Some(1_700_000_000)))).unwrap();
    assert_eq!(meta.id, "");
    assert_eq!((meta.height, meta.timestamp, meta.size, meta.tx_count), (9, 1_700_000_000, 0, 3));
    let meta = meta_from_row(9, Some((0, None))).unwrap();
    assert_eq!(meta.timestamp, 0);
    let error = meta_from_row(9, None).unwrap_err();
    assert_eq!(error.status, 404);
    assert_eq!(error.message, "block 9 not found");
}

#[test]
fn negative_numbers_wrap_as_casts_do() {
    for (count, time) in [(-1i32, -1i64), (i32::MIN, i64::MIN), (i32::MAX, i64::MAX)] {
        let meta = meta_from_row(0, Some((count, Some(time)))).unwrap();
        assert_eq!(meta.timestamp, time as u64);
        assert_eq!(meta.tx_count, count as usize);
    }
    for height in [0, 1, i64::MAX as u64, i64::MAX as u64 + 1, u64::MAX] {
        assert_eq!(db_height(height), height as i64);
    }
}

#[test]
fn upstream_errors_are_bad_gateways() {
    for status in [200, 204, 299] {
        assert!(check_status(status).is_ok());
    }
    for status in [0, 199, 300, 404, 500, 65535] {
        let error = check_status(status).unwrap_err();
        assert_eq!(error.status, 502);
        assert_eq!(error.message, format!("upstream returned status {}", status));
    }
    assert_eq!(AppError::upstream_transport().status, 502);
    assert_eq!(AppError::upstream_transport().message, "upstream request failed");
    let error = AppError::upstream_transport_detailed("timed out");
    assert_eq!((error.status, error.message.as_str()), (502, "upstream request failed: timed out"));
    assert_eq!(AppError::image().message, "failed to generate image");
}
