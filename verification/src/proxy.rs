//! The service that fetches each block from upstream when it is first asked for.

use vstd::prelude::*;

use crate::amounts::{
    bitmap, checked_encode_transactions, law_bitmap_concat, size_class, totals_fit, tx_totals,
    vout_total, Tx,
};
use crate::cache::{
    clone_bytes, law_get, law_put, BlockCache, BlockView, CacheView, CachedBlock, TxCache,
};
use crate::fetch::{
    after_pages, begin_fetch, expects, first_step, law_listed_fetch, law_page_count, law_page_txs,
    next_step, page_txs, Action, ActionView, EventView, Fetch, FetchView, Fetched, FetchedView,
    Upstreams, UpstreamsView,
};
use crate::meta::{meta_from_block, meta_from_ord, Block, BlockMeta, MetaView};
use crate::ord::{
    encode_ord_transactions, ord_summaries, ord_totals, ord_tx_summaries, ord_tx_total,
    ord_txs_fit, tx_vsize, OrdBlock,
};
use crate::summary::{
    clone_summaries, listed_vsize, mempool_summaries, mempool_tx_summaries, mempool_txs_fit,
    summary_views, MempoolTx, SummaryView, TxSummary,
};
use crate::text::decimal;
use crate::urls::{block_path, block_url};

verus! {

/// How the answer to a request for a block's bitmap begins.
pub enum BlockStart {
    /// The block was kept.
    Cached(CachedBlock),
    /// The block is to be fetched.
    Fetching(Fetch<Tx>, Action<Tx>),
}

/// How the answer to a request for a block's transactions begins.
pub enum TxsStart {
    /// The list was kept.
    Cached(Vec<TxSummary>),
    /// The block is to be fetched.
    Fetching(Fetch<MempoolTx>, Action<MempoolTx>),
}

/// How an answer begins: with what was kept, or with a fetch.
pub enum StartView<K, T> {
    Cached(K),
    Fetching(FetchView<T>, ActionView<T>),
}

impl View for BlockStart {
    type V = StartView<BlockView, Tx>;

    open spec fn view(&self) -> StartView<BlockView, Tx> {
        match *self {
            BlockStart::Cached(block) => StartView::Cached(block@),
            BlockStart::Fetching(fetch, action) => StartView::Fetching(fetch@, action@),
        }
    }
}

impl View for TxsStart {
    type V = StartView<Seq<SummaryView>, MempoolTx>;

    open spec fn view(&self) -> StartView<Seq<SummaryView>, MempoolTx> {
        match *self {
            TxsStart::Cached(txs) => StartView::Cached(summary_views(txs@)),
            TxsStart::Fetching(fetch, action) => StartView::Fetching(fetch@, action@),
        }
    }
}

/// The beginning of an answer: what the cache keeps for the height, else the first step of a
/// fetch with all transactions.
pub open spec fn start<K, T>(
    cache: CacheView<K>,
    up: UpstreamsView,
    height: u64,
) -> StartView<K, T> {
    match cache.value(height) {
        Some(kept) => StartView::Cached(kept),
        None => {
            let step = first_step::<T>(up, height, true);
            StartView::Fetching(step.0, step.1)
        },
    }
}

/// What each transaction of a fetched block moves, in order.
pub open spec fn fetched_totals(fetched: FetchedView<Tx>) -> Seq<nat> {
    match fetched {
        FetchedView::Ord(block) => ord_totals(block.transactions@),
        FetchedView::Listed { block, txs } => tx_totals(txs),
    }
}

/// The hash and the bitmap of a fetched block.
pub open spec fn fetched_block(fetched: FetchedView<Tx>) -> BlockView {
    BlockView {
        hash: match fetched {
            FetchedView::Ord(block) => block.hash@,
            FetchedView::Listed { block, txs } => block.id@,
        },
        payload: bitmap(fetched_totals(fetched)),
    }
}

/// The summaries of the transactions of a fetched block, in order.
pub open spec fn fetched_summaries(fetched: FetchedView<MempoolTx>) -> Seq<SummaryView> {
    match fetched {
        FetchedView::Ord(block) => ord_summaries(block.transactions@),
        FetchedView::Listed { block, txs } => mempool_summaries(txs),
    }
}

/// Whether the transactions of a fetched block can be summed up in 64 bits.
pub open spec fn fetched_txs_fit(fetched: FetchedView<MempoolTx>) -> bool {
    match fetched {
        FetchedView::Ord(block) => ord_txs_fit(block.transactions@),
        FetchedView::Listed { block, txs } => mempool_txs_fit(txs),
    }
}

/// What the description of a fetched block says.
pub open spec fn fetched_meta(fetched: FetchedView<Tx>) -> MetaView {
    match fetched {
        FetchedView::Ord(block) => MetaView {
            id: block.hash@,
            height: block.height,
            timestamp: 0,
            size: 0,
            tx_count: block.transactions@.len() as usize,
        },
        FetchedView::Listed { block, txs } => MetaView {
            id: block.id@,
            height: block.height,
            timestamp: block.timestamp,
            size: block.size,
            tx_count: block.tx_count,
        },
    }
}

/// Begins to answer a request for a block's bitmap: with the kept one, or with a fetch.
pub fn begin_block(cache: &mut BlockCache, upstreams: &Upstreams, height: u64) -> (r: BlockStart)
    requires
        old(cache).wf(),
    ensures
        final(cache).wf(),
        final(cache)@ == old(cache)@.after_get(height),
        r@ == start::<BlockView, Tx>(old(cache)@, upstreams@, height),
{
    match cache.get(height) {
        Some(block) => BlockStart::Cached(block),
        None => {
            let (fetch, action) = begin_fetch(upstreams, height, true);
            BlockStart::Fetching(fetch, action)
        },
    }
}

/// Ends a fetch of a block's bitmap: keeps the block and gives it out. Where what a transaction
/// moves is out of range, nothing is kept or given out.
pub fn finish_block(cache: &mut BlockCache, height: u64, fetched: Fetched<Tx>) -> (r: Option<
    CachedBlock,
>)
    requires
        old(cache).wf(),
    ensures
        final(cache).wf(),
        r is Some <==> totals_fit(fetched_totals(fetched@)),
        r matches Some(block) ==> {
            &&& block@ == fetched_block(fetched@)
            &&& final(cache)@ == old(cache)@.after_put(height, block@)
        },
        r is None ==> final(cache)@ == old(cache)@,
{
    let (hash, encoded): (String, Option<Vec<u8>>) = match fetched {
        Fetched::Ord(block) => {
            let encoded = encode_ord_transactions(&block.transactions);
            (block.hash, encoded)
        },
        Fetched::Listed { block, txs } => {
            let encoded = checked_encode_transactions(txs.as_slice());
            (block.id, encoded)
        },
    };
    match encoded {
        Some(payload) => {
            cache.put(
                height,
                CachedBlock { hash: hash.clone(), payload: clone_bytes(&payload) },
            );
            Some(CachedBlock { hash, payload })
        },
        None => None,
    }
}

/// Begins to answer a request for a block's transactions: with the kept list, or with a fetch.
pub fn begin_txs(cache: &mut TxCache, upstreams: &Upstreams, height: u64) -> (r: TxsStart)
    requires
        old(cache).wf(),
    ensures
        final(cache).wf(),
        final(cache)@ == old(cache)@.after_get(height),
        r@ == start::<Seq<SummaryView>, MempoolTx>(old(cache)@, upstreams@, height),
{
    match cache.get(height) {
        Some(txs) => TxsStart::Cached(txs),
        None => {
            let (fetch, action) = begin_fetch(upstreams, height, true);
            TxsStart::Fetching(fetch, action)
        },
    }
}

/// Ends a fetch of a block's transactions: keeps their summaries and gives them out. Where a
/// number is out of range, nothing is kept or given out.
pub fn finish_txs(cache: &mut TxCache, height: u64, fetched: Fetched<MempoolTx>) -> (r: Option<
    Vec<TxSummary>,
>)
    requires
        old(cache).wf(),
    ensures
        final(cache).wf(),
        r is Some <==> fetched_txs_fit(fetched@),
        r matches Some(txs) ==> {
            &&& summary_views(txs@) == fetched_summaries(fetched@)
            &&& final(cache)@ == old(cache)@.after_put(height, summary_views(txs@))
        },
        r is None ==> final(cache)@ == old(cache)@,
{
    let summaries: Option<Vec<TxSummary>> = match &fetched {
        Fetched::Ord(block) => ord_tx_summaries(&block.transactions),
        Fetched::Listed { block, txs } => mempool_tx_summaries(txs),
    };
    match summaries {
        Some(txs) => {
            cache.put(height, clone_summaries(&txs));
            Some(txs)
        },
        None => None,
    }
}

/// Begins to answer a request for a block's description, for which no transactions are listed.
pub fn begin_meta(upstreams: &Upstreams, height: u64) -> (r: (Fetch<Tx>, Action<Tx>))
    ensures
        (r.0@, r.1@) == first_step::<Tx>(upstreams@, height, false),
{
    begin_fetch(upstreams, height, false)
}

/// Describes a fetched block.
pub fn finish_meta(fetched: Fetched<Tx>) -> (r: BlockMeta)
    ensures
        r@ == fetched_meta(fetched@),
{
    match fetched {
        Fetched::Ord(block) => meta_from_ord(block),
        Fetched::Listed { block, txs } => meta_from_block(block),
    }
}

/// What is asked for to find the height of the block with a hash.
pub enum HeightAction {
    /// Ask the indexer, whatever the status code of its answer.
    GetOrdHeight { url: String },
    /// Ask the explorer.
    GetBlock { url: String },
}

/// Where the height of the block with a hash is found: at the indexer, where there is one.
pub open spec fn height_source(up: UpstreamsView) -> Seq<char> {
    match up.ord {
        Some(ord) => ord,
        None => up.mempool,
    }
}

/// Says what to ask for to find the height of the block with a hash.
pub fn begin_height(upstreams: &Upstreams, hash: &str) -> (r: HeightAction)
    ensures
        r is GetOrdHeight <==> upstreams@.ord is Some,
        match r {
            HeightAction::GetOrdHeight { url } => url@ == block_path(
                height_source(upstreams@),
                hash@,
            ),
            HeightAction::GetBlock { url } => url@ == block_path(height_source(upstreams@), hash@),
        },
{
    match &upstreams.ord_base_url {
        Some(ord) => HeightAction::GetOrdHeight { url: block_url(ord.as_str(), hash) },
        None => HeightAction::GetBlock {
            url: block_url(upstreams.mempool_base_url.as_str(), hash),
        },
    }
}

/// What was fetched once is not fetched again while it is kept: after the end of a fetch the next
/// request for the height is answered with what was kept, and so is the one after it.
pub proof fn law_repeated_request<K, T>(
    cache: CacheView<K>,
    up: UpstreamsView,
    height: u64,
    kept: K,
)
    requires
        cache.wf(),
    ensures
        ({
            let after = cache.after_put(height, kept);
            &&& start::<K, T>(after, up, height) == StartView::<K, T>::Cached(kept)
            &&& start::<K, T>(after.after_get(height), up, height) == StartView::<K, T>::Cached(
                kept,
            )
        }),
{
    law_put(cache, height, kept);
    law_get(cache.after_put(height, kept), height);
}

/// Asking takes nothing out of a cache: after a request that kept nothing, a request for any
/// height begins as it would have before.
pub proof fn law_asking_keeps_answers<K, T>(
    cache: CacheView<K>,
    up: UpstreamsView,
    asked: u64,
    height: u64,
)
    requires
        cache.wf(),
    ensures
        start::<K, T>(cache.after_get(asked), up, height) == start::<K, T>(cache, up, height),
{
    law_get(cache, asked);
}

/// The bitmaps of pages, one after the other.
pub open spec fn page_bitmaps(pages: Seq<Seq<Tx>>) -> Seq<u8>
    decreases pages.len(),
{
    if pages.len() == 0 {
        Seq::empty()
    } else {
        page_bitmaps(pages.drop_last()) + bitmap(tx_totals(pages.last()))
    }
}

/// A block that an explorer listed is known by its own identifier, and its bitmap is made of the
/// bitmaps of its pages, one byte for each listed transaction, in the order of the pages.
pub proof fn law_listed_block(block: Block, pages: Seq<Seq<Tx>>)
    ensures
        fetched_block(FetchedView::Listed { block, txs: page_txs(pages) }) == (BlockView {
            hash: block.id@,
            payload: page_bitmaps(pages),
        }),
        page_bitmaps(pages).len() == page_txs(pages).len(),
    decreases pages.len(),
{
    let txs = page_txs(pages);
    if pages.len() > 0 {
        law_listed_block(block, pages.drop_last());
        law_bitmap_concat(page_txs(pages.drop_last()), pages.last());
    } else {
        assert(bitmap(tx_totals(txs)) =~= Seq::<u8>::empty());
    }
}

/// The answer to a request for a block that is not kept, without an indexer, runs through the
/// explorer: it asks for the hash at the height, for the block with that hash, and then for every
/// page of 25 transactions that the block has, from the first on. It ends with the block and with
/// all transactions of all pages, in order.
pub proof fn law_listed_answer<K, T>(
    cache: CacheView<K>,
    up: UpstreamsView,
    height: u64,
    hash: Seq<char>,
    block: Block,
    pages: Seq<Seq<T>>,
)
    requires
        cache.value(height) is None,
        up.ord is None,
        block.tx_count <= 25 * pages.len() < block.tx_count + 25,
    ensures
        ({
            let begun = start::<K, T>(cache, up, height);
            let described = next_step(up, begun->Fetching_0, EventView::Text(hash));
            let listed = next_step(up, described.0, EventView::Block(block));
            &&& begun is Fetching
            &&& begun->Fetching_1 == ActionView::<T>::GetText {
                url: up.mempool + "/block-height/"@ + decimal(height as nat),
            }
            &&& expects(begun->Fetching_0, EventView::Text(hash))
            &&& described.1 == ActionView::<T>::GetBlock { url: up.mempool + "/block/"@ + hash }
            &&& expects(described.0, EventView::Block(block))
            &&& forall|k: int|
                0 <= k < pages.len() ==> {
                    let step = #[trigger] after_pages(up, listed, pages.take(k));
                    &&& step.1 == ActionView::<T>::GetPage {
                        url: up.mempool + "/block/"@ + block.id@ + "/txs/"@ + decimal(
                            (25 * k) as nat,
                        ),
                    }
                    &&& expects(step.0, EventView::Page(pages[k]))
                    &&& next_step(up, step.0, EventView::Page(pages[k])) == after_pages(
                        up,
                        listed,
                        pages.take(k + 1),
                    )
                }
            &&& after_pages(up, listed, pages).1 == ActionView::<T>::Done(
                FetchedView::Listed { block, txs: pages.flatten() },
            )
        }),
{
    law_page_count(block.tx_count as nat);
    law_listed_fetch(up, height, hash, block, pages);
    law_page_txs(pages);
    let begun = first_step::<T>(up, height, true);
    let described = next_step(up, begun.0, EventView::Text(hash));
    let listed = next_step(up, described.0, EventView::Block(block));
    assert forall|k: int| 0 <= k < pages.len() implies {
        let step = #[trigger] after_pages(up, listed, pages.take(k));
        &&& step.1 == ActionView::<T>::GetPage {
            url: up.mempool + "/block/"@ + block.id@ + "/txs/"@ + decimal((25 * k) as nat),
        }
        &&& expects(step.0, EventView::Page(pages[k]))
        &&& next_step(up, step.0, EventView::Page(pages[k])) == after_pages(
            up,
            listed,
            pages.take(k + 1),
        )
    } by {
        assert(pages.take(k + 1).drop_last() =~= pages.take(k));
    }
}

/// With an indexer, the answer to a request for a block that is not kept is one question to it,
/// for the block at the height, and ends with what the indexer reports.
pub proof fn law_indexed_answer<K, T>(
    cache: CacheView<K>,
    up: UpstreamsView,
    height: u64,
    block: OrdBlock,
)
    requires
        cache.value(height) is None,
        up.ord is Some,
    ensures
        ({
            let begun = start::<K, T>(cache, up, height);
            &&& begun is Fetching
            &&& begun->Fetching_1 == ActionView::<T>::GetOrdBlock {
                url: up.ord->0 + "/block/"@ + decimal(height as nat),
            }
            &&& expects(begun->Fetching_0, EventView::OrdBlock(block))
            &&& next_step(up, begun->Fetching_0, EventView::OrdBlock(block)).1 == ActionView::<
                T,
            >::Done(FetchedView::Ord(block))
        }),
{
}

/// A kept answer is given as it was kept, and nothing is asked for.
pub proof fn law_kept_answer<K, T>(
    cache: CacheView<K>,
    up: UpstreamsView,
    height: u64,
    kept: K,
)
    requires
        cache.value(height) == Some(kept),
    ensures
        start::<K, T>(cache, up, height) == StartView::<K, T>::Cached(kept),
{
}

/// The block that is served has the identifier of the block that was listed and one byte for
/// every transaction of all its pages, in order: the bitmaps of the pages, one after the other.
pub proof fn law_served_pages(block: Block, pages: Seq<Seq<Tx>>)
    ensures
        ({
            let fetched = FetchedView::Listed { block, txs: pages.flatten() };
            let served = fetched_block(fetched);
            &&& served.hash == block.id@
            &&& served.payload == page_bitmaps(pages)
            &&& served.payload.len() == pages.flatten().len()
            &&& fetched_totals(fetched).len() == pages.flatten().len()
            &&& forall|i: int|
                0 <= i < pages.flatten().len() ==> {
                    let moved = vout_total((#[trigger] pages.flatten()[i]).vout);
                    &&& fetched_totals(fetched)[i] == moved
                    &&& served.payload[i] == size_class(moved) as u8
                }
        }),
{
    law_page_txs(pages);
    law_listed_block(block, pages);
}

/// The block that is served from an indexer has the hash that the indexer reports and one byte
/// for every transaction, in order.
pub proof fn law_served_index(block: OrdBlock)
    ensures
        ({
            let fetched = FetchedView::<Tx>::Ord(block);
            let served = fetched_block(fetched);
            &&& served.hash == block.hash@
            &&& served.payload.len() == block.transactions@.len()
            &&& fetched_totals(fetched).len() == block.transactions@.len()
            &&& forall|i: int|
                0 <= i < block.transactions@.len() ==> {
                    let moved = ord_tx_total(#[trigger] block.transactions@[i]);
                    &&& fetched_totals(fetched)[i] == moved
                    &&& served.payload[i] == size_class(moved) as u8
                }
        }),
{
}

/// The list of a block's transactions has one summary for every transaction that was listed, or
/// that the indexer reports, at the same place and with its value.
pub proof fn law_served_summaries(block: Block, txs: Seq<MempoolTx>, indexed: OrdBlock)
    ensures
        ({
            let listed = FetchedView::Listed { block, txs };
            let summaries = fetched_summaries(listed);
            &&& summaries.len() == txs.len()
            &&& forall|i: int|
                0 <= i < txs.len() ==> {
                    &&& (#[trigger] summaries[i]).txid == Some(txs[i].txid@)
                    &&& summaries[i].fee == txs[i].fee
                    &&& summaries[i].feerate == txs[i].feerate
                    &&& summaries[i].vsize == listed_vsize(txs[i].weight, txs[i].size)
                    &&& summaries[i].value == vout_total(txs[i].vout)
                }
            &&& fetched_txs_fit(listed) <==> mempool_txs_fit(txs)
        }),
        ({
            let reported = FetchedView::<MempoolTx>::Ord(indexed);
            let summaries = fetched_summaries(reported);
            &&& summaries.len() == indexed.transactions@.len()
            &&& forall|i: int|
                0 <= i < summaries.len() ==> {
                    &&& (#[trigger] summaries[i]).txid is None
                    &&& summaries[i].fee is None
                    &&& summaries[i].feerate is None
                    &&& summaries[i].vsize == tx_vsize(indexed.transactions@[i])
                    &&& summaries[i].value == ord_tx_total(indexed.transactions@[i])
                }
            &&& fetched_txs_fit(reported) <==> ord_txs_fit(indexed.transactions@)
        }),
{
}

/// A block's description repeats what the explorer says of it; of an indexer's block it gives the
/// hash, the height and the number of transactions, and zero for what the indexer does not know.
pub proof fn law_served_meta(block: Block, txs: Seq<Tx>, indexed: OrdBlock)
    ensures
        ({
            let meta = fetched_meta(FetchedView::Listed { block, txs });
            &&& meta.id == block.id@
            &&& meta.height == block.height
            &&& meta.timestamp == block.timestamp
            &&& meta.size == block.size
            &&& meta.tx_count == block.tx_count
        }),
        ({
            let meta = fetched_meta(FetchedView::<Tx>::Ord(indexed));
            &&& meta.id == indexed.hash@
            &&& meta.height == indexed.height
            &&& meta.timestamp == 0
            &&& meta.size == 0
            &&& meta.tx_count == indexed.transactions@.len() as usize
        }),
{
}

/// A height is asked of the indexer where there is one, and of the explorer only where there is
/// none.
pub proof fn law_height_source(up: UpstreamsView)
    ensures
        up.ord matches Some(ord) ==> height_source(up) == ord,
        up.ord is None ==> height_source(up) == up.mempool,
{
}

/// The beginning of an answer is described in full.
pub proof fn law_start_views(block: BlockStart, txs: TxsStart)
    ensures
        match block {
            BlockStart::Cached(kept) => block@ == (StartView::<BlockView, Tx>::Cached(kept@)),
            BlockStart::Fetching(fetch, action) => block@ == (StartView::<
                BlockView,
                Tx,
            >::Fetching(fetch@, action@)),
        },
        match txs {
            TxsStart::Cached(kept) => txs@ == (StartView::<
                Seq<SummaryView>,
                MempoolTx,
            >::Cached(summary_views(kept@))),
            TxsStart::Fetching(fetch, action) => txs@ == (StartView::<
                Seq<SummaryView>,
                MempoolTx,
            >::Fetching(fetch@, action@)),
        },
{
}

/// For a description without an indexer, the explorer is asked for the hash at the height and for
/// the block with that hash, and for no page.
pub proof fn law_meta_answer(up: UpstreamsView, height: u64, hash: Seq<char>, block: Block)
    requires
        up.ord is None,
    ensures
        ({
            let begun = first_step::<Tx>(up, height, false);
            let described = next_step(up, begun.0, EventView::Text(hash));
            let over = next_step(up, described.0, EventView::Block(block));
            &&& begun.1 == ActionView::<Tx>::GetText {
                url: up.mempool + "/block-height/"@ + decimal(height as nat),
            }
            &&& expects(begun.0, EventView::Text(hash))
            &&& described.1 == ActionView::<Tx>::GetBlock { url: up.mempool + "/block/"@ + hash }
            &&& expects(described.0, EventView::Block(block))
            &&& over.0 is Over
            &&& over.1 matches ActionView::Done(fetched) && fetched_meta(fetched) == (MetaView {
                id: block.id@,
                height: block.height,
                timestamp: block.timestamp,
                size: block.size,
                tx_count: block.tx_count,
            })
        }),
{
}

} // verus!
