//! The service that answers from a database of bitmaps, with an indexer beside it.

use vstd::pervasive::unreached;
use vstd::prelude::*;

use crate::cache::{
    clone_bytes, law_get, law_order, law_put, BlockCache, BlockView, CacheView, CachedBlock,
    TxCache,
};
use crate::error::{
    check_block_hash, hash_format_error, unseeded_block_error, AppError, ErrorView,
};
use crate::meta::{db_height, wrapped_i64};
use crate::ord::{ord_summaries, ord_tx_summaries, ord_txs_fit, OrdTx};
use crate::summary::{clone_summaries, summary_views, SummaryView, TxSummary};
use crate::text::{decimal, decimal_string, is_block_hash};
use crate::urls::{block_hash_path, block_hash_url, block_path, block_url};

verus! {

/// Where the answer to a request for a block's bitmap stands.
pub enum BlockQuery {
    /// The database was asked for the bitmap.
    Row,
    /// The indexer was asked for the hash of the block with this bitmap.
    Hash { payload: Vec<u8> },
    /// The answer is there.
    Over,
}

/// What came of an action.
pub enum BlockEvent {
    /// The bitmap in the database, where there is one.
    Row(Option<Vec<u8>>),
    /// The hash of the block.
    Hash(String),
    /// The database or the indexer failed.
    Failed(AppError),
}

/// What is to be done next.
pub enum BlockAction {
    /// Ask the database for the bitmap of a block.
    Query { block_height: i64 },
    /// Ask the indexer for a text.
    GetText { url: String },
    /// Reply with a block.
    Serve(CachedBlock),
    /// Reply with an error.
    Fail(AppError),
}

/// Where an answer stands, with the bitmap as a sequence.
pub enum BlockQueryView {
    Row,
    Hash { payload: Seq<u8> },
    Over,
}

impl View for BlockQuery {
    type V = BlockQueryView;

    open spec fn view(&self) -> BlockQueryView {
        match *self {
            BlockQuery::Row => BlockQueryView::Row,
            BlockQuery::Hash { payload } => BlockQueryView::Hash { payload: payload@ },
            BlockQuery::Over => BlockQueryView::Over,
        }
    }
}

/// What came of an action, with bitmaps and texts as sequences.
pub enum BlockEventView {
    Row(Option<Seq<u8>>),
    Hash(Seq<char>),
    Failed(ErrorView),
}

impl View for BlockEvent {
    type V = BlockEventView;

    open spec fn view(&self) -> BlockEventView {
        match *self {
            BlockEvent::Row(row) => BlockEventView::Row(
                match row {
                    Some(bytes) => Some(bytes@),
                    None => None,
                },
            ),
            BlockEvent::Hash(hash) => BlockEventView::Hash(hash@),
            BlockEvent::Failed(error) => BlockEventView::Failed(error@),
        }
    }
}

/// What is to be done next, with addresses and blocks as sequences.
pub enum BlockActionView {
    Query { block_height: int },
    GetText { url: Seq<char> },
    Serve(BlockView),
    Fail(ErrorView),
}

impl View for BlockAction {
    type V = BlockActionView;

    open spec fn view(&self) -> BlockActionView {
        match *self {
            BlockAction::Query { block_height } => BlockActionView::Query {
                block_height: block_height as int,
            },
            BlockAction::GetText { url } => BlockActionView::GetText { url: url@ },
            BlockAction::Serve(block) => BlockActionView::Serve(block@),
            BlockAction::Fail(error) => BlockActionView::Fail(error@),
        }
    }
}

/// A step of an answer: the cache after it, where the answer stands, and what is to be done next.
pub type QueryStep = (CacheView<BlockView>, BlockQueryView, BlockActionView);

/// The first step: the kept block, or a question to the database.
pub open spec fn first_query(cache: CacheView<BlockView>, height: u64) -> QueryStep {
    match cache.value(height) {
        Some(block) => (
            cache.after_get(height),
            BlockQueryView::Over,
            BlockActionView::Serve(block),
        ),
        None => (
            cache.after_get(height),
            BlockQueryView::Row,
            BlockActionView::Query { block_height: wrapped_i64(height) },
        ),
    }
}

/// Whether an event can come of what was last asked for.
pub open spec fn expects_event(query: BlockQueryView, event: BlockEventView) -> bool {
    match event {
        BlockEventView::Row(_) => query is Row,
        BlockEventView::Hash(_) => query is Hash,
        BlockEventView::Failed(_) => !(query is Over),
    }
}

/// The step that follows an event that the answer expects: the indexer is asked for the hash of a
/// block whose bitmap is stored, and the block is then kept and served; a block whose bitmap is
/// not stored is not found; and a failure is replied as it is.
pub open spec fn next_query(
    cache: CacheView<BlockView>,
    ord: Seq<char>,
    height: u64,
    query: BlockQueryView,
    event: BlockEventView,
) -> QueryStep {
    match event {
        BlockEventView::Row(Some(payload)) => (
            cache,
            BlockQueryView::Hash { payload },
            BlockActionView::GetText { url: block_hash_path(ord, height) },
        ),
        BlockEventView::Row(None) => (
            cache,
            BlockQueryView::Over,
            BlockActionView::Fail(unseeded_block_error(height)),
        ),
        BlockEventView::Hash(hash) => {
            let block = BlockView { hash, payload: query->payload };
            (cache.after_put(height, block), BlockQueryView::Over, BlockActionView::Serve(block))
        },
        BlockEventView::Failed(error) => (
            cache,
            BlockQueryView::Over,
            BlockActionView::Fail(error),
        ),
    }
}

/// Begins to answer a request for a block's bitmap: with the kept one, or with the database.
pub fn begin_block(cache: &mut BlockCache, height: u64) -> (r: (BlockQuery, BlockAction))
    requires
        old(cache).wf(),
    ensures
        final(cache).wf(),
        (final(cache)@, r.0@, r.1@) == first_query(old(cache)@, height),
{
    match cache.get(height) {
        Some(block) => (BlockQuery::Over, BlockAction::Serve(block)),
        None => (BlockQuery::Row, BlockAction::Query { block_height: db_height(height) }),
    }
}

impl BlockQuery {
    /// Goes on with what came of the last action.
    pub fn step(
        self,
        cache: &mut BlockCache,
        ord_base_url: &str,
        height: u64,
        event: BlockEvent,
    ) -> (r: (BlockQuery, BlockAction))
        requires
            old(cache).wf(),
            expects_event(self@, event@),
        ensures
            final(cache).wf(),
            (final(cache)@, r.0@, r.1@) == next_query(
                old(cache)@,
                ord_base_url@,
                height,
                self@,
                event@,
            ),
    {
        match event {
            BlockEvent::Row(row) => match stored_bitmap(height, row) {
                Ok(payload) => (
                    BlockQuery::Hash { payload },
                    BlockAction::GetText { url: block_hash_url(ord_base_url, height) },
                ),
                Err(error) => (BlockQuery::Over, BlockAction::Fail(error)),
            },
            BlockEvent::Hash(hash) => match self {
                BlockQuery::Hash { payload } => {
                    cache.put(
                        height,
                        CachedBlock { hash: hash.clone(), payload: clone_bytes(&payload) },
                    );
                    (BlockQuery::Over, BlockAction::Serve(CachedBlock { hash, payload }))
                },
                _ => unreached(),
            },
            BlockEvent::Failed(error) => (BlockQuery::Over, BlockAction::Fail(error)),
        }
    }
}

/// A block that is not kept is looked up in the database; where its bitmap is stored, the indexer
/// is asked for its hash, and then it is served with that hash and that bitmap and kept. The next
/// request for it is answered from the cache with the same block.
pub proof fn law_stored_block(
    cache: CacheView<BlockView>,
    ord: Seq<char>,
    height: u64,
    payload: Seq<u8>,
    hash: Seq<char>,
)
    requires
        cache.wf(),
        cache.value(height) is None,
    ensures
        ({
            let block = BlockView { hash, payload };
            let row = BlockEventView::Row(Some(payload));
            let asked = first_query(cache, height);
            let stored = next_query(asked.0, ord, height, asked.1, row);
            let served = next_query(stored.0, ord, height, stored.1, BlockEventView::Hash(hash));
            let again = first_query(served.0, height);
            &&& asked.2 == BlockActionView::Query { block_height: wrapped_i64(height) }
            &&& expects_event(asked.1, row)
            &&& stored.2 == BlockActionView::GetText { url: block_hash_path(ord, height) }
            &&& expects_event(stored.1, BlockEventView::Hash(hash))
            &&& served.1 is Over
            &&& served.2 == BlockActionView::Serve(block)
            &&& again.1 is Over
            &&& again.2 == BlockActionView::Serve(block)
        }),
{
    law_get(cache, height);
    law_put(cache.after_get(height), height, BlockView { hash, payload });
}

/// A request that is answered with an error keeps nothing and drops nothing: the cache holds the
/// same blocks as before.
pub proof fn law_failed_block(
    cache: CacheView<BlockView>,
    ord: Seq<char>,
    height: u64,
    query: BlockQueryView,
    event: BlockEventView,
)
    requires
        expects_event(query, event),
        next_query(cache, ord, height, query, event).2 is Fail,
    ensures
        next_query(cache, ord, height, query, event).0 == cache,
        next_query(cache, ord, height, query, event).1 is Over,
{
}

/// The bitmap of a block, where the database has one.
pub fn stored_bitmap(height: u64, row: Option<Vec<u8>>) -> (r: Result<Vec<u8>, AppError>)
    ensures
        r is Ok <==> row is Some,
        r matches Ok(bytes) ==> row == Some(bytes),
        r matches Err(e) ==> e@ == unseeded_block_error(height),
{
    match row {
        Some(bytes) => Ok(bytes),
        None => Err(AppError::unseeded_block(height)),
    }
}

/// How the answer to a request for a block's transactions begins.
pub enum TxsStart {
    /// The list was kept.
    Cached(Vec<TxSummary>),
    /// The indexer is to be asked for the block, whatever the status code of its answer.
    GetOrdBlock { url: String },
}

/// How the answer to a request for a block's transactions begins.
pub enum TxsStartView {
    Cached(Seq<SummaryView>),
    GetOrdBlock { url: Seq<char> },
}

impl View for TxsStart {
    type V = TxsStartView;

    open spec fn view(&self) -> TxsStartView {
        match *self {
            TxsStart::Cached(txs) => TxsStartView::Cached(summary_views(txs@)),
            TxsStart::GetOrdBlock { url } => TxsStartView::GetOrdBlock { url: url@ },
        }
    }
}

/// The beginning of an answer: the list that the cache keeps for the height, else a question to
/// the indexer.
pub open spec fn txs_start(
    cache: CacheView<Seq<SummaryView>>,
    ord: Seq<char>,
    height: u64,
) -> TxsStartView {
    match cache.value(height) {
        Some(txs) => TxsStartView::Cached(txs),
        None => TxsStartView::GetOrdBlock { url: block_path(ord, decimal(height as nat)) },
    }
}

/// Begins to answer a request for a block's transactions: with the kept list, or with the
/// indexer.
pub fn begin_txs(cache: &mut TxCache, ord_base_url: &str, height: u64) -> (r: TxsStart)
    requires
        old(cache).wf(),
    ensures
        final(cache).wf(),
        final(cache)@ == old(cache)@.after_get(height),
        r@ == txs_start(old(cache)@, ord_base_url@, height),
{
    match cache.get(height) {
        Some(txs) => TxsStart::Cached(txs),
        None => TxsStart::GetOrdBlock {
            url: block_url(ord_base_url, decimal_string(height).as_str()),
        },
    }
}

/// Ends the answer to a request for a block's transactions: keeps their summaries and gives them
/// out. Where a number is out of range, nothing is kept or given out.
pub fn finish_txs(cache: &mut TxCache, height: u64, transactions: &Vec<OrdTx>) -> (r: Option<
    Vec<TxSummary>,
>)
    requires
        old(cache).wf(),
    ensures
        final(cache).wf(),
        r is Some <==> ord_txs_fit(transactions@),
        r matches Some(txs) ==> {
            &&& summary_views(txs@) == ord_summaries(transactions@)
            &&& final(cache)@ == old(cache)@.after_put(height, summary_views(txs@))
        },
        r is None ==> final(cache)@ == old(cache)@,
{
    match ord_tx_summaries(transactions) {
        Some(txs) => {
            cache.put(height, clone_summaries(&txs));
            Some(txs)
        },
        None => None,
    }
}

/// A list that was given out is kept: the next request for the height is answered with it, and
/// the indexer is not asked again.
pub proof fn law_repeated_txs(
    cache: CacheView<Seq<SummaryView>>,
    ord: Seq<char>,
    height: u64,
    transactions: Seq<OrdTx>,
)
    requires
        cache.wf(),
    ensures
        txs_start(cache.after_put(height, ord_summaries(transactions)), ord, height)
            == TxsStartView::Cached(ord_summaries(transactions)),
{
    law_put(cache, height, ord_summaries(transactions));
}

/// Where the indexer describes the block with a hash; a text that is no block hash is refused
/// before anything is asked.
pub fn begin_height(ord_base_url: &str, hash: &str) -> (r: Result<String, AppError>)
    ensures
        r is Ok <==> is_block_hash(hash@),
        r matches Ok(url) ==> url@ == block_path(ord_base_url@, hash@),
        r matches Err(e) ==> e@ == hash_format_error(),
{
    match check_block_hash(hash) {
        Ok(()) => Ok(block_url(ord_base_url, hash)),
        Err(error) => Err(error),
    }
}

/// A kept block is served as it was kept, and neither the database nor the indexer is asked.
pub proof fn law_kept_block(cache: CacheView<BlockView>, height: u64, block: BlockView)
    requires
        cache.wf(),
        cache.value(height) == Some(block),
    ensures
        first_query(cache, height).1 is Over,
        first_query(cache, height).2 == BlockActionView::Serve(block),
        forall|k: u64| #[trigger] first_query(cache, height).0.value(k) == cache.value(k),
{
    law_get(cache, height);
}

/// Serving a block from the database keeps it, and drops no other block but the least recently
/// used one of a full cache.
pub proof fn law_stored_block_is_kept(
    cache: CacheView<BlockView>,
    ord: Seq<char>,
    height: u64,
    payload: Seq<u8>,
    hash: Seq<char>,
    other: u64,
)
    requires
        cache.wf(),
        cache.value(height) is None,
    ensures
        ({
            let asked = first_query(cache, height);
            let row = BlockEventView::Row(Some(payload));
            let stored = next_query(asked.0, ord, height, asked.1, row);
            let served = next_query(stored.0, ord, height, stored.1, BlockEventView::Hash(hash));
            &&& asked.0 == cache
            &&& stored.0 == cache
            &&& served.0.wf()
            &&& served.0.capacity == cache.capacity
            &&& served.0.value(height) == Some(BlockView { hash, payload })
            &&& other != height && !(cache.entries.len() == cache.capacity
                && cache.entries.last().0 == other) ==> served.0.value(other) == cache.value(other)
        }),
{
    law_get(cache, height);
    law_put(cache, height, BlockView { hash, payload });
    law_order(cache, height, BlockView { hash, payload });
}

/// A block whose bitmap is not stored is not found, under its height; a failure of the database
/// or the indexer is replied as it came. Either ends the request.
pub proof fn law_unserved_block(
    cache: CacheView<BlockView>,
    ord: Seq<char>,
    height: u64,
    payload: Seq<u8>,
    error: ErrorView,
)
    ensures
        ({
            let missing = next_query(
                cache,
                ord,
                height,
                BlockQueryView::Row,
                BlockEventView::Row(None),
            );
            &&& expects_event(BlockQueryView::Row, BlockEventView::Row(None))
            &&& missing.0 == cache
            &&& missing.1 is Over
            &&& missing.2 matches BlockActionView::Fail(e) && e.status == 404 && e.message
                == "block "@ + decimal(height as nat) + " not found or not yet seeded"@
        }),
        forall|query: BlockQueryView|
            query == BlockQueryView::Row || query == (BlockQueryView::Hash { payload }) ==> {
                let failed = #[trigger] next_query(
                    cache,
                    ord,
                    height,
                    query,
                    BlockEventView::Failed(error),
                );
                &&& expects_event(query, BlockEventView::Failed(error))
                &&& failed.0 == cache
                &&& failed.1 is Over
                &&& failed.2 == BlockActionView::Fail(error)
            },
{
}

/// A list that is not kept is asked of the indexer, under the height; a kept one is given as it
/// was kept.
pub proof fn law_txs_start(
    cache: CacheView<Seq<SummaryView>>,
    ord: Seq<char>,
    height: u64,
    kept: Seq<SummaryView>,
)
    ensures
        cache.value(height) is None ==> txs_start(cache, ord, height)
            == (TxsStartView::GetOrdBlock { url: ord + "/block/"@ + decimal(height as nat) }),
        cache.value(height) == Some(kept) ==> txs_start(cache, ord, height)
            == TxsStartView::Cached(kept),
{
}

/// Where an answer stands is described in full.
pub proof fn law_query_view(query: BlockQuery)
    ensures
        match query {
            BlockQuery::Row => query@ is Row,
            BlockQuery::Hash { payload } => query@ == (BlockQueryView::Hash { payload: payload@ }),
            BlockQuery::Over => query@ is Over,
        },
{
}

/// What comes of an action is described in full: with the whole bitmap, or the whole hash.
pub proof fn law_event_view(event: BlockEvent)
    ensures
        match event {
            BlockEvent::Row(Some(bytes)) => event@ == (BlockEventView::Row(Some(bytes@))),
            BlockEvent::Row(None) => event@ == (BlockEventView::Row(None)),
            BlockEvent::Hash(hash) => event@ == (BlockEventView::Hash(hash@)),
            BlockEvent::Failed(error) => event@ == (BlockEventView::Failed(error@)),
        },
{
}

/// What is to be done next is described in full.
pub proof fn law_action_view(action: BlockAction)
    ensures
        match action {
            BlockAction::Query { block_height } => action@ == (BlockActionView::Query {
                block_height: block_height as int,
            }),
            BlockAction::GetText { url } => action@ == (BlockActionView::GetText { url: url@ }),
            BlockAction::Serve(block) => action@ == (BlockActionView::Serve(block@)),
            BlockAction::Fail(error) => action@ == (BlockActionView::Fail(error@)),
        },
{
}

/// The beginning of an answer is described in full.
pub proof fn law_txs_start_view(start: TxsStart)
    ensures
        match start {
            TxsStart::Cached(txs) => start@ == (TxsStartView::Cached(summary_views(txs@))),
            TxsStart::GetOrdBlock { url } => start@ == (TxsStartView::GetOrdBlock { url: url@ }),
        },
{
}

} // verus!
