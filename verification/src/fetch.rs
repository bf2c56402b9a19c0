//! How a block is fetched from upstream: which address is asked after which answer.
//!
//! With an indexer configured, one request brings the whole block. Without one, the explorer is
//! asked for the block's hash, then for the block, then for its transactions page by page. A
//! [`Fetch`] says what to ask next; whoever drives it performs the [`Action`] and hands back the
//! [`Event`] that came of it.

use vstd::pervasive::unreached;
use vstd::prelude::*;

use crate::error::AppError;
use crate::meta::Block;
use crate::ord::OrdBlock;
use crate::text::{decimal, decimal_string};
use crate::urls::{
    block_height_path, block_height_url, block_path, block_url, tx_page_path, tx_page_url,
};

verus! {

/// How many transactions an explorer lists on a page.
pub const PAGE_SIZE: usize = 25;

/// The services that blocks are fetched from: an explorer, and an indexer where there is one.
#[derive(Debug)]
pub struct Upstreams {
    pub mempool_base_url: String,
    pub ord_base_url: Option<String>,
}

/// Where a fetch stands.
pub enum Fetch<T> {
    /// The indexer was asked for the block.
    Ord,
    /// The explorer was asked for the block's hash.
    Hash { pages: bool },
    /// The explorer was asked for the block.
    Block { pages: bool },
    /// The explorer was asked for the block's transactions from `offset` on.
    Page { block: Block, offset: usize, txs: Vec<T> },
    /// The fetch is over.
    Over,
}

/// What came of an action.
pub enum Event<T> {
    OrdBlock(OrdBlock),
    Text(String),
    Block(Block),
    Page(Vec<T>),
    Failed(AppError),
}

/// What was fetched.
pub enum Fetched<T> {
    /// The block as the indexer reports it.
    Ord(OrdBlock),
    /// The block as the explorer describes it, and the transactions that were asked for.
    Listed { block: Block, txs: Vec<T> },
}

/// What is to be done next.
pub enum Action<T> {
    /// Ask the indexer for a block as JSON, whatever the status code of its answer.
    GetOrdBlock { url: String },
    /// Ask the explorer for a text.
    GetText { url: String },
    /// Ask the explorer for a block as JSON.
    GetBlock { url: String },
    /// Ask the explorer for a page of transactions as JSON.
    GetPage { url: String },
    /// Everything that was asked for is here.
    Done(Fetched<T>),
    /// The fetch failed.
    Fail(AppError),
}

/// The upstreams' addresses.
pub struct UpstreamsView {
    pub mempool: Seq<char>,
    pub ord: Option<Seq<char>>,
}

impl View for Upstreams {
    type V = UpstreamsView;

    open spec fn view(&self) -> UpstreamsView {
        UpstreamsView {
            mempool: self.mempool_base_url@,
            ord: match self.ord_base_url {
                Some(url) => Some(url@),
                None => None,
            },
        }
    }
}

/// Where a fetch stands, with its transactions as a sequence.
pub enum FetchView<T> {
    Ord,
    Hash { pages: bool },
    Block { pages: bool },
    Page { block: Block, offset: nat, txs: Seq<T> },
    Over,
}

impl<T> View for Fetch<T> {
    type V = FetchView<T>;

    open spec fn view(&self) -> FetchView<T> {
        match *self {
            Fetch::Ord => FetchView::Ord,
            Fetch::Hash { pages } => FetchView::Hash { pages },
            Fetch::Block { pages } => FetchView::Block { pages },
            Fetch::Page { block, offset, txs } => FetchView::Page {
                block,
                offset: offset as nat,
                txs: txs@,
            },
            Fetch::Over => FetchView::Over,
        }
    }
}

/// What came of an action, with texts and pages as sequences.
pub enum EventView<T> {
    OrdBlock(OrdBlock),
    Text(Seq<char>),
    Block(Block),
    Page(Seq<T>),
    Failed(AppError),
}

impl<T> View for Event<T> {
    type V = EventView<T>;

    open spec fn view(&self) -> EventView<T> {
        match *self {
            Event::OrdBlock(block) => EventView::OrdBlock(block),
            Event::Text(text) => EventView::Text(text@),
            Event::Block(block) => EventView::Block(block),
            Event::Page(page) => EventView::Page(page@),
            Event::Failed(error) => EventView::Failed(error),
        }
    }
}

/// What was fetched, with its transactions as a sequence.
pub enum FetchedView<T> {
    Ord(OrdBlock),
    Listed { block: Block, txs: Seq<T> },
}

impl<T> View for Fetched<T> {
    type V = FetchedView<T>;

    open spec fn view(&self) -> FetchedView<T> {
        match *self {
            Fetched::Ord(block) => FetchedView::Ord(block),
            Fetched::Listed { block, txs } => FetchedView::Listed { block, txs: txs@ },
        }
    }
}

/// What is to be done next, with addresses as sequences.
pub enum ActionView<T> {
    GetOrdBlock { url: Seq<char> },
    GetText { url: Seq<char> },
    GetBlock { url: Seq<char> },
    GetPage { url: Seq<char> },
    Done(FetchedView<T>),
    Fail(AppError),
}

impl<T> View for Action<T> {
    type V = ActionView<T>;

    open spec fn view(&self) -> ActionView<T> {
        match *self {
            Action::GetOrdBlock { url } => ActionView::GetOrdBlock { url: url@ },
            Action::GetText { url } => ActionView::GetText { url: url@ },
            Action::GetBlock { url } => ActionView::GetBlock { url: url@ },
            Action::GetPage { url } => ActionView::GetPage { url: url@ },
            Action::Done(fetched) => ActionView::Done(fetched@),
            Action::Fail(error) => ActionView::Fail(error),
        }
    }
}

/// A fetch and what is to be done next for it.
pub type StepView<T> = (FetchView<T>, ActionView<T>);

/// The first step: the indexer where there is one, else the explorer.
pub open spec fn first_step<T>(up: UpstreamsView, height: u64, pages: bool) -> StepView<T> {
    match up.ord {
        Some(ord) => (
            FetchView::Ord,
            ActionView::GetOrdBlock { url: block_path(ord, decimal(height as nat)) },
        ),
        None => (
            FetchView::Hash { pages },
            ActionView::GetText { url: block_height_path(up.mempool, height) },
        ),
    }
}

/// The step that asks for the transactions from `offset` on, or that ends the fetch where the
/// block has no more.
pub open spec fn page_step<T>(
    up: UpstreamsView,
    block: Block,
    offset: nat,
    txs: Seq<T>,
) -> StepView<T> {
    if offset < block.tx_count {
        (
            FetchView::Page { block, offset, txs },
            ActionView::GetPage { url: tx_page_path(up.mempool, block.id@, offset) },
        )
    } else {
        (FetchView::Over, ActionView::Done(FetchedView::Listed { block, txs }))
    }
}

/// Whether an event can come of what a fetch last asked for.
pub open spec fn expects<T>(fetch: FetchView<T>, event: EventView<T>) -> bool {
    match event {
        EventView::OrdBlock(_) => fetch is Ord,
        EventView::Text(_) => fetch is Hash,
        EventView::Block(_) => fetch is Block,
        EventView::Page(_) => fetch is Page,
        EventView::Failed(_) => !(fetch is Over),
    }
}

/// The step that follows an event that the fetch expects.
pub open spec fn next_step<T>(
    up: UpstreamsView,
    fetch: FetchView<T>,
    event: EventView<T>,
) -> StepView<T> {
    match (fetch, event) {
        (_, EventView::Failed(error)) => (FetchView::Over, ActionView::Fail(error)),
        (_, EventView::OrdBlock(block)) => (
            FetchView::Over,
            ActionView::Done(FetchedView::Ord(block)),
        ),
        (FetchView::Hash { pages }, EventView::Text(hash)) => (
            FetchView::Block { pages },
            ActionView::GetBlock { url: block_path(up.mempool, hash) },
        ),
        (FetchView::Block { pages }, EventView::Block(block)) => if pages {
            page_step(up, block, 0, Seq::empty())
        } else {
            (
                FetchView::Over,
                ActionView::Done(FetchedView::Listed { block, txs: Seq::empty() }),
            )
        },
        (FetchView::Page { block, offset, txs }, EventView::Page(page)) => page_step(
            up,
            block,
            offset + PAGE_SIZE as nat,
            txs + page,
        ),
        _ => arbitrary(),
    }
}

/// Begins to fetch the block at a height, with the pages of its transactions where `pages` asks
/// for them.
pub fn begin_fetch<T>(upstreams: &Upstreams, height: u64, pages: bool) -> (r: (
    Fetch<T>,
    Action<T>,
))
    ensures
        (r.0@, r.1@) == first_step::<T>(upstreams@, height, pages),
{
    match &upstreams.ord_base_url {
        Some(ord) => (
            Fetch::Ord,
            Action::GetOrdBlock {
                url: block_url(ord.as_str(), decimal_string(height).as_str()),
            },
        ),
        None => (
            Fetch::Hash { pages },
            Action::GetText {
                url: block_height_url(upstreams.mempool_base_url.as_str(), height),
            },
        ),
    }
}

impl<T> Fetch<T> {
    /// Asks for the transactions from `offset` on.
    fn ask_page(upstreams: &Upstreams, block: Block, offset: usize, txs: Vec<T>) -> (r: (
        Fetch<T>,
        Action<T>,
    ))
        ensures
            (r.0@, r.1@) == page_step(upstreams@, block, offset as nat, txs@),
    {
        if offset < block.tx_count {
            let url: String = tx_page_url(
                upstreams.mempool_base_url.as_str(),
                block.id.as_str(),
                offset,
            );
            (Fetch::Page { block, offset, txs }, Action::GetPage { url })
        } else {
            (Fetch::Over, Action::Done(Fetched::Listed { block, txs }))
        }
    }

    /// Goes on with what came of the last action.
    pub fn step(self, upstreams: &Upstreams, event: Event<T>) -> (r: (Fetch<T>, Action<T>))
        requires
            expects(self@, event@),
        ensures
            (r.0@, r.1@) == next_step(upstreams@, self@, event@),
    {
        match event {
            Event::Failed(error) => (Fetch::Over, Action::Fail(error)),
            Event::OrdBlock(block) => (Fetch::Over, Action::Done(Fetched::Ord(block))),
            Event::Text(hash) => match self {
                Fetch::Hash { pages } => (
                    Fetch::Block { pages },
                    Action::GetBlock {
                        url: block_url(upstreams.mempool_base_url.as_str(), hash.as_str()),
                    },
                ),
                _ => unreached(),
            },
            Event::Block(block) => match self {
                Fetch::Block { pages } => if pages {
                    Self::ask_page(upstreams, block, 0, Vec::new())
                } else {
                    (Fetch::Over, Action::Done(Fetched::Listed { block, txs: Vec::new() }))
                },
                _ => unreached(),
            },
            Event::Page(page) => match self {
                Fetch::Page { block, offset, txs } => {
                    let mut all: Vec<T> = txs;
                    let mut more: Vec<T> = page;
                    all.append(&mut more);
                    let next: usize = if offset < block.tx_count && block.tx_count - offset > PAGE_SIZE {
                        offset + PAGE_SIZE
                    } else {
                        block.tx_count
                    };
                    Self::ask_page(upstreams, block, next, all)
                },
                _ => unreached(),
            },
        }
    }
}

/// How many pages list the transactions of a block.
pub open spec fn page_count(tx_count: nat) -> nat {
    (tx_count + PAGE_SIZE - 1) as nat / PAGE_SIZE as nat
}

/// The transactions of pages, one page after the other.
pub open spec fn page_txs<T>(pages: Seq<Seq<T>>) -> Seq<T>
    decreases pages.len(),
{
    if pages.len() == 0 {
        Seq::empty()
    } else {
        page_txs(pages.drop_last()) + pages.last()
    }
}

/// The step that is reached when the given pages have arrived, in order.
pub open spec fn after_pages<T>(
    up: UpstreamsView,
    step: StepView<T>,
    pages: Seq<Seq<T>>,
) -> StepView<T>
    decreases pages.len(),
{
    if pages.len() == 0 {
        step
    } else {
        next_step(
            up,
            after_pages(up, step, pages.drop_last()).0,
            EventView::Page(pages.last()),
        )
    }
}

/// After some pages, but no more than the block has, the fetch asks for the next one, and it has
/// kept all transactions so far.
proof fn lemma_after_pages<T>(up: UpstreamsView, block: Block, pages: Seq<Seq<T>>)
    requires
        pages.len() <= page_count(block.tx_count as nat),
    ensures
        after_pages(up, page_step(up, block, 0, Seq::empty()), pages) == page_step(
            up,
            block,
            PAGE_SIZE as nat * pages.len(),
            page_txs(pages),
        ),
    decreases pages.len(),
{
    if pages.len() > 0 {
        lemma_after_pages(up, block, pages.drop_last());
        assert(PAGE_SIZE as nat * (pages.len() - 1) < block.tx_count);
    }
}

/// Without an indexer, a fetch asks for the block's hash, for the block, and then for each page
/// of its transactions, from offset 0 in steps of the page size; it asks for nothing else. It
/// ends with the block and with the transactions of all pages, in the order of the pages.
pub proof fn law_listed_fetch<T>(
    up: UpstreamsView,
    height: u64,
    hash: Seq<char>,
    block: Block,
    pages: Seq<Seq<T>>,
)
    requires
        up.ord is None,
        pages.len() == page_count(block.tx_count as nat),
    ensures
        ({
            let asked_hash = first_step::<T>(up, height, true);
            let asked_block = next_step(up, asked_hash.0, EventView::Text(hash));
            let asked_pages = next_step(up, asked_block.0, EventView::Block(block));
            &&& asked_hash.1 == ActionView::<T>::GetText {
                url: block_height_path(up.mempool, height),
            }
            &&& asked_block.1 == ActionView::<T>::GetBlock { url: block_path(up.mempool, hash) }
            &&& forall|k: int|
                0 <= k < pages.len() ==> {
                    let step = #[trigger] after_pages(up, asked_pages, pages.take(k));
                    &&& step.1 == ActionView::<T>::GetPage {
                        url: tx_page_path(up.mempool, block.id@, (PAGE_SIZE * k) as nat),
                    }
                    &&& expects(step.0, EventView::Page(pages[k]))
                }
            &&& after_pages(up, asked_pages, pages) == (
                FetchView::<T>::Over,
                ActionView::<T>::Done(FetchedView::Listed { block, txs: page_txs(pages) }),
            )
        }),
{
    let asked_pages: StepView<T> = page_step(up, block, 0, Seq::empty());
    assert forall|k: int| 0 <= k < pages.len() implies {
        let step = #[trigger] after_pages(up, asked_pages, pages.take(k));
        &&& step.1 == ActionView::<T>::GetPage {
            url: tx_page_path(up.mempool, block.id@, (PAGE_SIZE * k) as nat),
        }
        &&& expects(step.0, EventView::Page(pages[k]))
    } by {
        lemma_after_pages(up, block, pages.take(k));
    }
    lemma_after_pages(up, block, pages);
}

/// With an indexer, one request brings the block, and the fetch is over.
pub proof fn law_indexed_fetch<T>(up: UpstreamsView, height: u64, pages: bool, block: OrdBlock)
    requires
        up.ord is Some,
    ensures
        ({
            let asked = first_step::<T>(up, height, pages);
            &&& asked.1 == ActionView::<T>::GetOrdBlock {
                url: block_path(up.ord->0, decimal(height as nat)),
            }
            &&& expects(asked.0, EventView::OrdBlock(block))
            &&& next_step(up, asked.0, EventView::OrdBlock(block)) == (
                FetchView::<T>::Over,
                ActionView::<T>::Done(FetchedView::Ord(block)),
            )
        }),
{
}

/// Where only the block is wanted, no page is asked for.
pub proof fn law_block_only_fetch<T>(
    up: UpstreamsView,
    height: u64,
    hash: Seq<char>,
    block: Block,
)
    requires
        up.ord is None,
    ensures
        ({
            let asked_hash = first_step::<T>(up, height, false);
            let asked_block = next_step(up, asked_hash.0, EventView::Text(hash));
            &&& asked_block.1 == ActionView::<T>::GetBlock { url: block_path(up.mempool, hash) }
            &&& next_step(up, asked_block.0, EventView::Block(block)) == (
                FetchView::<T>::Over,
                ActionView::<T>::Done(FetchedView::Listed { block, txs: Seq::empty() }),
            )
        }),
{
}

/// A failure ends a fetch wherever it stands, and is what the fetch ends with.
pub proof fn law_failed_fetch<T>(up: UpstreamsView, fetch: FetchView<T>, error: AppError)
    requires
        !(fetch is Over),
    ensures
        expects(fetch, EventView::Failed(error)),
        next_step(up, fetch, EventView::Failed(error)) == (
            FetchView::<T>::Over,
            ActionView::<T>::Fail(error),
        ),
{
}

/// Whether the page with index `k` lists the transaction with index `i`.
pub open spec fn page_lists(k: nat, i: nat) -> bool {
    PAGE_SIZE * k <= i < PAGE_SIZE * (k + 1)
}

/// Every transaction of a block stands on exactly one of the pages that are asked for.
pub proof fn law_pages_cover(tx_count: nat, i: nat)
    requires
        i < tx_count,
    ensures
        exists|k: nat| k < page_count(tx_count) && #[trigger] page_lists(k, i),
        forall|j: nat, k: nat| #[trigger] page_lists(j, i) && #[trigger] page_lists(k, i) ==> j == k,
{
    assert(page_lists(i / PAGE_SIZE as nat, i));
}

/// The pages of a block are as many as it takes to list its transactions, 25 on each, and no more.
pub proof fn law_page_count(tx_count: nat)
    ensures
        tx_count <= 25 * page_count(tx_count) < tx_count + 25,
{
}

/// The transactions of pages are those of each page in turn.
pub proof fn law_page_txs<T>(pages: Seq<Seq<T>>)
    ensures
        page_txs(pages) == pages.flatten(),
    decreases pages.len(),
{
    pages.lemma_flatten_and_flatten_alt_are_equivalent();
    if pages.len() > 0 {
        law_page_txs(pages.drop_last());
        pages.drop_last().lemma_flatten_and_flatten_alt_are_equivalent();
    }
}

/// When a block arrives whose transactions are wanted, the first page is asked for, or the fetch
/// ends where the block has no transactions.
pub proof fn law_block_arrives<T>(up: UpstreamsView, block: Block)
    ensures
        ({
            let step = next_step(
                up,
                FetchView::<T>::Block { pages: true },
                EventView::Block(block),
            );
            &&& block.tx_count == 0 ==> step.0 is Over && step.1 == ActionView::<T>::Done(
                FetchedView::Listed { block, txs: Seq::<T>::empty() },
            )
            &&& block.tx_count > 0 ==> step.0 == FetchView::<T>::Page {
                block,
                offset: 0,
                txs: Seq::<T>::empty(),
            } && step.1 == ActionView::<T>::GetPage {
                url: tx_page_path(up.mempool, block.id@, 0),
            }
        }),
{
}

/// When a page arrives, all of its transactions are added behind those that are there. Then the
/// page 25 transactions further on is asked for, where the block has one there, and else the
/// fetch ends with all of them.
pub proof fn law_page_arrives<T>(
    up: UpstreamsView,
    block: Block,
    offset: nat,
    txs: Seq<T>,
    page: Seq<T>,
)
    ensures
        ({
            let fetch = FetchView::Page { block, offset, txs };
            let step = next_step(up, fetch, EventView::Page(page));
            &&& expects(fetch, EventView::Page(page))
            &&& offset + 25 < block.tx_count ==> step.0 == (FetchView::Page {
                block,
                offset: offset + 25,
                txs: txs + page,
            }) && step.1 == ActionView::<T>::GetPage {
                url: tx_page_path(up.mempool, block.id@, offset + 25),
            }
            &&& offset + 25 >= block.tx_count ==> step.0 is Over && step.1 == ActionView::<
                T,
            >::Done(FetchedView::Listed { block, txs: txs + page })
        }),
{
}

/// The addresses of both upstreams are described as they are.
pub proof fn law_upstreams_view(upstreams: Upstreams)
    ensures
        upstreams@.mempool == upstreams.mempool_base_url@,
        upstreams@.ord is Some <==> upstreams.ord_base_url is Some,
        upstreams.ord_base_url matches Some(url) ==> upstreams@.ord == Some(url@),
{
}

/// A fetch is described in full: with the block, the offset, and every transaction, in order.
pub proof fn law_fetch_view<T>(fetch: Fetch<T>)
    ensures
        match fetch {
            Fetch::Ord => fetch@ is Ord,
            Fetch::Hash { pages } => fetch@ == (FetchView::<T>::Hash { pages }),
            Fetch::Block { pages } => fetch@ == (FetchView::<T>::Block { pages }),
            Fetch::Page { block, offset, txs } => fetch@ == (FetchView::Page {
                block,
                offset: offset as nat,
                txs: txs@,
            }),
            Fetch::Over => fetch@ is Over,
        },
{
}

/// What comes of an action is described in full: with the text, the block or every transaction of
/// the page, in order.
pub proof fn law_event_view<T>(event: Event<T>)
    ensures
        match event {
            Event::OrdBlock(block) => event@ == (EventView::<T>::OrdBlock(block)),
            Event::Text(text) => event@ == (EventView::<T>::Text(text@)),
            Event::Block(block) => event@ == (EventView::<T>::Block(block)),
            Event::Page(page) => event@ == (EventView::Page(page@)),
            Event::Failed(error) => event@ == (EventView::<T>::Failed(error)),
        },
{
}

/// What was fetched is described in full: with the block and every transaction, in order.
pub proof fn law_fetched_view<T>(fetched: Fetched<T>)
    ensures
        match fetched {
            Fetched::Ord(block) => fetched@ == (FetchedView::<T>::Ord(block)),
            Fetched::Listed { block, txs } => fetched@ == (FetchedView::Listed {
                block,
                txs: txs@,
            }),
        },
{
}

/// An action is described in full: with its address, what was fetched, or the error.
pub proof fn law_action_view<T>(action: Action<T>)
    ensures
        match action {
            Action::GetOrdBlock { url } => action@ == (ActionView::<T>::GetOrdBlock { url: url@ }),
            Action::GetText { url } => action@ == (ActionView::<T>::GetText { url: url@ }),
            Action::GetBlock { url } => action@ == (ActionView::<T>::GetBlock { url: url@ }),
            Action::GetPage { url } => action@ == (ActionView::<T>::GetPage { url: url@ }),
            Action::Done(fetched) => action@ == (ActionView::Done(fetched@)),
            Action::Fail(error) => action@ == (ActionView::<T>::Fail(error)),
        },
{
}

/// A fetch takes every answer to what it asked for, and a failure in place of any; once it is
/// over, it takes nothing.
pub proof fn law_expects<T>(
    fetch: FetchView<T>,
    indexed: OrdBlock,
    hash: Seq<char>,
    block: Block,
    page: Seq<T>,
    error: AppError,
)
    ensures
        expects(fetch, EventView::OrdBlock(indexed)) <==> fetch is Ord,
        expects(fetch, EventView::Text(hash)) <==> fetch is Hash,
        expects(fetch, EventView::Block(block)) <==> fetch is Block,
        expects(fetch, EventView::Page(page)) <==> fetch is Page,
        expects(fetch, EventView::Failed(error)) <==> !(fetch is Over),
{
}

} // verus!
