//! The cards on which a page shows blocks: one block each, with its picture and a line about it.

use vstd::prelude::*;

use crate::meta::{BlockMeta, MetaView};
use crate::text::{decimal, decimal_string};
use crate::urls::{api_block_path, api_block_url, api_meta_path, api_meta_url};

verus! {

/// The number of cards on a page.
pub const CARD_COUNT: u64 = 4;

/// What a card is to show: the block at a height, and the service to ask for it.
#[derive(Debug)]
pub struct BlockCardProps {
    pub height: u64,
    pub api_base: String,
}

/// What a card is to show.
pub struct PropsView {
    pub height: u64,
    pub api_base: Seq<char>,
}

impl View for BlockCardProps {
    type V = PropsView;

    open spec fn view(&self) -> PropsView {
        PropsView { height: self.height, api_base: self.api_base@ }
    }
}

impl BlockCardProps {
    /// Where the block's description is found.
    pub fn meta_url(&self) -> (r: String)
        ensures
            r@ == api_meta_path(self.api_base@, self.height),
    {
        api_meta_url(self.api_base.as_str(), self.height)
    }

    /// Where the block's bitmap is found.
    pub fn data_url(&self) -> (r: String)
        ensures
            r@ == api_block_path(self.api_base@, self.height),
    {
        api_block_url(self.api_base.as_str(), self.height)
    }

    /// The heading of the card.
    pub fn heading(&self) -> (r: String)
        ensures
            r@ == "#"@ + decimal(self.height as nat),
    {
        let mut text: String = "#".to_owned();
        text.append(decimal_string(self.height).as_str());
        text
    }
}

/// What came of asking for a block's description.
pub enum MetaReply {
    /// No answer, or one that does not stand for success.
    Failed,
    /// A successful answer that holds no description.
    Unreadable,
    /// The description.
    Loaded(BlockMeta),
}

/// What a card knows of its block.
#[derive(Debug)]
pub struct CardState {
    pub meta: Option<BlockMeta>,
    pub error: Option<String>,
}

/// What a card knows of its block.
pub struct CardView {
    pub meta: Option<MetaView>,
    pub error: Option<Seq<char>>,
}

impl View for CardState {
    type V = CardView;

    open spec fn view(&self) -> CardView {
        CardView {
            meta: match self.meta {
                Some(m) => Some(m@),
                None => None,
            },
            error: match self.error {
                Some(e) => Some(e@),
                None => None,
            },
        }
    }
}

/// What a card knows after its question for a description was answered: a description takes the
/// place of an older one, a failure is noted, and an answer without a description changes
/// nothing.
pub open spec fn after_reply(card: CardView, reply: MetaReply) -> CardView {
    match reply {
        MetaReply::Failed => CardView { meta: card.meta, error: Some("Failed to load meta"@) },
        MetaReply::Unreadable => card,
        MetaReply::Loaded(meta) => CardView { meta: Some(meta@), error: card.error },
    }
}

/// The line about the block: its number of transactions, where it is known, else what went
/// wrong, and until then that it is loading.
pub open spec fn card_line(card: CardView) -> Seq<char> {
    match (card.meta, card.error) {
        (Some(meta), _) => decimal(meta.tx_count as nat) + " tx"@,
        (None, Some(error)) => error,
        (None, None) => "loading"@,
    }
}

impl CardState {
    /// A card that has not heard of its block yet.
    pub fn new() -> (r: CardState)
        ensures
            r@ == (CardView { meta: None, error: None }),
    {
        CardState { meta: None, error: None }
    }

    /// Takes in what came of asking for the block's description.
    pub fn on_meta(&mut self, reply: MetaReply)
        ensures
            final(self)@ == after_reply(old(self)@, reply),
    {
        match reply {
            MetaReply::Failed => {
                self.error = Some("Failed to load meta".to_owned());
            },
            MetaReply::Unreadable => {},
            MetaReply::Loaded(meta) => {
                self.meta = Some(meta);
            },
        }
    }

    /// The line about the block.
    pub fn line(&self) -> (r: String)
        ensures
            r@ == card_line(self@),
    {
        match &self.meta {
            Some(meta) => {
                let mut text: String = decimal_string(meta.tx_count as u64);
                text.append(" tx");
                text
            },
            None => match &self.error {
                Some(error) => error.clone(),
                None => "loading".to_owned(),
            },
        }
    }
}

impl Clone for CardState {
    fn clone(&self) -> (r: Self)
        ensures
            r@ == self@,
    {
        let meta: Option<BlockMeta> = match &self.meta {
            Some(meta) => Some(meta.clone()),
            None => None,
        };
        let error: Option<String> = match &self.error {
            Some(error) => Some(error.clone()),
            None => None,
        };
        CardState { meta, error }
    }
}

/// What came of asking for a block's bitmap.
pub enum DataReply {
    /// No answer, or one that does not stand for success.
    Failed,
    /// A successful answer whose bytes did not arrive.
    Unreadable,
    /// The bitmap.
    Loaded(Vec<u8>),
}

/// Where a card stands in filling itself.
#[derive(Debug, Clone, Copy, PartialEq, Eq, Structural)]
pub enum CardStage {
    /// The description was asked for.
    Meta,
    /// The bitmap was asked for.
    Data,
    /// Nothing is asked for any more.
    Over,
}

/// What came of an action.
pub enum CardEvent {
    Meta(MetaReply),
    Data(DataReply),
}

/// What is to be done next.
pub enum CardAction {
    /// Ask for the block's description.
    AskMeta { url: String },
    /// Ask for the block's bitmap.
    AskData { url: String },
    /// Draw the bitmap; nothing is left to do after it.
    Draw(Vec<u8>),
    /// Nothing is left to do.
    Done,
}

/// What is to be done next, with addresses and bitmaps as sequences.
pub enum CardActionView {
    AskMeta { url: Seq<char> },
    AskData { url: Seq<char> },
    Draw(Seq<u8>),
    Done,
}

impl View for CardAction {
    type V = CardActionView;

    open spec fn view(&self) -> CardActionView {
        match *self {
            CardAction::AskMeta { url } => CardActionView::AskMeta { url: url@ },
            CardAction::AskData { url } => CardActionView::AskData { url: url@ },
            CardAction::Draw(sizes) => CardActionView::Draw(sizes@),
            CardAction::Done => CardActionView::Done,
        }
    }
}

/// A step of a card: what it knows after the step, where it stands, and what is to be done next.
pub type CardStep = (CardView, CardStage, CardActionView);

/// The first step of a card, which knows nothing of its block: its description is asked for.
pub open spec fn first_card_step(props: PropsView) -> CardStep {
    (
        CardView { meta: None, error: None },
        CardStage::Meta,
        CardActionView::AskMeta { url: api_meta_path(props.api_base, props.height) },
    )
}

/// Whether an event can come of what a card last asked for.
pub open spec fn expects_card_event(stage: CardStage, event: CardEvent) -> bool {
    match event {
        CardEvent::Meta(_) => stage is Meta,
        CardEvent::Data(_) => stage is Data,
    }
}

/// The step that follows an event that the card expects: whatever became of the description, the
/// bitmap is asked for next, and it is drawn where it arrived.
pub open spec fn next_card_step(props: PropsView, card: CardView, event: CardEvent) -> CardStep {
    match event {
        CardEvent::Meta(reply) => (
            after_reply(card, reply),
            CardStage::Data,
            CardActionView::AskData { url: api_block_path(props.api_base, props.height) },
        ),
        CardEvent::Data(DataReply::Loaded(sizes)) => (
            card,
            CardStage::Over,
            CardActionView::Draw(sizes@),
        ),
        CardEvent::Data(_) => (card, CardStage::Over, CardActionView::Done),
    }
}

/// Begins to fill a card.
pub fn begin_card(props: &BlockCardProps) -> (r: (CardState, CardStage, CardAction))
    ensures
        (r.0@, r.1, r.2@) == first_card_step(props@),
{
    (CardState::new(), CardStage::Meta, CardAction::AskMeta { url: props.meta_url() })
}

impl CardStage {
    /// Goes on with what came of the last action.
    pub fn step(self, card: &mut CardState, props: &BlockCardProps, event: CardEvent) -> (r: (
        CardStage,
        CardAction,
    ))
        requires
            expects_card_event(self, event),
        ensures
            (final(card)@, r.0, r.1@) == next_card_step(props@, old(card)@, event),
    {
        match event {
            CardEvent::Meta(reply) => {
                card.on_meta(reply);
                (CardStage::Data, CardAction::AskData { url: props.data_url() })
            },
            CardEvent::Data(DataReply::Loaded(sizes)) => (
                CardStage::Over,
                CardAction::Draw(sizes),
            ),
            CardEvent::Data(_) => (CardStage::Over, CardAction::Done),
        }
    }
}

/// A card asks for its block's description and then, whatever became of that, for its bitmap, and
/// for nothing else. What arrived as bitmap is drawn, and the line about the block is the one
/// that its description gave.
pub proof fn law_card(props: PropsView, meta: MetaReply, data: DataReply)
    ensures
        ({
            let asked = first_card_step(props);
            let described = next_card_step(props, asked.0, CardEvent::Meta(meta));
            let filled = next_card_step(props, described.0, CardEvent::Data(data));
            &&& asked.2 == CardActionView::AskMeta {
                url: api_meta_path(props.api_base, props.height),
            }
            &&& expects_card_event(asked.1, CardEvent::Meta(meta))
            &&& described.2 == CardActionView::AskData {
                url: api_block_path(props.api_base, props.height),
            }
            &&& expects_card_event(described.1, CardEvent::Data(data))
            &&& filled.1 is Over
            &&& filled.2 == (match data {
                DataReply::Loaded(sizes) => CardActionView::Draw(sizes@),
                _ => CardActionView::Done,
            })
            &&& card_line(filled.0) == (match meta {
                MetaReply::Failed => "Failed to load meta"@,
                MetaReply::Unreadable => "loading"@,
                MetaReply::Loaded(m) => decimal(m.tx_count as nat) + " tx"@,
            })
        }),
{
}

/// The heights of the blocks on a page that starts at a height.
pub fn card_heights(start: u64) -> (r: Vec<u64>)
    requires
        start + CARD_COUNT - 1 <= u64::MAX,
    ensures
        r@ == Seq::new(CARD_COUNT as nat, |i: int| (start + i) as u64),
{
    let mut heights: Vec<u64> = Vec::new();
    let mut i: u64 = 0;
    while i < CARD_COUNT
        invariant
            i <= CARD_COUNT,
            start + CARD_COUNT - 1 <= u64::MAX,
            heights@ =~= Seq::new(i as nat, |j: int| (start + j) as u64),
        decreases CARD_COUNT - i,
    {
        heights.push(start + i);
        i = i + 1;
    }
    heights
}

/// Whatever a card knew before, a description that arrives is what its line shows from then on, a
/// failure shows only while there is no description, and an answer without one changes nothing.
pub proof fn law_card_line(card: CardView, meta: BlockMeta)
    ensures
        card_line(after_reply(card, MetaReply::Loaded(meta))) == decimal(meta.tx_count as nat)
            + " tx"@,
        card.meta is None ==> card_line(after_reply(card, MetaReply::Failed))
            == "Failed to load meta"@,
        card.meta is Some ==> card_line(after_reply(card, MetaReply::Failed)) == card_line(card),
        after_reply(card, MetaReply::Unreadable) == card,
        card.meta matches Some(known) ==> card_line(card) == decimal(known.tx_count as nat)
            + " tx"@,
        card.meta is None && card.error is None ==> card_line(card) == "loading"@,
        card.meta is None && card.error is Some ==> card_line(card) == card.error->0,
        after_reply(card, MetaReply::Loaded(meta)).meta == Some(meta@),
        after_reply(card, MetaReply::Loaded(meta)).error == card.error,
        after_reply(card, MetaReply::Failed).meta == card.meta,
{
}

/// A card, what it is to show and what is to be done for it are described in full.
pub proof fn law_card_views(props: BlockCardProps, card: CardState, action: CardAction)
    ensures
        props@.height == props.height,
        props@.api_base == props.api_base@,
        card@.meta is Some <==> card.meta is Some,
        card.meta matches Some(meta) ==> card@.meta == Some(meta@),
        card@.error is Some <==> card.error is Some,
        card.error matches Some(error) ==> card@.error == Some(error@),
        match action {
            CardAction::AskMeta { url } => action@ == (CardActionView::AskMeta { url: url@ }),
            CardAction::AskData { url } => action@ == (CardActionView::AskData { url: url@ }),
            CardAction::Draw(sizes) => action@ == (CardActionView::Draw(sizes@)),
            CardAction::Done => action@ is Done,
        },
{
}

} // verus!
