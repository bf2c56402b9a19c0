//! The verified core of a service that shows Bitcoin blocks as bitmaps.
//!
//! A block's bitmap has one byte for each of its transactions: the size class of what the
//! transaction moves ([`amounts`]). Blocks come from an explorer's pages ([`fetch`]), from an
//! indexer ([`ord`]) or from a database ([`server`]); recent ones are kept ([`cache`]) and sent
//! compressed ([`response`]). A block is also shown as a picture ([`picture`]) and as a card on a
//! page ([`card`]).

pub mod amounts;
pub mod cache;
pub mod card;
pub mod config;
pub mod error;
pub mod fetch;
pub mod layout;
pub mod meta;
pub mod ord;
pub mod picture;
pub mod proxy;
pub mod response;
pub mod server;
pub mod summary;
pub mod text;
pub mod urls;
