//! The description of a block: its identifier, height, time, size and number of transactions.

use vstd::prelude::*;

use crate::error::{unknown_block_error, AppError};
use crate::ord::OrdBlock;

verus! {

/// A block as an explorer describes it.
#[derive(Debug)]
pub struct Block {
    pub id: String,
    pub height: u64,
    pub timestamp: u64,
    pub size: u64,
    pub tx_count: usize,
}

/// The description of a block that the service replies with.
#[derive(Debug)]
pub struct BlockMeta {
    pub id: String,
    pub height: u64,
    pub timestamp: u64,
    pub size: u64,
    pub tx_count: usize,
}

/// What a description says.
pub struct MetaView {
    pub id: Seq<char>,
    pub height: u64,
    pub timestamp: u64,
    pub size: u64,
    pub tx_count: usize,
}

impl View for BlockMeta {
    type V = MetaView;

    open spec fn view(&self) -> MetaView {
        MetaView {
            id: self.id@,
            height: self.height,
            timestamp: self.timestamp,
            size: self.size,
            tx_count: self.tx_count,
        }
    }
}

impl Clone for BlockMeta {
    fn clone(&self) -> (r: Self)
        ensures
            r@ == self@,
    {
        BlockMeta {
            id: self.id.clone(),
            height: self.height,
            timestamp: self.timestamp,
            size: self.size,
            tx_count: self.tx_count,
        }
    }
}

/// The two's complement of a signed number, read as an unsigned one.
pub open spec fn wrapped_u64(v: i64) -> int {
    if v >= 0 {
        v as int
    } else {
        v + u64::MAX + 1
    }
}

/// The two's complement of a signed number in machine words, read as an unsigned one.
pub open spec fn wrapped_usize(v: i32) -> int {
    if v >= 0 {
        v as int
    } else {
        v + usize::MAX + 1
    }
}

/// The two's complement of an unsigned number, read as a signed one.
pub open spec fn wrapped_i64(v: u64) -> int {
    if v <= i64::MAX {
        v as int
    } else {
        v - u64::MAX - 1
    }
}

/// The number by which the database knows the block at a height.
pub fn db_height(height: u64) -> (r: i64)
    ensures
        r == wrapped_i64(height),
{
    if height <= i64::MAX as u64 {
        height as i64
    } else {
        -((u64::MAX - height) as i64) - 1
    }
}

fn timestamp_from_db(v: i64) -> (r: u64)
    ensures
        r == wrapped_u64(v),
{
    if v >= 0 {
        v as u64
    } else {
        u64::MAX - (-(v + 1)) as u64
    }
}

fn tx_count_from_db(v: i32) -> (r: usize)
    ensures
        r == wrapped_usize(v),
{
    if v >= 0 {
        v as usize
    } else {
        usize::MAX - (-(v + 1)) as usize
    }
}

/// Describes a block by what an explorer says of it.
pub fn meta_from_block(block: Block) -> (r: BlockMeta)
    ensures
        r@ == (MetaView {
            id: block.id@,
            height: block.height,
            timestamp: block.timestamp,
            size: block.size,
            tx_count: block.tx_count,
        }),
{
    BlockMeta {
        id: block.id,
        height: block.height,
        timestamp: block.timestamp,
        size: block.size,
        tx_count: block.tx_count,
    }
}

/// Describes a block by what the indexer says of it, which knows neither its time nor its size.
pub fn meta_from_ord(block: OrdBlock) -> (r: BlockMeta)
    ensures
        r@ == (MetaView {
            id: block.hash@,
            height: block.height,
            timestamp: 0,
            size: 0,
            tx_count: block.transactions@.len() as usize,
        }),
{
    BlockMeta {
        id: block.hash,
        height: block.height,
        timestamp: 0,
        size: 0,
        tx_count: block.transactions.len(),
    }
}

/// Describes a block by its row in the database: its number of transactions and, where it is
/// known, its time. Without a row the block is unknown.
pub fn meta_from_row(height: u64, row: Option<(i32, Option<i64>)>) -> (r: Result<
    BlockMeta,
    AppError,
>)
    ensures
        r is Ok <==> row is Some,
        r matches Err(e) ==> e@ == unknown_block_error(height),
        r matches Ok(meta) ==> {
            &&& meta.id@ == Seq::<char>::empty()
            &&& meta.height == height
            &&& meta.timestamp == (match (row->0).1 {
                Some(t) => wrapped_u64(t),
                None => 0,
            })
            &&& meta.size == 0
            &&& meta.tx_count == wrapped_usize((row->0).0)
        },
{
    match row {
        Some((tx_count, time)) => {
            let timestamp: u64 = match time {
                Some(t) => timestamp_from_db(t),
                None => 0,
            };
            Ok(
                BlockMeta {
                    id: String::new(),
                    height,
                    timestamp,
                    size: 0,
                    tx_count: tx_count_from_db(tx_count),
                },
            )
        },
        None => Err(AppError::unknown_block(height)),
    }
}

/// Distinct heights are distinct to the database too.
pub proof fn law_db_heights_differ(a: u64, b: u64)
    requires
        wrapped_i64(a) == wrapped_i64(b),
    ensures
        a == b,
{
}

/// A description is made of the block's identifier, height, time, size and number of transactions.
pub proof fn law_meta_view(meta: BlockMeta)
    ensures
        meta@.id == meta.id@,
        meta@.height == meta.height,
        meta@.timestamp == meta.timestamp,
        meta@.size == meta.size,
        meta@.tx_count == meta.tx_count,
{
}

/// A number that changes its type on the way to or from the database keeps its value modulo the
/// size of the type, so that it keeps its value where both types have it.
pub proof fn law_wrapped(height: u64, time: i64, count: i32)
    ensures
        i64::MIN <= wrapped_i64(height) <= i64::MAX,
        (height - wrapped_i64(height)) % 0x1_0000_0000_0000_0000 == 0,
        height <= i64::MAX ==> wrapped_i64(height) == height,
        0 <= wrapped_u64(time) <= u64::MAX,
        (wrapped_u64(time) - time) % 0x1_0000_0000_0000_0000 == 0,
        time >= 0 ==> wrapped_u64(time) == time,
        0 <= wrapped_usize(count) <= usize::MAX,
        (wrapped_usize(count) - count) % (usize::MAX + 1) == 0,
        count >= 0 ==> wrapped_usize(count) == count,
{
    if count < 0 {
        assert((usize::MAX + 1) % (usize::MAX + 1) == 0) by (nonlinear_arith);
    } else {
        vstd::arithmetic::div_mod::lemma_small_mod(0, (usize::MAX + 1) as nat);
    }
}

} // verus!
