//! The addresses of what the service asks for.

use vstd::prelude::*;

use crate::text::{decimal, decimal_string, law_decimal_round_trip};

verus! {

/// Where an explorer names the hash of the block at a height.
pub open spec fn block_height_path(base: Seq<char>, height: u64) -> Seq<char> {
    base + "/block-height/"@ + decimal(height as nat)
}

/// Where the block with an identifier is found: a hash or a decimal height.
pub open spec fn block_path(base: Seq<char>, id: Seq<char>) -> Seq<char> {
    base + "/block/"@ + id
}

/// Where an explorer lists a block's transactions from an offset on.
pub open spec fn tx_page_path(base: Seq<char>, id: Seq<char>, offset: nat) -> Seq<char> {
    base + "/block/"@ + id + "/txs/"@ + decimal(offset)
}

/// Where the indexer names the hash of the block at a height.
pub open spec fn block_hash_path(base: Seq<char>, height: u64) -> Seq<char> {
    base + "/blockhash/"@ + decimal(height as nat)
}

/// Where this service serves the bitmap of the block at a height.
pub open spec fn api_block_path(base: Seq<char>, height: u64) -> Seq<char> {
    base + "/api/block/"@ + decimal(height as nat)
}

/// Where this service serves the description of the block at a height.
pub open spec fn api_meta_path(base: Seq<char>, height: u64) -> Seq<char> {
    base + "/api/block/"@ + decimal(height as nat) + "/meta"@
}

/// Where an explorer names the hash of the block at a height.
pub fn block_height_url(base: &str, height: u64) -> (r: String)
    ensures
        r@ == block_height_path(base@, height),
{
    let mut url: String = base.to_owned();
    url.append("/block-height/");
    url.append(decimal_string(height).as_str());
    url
}

/// Where the block with an identifier is found.
pub fn block_url(base: &str, id: &str) -> (r: String)
    ensures
        r@ == block_path(base@, id@),
{
    let mut url: String = base.to_owned();
    url.append("/block/");
    url.append(id);
    url
}

/// Where an explorer lists a block's transactions from an offset on.
pub fn tx_page_url(base: &str, id: &str, offset: usize) -> (r: String)
    ensures
        r@ == tx_page_path(base@, id@, offset as nat),
{
    let mut url: String = block_url(base, id);
    url.append("/txs/");
    url.append(decimal_string(offset as u64).as_str());
    url
}

/// Where the indexer names the hash of the block at a height.
pub fn block_hash_url(base: &str, height: u64) -> (r: String)
    ensures
        r@ == block_hash_path(base@, height),
{
    let mut url: String = base.to_owned();
    url.append("/blockhash/");
    url.append(decimal_string(height).as_str());
    url
}

/// Where this service serves the bitmap of the block at a height.
pub fn api_block_url(base: &str, height: u64) -> (r: String)
    ensures
        r@ == api_block_path(base@, height),
{
    let mut url: String = base.to_owned();
    url.append("/api/block/");
    url.append(decimal_string(height).as_str());
    url
}

/// Where this service serves the description of the block at a height.
pub fn api_meta_url(base: &str, height: u64) -> (r: String)
    ensures
        r@ == api_meta_path(base@, height),
{
    let mut url: String = api_block_url(base, height);
    url.append("/meta");
    url
}

/// An address is the base, the path of what is asked for, and its number or identifier in full.
pub proof fn law_addresses(base: Seq<char>, id: Seq<char>, height: u64, offset: nat)
    ensures
        block_height_path(base, height) == base + "/block-height/"@ + decimal(height as nat),
        block_path(base, id) == base + "/block/"@ + id,
        tx_page_path(base, id, offset) == block_path(base, id) + "/txs/"@ + decimal(offset),
        block_hash_path(base, height) == base + "/blockhash/"@ + decimal(height as nat),
        api_block_path(base, height) == base + "/api/block/"@ + decimal(height as nat),
        api_meta_path(base, height) == api_block_path(base, height) + "/meta"@,
{
}

/// Distinct heights, identifiers and offsets have distinct addresses.
pub proof fn law_addresses_differ(base: Seq<char>, id: Seq<char>, other: Seq<char>, a: u64, b: u64)
    ensures
        block_path(base, id) == block_path(base, other) ==> id == other,
        block_height_path(base, a) == block_height_path(base, b) ==> a == b,
        block_hash_path(base, a) == block_hash_path(base, b) ==> a == b,
        api_block_path(base, a) == api_block_path(base, b) ==> a == b,
        api_meta_path(base, a) == api_meta_path(base, b) ==> a == b,
        tx_page_path(base, id, a as nat) == tx_page_path(base, id, b as nat) ==> a == b,
{
    law_decimal_round_trip(a as nat);
    law_decimal_round_trip(b as nat);
    let da = decimal(a as nat);
    let db = decimal(b as nat);
    lemma_tails(base + "/block/"@, id, other);
    lemma_tails(base + "/block-height/"@, da, db);
    lemma_tails(base + "/blockhash/"@, da, db);
    lemma_tails(base + "/api/block/"@, da, db);
    lemma_tails(base + "/block/"@ + id + "/txs/"@, da, db);
    let pa = api_meta_path(base, a);
    let pb = api_meta_path(base, b);
    if pa == pb {
        let n = "/meta"@.len() as int;
        assert(pa.take(pa.len() - n) =~= api_block_path(base, a));
        assert(pb.take(pb.len() - n) =~= api_block_path(base, b));
    }
}

proof fn lemma_tails(head: Seq<char>, a: Seq<char>, b: Seq<char>)
    ensures
        head + a == head + b ==> a == b,
{
    assert((head + a).skip(head.len() as int) =~= a);
    assert((head + b).skip(head.len() as int) =~= b);
}

} // verus!
