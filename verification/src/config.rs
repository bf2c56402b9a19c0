//! The settings of the service, each read from the text of an environment variable.

use vstd::prelude::*;

use crate::response::{can_be_header, is_header_value};
use crate::text::{
    decimal, law_decimal, law_decimal_round_trip, law_parsed_decimal, law_split_at_separator,
    parse_decimal, parsed_up_to, split, split_pieces, trim, trim_trailing_slashes, trimmed,
    without_trailing,
};

verus! {

/// The number of entries that each cache has room for by default.
pub const DEFAULT_CACHE_CAPACITY: usize = 128;

/// The port that the service listens on by default.
pub const DEFAULT_PORT: u16 = 3000;

/// The number of database connections that are held at most by default.
pub const DEFAULT_MAX_DB_CONNECTIONS: u32 = 16;

/// The address of the explorer that is asked by default.
pub open spec fn default_mempool_base_url() -> Seq<char> {
    "https://mempool.space/api"@
}

/// The number up to `max` that a setting spells, where it is set and spells one.
pub open spec fn setting(value: Option<&str>, max: nat) -> Option<nat> {
    match value {
        Some(s) => parsed_up_to(s@, max),
        None => None,
    }
}

/// The number up to `max` that a setting spells.
fn number_setting(value: Option<&str>, max: u64) -> (r: Option<u64>)
    ensures
        r is Some <==> setting(value, max as nat) is Some,
        r matches Some(v) ==> setting(value, max as nat) == Some(v as nat),
{
    match value {
        Some(s) => match parse_decimal(s) {
            Some(v) => if v <= max {
                Some(v)
            } else {
                None
            },
            None => None,
        },
        None => None,
    }
}

/// The number of entries that each cache has room for: a positive number, or the default.
pub fn cache_capacity(value: Option<&str>) -> (r: usize)
    ensures
        r > 0,
        r as nat == (match setting(value, usize::MAX as nat) {
            Some(v) => if v > 0 {
                v
            } else {
                DEFAULT_CACHE_CAPACITY as nat
            },
            None => DEFAULT_CACHE_CAPACITY as nat,
        }),
{
    match number_setting(value, usize::MAX as u64) {
        Some(v) => if v > 0 {
            v as usize
        } else {
            DEFAULT_CACHE_CAPACITY
        },
        None => DEFAULT_CACHE_CAPACITY,
    }
}

/// The port that the service listens on.
pub fn port(value: Option<&str>) -> (r: u16)
    ensures
        r as nat == (match setting(value, u16::MAX as nat) {
            Some(v) => v,
            None => DEFAULT_PORT as nat,
        }),
{
    match number_setting(value, u16::MAX as u64) {
        Some(v) => v as u16,
        None => DEFAULT_PORT,
    }
}

/// The number of database connections that are held at most: a positive number, or the default.
pub fn max_db_connections(value: Option<&str>) -> (r: u32)
    ensures
        r > 0,
        r as nat == (match setting(value, u32::MAX as nat) {
            Some(v) => if v > 0 {
                v
            } else {
                DEFAULT_MAX_DB_CONNECTIONS as nat
            },
            None => DEFAULT_MAX_DB_CONNECTIONS as nat,
        }),
{
    match number_setting(value, u32::MAX as u64) {
        Some(v) => if v > 0 {
            v as u32
        } else {
            DEFAULT_MAX_DB_CONNECTIONS
        },
        None => DEFAULT_MAX_DB_CONNECTIONS,
    }
}

/// The number of database connections that are held at least: none by default, and never more
/// than are held at most.
pub fn min_db_connections(value: Option<&str>, max_connections: u32) -> (r: u32)
    ensures
        r <= max_connections,
        r as nat == (match setting(value, u32::MAX as nat) {
            Some(v) => if v < max_connections {
                v
            } else {
                max_connections as nat
            },
            None => 0,
        }),
{
    match number_setting(value, u32::MAX as u64) {
        Some(v) => if v < max_connections as u64 {
            v as u32
        } else {
            max_connections
        },
        None => 0,
    }
}

/// The address of the explorer, without slashes at its end.
pub fn mempool_base_url(value: Option<&str>) -> (r: String)
    ensures
        r@ == without_trailing(
            match value {
                Some(s) => s@,
                None => default_mempool_base_url(),
            },
            '/',
        ),
{
    match value {
        Some(s) => trim_trailing_slashes(s),
        None => trim_trailing_slashes("https://mempool.space/api"),
    }
}

/// The address of the indexer, without slashes at its end, where one is set.
pub fn ord_base_url(value: Option<&str>) -> (r: Option<String>)
    ensures
        r is Some <==> value is Some,
        r matches Some(url) ==> url@ == without_trailing((value->0)@, '/'),
{
    match value {
        Some(s) => Some(trim_trailing_slashes(s)),
        None => None,
    }
}

/// A setting that is taken as it is, or its default.
pub fn text_setting(value: Option<&str>, default: &str) -> (r: String)
    ensures
        r@ == (match value {
            Some(s) => s@,
            None => default@,
        }),
{
    match value {
        Some(s) => s.to_owned(),
        None => default.to_owned(),
    }
}

/// The pages that may use the service.
pub enum Origins {
    /// All of them.
    Any,
    /// Those of these origins.
    List(Vec<String>),
}

/// The pieces between commas, each without the white space around it.
pub open spec fn trimmed_pieces(s: Seq<char>) -> Seq<Seq<char>> {
    split_pieces(s, ',').map_values(|piece: Seq<char>| trimmed(piece))
}

/// The origins that a list names: its pieces between commas, trimmed, as far as they can be the
/// value of a header.
pub open spec fn listed_origins(s: Seq<char>) -> Seq<Seq<char>> {
    trimmed_pieces(s).filter(|piece: Seq<char>| is_header_value(piece))
}

/// The texts of strings.
pub open spec fn texts(strings: Seq<String>) -> Seq<Seq<char>> {
    strings.map_values(|s: String| s@)
}

/// The pages that may use the service: all of them, where nothing or `*` is set, else those of
/// the listed origins.
pub fn allowed_origins(value: Option<&str>) -> (r: Origins)
    ensures
        match value {
            None => r is Any,
            Some(s) => if s@ == seq!['*'] {
                r is Any
            } else {
                r matches Origins::List(origins) && texts(origins@) == listed_origins(s@)
            },
        },
{
    let list: &str = match value {
        None => {
            return Origins::Any;
        },
        Some(s) => s,
    };
    if list.unicode_len() == 1 && list.get_char(0) == '*' {
        assert(list@ =~= seq!['*']);
        return Origins::Any;
    }
    let pieces: Vec<String> = split(list, ',');
    let mut origins: Vec<String> = Vec::new();
    let mut i: usize = 0;
    let ghost all = trimmed_pieces(list@);
    let ghost valid = |piece: Seq<char>| is_header_value(piece);
    reveal(Seq::filter);
    assert(all.take(0).filter(valid) =~= Seq::empty());
    assert(texts(origins@) =~= Seq::empty());
    while i < pieces.len()
        invariant
            i <= pieces@.len(),
            pieces@.len() == split_pieces(list@, ',').len(),
            forall|j: int|
                0 <= j < pieces@.len() ==> (#[trigger] pieces@[j])@ == split_pieces(
                    list@,
                    ',',
                )[j],
            all == trimmed_pieces(list@),
            valid == (|piece: Seq<char>| is_header_value(piece)),
            texts(origins@) == all.take(i as int).filter(valid),
        decreases pieces@.len() - i,
    {
        let piece: &str = trim(pieces[i].as_str());
        assert(piece@ == all[i as int]);
        assert(all.take(i + 1).drop_last() =~= all.take(i as int));
        reveal(Seq::filter);
        if can_be_header(piece) {
            let ghost before = origins@;
            origins.push(piece.to_owned());
            assert(texts(origins@) =~= texts(before).push(piece@));
        }
        i = i + 1;
    }
    assert(all.take(i as int) =~= all);
    Origins::List(origins)
}

/// A setting that is not set has no number. One that spells a number, with or without a plus sign
/// and zeros in front, has that number where it is not above the limit, and none where it is.
pub proof fn law_setting(value: &str, n: nat, max: nat)
    ensures
        setting(None, max) is None,
        value@ == decimal(n) || value@ == seq!['+'] + decimal(n) ==> setting(Some(value), max)
            == (if n <= max {
            Some(n)
        } else {
            None
        }),
        setting(Some(value), max) is Some ==> value@.len() > 0 && forall|i: int|
            0 <= i < value@.len() ==> '0' <= #[trigger] value@[i] <= '9' || (i == 0 && value@[i]
                == '+' && value@.len() > 1),
{
    law_decimal(n);
    law_decimal_round_trip(n);
    law_parsed_decimal(decimal(n), max);
    law_parsed_decimal(value@, max);
}

/// The origins on both sides of a comma are the origins of what stands there; a list without a
/// comma names itself, without the white space around it, where that can be the value of a
/// header, and else nothing.
pub proof fn law_listed_origins(a: Seq<char>, b: Seq<char>)
    ensures
        listed_origins(a + seq![','] + b) == listed_origins(a) + listed_origins(b),
        !a.contains(',') ==> listed_origins(a) == (if is_header_value(trimmed(a)) {
            seq![trimmed(a)]
        } else {
            Seq::<Seq<char>>::empty()
        }),
{
    law_split_at_separator(a, b, ',');
    let valid = |piece: Seq<char>| is_header_value(piece);
    assert(trimmed_pieces(a + seq![','] + b) =~= trimmed_pieces(a) + trimmed_pieces(b));
    Seq::filter_distributes_over_add(trimmed_pieces(a), trimmed_pieces(b), valid);
    if !a.contains(',') {
        let one = seq![trimmed(a)];
        assert(trimmed_pieces(a) =~= one);
        reveal(Seq::filter);
        assert(one.drop_last() =~= Seq::<Seq<char>>::empty());
        assert(Seq::<Seq<char>>::empty().filter(valid) =~= Seq::<Seq<char>>::empty());
        assert(listed_origins(a) =~= (if is_header_value(trimmed(a)) {
            one
        } else {
            Seq::<Seq<char>>::empty()
        }));
    }
}

/// Strings are described one by one, by their texts; and blocks come from the public explorer
/// where no other is set.
pub proof fn law_texts(strings: Seq<String>)
    ensures
        texts(strings).len() == strings.len(),
        forall|i: int| 0 <= i < strings.len() ==> #[trigger] texts(strings)[i] == strings[i]@,
        default_mempool_base_url() == "https://mempool.space/api"@,
{
}

} // verus!
