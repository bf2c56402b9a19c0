use bitmap_render::config::{
    allowed_origins, cache_capacity, max_db_connections, mempool_base_url, min_db_connections,
    ord_base_url, port, text_setting, Origins,
};
use bitmap_render::response::can_be_header;
use bitmap_render::text::{
    decimal_string, has_block_hash_form, parse_decimal, split, trim, trim_trailing_slashes,
};

#[test]
fn numbers_read_back_as_written() {
    for n in [0, 1, 9, 10, 25, 840_000, 18_446_744_073_709_551_615u64] {
        assert_eq!(decimal_string(n), n.to_string());
        assert_eq!(parse_decimal(&decimal_string(n)), Some(n));
    }
}

#[test]
fn numbers_are_read_as_the_standard_library_reads_them() {
    let texts = [
        "", "+", "-1", "+7", "007", " 7", "7 ", "1_000", "0x10", "18446744073709551615",
        "18446744073709551616", "99999999999999999999999", "000000000000000000000000005", "++1", "1+",
    ];
    for text in texts {
        assert_eq!(parse_decimal(text), text.parse::<u64>().ok(), "{}", text);
    }
}

#[test]
fn trailing_slashes_go_and_inner_ones_stay() {
    assert_eq!(trim_trailing_slashes("https://a/b//"), "https://a/b");
    assert_eq!(trim_trailing_slashes("https://a/b"), "https://a/b");
    assert_eq!(trim_trailing_slashes("///"), "");
    assert_eq!(trim_trailing_slashes(""), "");
}

#[test]
fn white_space_is_trimmed_as_the_standard_library_trims_it() {
    for text in ["", " ", " a ", "\u{a0}a\u{3000}", "\ta b\r\n", "a\u{200b}", "\u{1c}a", "\u{2003}\u{2028}x\u{85}"] {
        assert_eq!(trim(text), text.trim());
    }
    for code in 0..0x1_1000u32 {
        if let Some(c) = char::from_u32(code) {
            let text = c.to_string();
            assert_eq!(trim(&text).is_empty(), c.is_whitespace(), "{:x}", code);
        }
    }
}

#[test]
fn lists_split_at_every_comma() {
    for text in ["", ",", "a", "a,b", ",a,,b,"] {
        let expected: Vec<String> = text.split(',').map(|piece| piece.to_string()).collect();
        let pieces = split(text, ',');
        assert_eq!(pieces, expected);
        assert_eq!(pieces.join(","), text);
    }
}

#[test]
fn block_hashes_are_64_hexadecimal_digits() {
    let hash = "00000000000000000001Ab3dEf5a9c0123456789abcdefABCDEF000000000000";
    assert_eq!(hash.len(), 64);
    assert!(has_block_hash_form(hash));
    assert!(!has_block_hash_form(&hash[1..]));
    assert!(!has_block_hash_form(&format!("{}0", hash)));
    assert!(!has_block_hash_form(&format!("g{}", &hash[1..])));
    assert!(!has_block_hash_form(&"é".repeat(32)));
    assert!(!has_block_hash_form(""));
}

#[test]
fn header_values_are_what_the_http_crate_takes() {
    assert!(can_be_header(""));
    assert!(can_be_header("https://example.com"));
    assert!(can_be_header("a\tb é"));
    assert!(!can_be_header("a\nb"));
    assert!(!can_be_header("\u{7f}"));
    assert!(!can_be_header("a\0"));
}

#[test]
fn cache_capacity_is_positive() {
    assert_eq!(cache_capacity(None), 128);
    assert_eq!(cache_capacity(Some("0")), 128);
    assert_eq!(cache_capacity(Some("many")), 128);
    assert_eq!(cache_capacity(Some("1")), 1);
    assert_eq!(cache_capacity(Some("+64")), 64);
}

#[test]
fn ports_fit_in_sixteen_bits() {
    assert_eq!(port(None), 3000);
    assert_eq!(port(Some("8080")), 8080);
    assert_eq!(port(Some("0")), 0);
    assert_eq!(port(Some("65535")), 65535);
    assert_eq!(port(Some("65536")), 3000);
}

#[test]
fn fewest_connections_never_exceed_most() {
    assert_eq!(max_db_connections(None), 16);
    assert_eq!(max_db_connections(Some("0")), 16);
    assert_eq!(max_db_connections(Some("4294967295")), 4294967295);
    assert_eq!(max_db_connections(Some("4294967296")), 16);
    assert_eq!(min_db_connections(None, 16), 0);
    assert_eq!(min_db_connections(Some("3"), 16), 3);
    assert_eq!(min_db_connections(Some("30"), 16), 16);
    assert_eq!(min_db_connections(Some("x"), 16), 0);
}

#[test]
fn base_urls_have_no_trailing_slash() {
    assert_eq!(mempool_base_url(None), "https://mempool.space/api");
    assert_eq!(mempool_base_url(Some("http://localhost:1/")), "http://localhost:1");
    assert_eq!(ord_base_url(None), None);
    assert_eq!(ord_base_url(Some("http://ord//")), Some("http://ord".to_string()));
    assert_eq!(text_setting(None, "127.0.0.1"), "127.0.0.1");
    assert_eq!(text_setting(Some("::"), "127.0.0.1"), "::");
}

#[test]
fn origins_are_any_or_listed() {
    assert!(matches!(allowed_origins(None), Origins::Any));
    assert!(matches!(allowed_origins(Some("*")), Origins::Any));
    match allowed_origins(Some(" https://a.example , bad\u{7f},https://b.example,")) {
        Origins::List(origins) => {
            assert_eq!(origins, vec!["https://a.example", "https://b.example", ""])
        }
        Origins::Any => panic!("a list was set"),
    }
    match allowed_origins(Some("**")) {
        Origins::List(origins) => assert_eq!(origins, vec!["**"]),
        Origins::Any => panic!("a list was set"),
    }
}
