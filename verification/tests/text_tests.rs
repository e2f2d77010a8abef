use xpub_scan::text::{parse_u32, replace, same_text, split, trim};

fn strings(items: &[&str]) -> Vec<String> {
    items.iter().map(|s| s.to_string()).collect()
}

#[test]
fn same_text_compares_characters() {
    assert!(same_text("btc", "btc"));
    assert!(!same_text("btc", "BTC"));
    assert!(!same_text("btc", "btc "));
    assert!(same_text("", ""));
}

#[test]
fn split_cuts_at_every_separator() {
    assert_eq!(split("a.b.c", '.'), strings(&["a", "b", "c"]));
    assert_eq!(split("chain_stats.funded", '.'), strings(&["chain_stats", "funded"]));
    assert_eq!(split("balance", '.'), strings(&["balance"]));
}

#[test]
fn split_keeps_empty_pieces() {
    assert_eq!(split("", '.'), strings(&[""]));
    assert_eq!(split(".", '.'), strings(&["", ""]));
    assert_eq!(split("a..b", '.'), strings(&["a", "", "b"]));
    assert_eq!(split("a.", '.'), strings(&["a", ""]));
    assert_eq!(split(".a", '.'), strings(&["", "a"]));
}

#[test]
fn split_agrees_with_std() {
    for text in ["", ",", "a,b", "P2PKH, P2TR", ",,", "é,ü,", "x"] {
        let want: Vec<String> = text.split(',').map(|s| s.to_string()).collect();
        assert_eq!(split(text, ','), want);
    }
}

#[test]
fn split_pieces_join_to_the_text() {
    for text in ["", "a/b", "//3/0'", "m/0/1", "/"] {
        let parts = split(text, '/');
        assert_eq!(parts.join("/"), text);
        assert!(parts.iter().all(|p| !p.contains('/')));
    }
}

#[test]
fn parse_u32_reads_decimal_numbers() {
    assert_eq!(parse_u32("0"), Some(0));
    assert_eq!(parse_u32("10"), Some(10));
    assert_eq!(parse_u32("+7"), Some(7));
    assert_eq!(parse_u32("007"), Some(7));
    assert_eq!(parse_u32("4294967295"), Some(4294967295));
}

#[test]
fn parse_u32_refuses_what_is_no_number() {
    assert_eq!(parse_u32(""), None);
    assert_eq!(parse_u32("+"), None);
    assert_eq!(parse_u32("-1"), None);
    assert_eq!(parse_u32("-0"), None);
    assert_eq!(parse_u32("12a"), None);
    assert_eq!(parse_u32(" 5"), None);
    assert_eq!(parse_u32("5 "), None);
    assert_eq!(parse_u32("1_000"), None);
    assert_eq!(parse_u32("++1"), None);
    assert_eq!(parse_u32("٣"), None);
}

#[test]
fn parse_u32_refuses_numbers_that_do_not_fit() {
    assert_eq!(parse_u32("4294967296"), None);
    assert_eq!(parse_u32("99999999999999999999999999"), None);
    assert_eq!(parse_u32("00000000004294967295"), Some(4294967295));
}

#[test]
fn parse_u32_agrees_with_std() {
    for text in ["", "+", "0", "+0", "42", "-3", "4294967295", "4294967296", "1e3", "0x10", "١"] {
        assert_eq!(parse_u32(text), text.parse::<u32>().ok());
    }
}

#[test]
fn trim_takes_white_space_off_both_ends() {
    assert_eq!(trim("  a b \n"), "a b");
    assert_eq!(trim("P2TR"), "P2TR");
    assert_eq!(trim("\tP2TR"), "P2TR");
    assert_eq!(trim("\u{a0}x\u{3000}"), "x");
}

#[test]
fn trim_of_white_space_is_empty() {
    assert_eq!(trim(""), "");
    assert_eq!(trim("   "), "");
    assert_eq!(trim("\n"), "");
}

#[test]
fn trim_agrees_with_std() {
    for text in ["", " ", "a", " a", "a ", " a b ", "\u{2003}é\u{2028}", "\u{200b}x"] {
        assert_eq!(trim(text), text.trim());
    }
}

#[test]
fn replace_fills_every_place() {
    assert_eq!(replace("https://h/api/{addr}", "{addr}", "abc"), "https://h/api/abc");
    assert_eq!(replace("{addr}/{addr}", "{addr}", "x"), "x/x");
    assert_eq!(replace("{addr}", "{addr}", ""), "");
    assert_eq!(replace("no place", "{addr}", "abc"), "no place");
    assert_eq!(replace("", "{addr}", "abc"), "");
}

#[test]
fn replace_takes_occurrences_from_the_left() {
    assert_eq!(replace("aaa", "aa", "b"), "ba");
    assert_eq!(replace("aaaa", "aa", "b"), "bb");
    assert_eq!(replace("{addr", "{addr}", "x"), "{addr");
    assert_eq!(replace("{{addr}}", "{addr}", "x"), "{x}");
}

#[test]
fn replace_with_an_empty_pattern_changes_nothing() {
    assert_eq!(replace("abc", "", "x"), "abc");
}

#[test]
fn replace_agrees_with_std() {
    for (text, pat, to) in [
        ("a{addr}b{addr}", "{addr}", "1"),
        ("abab", "ab", "ba"),
        ("ééé", "é", "e"),
        ("xyz", "yz", "{addr}"),
    ] {
        assert_eq!(replace(text, pat, to), text.replace(pat, to));
    }
}
