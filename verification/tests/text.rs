use girlpound::cards::{Rank, Suit};
use girlpound::emoji::{emoji, EmojiTable};
use girlpound::text::{
    decimal_string, get_bit, hhmmss, parse_u64, push_signed_decimal, remove_backticks,
    strip_markdown, truncate,
};

#[test]
fn hhmmss_pads_each_part() {
    assert_eq!(hhmmss(0), "00:00:00");
    assert_eq!(hhmmss(59), "00:00:59");
    assert_eq!(hhmmss(3661), "01:01:01");
    assert_eq!(hhmmss(86399), "23:59:59");
    assert_eq!(hhmmss(360000), "100:00:00");
}

#[test]
fn decimal_forms() {
    assert_eq!(decimal_string(0), "0");
    assert_eq!(decimal_string(1234567890), "1234567890");
    assert_eq!(decimal_string(u64::MAX), u64::MAX.to_string());
    let mut s = String::from("x");
    push_signed_decimal(&mut s, -42);
    assert_eq!(s, "x-42");
    let mut s = String::new();
    push_signed_decimal(&mut s, i64::MIN);
    assert_eq!(s, i64::MIN.to_string());
}

#[test]
fn bits() {
    assert!(get_bit(0b101, 0));
    assert!(!get_bit(0b101, 1));
    assert!(get_bit(0b101, 2));
    assert!(get_bit(0x8000, 15));
    assert!(!get_bit(0, 15));
}

#[test]
fn truncate_counts_characters() {
    assert_eq!(truncate("hello", 3), "hel");
    assert_eq!(truncate("hello", 10), "hello");
    assert_eq!(truncate("héllo", 2), "hé");
    assert_eq!(truncate("", 2), "");
}

#[test]
fn backticks_are_removed() {
    assert_eq!(remove_backticks("`rm -rf /`"), "rm -rf /");
    assert_eq!(remove_backticks("no ticks"), "no ticks");
}

#[test]
fn markdown_is_escaped() {
    assert_eq!(strip_markdown("a*b"), "a\\\\*b");
    assert_eq!(strip_markdown("x\\y"), "x\\\\y");
    assert_eq!(strip_markdown("plain"), "plain");
    assert_eq!(strip_markdown("[link]"), "\\\\[link]");
}

#[test]
fn emoji_lookup_takes_the_latest_entry() {
    let mut table = EmojiTable::new();
    table.insert("catcoin".to_owned(), "<:catcoin:1>".to_owned());
    table.insert("red_ace_top".to_owned(), "<:ra:2>".to_owned());
    table.insert("catcoin".to_owned(), "<:catcoin:3>".to_owned());
    table.insert("heart_bottom".to_owned(), "<:hb:4>".to_owned());
    assert!(table.contains("catcoin"));
    assert!(!table.contains("dogcoin"));
    assert_eq!(emoji(&table, "catcoin"), "<:catcoin:3>");
    assert_eq!(Rank::Ace.emoji(&table, true), "<:ra:2>");
    assert_eq!(Suit::Hearts.emoji(&table), "<:hb:4>");
}

#[test]
fn parse_reads_back_decimals() {
    for n in [0u64, 7, 10, 99, 12345, u64::MAX] {
        assert_eq!(parse_u64(&decimal_string(n)), Some(n));
    }
    assert_eq!(parse_u64("+5"), Some(5));
    assert_eq!(parse_u64(""), None);
    assert_eq!(parse_u64("18446744073709551616"), None);
}
