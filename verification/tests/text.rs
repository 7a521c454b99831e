use battle::arith::{divide, saturating_difference, saturating_product, saturating_sum, take_share};
use battle::text::{
    after_prefix, chars_of, param_at, parse_number, piece_number, spell_number, split_list,
    split_text, text_is, trim_text,
};

#[test]
fn split_keeps_empty_pieces() {
    assert_eq!(split_text("60033#100#205", '#'), vec!["60033", "100", "205"]);
    assert_eq!(split_text("", '|'), vec![""]);
    assert_eq!(split_text("|a|", '|'), vec!["", "a", ""]);
}

#[test]
fn split_and_join_give_the_text_back() {
    for text in ["1#2#3", "", "##", "abc", "a##b#"] {
        assert_eq!(split_text(text, '#').join("#"), text);
    }
}

#[test]
fn a_loose_list_has_four_separators() {
    assert_eq!(split_list("1|2,3;4#5"), vec!["1", "2", "3", "4", "5"]);
}

#[test]
fn numbers_read_like_integers() {
    for text in [
        "0", "12", "-12", "+12", "2147483647", "-2147483648", "2147483648", "-2147483649", "", "-",
        "+", "1 ", " 1", "1a", "0x1", "00012", "99999999999999999999",
    ] {
        assert_eq!(parse_number(text), text.parse::<i32>().ok(), "{text}");
    }
}

#[test]
fn a_spelled_number_reads_back() {
    for n in [0, 7, 10, 99, 100, 1390, i32::MAX] {
        let text = spell_number(n);
        assert_eq!(text, n.to_string());
        assert_eq!(parse_number(&text), Some(n));
    }
}

#[test]
fn missing_parameters_count_as_zero() {
    assert_eq!(param_at("10004#205#x", 1), 205);
    assert_eq!(param_at("10004#205#x", 2), 0);
    assert_eq!(param_at("10004#205#x", 9), 0);
    assert_eq!(piece_number(&split_text("1#x", '#'), 1), None);
    assert_eq!(piece_number(&split_text("1#2", '#'), 1), Some(2));
    assert_eq!(piece_number(&split_text("1#2", '#'), 2), None);
}

#[test]
fn white_space_is_trimmed_at_both_ends() {
    for text in ["  a b ", "\t\n7\r ", "", "   ", "x", "\u{3000}y\u{a0}"] {
        assert_eq!(trim_text(text), text.trim(), "{text:?}");
    }
}

#[test]
fn prefixes_and_equal_texts() {
    assert_eq!(after_prefix("60174#5", "60174#"), Some("5".to_string()));
    assert_eq!(after_prefix("6017", "60174#"), None);
    assert_eq!(after_prefix("abc", ""), Some("abc".to_string()));
    assert!(text_is(&"Burn".to_string(), "Burn"));
    assert!(!text_is(&"Burn".to_string(), "burn"));
    assert_eq!(chars_of("aé"), vec!['a', 'é']);
}

#[test]
fn arithmetic_stops_at_the_ends_of_the_range() {
    assert_eq!(saturating_sum(i32::MAX, 1), i32::MAX);
    assert_eq!(saturating_sum(i32::MIN, -1), i32::MIN);
    assert_eq!(saturating_difference(i32::MIN, 1), i32::MIN);
    assert_eq!(saturating_difference(3, 5), -2);
    assert_eq!(saturating_product(i32::MAX, 2), i32::MAX);
    assert_eq!(saturating_product(i32::MAX, -2), i32::MIN);
    assert_eq!(saturating_product(i32::MIN, -1), i32::MAX);
    assert_eq!(divide(-7, 2), -3);
    assert_eq!(divide(7, 2), 3);
    assert_eq!(take_share(12000, 150, 1000), 1800);
}
