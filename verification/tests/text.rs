use emm::text::{
    contains_text, copy_texts, date_key_of, decimal_string, ends_with, find_char, hex_string, is_before,
    replace_char, slice, starts_with,
};

fn names(list: &[&str]) -> Vec<String> {
    list.iter().map(|s| s.to_string()).collect()
}

#[test]
fn integers_are_rendered_in_decimal() {
    assert_eq!(decimal_string(0), "0");
    assert_eq!(decimal_string(9), "9");
    assert_eq!(decimal_string(10), "10");
    assert_eq!(decimal_string(1234567890), "1234567890");
    assert_eq!(decimal_string(-1), "-1");
    assert_eq!(decimal_string(-120), "-120");
    assert_eq!(decimal_string(i32::MAX), "2147483647");
    assert_eq!(decimal_string(i32::MIN), "-2147483648");
}

#[test]
fn bytes_are_rendered_in_hexadecimal() {
    assert_eq!(hex_string(&Vec::new()), "");
    assert_eq!(hex_string(&vec![0]), "00");
    assert_eq!(hex_string(&vec![0x0f, 0xf0, 0xa9, 0xff, 0x10]), "0ff0a9ff10");
}

#[test]
fn characters_are_replaced() {
    assert_eq!(replace_char("a b  c", ' ', '-'), "a-b--c");
    assert_eq!(replace_char("abc", ' ', '-'), "abc");
    assert_eq!(replace_char("", ' ', '-'), "");
    assert_eq!(replace_char("é é", ' ', '_'), "é_é");
}

#[test]
fn prefixes_and_suffixes() {
    assert!(starts_with("http://x", "http"));
    assert!(starts_with("http", "http"));
    assert!(starts_with("x", ""));
    assert!(!starts_with("htt", "http"));
    assert!(!starts_with("xhttp", "http"));
    assert!(ends_with("a/pack.toml", "pack.toml"));
    assert!(ends_with("pack.toml", "pack.toml"));
    assert!(ends_with("x", ""));
    assert!(!ends_with("ack.toml", "pack.toml"));
    assert!(!ends_with("pack.tomlx", "pack.toml"));
}

#[test]
fn slices_and_positions_count_characters() {
    assert_eq!(slice("héllo", 1, 3), "él");
    assert_eq!(slice("abc", 0, 3), "abc");
    assert_eq!(slice("abc", 2, 2), "");
    assert_eq!(find_char("a/b/c", '/'), 1);
    assert_eq!(find_char("é/b", '/'), 1);
    assert_eq!(find_char("abc", '/'), 3);
    assert_eq!(find_char("", '/'), 0);
}

#[test]
fn lists_of_texts() {
    let list = names(&["a", "b"]);
    assert!(contains_text(&list, &"a".to_string()));
    assert!(!contains_text(&list, &"c".to_string()));
    assert!(!contains_text(&Vec::new(), &"a".to_string()));
    assert_eq!(copy_texts(&list), list);
}

#[test]
fn texts_are_ordered_like_strings() {
    let words = ["", "a", "A", "ab", "b", "aa", "é", "z", "abc", "Zebra", "10", "9"];
    for x in words {
        for y in words {
            assert_eq!(is_before(x, y), x < y);
        }
    }
    assert!(is_before("abc", "abd"));
    assert!(is_before("ab", "abc"));
    assert!(!is_before("abc", "abc"));
    assert!(!is_before("b", "abc"));
}

#[test]
fn dates_give_keys_that_grow_with_time() {
    assert_eq!(date_key_of("2024-03-01T12:30:45.123456Z"), 20240301123045123456000);
    assert_eq!(date_key_of("2024-03-01T12:30:45Z"), 20240301123045000000000);
    assert_eq!(date_key_of("2024-03-01T12:30:45.5Z"), 20240301123045500000000);
    assert_eq!(date_key_of("2023-12-31T23:59:59Z"), 20231231235959000000000);
    assert!(date_key_of("2024-03-01T12:30:45Z") < date_key_of("2024-03-01T12:30:46Z"));
    assert!(date_key_of("2024-03-01T12:30:45Z") < date_key_of("2024-03-01T12:30:45.000001Z"));
    assert!(date_key_of("2024-03-01T12:30:45.2Z") > date_key_of("2024-03-01T12:30:45.123457Z"));
    assert!(date_key_of("2024-03-01T12:30:45.123456Z") < date_key_of("2024-03-01T12:30:45.123457Z"));
    assert!(date_key_of("2024-03-01T12:30:45.123456789Z") < date_key_of("2024-03-01T12:30:45.12345679Z"));
    assert!(date_key_of("2023-12-31T23:59:59.999Z") < date_key_of("2024-01-01T00:00:00Z"));
    assert_eq!(date_key_of(""), 0);
    assert_eq!(date_key_of("no digits"), 0);
    assert_eq!(date_key_of("7"), 70000000000000000000000);
    assert_eq!(date_key_of("9999999999999999999999999999"), 99999999999999999999999);
}
