use model_assistant::names::NameMap;
use model_assistant::text::{
    copy_texts, decimal_digits, decimal_text, from_chars, is_blank, join, push_all, push_text,
    same_text, starts_with, starts_with_char, text2, text7, text_precedes, to_chars, trim, trim_end,
};

fn list(items: &[&str]) -> Vec<String> {
    items.iter().map(|item| item.to_string()).collect()
}

#[test]
fn characters_and_back() {
    let chars = to_chars("a\u{e9}\u{6f22}");
    assert_eq!(chars, vec!['a', '\u{e9}', '\u{6f22}']);
    assert_eq!(from_chars(&chars, 1, 3), "\u{e9}\u{6f22}");
    assert_eq!(from_chars(&chars, 2, 2), "");
}

#[test]
fn same_text_compares_whole_texts() {
    assert!(same_text("mode", "mode"));
    assert!(!same_text("mode", "modes"));
    assert!(same_text("", ""));
}

#[test]
fn order_of_texts_is_that_of_their_bytes() {
    let samples = ["", "a", "ab", "b", "B", "\u{e9}", "\u{ffff}", "\u{10000}", "z"];
    for left in samples {
        for right in samples {
            assert_eq!(text_precedes(left, right), left.as_bytes() < right.as_bytes());
        }
    }
}

#[test]
fn prefixes() {
    assert!(starts_with("ld-linux-x86-64.so.2", "ld-linux-"));
    assert!(!starts_with("ld", "ld-linux-"));
    assert!(starts_with("anything", ""));
    assert!(starts_with_char("--model", '-'));
    assert!(!starts_with_char("model", '-'));
    assert!(!starts_with_char("", '-'));
}

#[test]
fn blank_texts() {
    assert!(is_blank(""));
    assert!(is_blank(" \t\n\u{a0}\u{3000}"));
    assert!(!is_blank(" x "));
}

#[test]
fn trimming_follows_unicode_whitespace() {
    let samples = ["", "  a b \r\n", "\u{a0}x\u{2003}", "\n\n", "plain", "{\"a\":1}\n"];
    for sample in samples {
        assert_eq!(trim(sample), sample.trim());
        assert_eq!(trim_end(sample), sample.trim_end());
        assert_eq!(is_blank(sample), sample.trim().is_empty());
    }
}

#[test]
fn joining_lists() {
    assert_eq!(join(&list(&[]), "\n"), "");
    assert_eq!(join(&list(&["one"]), "\n"), "one");
    assert_eq!(join(&list(&["one", "", "three"]), ", "), "one, , three");
}

#[test]
fn decimal_notation() {
    assert_eq!(decimal_digits(0), "0");
    assert_eq!(decimal_digits(907), "907");
    assert_eq!(decimal_digits(u64::MAX), u64::MAX.to_string());
    assert_eq!(decimal_text(-12), "-12");
    assert_eq!(decimal_text(i64::MAX), i64::MAX.to_string());
}

#[test]
fn texts_in_a_row() {
    assert_eq!(text2("a", "b"), "ab");
    assert_eq!(text7("1", "2", "3", "4", "5", "6", "7"), "1234567");
    let mut items = list(&["a"]);
    push_text(&mut items, "b".to_string());
    push_all(&mut items, &list(&["c", "d"]));
    assert_eq!(items, list(&["a", "b", "c", "d"]));
    assert_eq!(copy_texts(&items), items);
}

#[test]
fn names_are_kept_in_order() {
    let mut map = NameMap::new();
    assert!(map.is_empty());
    map.insert("zeta".to_string(), 1);
    map.insert("alpha".to_string(), 2);
    map.insert("mu".to_string(), 3);
    assert_eq!(map.len(), 3);
    assert_eq!(map.name_list(), list(&["alpha", "mu", "zeta"]));
    assert_eq!(map.name_at(1), "mu");
    assert_eq!(*map.value_at(2), 1);
}

#[test]
fn a_name_has_the_value_that_was_put_last() {
    let mut map = NameMap::new();
    map.insert("a".to_string(), 1);
    map.insert("b".to_string(), 2);
    map.insert("a".to_string(), 3);
    assert_eq!(map.len(), 2);
    assert_eq!(map.get("a"), Some(&3));
    assert_eq!(map.get("b"), Some(&2));
    assert_eq!(map.get("c"), None);
    assert!(map.contains_key("b"));
    assert!(!map.contains_key(""));
}

#[test]
fn a_clone_has_the_same_entries() {
    let mut map = NameMap::new();
    map.insert("b".to_string(), vec![1]);
    map.insert("a".to_string(), vec![]);
    let copy = map.clone();
    map.insert("c".to_string(), vec![3]);
    assert_eq!(copy.name_list(), list(&["a", "b"]));
    assert_eq!(copy.get("b"), Some(&vec![1]));
}

#[test]
fn ascii_whitespace() {
    for byte in 0u8..128 {
        let text = (byte as char).to_string();
        assert_eq!(is_blank(&text), byte == b' ' || (9..=13).contains(&byte));
    }
}

#[test]
fn extending_prefers_the_other_map() {
    let mut map = NameMap::new();
    map.insert_text("PATH", "/bin");
    map.insert_text("HOME", "/root");
    let mut other = NameMap::new();
    other.insert_text("HOME", "/home/user");
    other.insert_text("LANG", "C");
    map.extend(&other);
    assert_eq!(map.name_list(), list(&["HOME", "LANG", "PATH"]));
    assert_eq!(map.get("HOME").unwrap(), "/home/user");
    let copy = map.duplicate();
    assert_eq!(copy.name_list(), map.name_list());
    assert_eq!(copy.get("PATH").unwrap(), "/bin");
}
