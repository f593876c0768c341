use gitlab_trackrd::db::KvStore;
use gitlab_trackrd::order::{into_sorted, reversed, sort};
use gitlab_trackrd::text::{
    chars_of, contains, contains_text, i64_text, join, joined, last_path_segment, read_i64,
    read_u64, split_after, split_before, str_before, string_of, trim, u64_text, Fringe,
};
use gitlab_trackrd::time::Duration;

#[test]
fn numbers_are_read_back_from_their_text() {
    for n in [0u64, 9, 10, 12345, u64::MAX] {
        assert_eq!(u64_text(n), n.to_string());
        assert_eq!(read_u64(&chars_of(&n.to_string())), Some(n));
    }
    for n in [i64::MIN, -1, 0, 7, i64::MAX] {
        assert_eq!(i64_text(n), n.to_string());
        assert_eq!(read_i64(&chars_of(&n.to_string())), Some(n));
    }
    for bad in ["", "+", "-", "1a", " 1", "18446744073709551616"] {
        assert_eq!(read_u64(&chars_of(bad)), bad.parse::<u64>().ok());
    }
    assert_eq!(read_u64(&chars_of("+7")), Some(7));
    assert_eq!(read_i64(&chars_of("-9223372036854775809")), None);
}

#[test]
fn texts_are_cut_joined_and_trimmed() {
    assert_eq!(joined("a", "b"), "ab");
    assert_eq!(string_of(&chars_of("h\u{e9}llo"), 1, 4), "\u{e9}ll");
    assert_eq!(split_after("a://b://c", "://").as_deref(), Some("b://c"));
    assert_eq!(split_after("a", "://"), None);
    assert_eq!(split_before("a/-/b/-/c", "/-/"), "a");
    assert_eq!(split_before("a", "/-/"), "a");
    let v = vec!["x".to_string(), "y".to_string(), "z".to_string()];
    assert_eq!(join(&v, ", "), "x, y, z");
    assert_eq!(join(&vec![], ", "), "");
    assert!(contains_text(&v, "y"));
    assert!(!contains_text(&v, ""));
    assert!(contains("abcabd", "abd"));
    assert!(!contains("ab", "abc"));
    for s in ["  a b ", "\u{3000}x\u{2003}", "", "   ", "\u{200b}x"] {
        assert_eq!(trim(s, Fringe::Space), s.trim());
    }
    assert_eq!(trim("//a/b/", Fringe::Slash), "a/b");
    assert_eq!(last_path_segment("a/b/c"), vec!['c']);
    assert!(last_path_segment("a/").is_empty());
    assert!(str_before("a", "b") && !str_before("b", "a") && !str_before("a", "a"));
    assert!(str_before("Z", "a") && str_before("", "a") && str_before("a", "aa"));
}

#[test]
fn sorting_keeps_equals_in_order() {
    let words: Vec<String> = ["b", "a", "c", "a"].iter().map(|s| s.to_string()).collect();
    assert_eq!(into_sorted(words), vec!["a", "a", "b", "c"]);
    assert_eq!(sort(&vec![3i64, -1, 2]), vec![-1, 2, 3]);
    assert_eq!(reversed(vec![1, 2, 3]), vec![3, 2, 1]);
}

#[test]
fn a_store_saves_what_changed_and_reopens_with_it() {
    let mut s: KvStore<&str> = KvStore::load(vec![(2, "b"), (1, "a"), (2, "c")]);
    assert_eq!(s.get(2), Some(&"c"), "the last of several rows counts");
    assert!(s.dirty_keys().is_empty());
    s.put(3, "d");
    s.remove(1);
    let mut keys = s.dirty_keys().clone();
    keys.sort();
    assert_eq!(keys, vec![1, 3]);
    assert_eq!(s.dirty_keys().len(), 2, "looking saves nothing");
    s.mark_saved();
    assert!(s.dirty_keys().is_empty());
    let rows: Vec<(u64, &str)> = s.scan().into_iter().map(|(k, v)| (k, *v)).collect();
    assert_eq!(rows, vec![(2, "c"), (3, "d")], "in the order of the keys");
    let t = KvStore::load(rows);
    assert_eq!(t.get(3), Some(&"d"));
    assert_eq!(t.get(1), None);
    s.clear();
    assert_eq!(s.scan().len(), 0);
}

#[test]
fn spans_of_time_are_exact() {
    let ms = Duration::from_millis;
    assert_eq!(ms(1500).as_secs(), 1);
    assert_eq!(ms(1500).subsec_nanos(), 500_000_000);
    assert!(ms(1499).is_below(&ms(1500)));
    assert!(!ms(1500).is_below(&ms(1500)));
    assert_eq!(ms(2100).saturating_sub(ms(1200)), ms(900));
    assert!(ms(1).saturating_sub(ms(2)).is_zero());
    assert_eq!(ms(1700).checked_double(), Some(ms(3400)));
    assert_eq!(Duration::from_secs(u64::MAX).checked_double(), None);
    assert_eq!(Duration::from_hours(2), Duration::from_secs(7200));
    assert_eq!(ms(5).min(ms(7)), ms(5));
}
