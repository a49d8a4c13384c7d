use containerd_manager::maps::StringMap;
use containerd_manager::numeral::{parse_unsigned, parse_unsigned_str, push_digits, to_decimal};
use containerd_manager::paths::{join, rotated_path};
use containerd_manager::text;
use containerd_manager::time::{Duration, SystemTime};

#[test]
fn strings_are_searched_and_split() {
    assert!(text::str_eq("a\u{e9}", "a\u{e9}"));
    assert!(!text::str_eq("a", "ab"));
    assert_eq!(text::find_char("a=b=c", '='), Some(1));
    assert_eq!(text::find_char("abc", '='), None);
    assert_eq!(
        text::split_once("k=v=w", '='),
        Some(("k".to_string(), "v=w".to_string()))
    );
    assert_eq!(text::split_once("kv", '='), None);
    assert_eq!(text::strip_prefix("abc", "ab"), Some("c".to_string()));
    assert_eq!(text::strip_prefix("abc", "b"), None);
    let list = vec!["a".to_string(), "".to_string(), "c".to_string()];
    assert_eq!(text::join(&list, ", "), "a, , c");
    assert_eq!(text::join(&vec![], ", "), "");
    assert_eq!(text::clone_strings(&list), list);
    assert_eq!(text::own_strings(&["a", "", "c"]), list);
}

#[test]
fn numbers_are_written_and_read() {
    assert_eq!(to_decimal(0), "0");
    assert_eq!(to_decimal(u64::MAX), "18446744073709551615");
    let mut buf = b"n=".to_vec();
    push_digits(&mut buf, 907);
    assert_eq!(buf, b"n=907");
    assert_eq!(parse_unsigned(b"18446744073709551615", u64::MAX), Some(u64::MAX));
    assert_eq!(parse_unsigned(b"18446744073709551616", u64::MAX), None);
    assert_eq!(parse_unsigned_str("255", 255), Some(255));
    assert_eq!(parse_unsigned_str("256", 255), None);
    assert_eq!(parse_unsigned_str("+7", 255), Some(7));
    for bad in ["", "+", "-1", " 1", "1 ", "0x1", "1_0"] {
        assert_eq!(parse_unsigned_str(bad, 255), None);
    }
}

#[test]
fn spans_are_compared_and_halved() {
    let d = Duration::new(2, 5).unwrap();
    assert_eq!((d.as_secs(), d.subsec_nanos()), (2, 5));
    assert_eq!(d.as_nanos(), 2_000_000_005);
    assert_eq!(d.as_millis(), 2000);
    assert_eq!(d.half().as_nanos(), 1_000_000_002);
    assert_eq!(d.double().as_nanos(), 4_000_000_010);
    assert_eq!(d.min(&Duration::from_secs(1)), Duration::from_secs(1));
    assert_eq!(Duration::from_secs(1).saturating_sub(&d), Duration::from_secs(0));
    assert_eq!(d.saturating_sub(&Duration::from_secs(2)), Duration::from_nanos(5));
    assert!(d.exceeds(&Duration::from_secs(2)));
    assert!(!d.exceeds(&d));
    assert!(Duration::from_millis(0).is_zero());
    let longest = Duration::new(u64::MAX, 999_999_999).unwrap();
    assert_eq!(longest.double(), longest);
    assert!(Duration::new(u64::MAX, 1_000_000_000).is_none());
    assert_eq!(Duration::from_millis(1500).show(), "1.5s");
    assert_eq!(Duration::from_nanos(12).show(), "12ns");
}

#[test]
fn points_in_time_count_milliseconds() {
    assert_eq!(SystemTime::from_unix_millis(1500).nanos, 1_500_000_000);
    assert_eq!(SystemTime { nanos: 1_999_999 }.unix_millis(), 1);
    assert_eq!(SystemTime { nanos: -1 }.unix_millis(), 0);
    assert_eq!(SystemTime { nanos: i128::MAX }.unix_millis(), u64::MAX);
    assert_eq!(SystemTime::from_unix_millis(u64::MAX).unix_millis(), u64::MAX);
    let (a, b) = (SystemTime { nanos: 1 }, SystemTime { nanos: 2 });
    assert!(a.before(&b));
    assert!(!b.before(&b));
}

#[test]
fn maps_hold_one_value_per_key() {
    let mut m = StringMap::from_pairs(&[("a", "1"), ("b", "2"), ("a", "3")]);
    assert_eq!(m.len(), 2);
    assert_eq!(m.get("a").unwrap(), "3");
    assert!(m.contains_key("b"));
    assert!(m.get("c").is_none());
    m.insert("c".to_string(), "4".to_string());
    assert_eq!((m.key(2).as_str(), m.value(2).as_str()), ("c", "4"));
    m.remove("a");
    m.remove("zz");
    assert_eq!(m.len(), 2);
    assert!(!m.contains_key("a"));
    let mut other = StringMap::default();
    assert!(other.is_empty());
    other.insert("b".to_string(), "9".to_string());
    other.extend(&m);
    assert_eq!(other.get("b").unwrap(), "2");
    assert_eq!(other.clone().len(), 2);
}

#[test]
fn paths_are_joined_and_rotated() {
    assert_eq!(join("/a", "b"), "/a/b");
    assert_eq!(join("/a/", "b"), "/a/b");
    assert_eq!(join("/a", "/b"), "/b");
    assert_eq!(join("", "b"), "b");
    assert_eq!(rotated_path("/x/events.log", 3), "/x/events.log.3");
}

#[test]
fn rotated_paths_replace_the_extension() {
    for path in [
        "/x/events.log",
        "events.log",
        "/x/events",
        "/x.d/events",
        "/x/.events",
        "/x/.events.log",
        "/x/a.b.log",
        "/x/a..",
        "/x/...",
        "/x/...log",
        "/x/events.log/",
        "/x/events.log//",
        "/x/events/",
        "/x/events.log/.",
        "/x/events.log/./",
        "/x/..",
        "/x/../",
        "..",
        ".",
        "./.",
        "./a.log",
        "/",
        "//",
        "/.",
        "/..",
        "",
        "a.log/..",
        "/x/\u{e9}.log",
    ] {
        let expected = std::path::Path::new(path).with_extension("log.2");
        assert_eq!(rotated_path(path, 2), expected.to_str().unwrap(), "{path}");
    }
    assert_eq!(rotated_path("/x/..", 2), "/x/..");
    assert_eq!(rotated_path("/x/events.log/", 2), "/x/events.log.2");
}
