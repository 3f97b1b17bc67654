use rivet::text::{dashed, decimal_string, join_strings, push_decimal, replace_all};

#[test]
fn decimal_of_zero_and_others() {
    assert_eq!(decimal_string(0), "0");
    assert_eq!(decimal_string(7), "7");
    assert_eq!(decimal_string(10), "10");
    assert_eq!(decimal_string(1234567), "1234567");
    assert_eq!(decimal_string(u64::MAX), "18446744073709551615");
}

#[test]
fn push_decimal_appends() {
    let mut s = String::from("port ");
    push_decimal(&mut s, 6379);
    assert_eq!(s, "port 6379");
}

#[test]
fn dashed_strings() {
    assert_eq!(dashed("ns", "lnd"), "ns-lnd");
    assert_eq!(dashed("", ""), "-");
}

#[test]
fn join_strings_like_join() {
    let parts = vec!["a".to_string(), "bc".to_string(), "".to_string(), "d".to_string()];
    assert_eq!(join_strings(&parts, ", "), parts.join(", "));
    assert_eq!(join_strings(&Vec::new(), "-"), "");
    assert_eq!(join_strings(&vec!["one".to_string()], "-"), "one");
}

#[test]
fn replace_all_like_std_replace() {
    let cases = [
        ("http://127.0.0.1:9000/bucket?x=127.0.0.1", "127.0.0.1", "minio"),
        ("111", "11", "x"),
        ("abc", "abcd", "z"),
        ("", "a", "b"),
        ("aaaa", "a", ""),
        ("héllo wörld", "ö", "oe"),
    ];
    for (s, from, to) in cases {
        assert_eq!(replace_all(s, from, to), s.replace(from, to));
    }
}
