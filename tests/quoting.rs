use nickel_pretty::number::{i64_text, nat_text};
use nickel_pretty::order::{key_less, sorted_map};
use nickel_pretty::quoting::{escape_text, marker_len_of_matches, min_interpolate_sign};

#[test]
fn marker_after_one_sign_needs_two() {
    assert_eq!(min_interpolate_sign("a %{ b"), 2);
}

#[test]
fn marker_after_two_signs_needs_three() {
    assert_eq!(min_interpolate_sign("a %%{ b"), 3);
}

#[test]
fn lone_sign_m_needs_nothing() {
    assert_eq!(min_interpolate_sign("50%m"), 0);
    assert_eq!(min_interpolate_sign("plain"), 0);
}

#[test]
fn closing_delimiter_counts_without_quote() {
    assert_eq!(min_interpolate_sign("x\"%%m"), 3);
}

#[test]
fn largest_match_wins() {
    assert_eq!(min_interpolate_sign("%{ and %%%{ and %%{"), 4);
}

#[test]
fn marker_length_from_given_matches() {
    let ms = vec!["%{".to_string(), "\"%%%m".to_string()];
    assert_eq!(marker_len_of_matches(&ms), 4);
    assert_eq!(marker_len_of_matches(&vec![]), 0);
}

#[test]
fn escaping_marks_special_characters() {
    assert_eq!(escape_text(r#"a\b"c%{d"#), r#"a\\b\"c\%{d"#);
    assert_eq!(escape_text("100% {x}"), "100% {x}");
    assert_eq!(escape_text(""), "");
}

#[test]
fn sorted_map_orders_by_key() {
    let m = vec![("b".to_string(), 2), ("a".to_string(), 1), ("ab".to_string(), 3)];
    let r = sorted_map(&m);
    let keys: Vec<&str> = r.iter().map(|p| p.0.as_str()).collect();
    assert_eq!(keys, vec!["a", "ab", "b"]);
    let values: Vec<i32> = r.iter().map(|p| *p.1).collect();
    assert_eq!(values, vec![1, 3, 2]);
}

#[test]
fn key_order_is_lexicographic() {
    assert!(key_less("a", "b"));
    assert!(key_less("a", "ab"));
    assert!(!key_less("b", "ab"));
    assert!(!key_less("a", "a"));
}

#[test]
fn integers_in_decimal() {
    assert_eq!(nat_text(0), "0");
    assert_eq!(nat_text(1234), "1234");
    assert_eq!(i64_text(-7), "-7");
    assert_eq!(i64_text(i64::MIN), "-9223372036854775808");
}

#[test]
fn escaped_text_reads_back() {
    let s = r#"a\b"c%{d%x"#;
    let e = escape_text(s);
    let mut out = String::new();
    let cs: Vec<char> = e.chars().collect();
    let mut i = 0;
    while i < cs.len() {
        if cs[i] == '\\' && i + 1 < cs.len() && (cs[i + 1] == '\\' || cs[i + 1] == '"') {
            out.push(cs[i + 1]);
            i += 2;
        } else if cs[i] == '\\' && i + 2 < cs.len() && cs[i + 1] == '%' && cs[i + 2] == '{' {
            out.push('%');
            i += 2;
        } else {
            out.push(cs[i]);
            i += 1;
        }
    }
    assert_eq!(out, s);
}
