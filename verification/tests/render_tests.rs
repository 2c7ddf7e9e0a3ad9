use swimbot::numfmt::{i64_to_string, u64_to_string};
use swimbot::render::render;

#[test]
fn u64_zero() {
    assert_eq!(u64_to_string(0), "0");
}

#[test]
fn u64_single_digit() {
    assert_eq!(u64_to_string(7), "7");
}

#[test]
fn u64_round_number() {
    assert_eq!(u64_to_string(1000), "1000");
}

#[test]
fn u64_largest() {
    assert_eq!(u64_to_string(u64::MAX), "18446744073709551615");
}

#[test]
fn i64_positive() {
    assert_eq!(i64_to_string(500), "500");
}

#[test]
fn i64_negative() {
    assert_eq!(i64_to_string(-42), "-42");
}

#[test]
fn i64_smallest() {
    assert_eq!(i64_to_string(i64::MIN), "-9223372036854775808");
}

#[test]
fn i64_largest() {
    assert_eq!(i64_to_string(i64::MAX), "9223372036854775807");
}

#[test]
fn render_two_entries() {
    let items = vec![("u1".to_string(), 500), ("u2".to_string(), 300)];
    assert_eq!(render(&items), "1. u1: 500\n2. u2: 300");
}

#[test]
fn render_empty() {
    let items: Vec<(String, i64)> = Vec::new();
    assert_eq!(render(&items), "");
}

#[test]
fn render_single_entry() {
    let items = vec![("ace".to_string(), 9999)];
    assert_eq!(render(&items), "1. ace: 9999");
}

#[test]
fn render_line_count_matches_items() {
    let items = vec![
        ("a".to_string(), 1),
        ("b".to_string(), 2),
        ("c".to_string(), 3),
        ("d".to_string(), 4),
    ];
    let text = render(&items);
    let lines: Vec<&str> = text.split('\n').collect();
    assert_eq!(lines.len(), items.len());
    for (i, line) in lines.iter().enumerate() {
        assert!(line.starts_with(&format!("{}.", i + 1)));
    }
}

#[test]
fn render_negative_score() {
    let items = vec![("slow".to_string(), -10)];
    assert_eq!(render(&items), "1. slow: -10");
}

#[test]
fn render_ranks_past_nine() {
    let items: Vec<(String, i64)> = (0..12).map(|i| (format!("p{}", i), 100 - i)).collect();
    let text = render(&items);
    let lines: Vec<&str> = text.split('\n').collect();
    assert_eq!(lines.len(), 12);
    assert_eq!(lines[9], "10. p9: 91");
    assert_eq!(lines[11], "12. p11: 89");
}
