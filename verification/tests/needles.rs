//! The needle matchers themselves: every variant, on plain buffers.

use expectrl::needle::Needle;

#[test]
fn bytes_reports_every_occurrence() {
    let n = Needle::Bytes(b"ab".to_vec());
    let ranges = n.check(b"abxabab", false).unwrap();
    assert_eq!(ranges, vec![(0, 2), (3, 5), (5, 7)]);
}

#[test]
fn bytes_reports_overlapping_occurrences() {
    let n = Needle::Bytes(b"aa".to_vec());
    let ranges = n.check(b"aaa", false).unwrap();
    assert_eq!(ranges, vec![(0, 2), (1, 3)]);
}

#[test]
fn bytes_missing_reports_nothing() {
    let n = Needle::Bytes(b"zzz".to_vec());
    let ranges = n.check(b"abcdef", true).unwrap();
    assert_eq!(ranges, Vec::<(usize, usize)>::new());
}

#[test]
fn n_bytes_takes_a_prefix_exactly_when_enough_is_buffered() {
    let n = Needle::NBytes(3);
    assert_eq!(n.check(b"abcdef", false).unwrap(), vec![(0, 3)]);
    assert_eq!(n.check(b"abc", false).unwrap(), vec![(0, 3)]);
    assert_eq!(n.check(b"ab", false).unwrap(), Vec::<(usize, usize)>::new());
}

#[test]
fn eof_takes_the_whole_buffer_only_at_eof() {
    let n = Needle::Eof;
    assert_eq!(n.check(b"abc", true).unwrap(), vec![(0, 3)]);
    assert_eq!(n.check(b"abc", false).unwrap(), Vec::<(usize, usize)>::new());
    assert_eq!(n.check(b"", true).unwrap(), vec![(0, 0)]);
}

#[test]
fn regex_reports_non_overlapping_matches_in_order() {
    let n = Needle::Regex("\\d+".to_string());
    let ranges = n.check(b"a12b345c", false).unwrap();
    assert_eq!(ranges, vec![(1, 3), (4, 7)]);
}

#[test]
fn regex_invalid_pattern_is_refused() {
    let n = Needle::Regex("(".to_string());
    assert!(n.check(b"abc", false).is_err());
}

#[test]
fn any_merges_sorted_by_start_with_ties_in_declaration_order() {
    // "ab" matches at 0 and 4; "abc" matches at 0; "b" matches at 1 and 5.
    let n = Needle::Any(vec![
        Needle::Bytes(b"ab".to_vec()),
        Needle::Bytes(b"abc".to_vec()),
        Needle::Bytes(b"b".to_vec()),
    ]);
    let ranges = n.check(b"abcxabx", false).unwrap();
    // Sorted by start; the tie at start 0 keeps declaration order.
    assert_eq!(ranges, vec![(0, 2), (0, 3), (1, 2), (4, 6), (5, 6)]);
}

#[test]
fn any_of_nothing_matches_nothing() {
    let n = Needle::Any(Vec::new());
    assert_eq!(n.check(b"abc", true).unwrap(), Vec::<(usize, usize)>::new());
}

#[test]
fn any_nested_alternatives_are_flattened_in_order() {
    let inner = Needle::Any(vec![Needle::Bytes(b"cd".to_vec())]);
    let n = Needle::Any(vec![inner, Needle::NBytes(1)]);
    let ranges = n.check(b"abcd", false).unwrap();
    assert_eq!(ranges, vec![(0, 1), (2, 4)]);
}

#[test]
fn any_with_invalid_regex_inside_is_refused() {
    let n = Needle::Any(vec![
        Needle::Bytes(b"a".to_vec()),
        Needle::Regex("(".to_string()),
    ]);
    assert!(n.check(b"abc", false).is_err());
}

#[test]
fn empty_literal_matches_at_every_position() {
    let n = Needle::Bytes(Vec::new());
    let ranges = n.check(b"ab", false).unwrap();
    assert_eq!(ranges, vec![(0, 0), (1, 1), (2, 2)]);
}
