use heh::search_index::{find_matches, hex_pattern, matches_at, merge_offsets, rebuild, strip_spaces};
use heh::windows::search::{get_next_match_index, SearchDirection};

fn search(search_offsets: &[usize], current_offset: usize, search_direction: &SearchDirection) -> usize {
    let idx = get_next_match_index(search_offsets, current_offset, search_direction);
    search_offsets[idx]
}

#[test]
fn test_search() {
    let search_offsets = vec![1, 4, 5, 7];
    // positioned in between matches
    assert_eq!(search(&search_offsets, 2, &SearchDirection::Backward), 1);
    assert_eq!(search(&search_offsets, 3, &SearchDirection::Backward), 1);

    // positioned on a match
    assert_eq!(search(&search_offsets, 4, &SearchDirection::Backward), 1);
    assert_eq!(search(&search_offsets, 4, &SearchDirection::Forward), 5);

    // wrap around
    assert_eq!(search(&search_offsets, 7, &SearchDirection::Forward), 1);
    assert_eq!(search(&search_offsets, 1, &SearchDirection::Backward), 7);
    assert_eq!(search(&search_offsets, 0, &SearchDirection::Backward), 7);

    // singular match
    let search_offsets = vec![3];
    assert_eq!(search(&search_offsets, 4, &SearchDirection::Backward), 3);
    assert_eq!(search(&search_offsets, 3, &SearchDirection::Backward), 3);
    assert_eq!(search(&search_offsets, 2, &SearchDirection::Backward), 3);
}

#[test]
fn matches_of_a_repeated_word() {
    let offsets = rebuild(b"abcabcabc", b"abc");
    assert_eq!(offsets, vec![0, 3, 6]);
    assert_eq!(search(&offsets, 0, &SearchDirection::Forward), 3);
    assert_eq!(search(&offsets, 0, &SearchDirection::Backward), 6);
    assert_eq!(get_next_match_index(&offsets, 0, &SearchDirection::Forward), 1);
    assert_eq!(get_next_match_index(&offsets, 0, &SearchDirection::Backward), 2);
}

#[test]
fn next_match_at_the_largest_offset() {
    let offsets = vec![2, usize::MAX];
    assert_eq!(get_next_match_index(&offsets, usize::MAX, &SearchDirection::Forward), 0);
    assert_eq!(get_next_match_index(&offsets, usize::MAX, &SearchDirection::Backward), 0);
    assert_eq!(get_next_match_index(&offsets, 2, &SearchDirection::Forward), 1);
}

#[test]
fn next_match_among_equal_offsets() {
    let offsets = vec![1, 1, 4, 4, 4, 9];
    assert_eq!(get_next_match_index(&offsets, 1, &SearchDirection::Forward), 2);
    assert_eq!(get_next_match_index(&offsets, 5, &SearchDirection::Backward), 4);
    assert_eq!(get_next_match_index(&offsets, 4, &SearchDirection::Backward), 1);
}

#[test]
fn overlapping_matches_are_all_found() {
    assert_eq!(find_matches(b"aaaa", b"aa"), vec![0, 1, 2]);
    assert_eq!(find_matches(b"aaaa", b"aaaaa"), Vec::<usize>::new());
    assert_eq!(find_matches(b"", b"a"), Vec::<usize>::new());
    assert_eq!(find_matches(b"abc", b""), Vec::<usize>::new());
}

#[test]
fn a_pattern_stands_where_its_bytes_stand() {
    assert!(matches_at(b"hello", b"ll", 2));
    assert!(!matches_at(b"hello", b"ll", 3));
    assert!(!matches_at(b"hello", b"lo", 4));
    assert!(!matches_at(b"hello", b"", 1));
    assert!(!matches_at(b"hello", b"o", usize::MAX));
}

#[test]
fn spaces_are_taken_out() {
    assert_eq!(strip_spaces(b" de ad  be ef "), b"deadbeef".to_vec());
    assert_eq!(strip_spaces(b"\tab"), b"\tab".to_vec());
    assert_eq!(strip_spaces(b""), Vec::<u8>::new());
}

#[test]
fn hexadecimal_queries_are_decoded() {
    assert_eq!(hex_pattern(b"DE ad"), Some(vec![0xDE, 0xAD]));
    assert_eq!(hex_pattern(b"0f"), Some(vec![0x0F]));
    assert_eq!(hex_pattern(b"3031"), Some(vec![0x30, 0x31]));
    assert_eq!(hex_pattern(b"abc"), None);
    assert_eq!(hex_pattern(b"zz"), None);
    assert_eq!(hex_pattern(b"0x30"), None);
    assert_eq!(hex_pattern(b"  "), Some(Vec::new()));
}

#[test]
fn text_and_hexadecimal_matches_are_merged_in_order() {
    // "41" stands at 3 as text; the byte 0x41 stands at 0 and 5
    let content = b"A--41A";
    assert_eq!(rebuild(content, b"41"), vec![0, 3, 5]);
    // "33" stands at 0 as text; the byte 0x33 stands at 0 and 1
    assert_eq!(rebuild(b"33", b"33"), vec![0, 0, 1]);
    // a query of spaces alone has no hexadecimal matches
    assert_eq!(rebuild(b"a b", b" "), vec![1]);
}

#[test]
fn merging_keeps_every_offset() {
    assert_eq!(merge_offsets(&vec![1, 5, 9], &vec![2, 5, 7, 20]), vec![1, 2, 5, 5, 7, 9, 20]);
    assert_eq!(merge_offsets(&vec![], &vec![3]), vec![3]);
    assert_eq!(merge_offsets(&vec![3], &vec![]), vec![3]);
}
