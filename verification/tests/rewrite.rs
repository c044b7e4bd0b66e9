use genesis_rs::bytes::contains_pat;
use genesis_rs::rewrite::rewrite_bytes;

fn count_occurrences(hay: &[u8], needle: &[u8]) -> usize {
    let mut count = 0;
    let mut i = 0;
    while i + needle.len() <= hay.len() {
        if &hay[i..i + needle.len()] == needle {
            count += 1;
            i += needle.len();
        } else {
            i += 1;
        }
    }
    count
}

#[test]
fn replaces_every_occurrence() {
    let content = b"module github.com/old/app\nimport github.com/old/app/util\n".to_vec();
    let pat = b"github.com/old/app".to_vec();
    let rep = b"github.com/x/y".to_vec();
    let (out, changed) = rewrite_bytes(&content, &pat, &rep);
    assert!(changed);
    assert_eq!(out, b"module github.com/x/y\nimport github.com/x/y/util\n".to_vec());
}

#[test]
fn no_occurrence_leaves_content_untouched() {
    let content = b"nothing to see here".to_vec();
    let pat = b"github.com/old/app".to_vec();
    let rep = b"github.com/x/y".to_vec();
    let (out, changed) = rewrite_bytes(&content, &pat, &rep);
    assert!(!changed);
    assert_eq!(out, content);
}

#[test]
fn result_holds_no_pattern_and_expected_replacement_count() {
    let content = b"aaa x aaa y aaa".to_vec();
    let pat = b"aaa".to_vec();
    let rep = b"bb".to_vec();
    let (out, changed) = rewrite_bytes(&content, &pat, &rep);
    assert!(changed);
    assert!(!contains_pat(&out, &pat));
    assert_eq!(count_occurrences(&out, &rep), 3);
    assert_eq!(out, b"bb x bb y bb".to_vec());
}

#[test]
fn pre_existing_replacement_occurrences_are_counted_too() {
    let content = b"new old new".to_vec();
    let pat = b"old".to_vec();
    let rep = b"new".to_vec();
    let (out, changed) = rewrite_bytes(&content, &pat, &rep);
    assert!(changed);
    assert_eq!(count_occurrences(&out, b"new"), 3);
    assert!(!contains_pat(&out, &pat));
}

#[test]
fn second_run_is_a_no_op() {
    let content = b"one two one two one".to_vec();
    let pat = b"one".to_vec();
    let rep = b"three".to_vec();
    let (once, first_changed) = rewrite_bytes(&content, &pat, &rep);
    assert!(first_changed);
    let (twice, second_changed) = rewrite_bytes(&once, &pat, &rep);
    assert!(!second_changed);
    assert_eq!(twice, once);
}

#[test]
fn scan_is_greedy_and_non_overlapping() {
    let content = b"aaaa".to_vec();
    let pat = b"aa".to_vec();
    let rep = b"b".to_vec();
    let (out, changed) = rewrite_bytes(&content, &pat, &rep);
    assert!(changed);
    assert_eq!(out, b"bb".to_vec());
}

#[test]
fn empty_content_stays_empty() {
    let content = Vec::new();
    let pat = b"x".to_vec();
    let rep = b"y".to_vec();
    let (out, changed) = rewrite_bytes(&content, &pat, &rep);
    assert!(!changed);
    assert!(out.is_empty());
}

#[test]
fn empty_replacement_deletes_the_pattern() {
    let content = b"banana".to_vec();
    let pat = b"a".to_vec();
    let rep = Vec::new();
    let (out, changed) = rewrite_bytes(&content, &pat, &rep);
    assert!(changed);
    assert_eq!(out, b"bnn".to_vec());
}

#[test]
fn pattern_at_both_ends_is_replaced() {
    let content = b"edge middle edge".to_vec();
    let pat = b"edge".to_vec();
    let rep = b"rim".to_vec();
    let (out, changed) = rewrite_bytes(&content, &pat, &rep);
    assert!(changed);
    assert_eq!(out, b"rim middle rim".to_vec());
}

#[test]
fn binary_bytes_are_scanned_like_text() {
    let content = vec![0u8, 1, 255, 0, 1, 7];
    let pat = vec![0u8, 1];
    let rep = vec![9u8];
    let (out, changed) = rewrite_bytes(&content, &pat, &rep);
    assert!(changed);
    assert_eq!(out, vec![9u8, 255, 9, 7]);
}
