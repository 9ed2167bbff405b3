use mutator::bridge::{afl_custom_mutator, afl_custom_splicer, afl_pre_save_handler};
use mutator::chance::MAX_RANDOM_CHILDREN;
use mutator::codec::{decode, encode, MAX_SIZE};
use mutator::tree::{Root, Token};

fn tokens(text: &str) -> Vec<Token> {
    text.chars().map(|glyph| Token { glyph }).collect()
}

fn encoded(text: &str) -> Vec<u8> {
    let mut out = Vec::new();
    encode(&Root { children: tokens(text) }, &mut out, MAX_SIZE);
    out
}

fn one_edit_apart(before: &[Token], after: &[Token]) -> bool {
    let n = before.len();
    if after.len() == n + 1 {
        (0..=n).any(|i| before[..i] == after[..i] && before[i..] == after[i + 1..])
    } else if after.len() + 1 == n {
        (0..n).any(|i| before[..i] == after[..i] && before[i + 1..] == after[i..])
    } else if after.len() == n {
        (0..n).any(|i| before[..i] == after[..i] && before[i + 1..] == after[i + 1..])
    } else {
        false
    }
}

#[test]
fn mutator_falls_back_to_a_fresh_tree_on_garbage() {
    for _ in 0..200 {
        let mut out = vec![1u8; 3];
        let len = afl_custom_mutator(&[0xde, 0xad, 0xbe], &mut out, 1024, 0);
        assert!(len > 0 && len <= 1024);
        assert_eq!(len, out.len());
        let tree = decode(&out).unwrap();
        assert!(tree.children.len() <= MAX_RANDOM_CHILDREN);
    }
}

#[test]
fn mutator_makes_one_edit_of_the_input() {
    let input = encoded("while x < 10 { x += 1 }");
    let before = tokens("while x < 10 { x += 1 }");
    for seed in 0..300u32 {
        let mut out = Vec::new();
        let len = afl_custom_mutator(&input, &mut out, 4096, seed);
        assert!(len > 0 && len <= 4096);
        assert_eq!(len, out.len());
        let after = decode(&out).unwrap().children;
        assert!(one_edit_apart(&before, &after));
    }
}

#[test]
fn mutator_on_empty_tree_yields_one_child() {
    let input = encoded("");
    for _ in 0..100 {
        let mut out = Vec::new();
        let len = afl_custom_mutator(&input, &mut out, 1024, 0);
        assert!(len >= 9 && len <= 12);
        assert_eq!(decode(&out).unwrap().children.len(), 1);
    }
}

#[test]
fn mutator_reports_nothing_when_the_result_does_not_fit() {
    let input = encoded("abcdefgh");
    for _ in 0..100 {
        let mut out = vec![5u8; 20];
        // The smallest possible result, with one child removed, takes 15 bytes.
        assert_eq!(afl_custom_mutator(&input, &mut out, 14, 0), 0);
        assert!(out.is_empty());
    }
}

#[test]
fn mutator_respects_a_tight_ceiling() {
    let input = encoded("abcdefgh");
    for _ in 0..300 {
        let mut out = Vec::new();
        let len = afl_custom_mutator(&input, &mut out, 16, 0);
        assert_eq!(len, out.len());
        assert!(len == 0 || len == 15 || len == 16);
    }
}

#[test]
fn pre_save_renders_children_in_order() {
    let mut text = String::from("stale");
    let len = afl_pre_save_handler(&encoded("XY"), &mut text);
    assert_eq!(text, "XY");
    assert_eq!(len, 2);
}

#[test]
fn pre_save_reports_length_in_bytes() {
    let mut text = String::new();
    let len = afl_pre_save_handler(&encoded("é€"), &mut text);
    assert_eq!(text, "é€");
    assert_eq!(len, 5);
}

#[test]
fn pre_save_of_empty_tree_is_empty() {
    let mut text = String::from("stale");
    assert_eq!(afl_pre_save_handler(&encoded(""), &mut text), 0);
    assert_eq!(text, "");
}

#[test]
fn pre_save_reports_nothing_on_garbage() {
    let mut text = String::from("stale");
    assert_eq!(afl_pre_save_handler(&[1, 2, 3], &mut text), 0);
    assert_eq!(text, "");
}

#[test]
fn splicer_fails_when_second_input_is_garbage() {
    let mut out = vec![3u8; 4];
    assert_eq!(afl_custom_splicer(&encoded("abc"), &[0x42], &mut out), 0);
    assert!(out.is_empty());
}

#[test]
fn splicer_fails_when_first_input_is_garbage() {
    let mut out = vec![3u8; 4];
    assert_eq!(afl_custom_splicer(&[0x42], &encoded("abc"), &mut out), 0);
    assert!(out.is_empty());
    assert_eq!(afl_custom_splicer(&[], &[], &mut out), 0);
    assert!(out.is_empty());
}

#[test]
fn splicer_yields_a_tree_of_fresh_segments() {
    let a = encoded("abc");
    let b = encoded("xyz");
    for _ in 0..300 {
        let mut out = vec![3u8; 4];
        let len = afl_custom_splicer(&a, &b, &mut out);
        assert!(len >= 8 && len <= MAX_SIZE);
        assert_eq!(len, out.len());
        let tree = decode(&out).unwrap();
        assert!(tree.children.len() <= 3 * MAX_RANDOM_CHILDREN);
        let mut again = Vec::new();
        assert_eq!(encode(&tree, &mut again, MAX_SIZE), len);
        assert_eq!(again, out);
    }
}

#[test]
fn splicer_takes_a_slice_of_the_second_tree() {
    // The first tree alone gives at most 15 children in front of its larger
    // cut point and 16 from its smaller one on.
    let a = encoded("abc");
    let b = encoded("xyz");
    let mut longest = 0;
    for _ in 0..5000 {
        let mut out = Vec::new();
        afl_custom_splicer(&a, &b, &mut out);
        longest = longest.max(decode(&out).unwrap().children.len());
    }
    assert!(longest > 2 * MAX_RANDOM_CHILDREN - 1);
}

#[test]
fn splicer_always_writes_when_both_inputs_decode() {
    let a = encoded("");
    let b = encoded("");
    for _ in 0..500 {
        let mut out = Vec::new();
        assert!(afl_custom_splicer(&a, &b, &mut out) >= 8);
    }
}

#[test]
fn mutator_writes_whenever_the_largest_result_fits() {
    // Three children can become four: 8 bytes for the count, 4 for each child.
    let input = encoded("a€b");
    for _ in 0..300 {
        let mut out = Vec::new();
        let len = afl_custom_mutator(&input, &mut out, 24, 0);
        assert!(len >= 8 && len <= 24);
        let tree = decode(&out).unwrap();
        let mut again = Vec::new();
        assert_eq!(encode(&tree, &mut again, 24), len);
        assert_eq!(again, out);
    }
    for _ in 0..300 {
        let mut out = Vec::new();
        assert!(afl_custom_mutator(&[7], &mut out, 72, 0) >= 8);
    }
}
