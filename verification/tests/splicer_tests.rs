use mutator::splicer::{cut_points, get_splicing_points, ordered, splice};
use mutator::tree::{Root, Token};

fn tokens(text: &str) -> Vec<Token> {
    text.chars().map(|glyph| Token { glyph }).collect()
}

fn tree(text: &str) -> Root {
    Root { children: tokens(text) }
}

#[test]
fn ordered_puts_larger_in_front() {
    assert_eq!(ordered(3, 7), (7, 3));
    assert_eq!(ordered(7, 3), (7, 3));
    assert_eq!(ordered(4, 4), (4, 4));
    assert_eq!(ordered(0, usize::MAX), (usize::MAX, 0));
}

#[test]
fn splicing_points_are_in_range_and_ordered() {
    for _ in 0..500 {
        let (a, b) = get_splicing_points(2, 9);
        assert!(2 <= b && b <= a && a < 9);
    }
    for _ in 0..20 {
        assert_eq!(get_splicing_points(5, 6), (5, 5));
    }
}

#[test]
fn splicing_points_reach_both_ends_of_range() {
    let mut low = false;
    let mut high = false;
    for _ in 0..2000 {
        let (a, b) = get_splicing_points(0, 4);
        low = low || b == 0;
        high = high || a == 3;
    }
    assert!(low && high);
}

#[test]
fn cut_points_of_empty_tree_are_zero() {
    assert_eq!(cut_points(0), (0, 0));
}

#[test]
fn cut_points_of_nonempty_tree_are_positions() {
    for len in [1usize, 2, 16] {
        for _ in 0..200 {
            let (a, b) = cut_points(len);
            assert!(b <= a && a < len);
        }
    }
}

#[test]
fn splice_joins_prefix_slice_and_suffix() {
    let t = splice(&tree("abcd"), &tree("xyz"), 3, 1, 0, 2);
    assert_eq!(t.children, tokens("abcxybcd"));
}

#[test]
fn splice_with_cuts_in_drawn_order_takes_nothing_from_second() {
    let t = splice(&tree("abcd"), &tree("xyz"), 3, 1, 2, 0);
    assert_eq!(t.children, tokens("abcbcd"));
    let t = splice(&tree("abcd"), &tree("xyz"), 2, 2, 1, 1);
    assert_eq!(t.children, tokens("abcd"));
}

#[test]
fn splice_at_the_ends() {
    let t = splice(&tree("abcd"), &tree("xyz"), 0, 0, 0, 3);
    assert_eq!(t.children, tokens("xyzabcd"));
    let t = splice(&tree("abcd"), &tree("xyz"), 4, 4, 0, 3);
    assert_eq!(t.children, tokens("abcdxyz"));
    let t = splice(&tree("abcd"), &tree("xyz"), 0, 4, 3, 3);
    assert_eq!(t.children, tokens(""));
}

#[test]
fn splice_of_empty_trees_is_empty() {
    let t = splice(&tree(""), &tree(""), 0, 0, 0, 0);
    assert_eq!(t.children, tokens(""));
}
