use textline::clusters::{
    delete_from_clusters, insert_into_clusters, join_clusters, render_clusters,
};
use textline::Row;

fn whole(row: &Row) -> String {
    row.render(0, row.len())
}

fn strings(items: &[&str]) -> Vec<String> {
    items.iter().map(|s| s.to_string()).collect()
}

#[test]
fn hi_insert_delete_render() {
    let mut row = Row::from_text("hi");
    assert_eq!(row.len(), 2);
    row.insert(1, 'X');
    assert_eq!(whole(&row), "hXi");
    assert_eq!(row.len(), 3);
    row.delete(0);
    assert_eq!(whole(&row), "Xi");
    assert_eq!(row.len(), 2);
    assert_eq!(row.render(0, 1), "X");
}

#[test]
fn tab_renders_as_space() {
    let row = Row::from_text("a\tb");
    assert_eq!(row.render(0, 3), "a b");
}

#[test]
fn length_counts_clusters() {
    assert_eq!(Row::from_text("").len(), 0);
    assert_eq!(Row::from_text("abc").len(), 3);
    // a letter with a combining accent is one cluster of two characters
    assert_eq!(Row::from_text("e\u{301}x").len(), 2);
    // a flag is one cluster of two regional indicators
    assert_eq!(Row::from_text("\u{1F1FA}\u{1F1F8}!").len(), 2);
    // a carriage return and line feed stay together
    assert_eq!(Row::from_text("a\r\nb").len(), 3);
}

#[test]
fn default_is_empty() {
    let row = Row::default();
    assert_eq!(row.len(), 0);
    assert!(row.is_empty());
    assert_eq!(whole(&row), "");
}

#[test]
fn is_empty_follows_content() {
    assert!(Row::from_text("").is_empty());
    assert!(!Row::from_text(" ").is_empty());
    let mut row = Row::from_text("q");
    row.delete(0);
    assert!(row.is_empty());
    assert_eq!(row.len(), 0);
}

#[test]
fn delete_inside_shortens_by_one() {
    let mut row = Row::from_text("ab\u{E9}cd");
    row.delete(2);
    assert_eq!(whole(&row), "abcd");
    assert_eq!(row.len(), 4);
}

#[test]
fn delete_removes_whole_cluster() {
    let mut row = Row::from_text("xe\u{301}y");
    assert_eq!(row.len(), 3);
    row.delete(1);
    assert_eq!(whole(&row), "xy");
    assert_eq!(row.len(), 2);
}

#[test]
fn delete_past_end_does_nothing() {
    let mut row = Row::from_text("abc");
    row.delete(3);
    assert_eq!(whole(&row), "abc");
    assert_eq!(row.len(), 3);
    row.delete(usize::MAX);
    assert_eq!(whole(&row), "abc");
    assert_eq!(row.len(), 3);
}

#[test]
fn delete_can_join_neighbours() {
    // a Hangul leading consonant and a vowel join once the letter between
    // them is gone, so the count drops by two
    let mut row = Row::from_text("\u{1100}a\u{1161}");
    assert_eq!(row.len(), 3);
    row.delete(1);
    assert_eq!(whole(&row), "\u{1100}\u{1161}");
    assert_eq!(row.len(), 1);
}

#[test]
fn insert_at_start_middle_end() {
    let mut row = Row::from_text("bd");
    row.insert(0, 'a');
    assert_eq!(whole(&row), "abd");
    row.insert(2, 'c');
    assert_eq!(whole(&row), "abcd");
    row.insert(4, 'e');
    assert_eq!(whole(&row), "abcde");
    assert_eq!(row.len(), 5);
}

#[test]
fn insert_past_end_appends() {
    let mut row = Row::from_text("ab");
    row.insert(100, 'z');
    assert_eq!(whole(&row), "abz");
    assert_eq!(row.len(), 3);
    let mut empty = Row::default();
    empty.insert(usize::MAX, '\u{3B1}');
    assert_eq!(whole(&empty), "\u{3B1}");
    assert_eq!(empty.len(), 1);
}

#[test]
fn insert_keeps_clusters_whole() {
    let mut row = Row::from_text("e\u{301}o");
    row.insert(1, '-');
    assert_eq!(whole(&row), "e\u{301}-o");
    assert_eq!(row.len(), 3);
}

#[test]
fn insert_combining_mark_joins_previous() {
    let mut row = Row::from_text("a");
    row.insert(1, '\u{301}');
    assert_eq!(row.len(), 1);
    row.delete(1);
    assert_eq!(whole(&row), "a\u{301}");
}

#[test]
fn insert_then_delete_restores() {
    for at in 0..=4 {
        let mut row = Row::from_text("w\u{F6}rd");
        row.insert(at, '#');
        assert_eq!(row.len(), 5);
        row.delete(at);
        assert_eq!(whole(&row), "w\u{F6}rd");
        assert_eq!(row.len(), 4);
    }
}

#[test]
fn render_whole_replaces_only_tabs() {
    let row = Row::from_text("\tx\t\u{E9}\t");
    assert_eq!(row.render(0, row.len()), " x \u{E9} ");
    let plain = Row::from_text("no tabs e\u{301}");
    assert_eq!(plain.render(0, plain.len()), "no tabs e\u{301}");
}

#[test]
fn render_inverted_is_empty() {
    let row = Row::from_text("abcdef");
    assert_eq!(row.render(3, 3), "");
    assert_eq!(row.render(4, 2), "");
    assert_eq!(row.render(usize::MAX, 0), "");
}

#[test]
fn render_clamps_end() {
    let row = Row::from_text("abc");
    assert_eq!(row.render(1, 100), "bc");
    assert_eq!(row.render(5, 100), "");
    assert_eq!(row.render(0, usize::MAX), "abc");
    let wide = Row::from_text("\u{1F1FA}\u{1F1F8}\u{1F1EC}\u{1F1E7}");
    assert_eq!(wide.len(), 2);
    assert_eq!(wide.render(1, 8), "\u{1F1EC}\u{1F1E7}");
}

#[test]
fn render_counts_clusters_not_bytes() {
    let row = Row::from_text("\u{E9}e\u{301}z");
    assert_eq!(row.render(1, 2), "e\u{301}");
    assert_eq!(row.render(2, 3), "z");
}

#[test]
fn append_concatenates_and_keeps_other() {
    let mut a = Row::from_text("ab");
    let b = Row::from_text("\tc");
    a.append(&b);
    assert_eq!(a.render(0, a.len()), "ab c");
    assert_eq!(a.len(), 4);
    assert_eq!(b.render(0, b.len()), " c");
    assert_eq!(b.len(), 2);
}

#[test]
fn append_can_merge_clusters() {
    let mut a = Row::from_text("e");
    let b = Row::from_text("\u{301}");
    a.append(&b);
    assert_eq!(a.len(), 1);
}

#[test]
fn append_is_associative() {
    let mut left = Row::from_text("one ");
    left.append(&Row::from_text("two "));
    left.append(&Row::from_text("three"));
    let mut bc = Row::from_text("two ");
    bc.append(&Row::from_text("three"));
    let mut right = Row::from_text("one ");
    right.append(&bc);
    assert_eq!(whole(&left), "one two three");
    assert_eq!(whole(&left), whole(&right));
    assert_eq!(left.len(), right.len());
}

#[test]
fn append_empty_lines() {
    let mut a = Row::default();
    a.append(&Row::default());
    assert!(a.is_empty());
    a.append(&Row::from_text("x"));
    assert_eq!(whole(&a), "x");
}

#[test]
fn join_cluster_ranges() {
    let gs = strings(&["a", "b\u{301}", "c"]);
    assert_eq!(join_clusters(&gs, 0, 3), "ab\u{301}c");
    assert_eq!(join_clusters(&gs, 1, 2), "b\u{301}");
    assert_eq!(join_clusters(&gs, 2, 2), "");
}

#[test]
fn render_cluster_ranges() {
    let gs = strings(&["a", "\t", "b"]);
    assert_eq!(render_clusters(&gs, 0, 3), "a b");
    assert_eq!(render_clusters(&gs, 1, 9), " b");
    assert_eq!(render_clusters(&gs, 2, 1), "");
    let not_a_tab = strings(&["\t\t"]);
    assert_eq!(render_clusters(&not_a_tab, 0, 1), "\t\t");
}

#[test]
fn insert_and_delete_on_clusters() {
    let gs = strings(&["h", "i"]);
    assert_eq!(insert_into_clusters(&gs, 1, 'X'), "hXi");
    assert_eq!(insert_into_clusters(&gs, 2, '!'), "hi!");
    assert_eq!(delete_from_clusters(&gs, 0), "i");
    assert_eq!(delete_from_clusters(&gs, 1), "h");
}
