//! Text measured in terminal columns.

use copilot_session_tui::text::{
    display_width, pad_columns, pad_to_width, truncate_clusters, truncate_to_width,
};

#[test]
fn an_emoji_counts_as_the_two_columns_it_occupies() {
    assert_eq!(display_width("🚀"), 2);
    assert_eq!(display_width("ab"), 2);
}

#[test]
fn truncation_never_splits_an_emoji() {
    // The budget lands mid-rocket; the emoji must be dropped whole.
    let out = truncate_to_width("🚀🚀🚀", 3);
    assert!(out.chars().all(|c| c == '🚀' || c == '…'), "got {out:?}");
    assert!(display_width(&out) <= 3, "got {out:?}");
}

#[test]
fn truncation_keeps_multi_codepoint_emoji_intact() {
    // A ZWJ family sequence is one grapheme made of many chars.
    let family = "👨‍👩‍👧";
    let out = truncate_to_width(&format!("{family}{family}"), 3);
    assert!(
        out == "…" || out.starts_with(family),
        "a ZWJ sequence must not be split, got {out:?}"
    );
}

#[test]
fn short_text_is_returned_unchanged() {
    assert_eq!(truncate_to_width("hello", 10), "hello");
    assert_eq!(truncate_to_width("🚀 hi", 10), "🚀 hi");
}

#[test]
fn padding_aligns_emoji_columns_to_the_requested_width() {
    assert_eq!(display_width(&pad_to_width("🚀", 6)), 6);
    assert_eq!(display_width(&pad_to_width("ab", 6)), 6);
    assert_eq!(display_width("🚀  "), display_width("🚀") + 2);
    assert_eq!(display_width(&pad_to_width("🚀🚀🚀🚀", 6)), 6);
}

#[test]
fn a_zero_budget_yields_nothing() {
    assert_eq!(truncate_to_width("🚀", 0), "");
}

#[test]
fn a_cut_text_ends_with_an_ellipsis() {
    assert_eq!(truncate_to_width("hello world", 6), "hello…");
    assert_eq!(pad_to_width("hello world", 6), "hello…");
    assert_eq!(pad_to_width("ab", 4), "ab  ");
}

#[test]
fn clusters_are_taken_whole() {
    let clusters = vec!["ab".to_string(), "c".to_string(), "d".to_string()];
    assert_eq!(truncate_clusters(&clusters, &vec![2, 1, 1], 4), "abc…");
    assert_eq!(truncate_clusters(&clusters, &vec![2, 1, 1], 2), "…");
    assert_eq!(pad_columns("x".to_string(), 1, 3), "x  ");
    assert_eq!(pad_columns("xyz".to_string(), 3, 2), "xyz");
}
