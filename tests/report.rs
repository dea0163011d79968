use drive_scraper::materialize::CopyOutcome;
use drive_scraper::report::{clear_messages, copied_line, listing};

fn paths() -> Vec<String> {
    vec!["/w/a.txt".to_string(), "/w/b.txt".to_string(), "/w/c.txt".to_string()]
}

#[test]
fn no_listing_without_a_limit() {
    assert!(listing(&paths(), 0).is_empty());
}

#[test]
fn listing_is_cut_at_the_limit() {
    assert_eq!(listing(&paths(), 2), vec!["/w/a.txt".to_string(), "/w/b.txt".to_string(), "+ 1 more".to_string()]);
}

#[test]
fn listing_shows_all_within_the_limit() {
    assert_eq!(listing(&paths(), 3), paths());
    assert_eq!(listing(&paths(), 10), paths());
}

#[test]
fn copied_line_reports_counts() {
    assert_eq!(copied_line(CopyOutcome { copied: 2, total: 3 }), "2 out of 3 files copied");
    assert_eq!(copied_line(CopyOutcome { copied: 0, total: 0 }), "0 out of 0 files copied");
}

#[test]
fn clearing_an_empty_output_area() {
    assert_eq!(clear_messages(false, false), vec!["No searches to clear".to_string()]);
}

#[test]
fn clearing_both_trees() {
    assert_eq!(
        clear_messages(true, true),
        vec!["Searches cleared".to_string(), "Reconstructions cleared".to_string()]
    );
}

#[test]
fn clearing_searches_only() {
    assert_eq!(
        clear_messages(true, false),
        vec!["Searches cleared".to_string(), "No searches to clear".to_string()]
    );
}

#[test]
fn clearing_reconstructions_only() {
    assert_eq!(clear_messages(false, true), vec!["Reconstructions cleared".to_string()]);
}
