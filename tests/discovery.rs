use drive_scraper::discovery::{select_files, Entry, ExtensionError, ExtensionLabel};

fn entry(path: &str, is_file: bool) -> Entry {
    Entry { path: path.to_string(), is_file }
}

#[test]
fn label_keeps_plain_extension() {
    let label = ExtensionLabel::new("txt").ok().unwrap();
    assert_eq!(label.as_string(), "txt");
}

#[test]
fn label_drops_one_leading_dot() {
    let label = ExtensionLabel::new(".pdf").ok().unwrap();
    assert_eq!(label.as_string(), "pdf");
    let label = ExtensionLabel::new("..pdf").ok().unwrap();
    assert_eq!(label.as_string(), ".pdf");
}

#[test]
fn empty_label_is_refused() {
    assert_eq!(ExtensionLabel::new("").err(), Some(ExtensionError::Empty));
    assert_eq!(ExtensionLabel::new(".").err(), Some(ExtensionError::Empty));
}

#[test]
fn label_with_separator_is_refused() {
    assert_eq!(ExtensionLabel::new("a/b").err(), Some(ExtensionError::HasSeparator));
    assert_eq!(ExtensionLabel::new("./").err(), Some(ExtensionError::HasSeparator));
}

#[test]
fn selects_regular_files_with_the_extension_in_order() {
    let label = ExtensionLabel::new("txt").ok().unwrap();
    let entries = vec![
        entry("/w/a.txt", true),
        entry("/w/notes.txt", false),
        entry("/w/b.pdf", true),
        entry("/w/sub/c.txt", true),
        entry("/w/d.txt.bak", true),
        entry("/w/etxt", true),
        entry("/w/f.TXT", true),
    ];
    assert_eq!(select_files(&entries, &label), vec!["/w/a.txt".to_string(), "/w/sub/c.txt".to_string()]);
}

#[test]
fn extension_is_matched_on_the_name_only() {
    let label = ExtensionLabel::new("txt").ok().unwrap();
    let entries = vec![entry("/w/dir.txt/readme", true), entry("/w/dir.txt/x.txt", true)];
    assert_eq!(select_files(&entries, &label), vec!["/w/dir.txt/x.txt".to_string()]);
}

#[test]
fn nothing_found_in_an_empty_walk() {
    let label = ExtensionLabel::new("txt").ok().unwrap();
    assert!(select_files(&Vec::new(), &label).is_empty());
}
