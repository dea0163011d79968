use drive_scraper::discovery::ExtensionLabel;
use drive_scraper::materialize::{LayoutMode, Materializer, SourceError};
use drive_scraper::report::copied_line;

fn txt() -> ExtensionLabel {
    ExtensionLabel::new("txt").ok().unwrap()
}

fn sources() -> Vec<String> {
    vec!["/w/a/x.txt".to_string(), "/w/b/x.txt".to_string(), "/w/c/y.txt".to_string()]
}

/// Places and records every file, with the given token for clashes, as if each copy succeeded.
fn lay_out(m: &mut Materializer, files: &[String], token: &str) -> Vec<String> {
    let mut out = Vec::new();
    for f in files {
        let d = m.destination_with_token(f, token).ok().unwrap();
        m.record_copy(&d.path, true);
        out.push(d.path);
    }
    out
}

#[test]
fn target_directories_by_layout() {
    let flat = Materializer::new("/out", &txt(), LayoutMode::Flat, "/w");
    assert_eq!(flat.target_dir(), "/out/searches/txt");
    let tree = Materializer::new("/out/", &txt(), LayoutMode::Reconstructed, "/w");
    assert_eq!(tree.target_dir(), "/out/reconstructions/txt");
}

#[test]
fn flat_layout_renames_the_second_clashing_name() {
    let mut m = Materializer::new("/out", &txt(), LayoutMode::Flat, "/w");
    let got = lay_out(&mut m, &sources(), "AbC12");
    assert_eq!(
        got,
        vec![
            "/out/searches/txt/x.txt".to_string(),
            "/out/searches/txt/x-AbC12.txt".to_string(),
            "/out/searches/txt/y.txt".to_string(),
        ]
    );
    assert_eq!(copied_line(m.outcome()), "3 out of 3 files copied");
}

#[test]
fn flat_layout_puts_token_before_first_dot() {
    let mut m = Materializer::new("/out", &txt(), LayoutMode::Flat, "/w");
    let got = lay_out(&mut m, &["/w/a/r.tar.txt".to_string(), "/w/b/r.tar.txt".to_string()], "zz_9-");
    assert_eq!(got[1], "/out/searches/txt/r-zz_9-.tar.txt");
}

#[test]
fn reconstructed_layout_mirrors_source_dirs() {
    let mut m = Materializer::new("/out", &txt(), LayoutMode::Reconstructed, "/w");
    let d = m.destination_with_token("/w/a/x.txt", "AbC12").ok().unwrap();
    assert_eq!(d.dir, "/out/reconstructions/txt/a");
    let got = lay_out(&mut m, &sources(), "AbC12");
    assert_eq!(
        got,
        vec![
            "/out/reconstructions/txt/a/x.txt".to_string(),
            "/out/reconstructions/txt/b/x.txt".to_string(),
            "/out/reconstructions/txt/c/y.txt".to_string(),
        ]
    );
    assert_eq!(copied_line(m.outcome()), "3 out of 3 files copied");
}

#[test]
fn reconstructed_layout_keeps_nested_dirs() {
    let m = Materializer::new("/out", &txt(), LayoutMode::Reconstructed, "/w/");
    let d = m.destination_with_token("/w/p/q/z.txt", "AbC12").ok().unwrap();
    assert_eq!(d.dir, "/out/reconstructions/txt/p/q");
    assert_eq!(d.path, "/out/reconstructions/txt/p/q/z.txt");
}

#[test]
fn reconstructed_file_in_working_dir_goes_to_target() {
    let m = Materializer::new("/out", &txt(), LayoutMode::Reconstructed, "/w");
    let d = m.destination_with_token("/w/top.txt", "AbC12").ok().unwrap();
    assert_eq!(d.dir, "/out/reconstructions/txt");
    assert_eq!(d.path, "/out/reconstructions/txt/top.txt");
}

#[test]
fn reconstructed_file_outside_working_dir_is_refused() {
    let m = Materializer::new("/out", &txt(), LayoutMode::Reconstructed, "/w");
    assert_eq!(m.destination_with_token("/elsewhere/x.txt", "AbC12").err(), Some(SourceError::OutsideWorkingDir));
    assert_eq!(m.destination_with_token("/wx/x.txt", "AbC12").err(), Some(SourceError::OutsideWorkingDir));
}

#[test]
fn path_without_a_name_is_refused() {
    let m = Materializer::new("/out", &txt(), LayoutMode::Flat, "/w");
    assert_eq!(m.destination_with_token("/w/a/", "AbC12").err(), Some(SourceError::NoFileName));
}

#[test]
fn clashing_name_without_dot_is_refused() {
    let mut m = Materializer::new("/out", &txt(), LayoutMode::Flat, "/w");
    let d = m.destination_with_token("/w/a/README", "AbC12").ok().unwrap();
    m.record_copy(&d.path, true);
    assert_eq!(m.destination_with_token("/w/b/README", "AbC12").err(), Some(SourceError::NoDotForToken));
}

#[test]
fn failed_copy_frees_the_name() {
    let mut m = Materializer::new("/out", &txt(), LayoutMode::Flat, "/w");
    let d = m.destination_with_token("/w/a/x.txt", "AbC12").ok().unwrap();
    m.record_copy(&d.path, false);
    let d = m.destination_with_token("/w/b/x.txt", "AbC12").ok().unwrap();
    assert_eq!(d.path, "/out/searches/txt/x.txt");
}

#[test]
fn failures_are_counted() {
    let mut m = Materializer::new("/out", &txt(), LayoutMode::Flat, "/w");
    m.record_copy("/out/searches/txt/a.txt", true);
    m.record_copy("/out/searches/txt/b.txt", false);
    m.record_unresolved();
    m.record_copy("/out/searches/txt/c.txt", true);
    let o = m.outcome();
    assert_eq!((o.copied, o.total), (2, 4));
    assert_eq!(m.attempted(), 4);
}

#[test]
fn no_files_is_zero_of_zero() {
    let m = Materializer::new("/out", &txt(), LayoutMode::Flat, "/w");
    assert_eq!(copied_line(m.outcome()), "0 out of 0 files copied");
}

#[test]
fn random_token_renames_a_clash() {
    let mut m = Materializer::new("/out", &txt(), LayoutMode::Flat, "/w");
    let first = m.destination("/w/a/x.txt").ok().unwrap();
    assert_eq!(first.path, "/out/searches/txt/x.txt");
    m.record_copy(&first.path, true);
    let second = m.destination("/w/b/x.txt").ok().unwrap();
    let name = second.path.strip_prefix("/out/searches/txt/x-").unwrap();
    let token = name.strip_suffix(".txt").unwrap();
    assert_eq!(token.chars().count(), 5);
    assert!(token.chars().all(|c| c.is_ascii_alphanumeric() || c == '_' || c == '-'));
}

#[test]
fn rerun_gives_the_same_copies() {
    for mode in [LayoutMode::Reconstructed, LayoutMode::Flat] {
        let mut first = Materializer::new("/out", &txt(), mode, "/w");
        let mut second = Materializer::new("/out", &txt(), mode, "/w");
        assert_eq!(lay_out(&mut first, &sources(), "AbC12"), lay_out(&mut second, &sources(), "AbC12"));
        assert_eq!(first.outcome(), second.outcome());
    }
}

#[test]
fn rerun_reconstructed_with_random_tokens() {
    let run = || {
        let mut m = Materializer::new("/out", &txt(), LayoutMode::Reconstructed, "/w");
        let mut out = Vec::new();
        for f in sources() {
            let d = m.destination(&f).ok().unwrap();
            m.record_copy(&d.path, true);
            out.push(d.path);
        }
        out
    };
    assert_eq!(run(), run());
}
