use senc::errors::SencError;
use senc::requests::{get_out_file_stem, matches_sen_file, run_requests_from_file};

#[test]
fn test_matches_sen_file_accepts_both_languages() {
    assert!(matches_sen_file("main.sen.js"));
    assert!(matches_sen_file("main.sen.ts"));
    assert!(matches_sen_file("/proj/deep/dir/x.sen.js"));
}

#[test]
fn test_matches_sen_file_needs_a_leading_character() {
    assert!(!matches_sen_file(".sen.js"));
    assert!(matches_sen_file("a.sen.js"));
}

#[test]
fn test_matches_sen_file_rejects_other_names() {
    assert!(!matches_sen_file("main.js"));
    assert!(!matches_sen_file("main.sen.jsx"));
    assert!(!matches_sen_file("main.sen.yaml"));
    assert!(!matches_sen_file("mainsen.js"));
}

#[test]
fn test_out_file_stem_reroots_under_outdir() {
    assert_eq!(
        get_out_file_stem("/proj/foo/bar/baz/main.sen.js", "/out", "/proj"),
        Ok("/out/foo/bar/baz/main".to_string())
    );
}

#[test]
fn test_out_file_stem_of_file_directly_under_root() {
    assert_eq!(get_out_file_stem("/proj/main.sen.ts", "/out", "/proj"), Ok("/out/main".to_string()));
}

#[test]
fn test_out_file_stem_outside_root_is_out_of_bounds() {
    assert_eq!(
        get_out_file_stem("/elsewhere/main.sen.js", "/out", "/proj"),
        Err(SencError::OutOfBounds)
    );
}

#[test]
fn test_run_request_for_one_file() {
    let reqs = run_requests_from_file("/proj/carol/main.sen.js", "/out", "/proj").unwrap();
    assert_eq!(reqs.len(), 1);
    assert_eq!(reqs[0].in_file, "/proj/carol/main.sen.js");
    assert_eq!(reqs[0].out_file_stem, "/out/carol/main");
}

#[test]
fn test_run_request_rejects_unmarked_file() {
    let r = run_requests_from_file("/proj/carol/main.js", "/out", "/proj");
    assert!(matches!(r, Err(SencError::UnsupportedMediaType)));
}

#[test]
fn test_run_request_rejects_file_outside_root() {
    let r = run_requests_from_file("/tmp/main.sen.js", "/out", "/proj");
    assert!(matches!(r, Err(SencError::OutOfBounds)));
}
