//! Run requests: which files are executed and where their output goes.
//!
//! A source file is selected when its path ends in the marker extension
//! `.sen.` followed by the language extension `js` or `ts`.  For each
//! selected file one [`RunRequest`] is made, carrying the input path and
//! the output file stem: the input path relative to the project root,
//! re-rooted under the output directory, with the last two extension
//! components stripped.

use vstd::prelude::*;

use crate::errors::SencError;
use crate::paths::{
    file_name, file_name_of, file_stem, join_path, parent_dir, parent_of, rel_to_root,
    relative_path, stem_of, within_root,
};

verus! {

/// The directories every task shares: where the project lives, where
/// output goes, and (when present) where dependencies are installed.
#[derive(Clone)]
pub struct Context {
    pub node_modules_dir: Option<String>,
    pub projectroot: String,
    pub out_dir: String,
}

/// A request to run a single script file and write what it returns.
pub struct RunRequest {
    pub in_file: String,
    pub out_file_stem: String,
}

/// Whether `s` names a file this tool executes: it ends in `.sen.js` or
/// `.sen.ts`, with at least one character other than a newline
/// immediately before that suffix.
pub open spec fn is_sen_path(s: Seq<char>) -> bool {
    s.len() >= 8 && s[s.len() - 8] != '\n' && (s.skip(s.len() - 7) == seq![
        '.',
        's',
        'e',
        'n',
        '.',
        'j',
        's',
    ] || s.skip(s.len() - 7) == seq!['.', 's', 'e', 'n', '.', 't', 's'])
}

/// Relies on `regex::Regex::is_match` with the fixed pattern
/// `.+\.sen\.(js|ts)$`: it matches exactly the strings that end in
/// `.sen.js` or `.sen.ts` preceded by at least one character other than
/// a newline, which is [`is_sen_path`].
#[verifier::external_body]
fn sen_pattern_matches(s: &str) -> (r: bool)
    ensures
        r == is_sen_path(s@),
{
    regex::Regex::new(r".+\.sen\.(js|ts)$").unwrap().is_match(s)
}

/// Whether a path or file name selects a file for execution: it ends in
/// the marker extension and a language extension.
pub fn matches_sen_file(s: &str) -> (r: bool)
    ensures
        r == is_sen_path(s@),
{
    sen_pattern_matches(s)
}

/// The output file stem of `file`: the output directory, then `file`'s
/// directory relative to the project root, then `file`'s name with its
/// last two extension components stripped.
pub open spec fn out_stem_of(file: Seq<char>, outdir: Seq<char>, root: Seq<char>) -> Seq<char> {
    let rel = rel_to_root(parent_of(file), root);
    let stem = stem_of(stem_of(file_name_of(file)));
    if rel.len() == 0 {
        outdir + seq!['/'] + stem
    } else {
        outdir + seq!['/'] + rel + seq!['/'] + stem
    }
}

/// Computes the output file stem for `file_path`, or fails with
/// `OutOfBounds` when the file's directory does not lie below the
/// project root.
pub fn get_out_file_stem(file_path: &str, outdir: &str, projectroot: &str) -> (r: Result<
    String,
    SencError,
>)
    ensures
        r is Ok <==> within_root(parent_of(file_path@), projectroot@),
        r matches Ok(s) ==> s@ == out_stem_of(file_path@, outdir@, projectroot@),
        r is Err ==> r == Result::<String, SencError>::Err(SencError::OutOfBounds),
{
    let dir = parent_dir(file_path);
    match relative_path(projectroot, dir.as_str()) {
        None => Err(SencError::OutOfBounds),
        Some(rel) => {
            let fname = file_name(file_path);
            let stem1 = file_stem(fname.as_str());
            let stem2 = file_stem(stem1.as_str());
            if rel.as_str().is_empty() {
                Ok(join_path(outdir, stem2.as_str()))
            } else {
                let with_rel = join_path(outdir, rel.as_str());
                let out = join_path(with_rel.as_str(), stem2.as_str());
                proof {
                    assert(out@ =~= outdir@ + seq!['/'] + rel@ + seq!['/'] + stem2@);
                }
                Ok(out)
            }
        },
    }
}

/// The request for one explicitly named file: rejects a file that does
/// not carry the marker extension, or whose directory escapes the
/// project root; otherwise produces exactly one request for it.
pub fn run_requests_from_file(file_path: &str, outdir: &str, projectroot: &str) -> (r: Result<
    Vec<RunRequest>,
    SencError,
>)
    ensures
        r is Ok <==> is_sen_path(file_path@) && within_root(parent_of(file_path@), projectroot@),
        r matches Ok(v) ==> v@.len() == 1 && v@[0].in_file@ == file_path@
            && v@[0].out_file_stem@ == out_stem_of(file_path@, outdir@, projectroot@),
        !is_sen_path(file_path@) ==> r == Result::<Vec<RunRequest>, SencError>::Err(
            SencError::UnsupportedMediaType,
        ),
        is_sen_path(file_path@) && !within_root(parent_of(file_path@), projectroot@) ==> r
            == Result::<Vec<RunRequest>, SencError>::Err(SencError::OutOfBounds),
{
    if !matches_sen_file(file_path) {
        return Err(SencError::UnsupportedMediaType);
    }
    match get_out_file_stem(file_path, outdir, projectroot) {
        Err(e) => Err(e),
        Ok(out_file_stem) => {
            let in_file = String::from_str(file_path);
            let mut reqs: Vec<RunRequest> = Vec::new();
            reqs.push(RunRequest { in_file, out_file_stem });
            Ok(reqs)
        },
    }
}

} // verus!
