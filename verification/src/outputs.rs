//! Where one output is written, and what bytes are written there.
//!
//! The destination is the descriptor's `out_path` resolved against the
//! directory of the task's output stem, or else the stem with the
//! descriptor's extension; either way it is normalized lexically and
//! must stay inside the output root, `..` segments included.  The
//! written text is the serialized payload with the prefix, when one is
//! set, prepended verbatim.  Two descriptors resolving to the same
//! destination are not deduplicated: the last write wins.

use vstd::prelude::*;

use crate::errors::SencError;
use crate::extract::{default_ext, OutData, OutDataView};
use crate::paths::{
    assert_file_path_in_projectroot, clean_path, cleaned_path, join_path, parent_dir, parent_of,
    within_root,
};

verus! {

/// The normalized destination a descriptor asks for, before the sandbox
/// check: `parentDir(stem)/out_path` when an output path is set, else
/// the stem with the output extension (`.json` when unset) appended.
pub open spec fn dest_of(out_file_stem: Seq<char>, od: OutDataView) -> Seq<char> {
    match od.out_path {
        Some(p) => cleaned_path(parent_of(out_file_stem) + seq!['/'] + p),
        None => cleaned_path(
            out_file_stem + match od.out_ext {
                Some(e) => e,
                None => default_ext(),
            },
        ),
    }
}

/// The bytes written for a descriptor: its prefix, when set, then its
/// serialized payload.
pub open spec fn out_bytes_of(od: OutDataView) -> Seq<char> {
    match od.out_prefix {
        Some(p) => p + od.data,
        None => od.data,
    }
}

/// Computes the destination path of one output, failing with
/// `OutOfBounds` exactly when the normalized destination escapes the
/// output root.
pub fn out_file_path(out_dir: &str, out_file_stem: &str, d: &OutData) -> (r: Result<
    String,
    SencError,
>)
    ensures
        r is Ok <==> within_root(dest_of(out_file_stem@, d@), out_dir@),
        r matches Ok(p) ==> p@ == dest_of(out_file_stem@, d@),
        r is Err ==> r == Result::<String, SencError>::Err(SencError::OutOfBounds),
{
    let raw: String = match &d.out_path {
        Some(p) => {
            let dir = parent_dir(out_file_stem);
            join_path(dir.as_str(), p.as_str())
        },
        None => {
            let mut s = String::from_str(out_file_stem);
            match &d.out_ext {
                Some(e) => s.append(e.as_str()),
                None => {
                    proof {
                        reveal_strlit(".json");
                        assert(".json"@ =~= default_ext());
                    }
                    s.append(".json");
                },
            }
            s
        },
    };
    let cleaned = clean_path(raw.as_str());
    match assert_file_path_in_projectroot(cleaned.as_str(), out_dir) {
        Ok(_) => Ok(cleaned),
        Err(e) => Err(e),
    }
}

/// The bytes written for `d`: the prefix, when set, prepended verbatim
/// to the serialized payload.
pub fn output_bytes(d: &OutData) -> (r: String)
    ensures
        r@ == out_bytes_of(d@),
{
    match &d.out_prefix {
        Some(p) => {
            let mut s = p.clone();
            s.append(d.data.as_str());
            s
        },
        None => d.data.clone(),
    }
}

/// Plans one write: the sandbox-checked destination and the exact bytes
/// to put there.
pub fn plan_write(out_dir: &str, out_file_stem: &str, d: &OutData) -> (r: Result<
    (String, String),
    SencError,
>)
    ensures
        r is Ok <==> within_root(dest_of(out_file_stem@, d@), out_dir@),
        r matches Ok(pair) ==> pair.0@ == dest_of(out_file_stem@, d@) && pair.1@ == out_bytes_of(
            d@,
        ),
        r is Err ==> r == Result::<(String, String), SencError>::Err(SencError::OutOfBounds),
{
    match out_file_path(out_dir, out_file_stem, d) {
        Ok(dest) => {
            let bytes = output_bytes(d);
            Ok((dest, bytes))
        },
        Err(e) => Err(e),
    }
}

} // verus!
