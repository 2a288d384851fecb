//! YAML re-encoding, through the outside serializers.
//!
//! Both directions go through a JSON document: what a payload serializes
//! to as YAML is a function of its JSON text, and what a YAML module
//! loads as is a function of its YAML text.  The two results are given
//! names here; nothing more is assumed of them.

use vstd::prelude::*;

use crate::errors::SencError;

verus! {

/// The YAML rendering of the document whose JSON text is given.
pub uninterp spec fn yaml_text_of(json_text: Seq<char>) -> Seq<char>;

/// The JSON rendering of the document whose YAML text is given.
pub uninterp spec fn json_of_yaml(yaml_text: Seq<char>) -> Seq<char>;

/// Relies on `serde_json::from_str` and `serde_yaml::to_string`: parsing
/// a JSON document and re-encoding it as YAML depends on the JSON text
/// alone (object keys are held sorted in between).
#[verifier::external_body]
pub(crate) fn to_yaml_text(json_text: &str) -> (r: Result<String, SencError>)
    ensures
        match r {
            Ok(t) => t@ == yaml_text_of(json_text@),
            Err(e) => e == SencError::Execution,
        },
{
    let parsed: serde_json::Value = match serde_json::from_str(json_text) {
        Ok(v) => v,
        Err(_) => return Err(SencError::Execution),
    };
    match serde_yaml::to_string(&parsed) {
        Ok(s) => Ok(s),
        Err(_) => Err(SencError::Execution),
    }
}

/// Relies on `serde_yaml::from_str` and `serde_json::to_string`: parsing
/// a YAML document and re-encoding it as JSON depends on the YAML text
/// alone (object keys are held sorted in between).  Fails on YAML the
/// parser rejects.
#[verifier::external_body]
pub(crate) fn yaml_to_json_text(yaml_text: &str) -> (r: Result<String, SencError>)
    ensures
        match r {
            Ok(t) => t@ == json_of_yaml(yaml_text@),
            Err(e) => e == SencError::Execution,
        },
{
    let parsed: serde_json::Value = match serde_yaml::from_str(yaml_text) {
        Ok(v) => v,
        Err(_) => return Err(SencError::Execution),
    };
    match serde_json::to_string(&parsed) {
        Ok(s) => Ok(s),
        Err(_) => Err(SencError::Execution),
    }
}

} // verus!
