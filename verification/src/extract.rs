//! The structured-output extraction protocol.
//!
//! A script's returned value is classified by duck typing: an object
//! carrying the output-descriptor marker key chooses its own output
//! path or extension, format, and prefix, and carries its payload under
//! `data`; any other value is itself the payload, serialized as JSON
//! under the default `.json` extension.  A value tagged as an output
//! list is extracted element by element.

use vstd::prelude::*;

use crate::errors::SencError;
use crate::json::{json_of, to_json};
use crate::value::{has_key, has_key_spec, lookup, lookup_spec, str_eq, Value};
use crate::yaml::{to_yaml_text, yaml_text_of};

verus! {

/// The serialization format of one output.
#[derive(Clone, Copy, Debug, PartialEq, Eq, Structural)]
pub enum OutputFormat {
    Json,
    Yaml,
}

/// One file's worth of output: where it goes and what is written.
/// At most one of `out_path` and `out_ext` is set; `data` is the
/// serialized payload, not yet prefixed.
pub struct OutData {
    /// A path relative to the directory of the task's output stem,
    /// overriding the default destination.
    pub out_path: Option<String>,
    /// The extension appended to the output stem, `.json` by default.
    pub out_ext: Option<String>,
    /// Bytes prepended verbatim to the serialized payload.
    pub out_prefix: Option<String>,
    /// The serialized payload.
    pub data: String,
}

pub ghost struct OutDataView {
    pub out_path: Option<Seq<char>>,
    pub out_ext: Option<Seq<char>>,
    pub out_prefix: Option<Seq<char>>,
    pub data: Seq<char>,
}

impl View for OutData {
    type V = OutDataView;

    open spec fn view(&self) -> OutDataView {
        OutDataView {
            out_path: match self.out_path {
                Some(s) => Some(s@),
                None => None,
            },
            out_ext: match self.out_ext {
                Some(s) => Some(s@),
                None => None,
            },
            out_prefix: match self.out_prefix {
                Some(s) => Some(s@),
                None => None,
            },
            data: self.data@,
        }
    }
}

/// The marker key carried by an output-descriptor object.
pub open spec fn out_data_marker() -> Seq<char> {
    seq!['_', '_', 'i', 's', '_', 's', 'e', 'n', 'c', '_', 'o', 'u', 't', '_', 'd', 'a', 't', 'a']
}

/// The key naming the output format.
pub open spec fn key_out_type() -> Seq<char> {
    seq!['o', 'u', 't', '_', 't', 'y', 'p', 'e']
}

/// The key overriding the output path.
pub open spec fn key_out_path() -> Seq<char> {
    seq!['o', 'u', 't', '_', 'p', 'a', 't', 'h']
}

/// The key overriding the output extension.
pub open spec fn key_out_ext() -> Seq<char> {
    seq!['o', 'u', 't', '_', 'e', 'x', 't']
}

/// The key giving the output prefix.
pub open spec fn key_out_prefix() -> Seq<char> {
    seq!['o', 'u', 't', '_', 'p', 'r', 'e', 'f', 'i', 'x']
}

/// The key carrying the payload.
pub open spec fn key_data() -> Seq<char> {
    seq!['d', 'a', 't', 'a']
}

/// The default output extension.
pub open spec fn default_ext() -> Seq<char> {
    seq!['.', 'j', 's', 'o', 'n']
}

/// The default output extension of a format: `.json` for JSON, `.yml`
/// for YAML.
pub open spec fn default_ext_for(format: OutputFormat) -> Seq<char> {
    match format {
        OutputFormat::Json => default_ext(),
        OutputFormat::Yaml => seq!['.', 'y', 'm', 'l'],
    }
}

/// Whether the value is an output descriptor: an object carrying the
/// descriptor marker key.
pub open spec fn is_out_data_value(v: Value) -> bool {
    match v {
        Value::Obj(pairs) => has_key_spec(pairs@, out_data_marker()),
        _ => false,
    }
}

/// A classified descriptor, before serialization.
pub ghost struct DescView {
    pub out_path: Option<Seq<char>>,
    pub out_ext: Option<Seq<char>>,
    pub out_prefix: Option<Seq<char>>,
    pub format: OutputFormat,
    pub payload: Value,
}

/// The format named by the descriptor's `out_type` field: absent or
/// `""`/`"json"` is JSON, `"yaml"` is YAML, anything else is refused.
pub open spec fn format_spec(pairs: Seq<(String, Value)>) -> Result<OutputFormat, SencError> {
    match lookup_spec(pairs, key_out_type()) {
        None => Ok(OutputFormat::Json),
        Some(Value::Str(s)) => if s@ == Seq::<char>::empty() || s@ == seq!['j', 's', 'o', 'n'] {
            Ok(OutputFormat::Json)
        } else if s@ == seq!['y', 'a', 'm', 'l'] {
            Ok(OutputFormat::Yaml)
        } else {
            Err(SencError::UnsupportedFormat)
        },
        Some(_) => Err(SencError::UnsupportedFormat),
    }
}

/// The string bound to `key`, when the binding exists and is a string.
pub open spec fn string_field(pairs: Seq<(String, Value)>, key: Seq<char>) -> Option<Seq<char>> {
    match lookup_spec(pairs, key) {
        Some(Value::Str(s)) => Some(s@),
        _ => None,
    }
}

/// How a returned value is classified: a plain value is a JSON payload
/// under the default extension; a descriptor object names its format,
/// carries its payload under `data` (the whole object when absent),
/// may set a prefix, and may set one of `out_path`/`out_ext` — setting
/// both is refused, naming an unknown format is refused.
pub open spec fn descriptor_spec(v: Value) -> Result<DescView, SencError> {
    if !is_out_data_value(v) {
        Ok(
            DescView {
                out_path: None,
                out_ext: Some(default_ext()),
                out_prefix: None,
                format: OutputFormat::Json,
                payload: v,
            },
        )
    } else {
        let pairs = v->Obj_0@;
        match format_spec(pairs) {
            Err(e) => Err(e),
            Ok(format) => {
                let path = string_field(pairs, key_out_path());
                let ext = string_field(pairs, key_out_ext());
                if path is Some && ext is Some {
                    Err(SencError::ConflictingOutputTarget)
                } else {
                    Ok(
                        DescView {
                            out_path: path,
                            out_ext: if path is Some {
                                None
                            } else if ext is Some {
                                ext
                            } else {
                                Some(default_ext_for(format))
                            },
                            out_prefix: string_field(pairs, key_out_prefix()),
                            format,
                            payload: match lookup_spec(pairs, key_data()) {
                                Some(d) => d,
                                None => v,
                            },
                        },
                    )
                }
            },
        }
    }
}

/// The serialized text of a payload in a format.  The YAML text is the
/// named rendering of the payload's JSON text.
pub open spec fn serialized_spec(format: OutputFormat, payload: Value) -> Seq<char> {
    match format {
        OutputFormat::Json => json_of(payload),
        OutputFormat::Yaml => yaml_text_of(json_of(payload)),
    }
}

/// What a successful extraction of `v` looks like: the descriptor's
/// fields, with its payload serialized in its format.
pub open spec fn one_result_ok(v: Value, od: OutData) -> bool {
    match descriptor_spec(v) {
        Ok(d) => od@.out_path == d.out_path && od@.out_ext == d.out_ext && od@.out_prefix
            == d.out_prefix && od@.data == serialized_spec(d.format, d.payload),
        Err(_) => false,
    }
}

/// How a single extraction can fail: as its classification fails, or —
/// for a YAML descriptor only — because the YAML re-encoder refused the
/// payload.
pub open spec fn one_result_err(v: Value, e: SencError) -> bool {
    match descriptor_spec(v) {
        Err(e0) => e == e0,
        Ok(d) => e == SencError::Execution && d.format == OutputFormat::Yaml,
    }
}

/// The descriptor invariant: whatever value is extracted, at most one of
/// the output path and the output extension is set, and when no output
/// path is set the extension is always there (the format's default when
/// none was named).
pub proof fn lemma_descriptor_target_exclusive(v: Value, od: OutData)
    requires
        one_result_ok(v, od),
    ensures
        !(od@.out_path is Some && od@.out_ext is Some),
        od@.out_path is None ==> od@.out_ext is Some,
{
}

/// Serializes a payload in a format.  JSON always succeeds; YAML fails
/// only as the re-encoder does.
pub fn serialize_payload(format: OutputFormat, payload: &Value) -> (r: Result<String, SencError>)
    ensures
        match r {
            Ok(t) => t@ == serialized_spec(format, *payload),
            Err(e) => e == SencError::Execution && format == OutputFormat::Yaml,
        },
        format == OutputFormat::Json ==> r is Ok,
{
    let json = to_json(payload);
    match format {
        OutputFormat::Json => Ok(json),
        OutputFormat::Yaml => to_yaml_text(json.as_str()),
    }
}

/// Extracts one returned value: classifies it as a plain payload or a
/// descriptor, reads the descriptor's fields, and serializes the payload
/// in the chosen format.
pub fn extract_one(v: &Value) -> (r: Result<OutData, SencError>)
    ensures
        match r {
            Ok(od) => one_result_ok(*v, od),
            Err(e) => one_result_err(*v, e),
        },
        (descriptor_spec(*v) matches Ok(d) && d.format == OutputFormat::Json) ==> r is Ok,
{
    let marked: Option<&Vec<(String, Value)>> = match v {
        Value::Obj(pairs) => {
            proof {
                reveal_strlit("__is_senc_out_data");
                assert("__is_senc_out_data"@ =~= out_data_marker());
            }
            if has_key(pairs, "__is_senc_out_data") {
                Some(pairs)
            } else {
                None
            }
        },
        _ => None,
    };
    let pairs = match marked {
        Some(pairs) => pairs,
        None => {
            proof {
                assert(!is_out_data_value(*v));
            }
            let data = to_json(v);
            let ext = String::from_str(".json");
            proof {
                reveal_strlit(".json");
                assert(ext@ =~= default_ext());
            }
            let od = OutData { out_path: None, out_ext: Some(ext), out_prefix: None, data };
            proof {
                assert(one_result_ok(*v, od));
            }
            return Ok(od);
        },
    };
    proof {
        assert(is_out_data_value(*v));
        reveal_strlit("out_type");
        assert("out_type"@ =~= key_out_type());
        reveal_strlit("json");
        assert("json"@ =~= seq!['j', 's', 'o', 'n']);
        reveal_strlit("yaml");
        assert("yaml"@ =~= seq!['y', 'a', 'm', 'l']);
    }
    let format = match lookup(pairs, "out_type") {
        None => OutputFormat::Json,
        Some(field) => match field {
            Value::Str(s) => {
                if s.as_str().is_empty() {
                    proof {
                        assert(s@ =~= Seq::<char>::empty());
                    }
                    OutputFormat::Json
                } else if str_eq(s.as_str(), "json") {
                    OutputFormat::Json
                } else if str_eq(s.as_str(), "yaml") {
                    OutputFormat::Yaml
                } else {
                    proof {
                        assert(one_result_err(*v, SencError::UnsupportedFormat));
                    }
                    return Err(SencError::UnsupportedFormat);
                }
            },
            _ => {
                proof {
                    assert(one_result_err(*v, SencError::UnsupportedFormat));
                }
                return Err(SencError::UnsupportedFormat);
            },
        },
    };
    proof {
        assert(format_spec(pairs@) == Ok::<OutputFormat, SencError>(format));
        reveal_strlit("out_path");
        assert("out_path"@ =~= key_out_path());
        reveal_strlit("out_ext");
        assert("out_ext"@ =~= key_out_ext());
        reveal_strlit("out_prefix");
        assert("out_prefix"@ =~= key_out_prefix());
        reveal_strlit("data");
        assert("data"@ =~= key_data());
    }
    let out_path: Option<String> = match lookup(pairs, "out_path") {
        Some(field) => match field {
            Value::Str(s) => Some(s.clone()),
            _ => None,
        },
        None => None,
    };
    let out_ext_field: Option<String> = match lookup(pairs, "out_ext") {
        Some(field) => match field {
            Value::Str(s) => Some(s.clone()),
            _ => None,
        },
        None => None,
    };
    if out_path.is_some() && out_ext_field.is_some() {
        proof {
            assert(one_result_err(*v, SencError::ConflictingOutputTarget));
        }
        return Err(SencError::ConflictingOutputTarget);
    }
    let out_prefix: Option<String> = match lookup(pairs, "out_prefix") {
        Some(field) => match field {
            Value::Str(s) => Some(s.clone()),
            _ => None,
        },
        None => None,
    };
    let payload: &Value = match lookup(pairs, "data") {
        Some(d) => d,
        None => v,
    };
    let data = match serialize_payload(format, payload) {
        Ok(t) => t,
        Err(e) => {
            proof {
                assert(one_result_err(*v, e));
            }
            return Err(e);
        },
    };
    let out_ext: Option<String> = if out_path.is_some() {
        None
    } else {
        match out_ext_field {
            Some(e) => Some(e),
            None => {
                let ext = match format {
                    OutputFormat::Json => {
                        let e = String::from_str(".json");
                        proof {
                            reveal_strlit(".json");
                            assert(e@ =~= default_ext_for(format));
                        }
                        e
                    },
                    OutputFormat::Yaml => {
                        let e = String::from_str(".yml");
                        proof {
                            reveal_strlit(".yml");
                            assert(e@ =~= default_ext_for(format));
                        }
                        e
                    },
                };
                Some(ext)
            },
        }
    };
    let od = OutData { out_path, out_ext, out_prefix, data };
    proof {
        assert(one_result_ok(*v, od));
    }
    Ok(od)
}

/// Extracts every output of a returned value: element by element for a
/// value tagged as an output list, as a single output otherwise.  Order
/// is preserved; the first failing element fails the whole extraction.
pub fn extract_results(v: &Value, list_tagged: bool) -> (r: Result<Vec<OutData>, SencError>)
    ensures
        !(list_tagged && *v is Arr) ==> match r {
            Ok(outs) => outs@.len() == 1 && one_result_ok(*v, outs@[0]),
            Err(e) => one_result_err(*v, e),
        },
        (list_tagged && *v is Arr) ==> match r {
            Ok(outs) => outs@.len() == v->Arr_0@.len() && forall|i: int|
                0 <= i < outs@.len() ==> one_result_ok(v->Arr_0@[i], #[trigger] outs@[i]),
            Err(e) => exists|i: int|
                0 <= i < v->Arr_0@.len() && one_result_err(#[trigger] v->Arr_0@[i], e) && (
                forall|j: int| 0 <= j < i ==> descriptor_spec(#[trigger] v->Arr_0@[j]) is Ok),
        },
{
    if list_tagged {
        if let Value::Arr(items) = v {
            let mut outs: Vec<OutData> = Vec::new();
            let mut i: usize = 0;
            while i < items.len()
                invariant
                    list_tagged,
                    *v is Arr,
                    items == v->Arr_0,
                    i <= items@.len(),
                    outs@.len() == i,
                    forall|j: int| 0 <= j < i ==> one_result_ok(items@[j], #[trigger] outs@[j]),
                decreases items@.len() - i,
            {
                match extract_one(&items[i]) {
                    Ok(od) => {
                        outs.push(od);
                    },
                    Err(e) => {
                        proof {
                            assert(one_result_err(v->Arr_0@[i as int], e));
                            assert forall|j: int| 0 <= j < i implies descriptor_spec(
                                #[trigger] v->Arr_0@[j],
                            ) is Ok by {
                                assert(one_result_ok(items@[j], outs@[j]));
                            }
                        }
                        return Err(e);
                    },
                }
                i = i + 1;
            }
            return Ok(outs);
        }
    }
    match extract_one(v) {
        Ok(od) => {
            let mut outs: Vec<OutData> = Vec::new();
            outs.push(od);
            Ok(outs)
        },
        Err(e) => Err(e),
    }
}

} // verus!
