//! Module resolution and loading.
//!
//! A specifier is an absolute path, a relative path, or a bare
//! dependency name.  Path imports resolve against the referrer's
//! directory and are confined to the project root; bare imports resolve
//! under the dependency root — directly when the name is a file there,
//! else through the package manifest's ESM entry field — and are
//! confined to the dependency root.  A resolved file is classified by
//! its extension and, depending on the classification, loaded verbatim,
//! transpiled to JavaScript, or re-encoded from YAML to JSON.

use vstd::prelude::*;

use crate::errors::SencError;
use crate::paths::{
    assert_file_path_in_projectroot, clean_path, cleaned_path, extension_of, file_extension,
    file_name, file_name_of, join_path, parent_dir, parent_of, within_root,
};
use crate::text::to_chars;
use crate::value::str_eq;
use crate::yaml::{json_of_yaml, yaml_to_json_text};

verus! {

/// How a specifier asks to be resolved.
#[derive(Clone, Copy, Debug, PartialEq, Eq, Structural)]
pub enum SpecifierKind {
    Absolute,
    Relative,
    Bare,
}

/// Whether the specifier is an absolute path.
pub open spec fn is_absolute_spec(s: Seq<char>) -> bool {
    s.len() > 0 && s[0] == '/'
}

/// Whether the specifier is a relative path: it starts with `./` or
/// `../`.
pub open spec fn is_relative_spec(s: Seq<char>) -> bool {
    (s.len() >= 2 && s[0] == '.' && s[1] == '/') || (s.len() >= 3 && s[0] == '.' && s[1] == '.'
        && s[2] == '/')
}

/// The kind of a specifier; anything neither absolute nor relative is a
/// bare dependency name.
pub open spec fn specifier_kind_spec(s: Seq<char>) -> SpecifierKind {
    if is_absolute_spec(s) {
        SpecifierKind::Absolute
    } else if is_relative_spec(s) {
        SpecifierKind::Relative
    } else {
        SpecifierKind::Bare
    }
}

/// Classifies a specifier, executably.
pub fn specifier_kind(specifier: &str) -> (r: SpecifierKind)
    ensures
        r == specifier_kind_spec(specifier@),
{
    let v = to_chars(specifier);
    if v.len() > 0 && v[0] == '/' {
        SpecifierKind::Absolute
    } else if v.len() >= 2 && v[0] == '.' && v[1] == '/' {
        SpecifierKind::Relative
    } else if v.len() >= 3 && v[0] == '.' && v[1] == '.' && v[2] == '/' {
        SpecifierKind::Relative
    } else {
        SpecifierKind::Bare
    }
}

/// Where a path import points before the sandbox check: an absolute
/// specifier normalized, a relative one resolved against the referrer's
/// directory.
pub open spec fn path_import_candidate(specifier: Seq<char>, referrer: Seq<char>) -> Seq<char> {
    if is_absolute_spec(specifier) {
        cleaned_path(specifier)
    } else {
        cleaned_path(parent_of(referrer) + seq!['/'] + specifier)
    }
}

/// The ESM entry field of a package manifest: the string under its
/// `module` key, none when the manifest does not parse or the field is
/// missing or not a string.
pub uninterp spec fn manifest_esm_entry(manifest: Seq<char>) -> Option<Seq<char>>;

/// Relies on `serde_json::from_str`, `serde_json::Value::get` and
/// `Value::as_str`: reads the manifest's `module` field, which depends
/// on the manifest text alone.
#[verifier::external_body]
pub(crate) fn esm_entry_of_manifest(manifest: &str) -> (r: Option<String>)
    ensures
        match r {
            Some(e) => manifest_esm_entry(manifest@) == Some(e@),
            None => manifest_esm_entry(manifest@) is None,
        },
{
    let parsed: serde_json::Value = match serde_json::from_str(manifest) {
        Ok(v) => v,
        Err(_) => return None,
    };
    match parsed.get("module").and_then(|m| m.as_str()) {
        Some(s) => Some(s.to_string()),
        None => None,
    }
}

/// How a bare dependency name resolves, given what the filesystem
/// showed: no dependency root refuses the import; a name that is itself
/// a file under the root resolves to it; otherwise the package manifest
/// must give an ESM entry, resolved under the package directory.  Every
/// resolved path must stay inside the dependency root.
pub open spec fn bare_resolution_spec(
    dep_root: Option<Seq<char>>,
    specifier: Seq<char>,
    dep_is_file: bool,
    manifest: Option<Seq<char>>,
) -> Result<Seq<char>, SencError> {
    match dep_root {
        None => Err(SencError::UnresolvedImport),
        Some(root) => {
            if dep_is_file {
                let direct = cleaned_path(root + seq!['/'] + specifier);
                if within_root(direct, root) {
                    Ok(direct)
                } else {
                    Err(SencError::OutOfBounds)
                }
            } else {
                match manifest {
                    None => Err(SencError::UnsupportedPackage),
                    Some(m) => match manifest_esm_entry(m) {
                        None => Err(SencError::UnsupportedPackage),
                        Some(entry) => {
                            let p = cleaned_path(
                                root + seq!['/'] + specifier + seq!['/'] + entry,
                            );
                            if within_root(p, root) {
                                Ok(p)
                            } else {
                                Err(SencError::OutOfBounds)
                            }
                        },
                    },
                }
            }
        },
    }
}

/// Whether two characters are equal up to ASCII case.
pub open spec fn ascii_eq_ci(a: char, b: char) -> bool {
    a == b || ((a as u32) + 32 == (b as u32) && 65 <= (a as u32) <= 90) || ((b as u32) + 32 == (
    a as u32) && 65 <= (b as u32) <= 90)
}

/// Whether two character sequences are equal up to ASCII case.
pub open spec fn matches_ci(s: Seq<char>, t: Seq<char>) -> bool {
    s.len() == t.len() && forall|i: int| 0 <= i < s.len() ==> ascii_eq_ci(s[i], t[i])
}

/// Compares two strings up to ASCII case, executably.
pub fn str_eq_ci(a: &str, b: &str) -> (r: bool)
    ensures
        r == matches_ci(a@, b@),
{
    let an = a.unicode_len();
    let bn = b.unicode_len();
    if an != bn {
        return false;
    }
    let mut i: usize = 0;
    while i < an
        invariant
            an == a@.len(),
            a@.len() == b@.len(),
            i <= a@.len(),
            forall|j: int| 0 <= j < i ==> ascii_eq_ci(a@[j], b@[j]),
        decreases an - i,
    {
        let x = a.get_char(i);
        let y = b.get_char(i);
        let xu = x as u32;
        let yu = y as u32;
        let same = x == y || (xu + 32 == yu && 65 <= xu && xu <= 90) || (yu + 32 == xu && 65 <= yu
            && yu <= 90);
        if !same {
            return false;
        }
        i = i + 1;
    }
    true
}

/// What a resolved file is, by its extension: a script loaded verbatim,
/// a typed script to transpile, JSON data, YAML data to re-encode, or
/// nothing this tool can load.  The script and data extensions are
/// matched exactly; the YAML ones up to ASCII case.
#[derive(Clone, Copy, Debug, PartialEq, Eq, Structural)]
pub enum MediaClassification {
    Script,
    TypedScript,
    DataJson,
    DataYaml,
    Unknown,
}

/// The classification of an extension.
pub open spec fn classify_ext(ext: Seq<char>) -> MediaClassification {
    if ext == seq!['j', 's'] || ext == seq!['m', 'j', 's'] || ext == seq!['c', 'j', 's'] {
        MediaClassification::Script
    } else if ext == seq!['t', 's'] || ext == seq!['j', 's', 'x'] || ext == seq!['t', 's', 'x']
        || ext == seq!['m', 't', 's'] || ext == seq!['c', 't', 's'] {
        MediaClassification::TypedScript
    } else if ext == seq!['j', 's', 'o', 'n'] {
        MediaClassification::DataJson
    } else if matches_ci(ext, seq!['y', 'a', 'm', 'l']) || matches_ci(ext, seq!['y', 'm', 'l']) {
        MediaClassification::DataYaml
    } else {
        MediaClassification::Unknown
    }
}

/// The classification of the file at `path`: that of its extension,
/// `Unknown` when it has none.
pub open spec fn media_of(path: Seq<char>) -> MediaClassification {
    match extension_of(file_name_of(path)) {
        None => MediaClassification::Unknown,
        Some(ext) => classify_ext(ext),
    }
}

/// Classifies the file at `path`, executably.
pub fn classify_media(path: &str) -> (r: MediaClassification)
    ensures
        r == media_of(path@),
{
    let name = file_name(path);
    match file_extension(name.as_str()) {
        None => MediaClassification::Unknown,
        Some(ext) => {
            let e = ext.as_str();
            proof {
                reveal_strlit("js");
                assert("js"@ =~= seq!['j', 's']);
                reveal_strlit("mjs");
                assert("mjs"@ =~= seq!['m', 'j', 's']);
                reveal_strlit("cjs");
                assert("cjs"@ =~= seq!['c', 'j', 's']);
                reveal_strlit("ts");
                assert("ts"@ =~= seq!['t', 's']);
                reveal_strlit("jsx");
                assert("jsx"@ =~= seq!['j', 's', 'x']);
                reveal_strlit("tsx");
                assert("tsx"@ =~= seq!['t', 's', 'x']);
                reveal_strlit("mts");
                assert("mts"@ =~= seq!['m', 't', 's']);
                reveal_strlit("cts");
                assert("cts"@ =~= seq!['c', 't', 's']);
                reveal_strlit("json");
                assert("json"@ =~= seq!['j', 's', 'o', 'n']);
                reveal_strlit("yaml");
                assert("yaml"@ =~= seq!['y', 'a', 'm', 'l']);
                reveal_strlit("yml");
                assert("yml"@ =~= seq!['y', 'm', 'l']);
            }
            if str_eq(e, "js") || str_eq(e, "mjs") || str_eq(e, "cjs") {
                MediaClassification::Script
            } else if str_eq(e, "ts") || str_eq(e, "jsx") || str_eq(e, "tsx") || str_eq(e, "mts")
                || str_eq(e, "cts") {
                MediaClassification::TypedScript
            } else if str_eq(e, "json") {
                MediaClassification::DataJson
            } else if str_eq_ci(e, "yaml") || str_eq_ci(e, "yml") {
                MediaClassification::DataYaml
            } else {
                MediaClassification::Unknown
            }
        },
    }
}

/// Which file an extensionless import loads: the path itself when it has
/// an extension; otherwise the sibling with `.ts` appended when that
/// file exists, else the one with `.js`, else nothing.
pub open spec fn load_path_spec(path: Seq<char>, ts_exists: bool, js_exists: bool) -> Result<
    Seq<char>,
    SencError,
> {
    if extension_of(file_name_of(path)) is Some {
        Ok(path)
    } else if ts_exists {
        Ok(path + seq!['.', 't', 's'])
    } else if js_exists {
        Ok(path + seq!['.', 'j', 's'])
    } else {
        Err(SencError::FileNotFound)
    }
}

/// Picks the file a resolved path loads, given whether the `.ts` and
/// `.js` sibling candidates exist on disk.
pub fn resolve_load_path(path: &str, ts_exists: bool, js_exists: bool) -> (r: Result<
    String,
    SencError,
>)
    ensures
        match r {
            Ok(p) => load_path_spec(path@, ts_exists, js_exists) == Ok::<Seq<char>, SencError>(p@),
            Err(e) => load_path_spec(path@, ts_exists, js_exists) == Err::<Seq<char>, SencError>(
                e,
            ),
        },
{
    let name = file_name(path);
    let has_ext = match file_extension(name.as_str()) {
        Some(_) => true,
        None => false,
    };
    if has_ext {
        Ok(String::from_str(path))
    } else if ts_exists {
        let mut s = String::from_str(path);
        proof {
            reveal_strlit(".ts");
            assert(".ts"@ =~= seq!['.', 't', 's']);
        }
        s.append(".ts");
        Ok(s)
    } else if js_exists {
        let mut s = String::from_str(path);
        proof {
            reveal_strlit(".js");
            assert(".js"@ =~= seq!['.', 'j', 's']);
        }
        s.append(".js");
        Ok(s)
    } else {
        Err(SencError::FileNotFound)
    }
}

/// How a loaded module is handed to the engine.
#[derive(Clone, Copy, Debug, PartialEq, Eq, Structural)]
pub enum ModuleKind {
    JavaScript,
    Json,
}

/// The JavaScript a typed script at `path` transpiles to.
pub uninterp spec fn transpiled_js_of(path: Seq<char>, source: Seq<char>) -> Seq<char>;

/// Relies on `deno_ast::parse_module` and `ParsedSource::transpile`: the
/// emitted JavaScript depends on the module path (which fixes the media
/// type and the source-map reference) and the source text alone.  Fails
/// on source the parser rejects, and on a path that is not absolute.
#[verifier::external_body]
pub(crate) fn transpile_typed_script(path: &str, source: &str) -> (r: Result<String, SencError>)
    ensures
        match r {
            Ok(t) => t@ == transpiled_js_of(path@, source@),
            Err(e) => e == SencError::Execution,
        },
{
    let params = deno_ast::ParseParams {
        specifier: deno_ast::ModuleSpecifier::from_file_path(path).map_err(
            |_| SencError::Execution,
        )?,
        text: source.into(),
        media_type: deno_ast::MediaType::from_path(std::path::Path::new(path)),
        capture_tokens: false,
        scope_analysis: false,
        maybe_syntax: None,
    };
    let parsed = deno_ast::parse_module(params).map_err(|_| SencError::Execution)?;
    let emitted = parsed.transpile(&Default::default(), &Default::default(), &Default::default());
    emitted.map(|t| t.into_source().text).map_err(|_| SencError::Execution)
}

/// Prepares the source of a resolved module for the engine: scripts and
/// JSON load verbatim, typed scripts are transpiled, YAML is re-encoded
/// as JSON, anything else is refused.
pub fn prepare_module_source(path: &str, code: &str) -> (r: Result<(ModuleKind, String), SencError>)
    ensures
        ({
            let m = media_of(path@);
            match r {
                Ok(p) => match m {
                    MediaClassification::Script => p.0 == ModuleKind::JavaScript && p.1@ == code@,
                    MediaClassification::TypedScript => p.0 == ModuleKind::JavaScript && p.1@
                        == transpiled_js_of(path@, code@),
                    MediaClassification::DataJson => p.0 == ModuleKind::Json && p.1@ == code@,
                    MediaClassification::DataYaml => p.0 == ModuleKind::Json && p.1@
                        == json_of_yaml(code@),
                    MediaClassification::Unknown => false,
                },
                Err(e) => match m {
                    MediaClassification::Script => false,
                    MediaClassification::DataJson => false,
                    MediaClassification::TypedScript => e == SencError::Execution,
                    MediaClassification::DataYaml => e == SencError::Execution,
                    MediaClassification::Unknown => e == SencError::UnsupportedMediaType,
                },
            }
        }),
{
    match classify_media(path) {
        MediaClassification::Script => Ok((ModuleKind::JavaScript, String::from_str(code))),
        MediaClassification::TypedScript => {
            match transpile_typed_script(path, code) {
                Ok(js) => Ok((ModuleKind::JavaScript, js)),
                Err(e) => Err(e),
            }
        },
        MediaClassification::DataJson => Ok((ModuleKind::Json, String::from_str(code))),
        MediaClassification::DataYaml => {
            match yaml_to_json_text(code) {
                Ok(json) => Ok((ModuleKind::Json, json)),
                Err(e) => Err(e),
            }
        },
        MediaClassification::Unknown => Err(SencError::UnsupportedMediaType),
    }
}

/// The module loader: resolves specifiers for one project, keeping path
/// imports inside the project root and bare imports inside the
/// dependency root.
pub struct TsModuleLoader {
    pub projectroot: String,
    pub node_modules_dir: Option<String>,
}

impl TsModuleLoader {
    /// A loader for the given project root and optional dependency root.
    pub fn new(projectroot: String, node_modules_dir: Option<String>) -> (s: TsModuleLoader)
        ensures
            s.projectroot == projectroot,
            s.node_modules_dir == node_modules_dir,
    {
        TsModuleLoader { projectroot, node_modules_dir }
    }

    /// Resolves an absolute or relative specifier against the referrer:
    /// succeeds exactly when the normalized target stays inside the
    /// project root.
    pub fn resolve_path_import(&self, specifier: &str, referrer: &str) -> (r: Result<
        String,
        SencError,
    >)
        requires
            specifier_kind_spec(specifier@) != SpecifierKind::Bare,
        ensures
            r is Ok <==> within_root(
                path_import_candidate(specifier@, referrer@),
                self.projectroot@,
            ),
            r matches Ok(p) ==> p@ == path_import_candidate(specifier@, referrer@),
            r is Err ==> r == Result::<String, SencError>::Err(SencError::OutOfBounds),
    {
        let kind = specifier_kind(specifier);
        let raw: String = if kind == SpecifierKind::Absolute {
            String::from_str(specifier)
        } else {
            let dir = parent_dir(referrer);
            join_path(dir.as_str(), specifier)
        };
        let cleaned = clean_path(raw.as_str());
        match assert_file_path_in_projectroot(cleaned.as_str(), self.projectroot.as_str()) {
            Ok(_) => Ok(cleaned),
            Err(e) => Err(e),
        }
    }

    /// Resolves a bare dependency name, given what the filesystem showed
    /// about it: whether `dep_root/<specifier>` is itself a file, and the
    /// text of `dep_root/<specifier>/package.json` when that file exists.
    pub fn resolve_node_module_import(
        &self,
        specifier: &str,
        dep_is_file: bool,
        manifest: Option<&str>,
    ) -> (r: Result<String, SencError>)
        ensures
            ({
                let droot = match self.node_modules_dir {
                    Some(s) => Some(s@),
                    None => None,
                };
                let m = match manifest {
                    Some(t) => Some(t@),
                    None => None,
                };
                match r {
                    Ok(p) => bare_resolution_spec(droot, specifier@, dep_is_file, m) == Ok::<
                        Seq<char>,
                        SencError,
                    >(p@),
                    Err(e) => bare_resolution_spec(droot, specifier@, dep_is_file, m) == Err::<
                        Seq<char>,
                        SencError,
                    >(e),
                }
            }),
    {
        let root = match &self.node_modules_dir {
            None => {
                return Err(SencError::UnresolvedImport);
            },
            Some(r) => r,
        };
        if dep_is_file {
            let raw = join_path(root.as_str(), specifier);
            let direct = clean_path(raw.as_str());
            match assert_file_path_in_projectroot(direct.as_str(), root.as_str()) {
                Ok(_) => Ok(direct),
                Err(e) => Err(e),
            }
        } else {
            let text = match manifest {
                None => {
                    return Err(SencError::UnsupportedPackage);
                },
                Some(t) => t,
            };
            match esm_entry_of_manifest(text) {
                None => Err(SencError::UnsupportedPackage),
                Some(entry) => {
                    let pkg = join_path(root.as_str(), specifier);
                    let raw = join_path(pkg.as_str(), entry.as_str());
                    proof {
                        assert(raw@ =~= root@ + seq!['/'] + specifier@ + seq!['/'] + entry@);
                    }
                    let p = clean_path(raw.as_str());
                    match assert_file_path_in_projectroot(p.as_str(), root.as_str()) {
                        Ok(_) => Ok(p),
                        Err(e) => Err(e),
                    }
                },
            }
        }
    }
}

} // verus!
