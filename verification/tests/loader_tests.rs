use senc::errors::SencError;
use senc::loader::{
    classify_media, prepare_module_source, resolve_load_path, specifier_kind, MediaClassification,
    ModuleKind, SpecifierKind, TsModuleLoader,
};

fn loader() -> TsModuleLoader {
    TsModuleLoader::new("/proj".to_string(), Some("/proj/node_modules".to_string()))
}

#[test]
fn test_specifier_kinds() {
    assert_eq!(specifier_kind("/proj/a.js"), SpecifierKind::Absolute);
    assert_eq!(specifier_kind("./util.js"), SpecifierKind::Relative);
    assert_eq!(specifier_kind("../up.ts"), SpecifierKind::Relative);
    assert_eq!(specifier_kind("lodash"), SpecifierKind::Bare);
    assert_eq!(specifier_kind("lodash/add"), SpecifierKind::Bare);
}

#[test]
fn test_relative_import_resolves_against_referrer() {
    let r = loader().resolve_path_import("./util.js", "/proj/src/main.sen.js");
    assert_eq!(r, Ok("/proj/src/util.js".to_string()));
    let up = loader().resolve_path_import("../shared/cfg.json", "/proj/src/main.sen.js");
    assert_eq!(up, Ok("/proj/shared/cfg.json".to_string()));
}

#[test]
fn test_import_outside_projectroot_is_out_of_bounds() {
    let r = loader().resolve_path_import("../../../etc/passwd", "/proj/src/main.sen.js");
    assert_eq!(r, Err(SencError::OutOfBounds));
    let abs = loader().resolve_path_import("/etc/passwd", "/proj/src/main.sen.js");
    assert_eq!(abs, Err(SencError::OutOfBounds));
}

#[test]
fn test_absolute_import_inside_root_resolves() {
    let r = loader().resolve_path_import("/proj/lib/x.ts", "/proj/main.sen.js");
    assert_eq!(r, Ok("/proj/lib/x.ts".to_string()));
}

#[test]
fn test_bare_import_without_dependency_root_is_unresolved() {
    let bare = TsModuleLoader::new("/proj".to_string(), None);
    let r = bare.resolve_node_module_import("lodash", false, None);
    assert_eq!(r, Err(SencError::UnresolvedImport));
}

#[test]
fn test_bare_import_of_plain_file_resolves_directly() {
    let r = loader().resolve_node_module_import("lodash/add.js", true, None);
    assert_eq!(r, Ok("/proj/node_modules/lodash/add.js".to_string()));
}

#[test]
fn test_bare_import_without_manifest_is_unsupported_package() {
    let r = loader().resolve_node_module_import("leftpad", false, None);
    assert_eq!(r, Err(SencError::UnsupportedPackage));
}

#[test]
fn test_bare_import_resolves_via_manifest_esm_entry() {
    let manifest = "{\"name\":\"pkg\",\"module\":\"dist/index.mjs\"}";
    let r = loader().resolve_node_module_import("pkg", false, Some(manifest));
    assert_eq!(r, Ok("/proj/node_modules/pkg/dist/index.mjs".to_string()));
}

#[test]
fn test_manifest_without_esm_entry_is_unsupported_package() {
    let manifest = "{\"name\":\"pkg\",\"main\":\"index.js\"}";
    let r = loader().resolve_node_module_import("pkg", false, Some(manifest));
    assert_eq!(r, Err(SencError::UnsupportedPackage));
    let broken = loader().resolve_node_module_import("pkg", false, Some("not json"));
    assert_eq!(broken, Err(SencError::UnsupportedPackage));
}

#[test]
fn test_manifest_entry_escaping_dependency_root_is_out_of_bounds() {
    let manifest = "{\"module\":\"../../../evil.js\"}";
    let r = loader().resolve_node_module_import("pkg", false, Some(manifest));
    assert_eq!(r, Err(SencError::OutOfBounds));
}

#[test]
fn test_media_classification() {
    assert_eq!(classify_media("/a/x.js"), MediaClassification::Script);
    assert_eq!(classify_media("/a/x.mjs"), MediaClassification::Script);
    assert_eq!(classify_media("/a/x.cjs"), MediaClassification::Script);
    assert_eq!(classify_media("/a/x.ts"), MediaClassification::TypedScript);
    assert_eq!(classify_media("/a/x.tsx"), MediaClassification::TypedScript);
    assert_eq!(classify_media("/a/x.jsx"), MediaClassification::TypedScript);
    assert_eq!(classify_media("/a/x.mts"), MediaClassification::TypedScript);
    assert_eq!(classify_media("/a/x.cts"), MediaClassification::TypedScript);
    assert_eq!(classify_media("/a/x.json"), MediaClassification::DataJson);
    assert_eq!(classify_media("/a/x.yaml"), MediaClassification::DataYaml);
    assert_eq!(classify_media("/a/x.YAML"), MediaClassification::DataYaml);
    assert_eq!(classify_media("/a/x.yml"), MediaClassification::DataYaml);
    assert_eq!(classify_media("/a/x.png"), MediaClassification::Unknown);
    assert_eq!(classify_media("/a/Makefile"), MediaClassification::Unknown);
    assert_eq!(classify_media("/a/x.JS"), MediaClassification::Unknown);
}

#[test]
fn test_extensionless_import_probes_ts_then_js() {
    assert_eq!(resolve_load_path("/a/mod", true, false), Ok("/a/mod.ts".to_string()));
    assert_eq!(resolve_load_path("/a/mod", true, true), Ok("/a/mod.ts".to_string()));
    assert_eq!(resolve_load_path("/a/mod", false, true), Ok("/a/mod.js".to_string()));
    assert_eq!(resolve_load_path("/a/mod", false, false), Err(SencError::FileNotFound));
    assert_eq!(resolve_load_path("/a/mod.js", false, false), Ok("/a/mod.js".to_string()));
}

#[test]
fn test_prepare_script_and_json_verbatim() {
    let js = prepare_module_source("/a/x.js", "export const a = 1;").unwrap();
    assert_eq!(js.0, ModuleKind::JavaScript);
    assert_eq!(js.1, "export const a = 1;");
    let json = prepare_module_source("/a/x.json", "{\"a\":1}").unwrap();
    assert_eq!(json.0, ModuleKind::Json);
    assert_eq!(json.1, "{\"a\":1}");
}

#[test]
fn test_prepare_yaml_module_reencodes_to_json() {
    let m = prepare_module_source("/a/cfg.yaml", "msg: hello world").unwrap();
    assert_eq!(m.0, ModuleKind::Json);
    assert_eq!(m.1, "{\"msg\":\"hello world\"}");
}

#[test]
fn test_prepare_typed_script_transpiles() {
    let src = "export function main(): number { return 1; }";
    let m = prepare_module_source("/a/x.ts", src).unwrap();
    assert_eq!(m.0, ModuleKind::JavaScript);
    assert!(m.1.contains("function main"));
    assert!(!m.1.contains(": number"));
}

#[test]
fn test_prepare_unknown_media_is_refused() {
    let r = prepare_module_source("/a/x.png", "\u{1}\u{2}");
    assert!(matches!(r, Err(SencError::UnsupportedMediaType)));
}

#[test]
fn test_prepare_broken_typed_script_fails_execution() {
    let r = prepare_module_source("/a/x.ts", "export function main(: { ;");
    assert!(matches!(r, Err(SencError::Execution)));
}
