use std::error::Error;

use deno_semver::package::PackageReq as SemverPackageReq;
use deno_semver::VersionReq;
use indexmap::IndexMap;

use package_json::DepResult;
use package_json::JsonValue;
use package_json::NodeModuleKind;
use package_json::PackageJson;
use package_json::PackageJsonDepValue;
use package_json::PackageJsonDepValueParseError;
use package_json::PackageJsonDepWorkspaceReq;
use package_json::PackageJsonLoadError;
use package_json::PackageReq;

fn load(source: &str) -> PackageJson {
    PackageJson::load_from_string("/package.json".to_string(), source).unwrap()
}

fn req(text: &str) -> PackageReq {
    let pr = SemverPackageReq::from_str(text).unwrap();
    PackageReq {
        name: pr.name.to_string(),
        version_req: pr.version_req,
    }
}

fn get_local_package_json_version_reqs_for_tests(
    package_json: &mut PackageJson,
) -> IndexMap<String, DepResult> {
    let deps = package_json.resolve_local_package_json_deps();
    deps.dependencies
        .clone()
        .into_iter()
        .chain(deps.dev_dependencies.clone())
        .collect::<IndexMap<_, _>>()
}

#[test]
fn null_exports_should_not_crash() {
    let package_json = load(r#"{ "exports": null }"#);
    assert!(package_json.exports.is_none());
}

#[test]
fn test_get_local_package_json_version_reqs() {
    let mut package_json = load("{}");
    package_json.dependencies = Some(IndexMap::from([
        ("test".to_string(), "^1.2".to_string()),
        ("other".to_string(), "npm:package@~1.3".to_string()),
    ]));
    package_json.dev_dependencies = Some(IndexMap::from([
        ("package_b".to_string(), "~2.2".to_string()),
        ("other".to_string(), "^3.2".to_string()),
    ]));
    let deps = package_json.resolve_local_package_json_deps();
    assert_eq!(
        deps.dependencies
            .clone()
            .into_iter()
            .map(|d| (d.0, d.1.unwrap()))
            .collect::<Vec<_>>(),
        Vec::from([
            (
                "test".to_string(),
                PackageJsonDepValue::Req(req("test@^1.2"))
            ),
            (
                "other".to_string(),
                PackageJsonDepValue::Req(req("package@~1.3"))
            ),
        ])
    );
    assert_eq!(
        deps.dev_dependencies
            .clone()
            .into_iter()
            .map(|d| (d.0, d.1.unwrap()))
            .collect::<Vec<_>>(),
        Vec::from([
            (
                "package_b".to_string(),
                PackageJsonDepValue::Req(req("package_b@~2.2"))
            ),
            (
                "other".to_string(),
                PackageJsonDepValue::Req(req("other@^3.2"))
            ),
        ])
    );
    // alias lookup checks `dependencies` before `devDependencies`
    assert_eq!(
        deps.get("other"),
        Some(&Ok(PackageJsonDepValue::Req(req("package@~1.3"))))
    );
    assert_eq!(
        deps.get("package_b"),
        Some(&Ok(PackageJsonDepValue::Req(req("package_b@~2.2"))))
    );
    assert_eq!(deps.get("missing"), None);
}

#[test]
fn test_get_local_package_json_version_reqs_errors_non_npm_specifier() {
    let mut package_json = load("{}");
    package_json.dependencies = Some(IndexMap::from([(
        "test".to_string(),
        "%*(#$%()".to_string(),
    )]));
    let map = get_local_package_json_version_reqs_for_tests(&mut package_json);
    assert_eq!(map.len(), 1);
    let err = map.get("test").unwrap().as_ref().unwrap_err();
    let inner = match err {
        PackageJsonDepValueParseError::VersionReq(inner) => inner,
        other => panic!("expected a version requirement failure, got {:?}", other),
    };
    assert_eq!(format!("{}", inner), "Invalid version requirement");
    assert_eq!(
        format!("{}", inner.source().unwrap()),
        "Unexpected character.\n  %*(#$%()\n  ~"
    );
}

#[test]
fn test_get_local_package_json_version_reqs_range() {
    let mut package_json = load("{}");
    package_json.dependencies = Some(IndexMap::from([(
        "test".to_string(),
        "1.x - 1.3".to_string(),
    )]));
    let map = get_local_package_json_version_reqs_for_tests(&mut package_json);
    assert_eq!(
        map,
        IndexMap::from([(
            "test".to_string(),
            Ok(PackageJsonDepValue::Req(PackageReq {
                name: "test".to_string(),
                version_req: VersionReq::parse_from_npm("1.x - 1.3").unwrap()
            }))
        )])
    );
}

#[test]
fn test_get_local_package_json_version_reqs_skips_certain_specifiers() {
    let mut package_json = load("{}");
    package_json.dependencies = Some(IndexMap::from([
        ("test".to_string(), "1".to_string()),
        (
            "work-test-version-req".to_string(),
            "workspace:1.1.1".to_string(),
        ),
        ("work-test-star".to_string(), "workspace:*".to_string()),
        ("work-test-tilde".to_string(), "workspace:~".to_string()),
        ("work-test-caret".to_string(), "workspace:^".to_string()),
        ("file-test".to_string(), "file:something".to_string()),
        ("git-test".to_string(), "git:something".to_string()),
        ("http-test".to_string(), "http://something".to_string()),
        ("https-test".to_string(), "https://something".to_string()),
    ]));
    let result = get_local_package_json_version_reqs_for_tests(&mut package_json);
    assert_eq!(
        result,
        IndexMap::from([
            (
                "test".to_string(),
                Ok(PackageJsonDepValue::Req(req("test@1")))
            ),
            (
                "work-test-star".to_string(),
                Ok(PackageJsonDepValue::Workspace(
                    PackageJsonDepWorkspaceReq::VersionReq(
                        VersionReq::parse_from_npm("*").unwrap()
                    )
                ))
            ),
            (
                "work-test-version-req".to_string(),
                Ok(PackageJsonDepValue::Workspace(
                    PackageJsonDepWorkspaceReq::VersionReq(
                        VersionReq::parse_from_npm("1.1.1").unwrap()
                    )
                ))
            ),
            (
                "work-test-tilde".to_string(),
                Ok(PackageJsonDepValue::Workspace(
                    PackageJsonDepWorkspaceReq::Tilde
                ))
            ),
            (
                "work-test-caret".to_string(),
                Ok(PackageJsonDepValue::Workspace(
                    PackageJsonDepWorkspaceReq::Caret
                ))
            ),
            (
                "file-test".to_string(),
                Err(PackageJsonDepValueParseError::Unsupported {
                    scheme: "file".to_string()
                }),
            ),
            (
                "git-test".to_string(),
                Err(PackageJsonDepValueParseError::Unsupported {
                    scheme: "git".to_string()
                }),
            ),
            (
                "http-test".to_string(),
                Err(PackageJsonDepValueParseError::Unsupported {
                    scheme: "http".to_string()
                }),
            ),
            (
                "https-test".to_string(),
                Err(PackageJsonDepValueParseError::Unsupported {
                    scheme: "https".to_string()
                }),
            ),
        ])
    );
}

fn to_serde(v: &JsonValue) -> serde_json::Value {
    match v {
        JsonValue::Null => serde_json::Value::Null,
        JsonValue::Bool(b) => serde_json::Value::Bool(*b),
        JsonValue::Num(t) => serde_json::from_str(t).unwrap(),
        JsonValue::Str(s) => serde_json::Value::String(s.clone()),
        JsonValue::Arr(a) => serde_json::Value::Array(a.iter().map(to_serde).collect()),
        JsonValue::Obj(o) => serde_json::Value::Object(
            o.iter().map(|(k, w)| (k.clone(), to_serde(w))).collect(),
        ),
    }
}

#[test]
fn test_deserialize_serialize() {
    let source = r##"{
        "name": "test",
        "version": "1",
        "exports": { ".": "./main.js" },
        "bin": "./main.js",
        "types": "./types.d.ts",
        "imports": { "#test": "./main.js" },
        "main": "./main.js",
        "module": "./module.js",
        "type": "module",
        "dependencies": { "name": "1.2" },
        "devDependencies": { "name": "1.2" },
        "scripts": { "test": "echo \"Error: no test specified\" && exit 1" },
        "workspaces": ["asdf", "asdf2"]
    }"##;
    let json_value: serde_json::Value = serde_json::from_str(source).unwrap();
    let package_json = load(source);
    let serialized_value = to_serde(&package_json.into_value());
    assert_eq!(serialized_value, json_value);
}

#[test]
fn blank_source_gives_default_manifest() {
    for source in ["", "   \t\r\n  "] {
        let m = load(source);
        assert_eq!(m.path, "/package.json");
        assert_eq!(m.typ, "none");
        assert!(m.exports.is_none());
        assert!(m.imports.is_none());
        assert!(m.bin.is_none());
        assert!(m.main.is_none());
        assert!(m.module.is_none());
        assert!(m.name.is_none());
        assert!(m.version.is_none());
        assert!(m.types.is_none());
        assert!(m.dependencies.is_none());
        assert!(m.dev_dependencies.is_none());
        assert!(m.scripts.is_none());
        assert!(m.workspaces.is_none());
    }
}

#[test]
fn unrecognized_keys_are_ignored() {
    let m = load(r#"{ "unknown": 1, "other": { "nested": true }, "browser": "./b.js" }"#);
    assert_eq!(m.typ, "none");
    assert!(m.exports.is_none());
    assert!(m.imports.is_none());
    assert!(m.bin.is_none());
    assert!(m.main.is_none());
    assert!(m.name.is_none());
    assert!(m.version.is_none());
    assert!(m.types.is_none());
    assert!(m.dependencies.is_none());
    assert!(m.workspaces.is_none());
}

#[test]
fn non_object_document_counts_as_empty() {
    let m = load("[1, 2, 3]");
    assert_eq!(m.typ, "none");
    assert!(m.name.is_none());
    let m = load("\"hello\"");
    assert!(m.main.is_none());
}

#[test]
fn invalid_json_is_a_deserialize_error() {
    let err = PackageJson::load_from_string("/package.json".to_string(), "{ not json")
        .unwrap_err();
    match err {
        PackageJsonLoadError::Deserialize { path, .. } => assert_eq!(path, "/package.json"),
        other => panic!("expected a deserialize failure, got {:?}", other),
    }
}

#[test]
fn field_coercion_rules() {
    let m = load(
        r#"{
            "name": 42,
            "version": true,
            "typings": "./typings.d.ts",
            "types": "./types.d.ts",
            "type": "weird",
            "dependencies": { "a": "1.0.0", "b": 2, "c": { "x": 1 }, "d": null },
            "workspaces": ["a", 1, true, "b"]
        }"#,
    );
    assert_eq!(m.name.as_deref(), Some("42"));
    assert!(m.version.is_none());
    assert_eq!(m.types.as_deref(), Some("./typings.d.ts"));
    // a typings value that does not coerce to a string lets types win
    let m2 = load(r#"{ "typings": true, "types": "./types.d.ts" }"#);
    assert_eq!(m2.types.as_deref(), Some("./types.d.ts"));
    let m3 = load(r#"{ "typings": {}, "types": 7 }"#);
    assert_eq!(m3.types.as_deref(), Some("7"));
    assert_eq!(m.typ, "none");
    assert_eq!(
        m.dependencies,
        Some(IndexMap::from([
            ("a".to_string(), "1.0.0".to_string()),
            ("b".to_string(), "2".to_string()),
        ]))
    );
    assert_eq!(m.workspaces, Some(vec!["a".to_string(), "b".to_string()]));
}

#[test]
fn main_entrypoint_selection() {
    let m = load(r#"{ "type": "module", "main": " ./main.js ", "module": "./module.js" }"#);
    assert_eq!(m.main(NodeModuleKind::Esm), Some("./module.js"));
    assert_eq!(m.main(NodeModuleKind::Cjs), Some("./main.js"));

    let m = load(r#"{ "type": "module", "main": "./main.js" }"#);
    assert_eq!(m.main(NodeModuleKind::Esm), Some("./main.js"));

    let m = load(r#"{ "type": "commonjs", "main": "./main.js", "module": "./module.js" }"#);
    assert_eq!(m.main(NodeModuleKind::Esm), Some("./main.js"));

    // a blank module field falls back to main
    let m = load(r#"{ "type": "module", "main": "./main.js", "module": "   " }"#);
    assert_eq!(m.main(NodeModuleKind::Esm), Some("./main.js"));

    let m = load(r#"{ "type": "module", "module": "   " }"#);
    assert_eq!(m.main(NodeModuleKind::Esm), None);

    let m = load(r#"{ "main": "   " }"#);
    assert_eq!(m.main(NodeModuleKind::Cjs), None);

    let m = load("{}");
    assert_eq!(m.main(NodeModuleKind::Esm), None);
    assert_eq!(m.main(NodeModuleKind::Cjs), None);
}

#[test]
fn exports_sugar_string_and_array() {
    let m = load(r#"{ "exports": "./main.js" }"#);
    let exports = m.exports.unwrap();
    assert_eq!(exports.len(), 1);
    assert_eq!(exports[0].0, ".");
    assert!(matches!(&exports[0].1, JsonValue::Str(s) if s == "./main.js"));

    let m = load(r#"{ "exports": ["./a.js", "./b.js"] }"#);
    let exports = m.exports.unwrap();
    assert_eq!(exports.len(), 1);
    assert_eq!(exports[0].0, ".");
    assert!(matches!(&exports[0].1, JsonValue::Arr(a) if a.len() == 2));
}

#[test]
fn exports_object_forms() {
    let m = load(r#"{ "exports": { ".": "./main.js", "./foo": "./foo.js" } }"#);
    let exports = m.exports.unwrap();
    assert_eq!(exports.len(), 2);
    assert_eq!(exports[0].0, ".");
    assert_eq!(exports[1].0, "./foo");

    let m = load(r#"{ "exports": { "node": "./a.js", "default": "./b.js" } }"#);
    let exports = m.exports.unwrap();
    assert_eq!(exports.len(), 1);
    assert_eq!(exports[0].0, ".");
    assert!(matches!(&exports[0].1, JsonValue::Obj(o) if o.len() == 2));

    let m = load(r#"{ "exports": {} }"#);
    let exports = m.exports.unwrap();
    assert_eq!(exports.len(), 0);
}

#[test]
fn mixed_exports_styles_are_refused() {
    let source = r#"{ "exports": { ".": "./main.js", "node": "./node.js" } }"#;
    let r = PackageJson::try_load_from_string("/package.json".to_string(), source);
    assert!(r.is_none());
    let ok = r#"{ "exports": { ".": "./main.js", "./foo": "./foo.js" } }"#;
    let r = PackageJson::try_load_from_string("/package.json".to_string(), ok);
    assert!(r.unwrap().is_ok());
}

#[test]
fn unsupported_scheme_regardless_of_remainder() {
    let mut package_json = load("{}");
    package_json.dependencies = Some(IndexMap::from([
        ("a".to_string(), "file:@#$%/weird".to_string()),
        ("b".to_string(), "git:".to_string()),
        ("c".to_string(), "https:x".to_string()),
    ]));
    let map = get_local_package_json_version_reqs_for_tests(&mut package_json);
    assert_eq!(
        map.get("a"),
        Some(&Err(PackageJsonDepValueParseError::Unsupported {
            scheme: "file".to_string()
        }))
    );
    assert_eq!(
        map.get("b"),
        Some(&Err(PackageJsonDepValueParseError::Unsupported {
            scheme: "git".to_string()
        }))
    );
    assert_eq!(
        map.get("c"),
        Some(&Err(PackageJsonDepValueParseError::Unsupported {
            scheme: "https".to_string()
        }))
    );
}

#[test]
fn one_bad_entry_does_not_block_siblings() {
    let mut package_json = load("{}");
    package_json.dependencies = Some(IndexMap::from([
        ("bad".to_string(), "%*(#$%()".to_string()),
        ("good".to_string(), "1.0.0".to_string()),
    ]));
    let map = get_local_package_json_version_reqs_for_tests(&mut package_json);
    assert!(map.get("bad").unwrap().is_err());
    assert_eq!(
        map.get("good"),
        Some(&Ok(PackageJsonDepValue::Req(req("good@1.0.0"))))
    );
}

#[test]
fn scoped_npm_alias_without_version() {
    let mut package_json = load("{}");
    package_json.dependencies = Some(IndexMap::from([
        ("aliased".to_string(), "npm:@scope/pkg".to_string()),
        ("pinned".to_string(), "npm:@scope/pkg@1.0.0".to_string()),
    ]));
    let map = get_local_package_json_version_reqs_for_tests(&mut package_json);
    assert_eq!(
        map.get("aliased"),
        Some(&Ok(PackageJsonDepValue::Req(PackageReq {
            name: "@scope/pkg".to_string(),
            version_req: VersionReq::parse_from_npm("*").unwrap()
        })))
    );
    assert_eq!(
        map.get("pinned"),
        Some(&Ok(PackageJsonDepValue::Req(PackageReq {
            name: "@scope/pkg".to_string(),
            version_req: VersionReq::parse_from_npm("1.0.0").unwrap()
        })))
    );
}

#[test]
fn resolving_twice_returns_the_same_result() {
    let mut package_json = load(r#"{ "dependencies": { "test": "^1.2" } }"#);
    let first = package_json.resolve_local_package_json_deps();
    let second = package_json.resolve_local_package_json_deps();
    assert!(std::sync::Arc::ptr_eq(&first, &second));
    assert_eq!(first.dependencies, second.dependencies);
    // the memoised result is kept even if the raw map changes afterwards
    package_json.dependencies = Some(IndexMap::from([("other".to_string(), "1".to_string())]));
    let third = package_json.resolve_local_package_json_deps();
    assert!(std::sync::Arc::ptr_eq(&first, &third));
}

#[test]
fn dependencies_parse_from_document() {
    let mut m = load(r#"{ "dependencies": { "test": "^1.2" }, "devDependencies": { "dev": "~2.0" } }"#);
    let deps = m.resolve_local_package_json_deps();
    assert_eq!(
        deps.dependencies.get("test"),
        Some(&Ok(PackageJsonDepValue::Req(req("test@^1.2"))))
    );
    assert_eq!(
        deps.dev_dependencies.get("dev"),
        Some(&Ok(PackageJsonDepValue::Req(req("dev@~2.0"))))
    );
}
