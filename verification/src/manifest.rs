//! The manifest record: recognised fields, their defaulting and coercion
//! rules, entrypoint selection, and the memoised dependency resolution.

use vstd::prelude::*;
use std::sync::Arc;
use crate::json::JsonValue;
use crate::json::assoc_lookup;
use crate::json::is_sugar_exports;
use crate::json::exports_value_mixed;
use crate::json::is_conditional_exports_main_sugar;
use crate::json::exports_value_is_mixed;
use crate::json::obj_get;
use crate::strs::seq_all_ws;
use crate::strs::trim_seq;
use crate::strs::str_eq;
use crate::strs::str_is_blank;
use crate::strs::str_trim_nonempty;
use crate::imap::StringMap;
use crate::imap::PackageJsonDepsMap;
use crate::imap::DepResult;
use crate::imap::smap_entries;
use crate::imap::dmap_entries;
use crate::imap::entries_has_key;
use crate::imap::entries_keys_distinct;
use crate::imap::smap_new;
use crate::imap::smap_insert_first_wins;
use crate::imap::smap_entries_vec;
use crate::imap::dmap_new;
use crate::imap::dmap_insert_first_wins;
use crate::imap::dmap_get;
use crate::deps::dep_result_matches;
use crate::deps::parse_dep_entry;
use crate::jsondoc::json_document_of;
use crate::jsondoc::parse_json_text;

verus! {

/// The kind of module asking for an entrypoint.
#[derive(Clone, Copy, Debug, PartialEq, Eq, Structural)]
pub enum NodeModuleKind {
    Esm,
    Cjs,
}

#[verifier::external_type_specification]
#[verifier::external_body]
pub struct ExIoError(std::io::Error);

/// Why a manifest file could not be loaded.
#[derive(Debug)]
pub enum PackageJsonLoadError {
    /// The file could not be read.
    Io { path: String, source: std::io::Error },
    /// The document is not syntactically valid JSON.
    Deserialize { path: String, source: serde_json::Error },
}

/// The resolved view over a manifest's two dependency maps.
#[derive(Debug)]
pub struct PackageJsonDeps {
    pub dependencies: PackageJsonDepsMap,
    pub dev_dependencies: PackageJsonDepsMap,
}

pub type PackageJsonDepsRc = Arc<PackageJsonDeps>;

impl PackageJsonDeps {
    /// Gets a dependency entry by alias: `dependencies` first, then
    /// `devDependencies`.
    pub fn get<'a>(&'a self, alias: &str) -> (r: Option<&'a DepResult>)
        ensures
            match r {
                Some(v) => if entries_has_key(dmap_entries(self.dependencies), alias@) {
                    entry_value_in(dmap_entries(self.dependencies), alias@, *v)
                } else {
                    entry_value_in(dmap_entries(self.dev_dependencies), alias@, *v)
                },
                None => !entries_has_key(dmap_entries(self.dependencies), alias@)
                    && !entries_has_key(dmap_entries(self.dev_dependencies), alias@),
            },
    {
        match dmap_get(&self.dependencies, alias) {
            Some(v) => Some(v),
            None => dmap_get(&self.dev_dependencies, alias),
        }
    }
}

/// The value stands at the key among the entries.
pub open spec fn entry_value_in<V>(es: Seq<(String, V)>, k: Seq<char>, v: V) -> bool {
    exists|i: int| 0 <= i < es.len() && es[i].0@ == k && es[i].1 == v
}

/// The parsed, immutable record of one manifest file.
#[derive(Debug)]
pub struct PackageJson {
    pub exports: Option<Vec<(String, JsonValue)>>,
    pub imports: Option<Vec<(String, JsonValue)>>,
    pub bin: Option<JsonValue>,
    pub main: Option<String>,
    pub module: Option<String>,
    pub name: Option<String>,
    pub version: Option<String>,
    pub path: String,
    pub typ: String,
    pub types: Option<String>,
    pub dependencies: Option<StringMap>,
    pub dev_dependencies: Option<StringMap>,
    pub scripts: Option<StringMap>,
    pub workspaces: Option<Vec<String>>,
    pub resolved_deps: Option<PackageJsonDepsRc>,
}

/// The entries of the document's top-level object; any other shape counts as
/// an empty object.
pub open spec fn doc_entries(doc: JsonValue) -> Seq<(String, JsonValue)> {
    match doc {
        JsonValue::Obj(es) => es@,
        _ => Seq::empty(),
    }
}

/// String coercion of one field value: strings pass, numbers turn into their
/// canonical text, every other shape is absent.
pub open spec fn string_field(v: Option<JsonValue>) -> Option<String> {
    match v {
        Some(JsonValue::Str(s)) => Some(s),
        Some(JsonValue::Num(n)) => Some(n),
        _ => None,
    }
}

/// A string map field built from an object's entries: string and number
/// values kept (numbers as text), other shapes dropped, first key wins.
pub open spec fn coerced_entries(src: Seq<(String, JsonValue)>) -> Seq<(String, String)>
    decreases src.len(),
{
    if src.len() == 0 {
        Seq::empty()
    } else {
        let pre = coerced_entries(src.drop_last());
        let kv = src.last();
        match string_field(Some(kv.1)) {
            Some(t) => if entries_has_key(pre, kv.0@) {
                pre
            } else {
                pre.push((kv.0, t))
            },
            None => pre,
        }
    }
}

/// How a string-map manifest field relates to its raw value.
pub open spec fn smap_matches(f: Option<StringMap>, v: Option<JsonValue>) -> bool {
    match v {
        Some(JsonValue::Obj(o)) => f matches Some(sm) && smap_entries(sm) == coerced_entries(o@),
        _ => f is None,
    }
}

/// The string elements of an array, in order; other elements are dropped.
pub open spec fn string_items(src: Seq<JsonValue>) -> Seq<String>
    decreases src.len(),
{
    if src.len() == 0 {
        Seq::empty()
    } else {
        let pre = string_items(src.drop_last());
        match src.last() {
            JsonValue::Str(s) => pre.push(s),
            _ => pre,
        }
    }
}

/// The document's `exports` field is the irreconcilable mixed-style object.
pub open spec fn exports_field_mixed(doc: JsonValue) -> bool {
    match assoc_lookup(doc_entries(doc), "exports"@) {
        Some(e) => exports_value_mixed(e),
        None => false,
    }
}

/// How a built manifest's fields relate to the document they came from.
pub open spec fn manifest_from_doc(m: PackageJson, doc: JsonValue) -> bool {
    let es = doc_entries(doc);
    &&& m.name == string_field(assoc_lookup(es, "name"@))
    &&& m.version == string_field(assoc_lookup(es, "version"@))
    &&& m.main == string_field(assoc_lookup(es, "main"@))
    &&& m.module == string_field(assoc_lookup(es, "module"@))
    &&& m.types == (match string_field(assoc_lookup(es, "typings"@)) {
        Some(t) => Some(t),
        None => string_field(assoc_lookup(es, "types"@)),
    })
    &&& match assoc_lookup(es, "type"@) {
        Some(JsonValue::Str(s)) => if s@ == "module"@ || s@ == "commonjs"@ {
            m.typ == s
        } else {
            m.typ@ == "none"@
        },
        _ => m.typ@ == "none"@,
    }
    &&& m.bin == assoc_lookup(es, "bin"@)
    &&& match assoc_lookup(es, "imports"@) {
        Some(JsonValue::Obj(o)) => m.imports == Some(o),
        _ => m.imports is None,
    }
    &&& match assoc_lookup(es, "exports"@) {
        Some(e) => if is_sugar_exports(e) {
            m.exports matches Some(x) && x@.len() == 1 && x@[0].0@ == "."@ && x@[0].1 == e
        } else {
            match e {
                JsonValue::Obj(o) => m.exports == Some(o),
                _ => m.exports is None,
            }
        },
        None => m.exports is None,
    }
    &&& smap_matches(m.dependencies, assoc_lookup(es, "dependencies"@))
    &&& smap_matches(m.dev_dependencies, assoc_lookup(es, "devDependencies"@))
    &&& smap_matches(m.scripts, assoc_lookup(es, "scripts"@))
    &&& match assoc_lookup(es, "workspaces"@) {
        Some(JsonValue::Arr(a)) => m.workspaces matches Some(w) && w@ == string_items(a@),
        _ => m.workspaces is None,
    }
    &&& m.resolved_deps is None
}

/// Every optional field is absent and `type` is `"none"`.
pub open spec fn manifest_is_default(m: PackageJson) -> bool {
    &&& m.exports is None
    &&& m.imports is None
    &&& m.bin is None
    &&& m.main is None
    &&& m.module is None
    &&& m.name is None
    &&& m.version is None
    &&& m.typ@ == "none"@
    &&& m.types is None
    &&& m.dependencies is None
    &&& m.dev_dependencies is None
    &&& m.scripts is None
    &&& m.workspaces is None
    &&& m.resolved_deps is None
}

fn map_string(v: Option<JsonValue>) -> (r: Option<String>)
    ensures
        r == string_field(v),
{
    match v {
        Some(JsonValue::Str(s)) => Some(s),
        Some(JsonValue::Num(n)) => Some(n),
        _ => None,
    }
}

fn parse_string_map(v: Option<JsonValue>) -> (r: Option<StringMap>)
    ensures
        smap_matches(r, v),
{
    match v {
        Some(JsonValue::Obj(o)) => {
            let mut m = smap_new();
            let n = o.len();
            let mut i: usize = 0;
            assert(o@.take(0) =~= Seq::empty());
            while i < n
                invariant
                    n == o@.len(),
                    i <= n,
                    smap_entries(m) == coerced_entries(o@.take(i as int)),
                decreases n - i,
            {
                let coerced: Option<String> = match &o[i].1 {
                    JsonValue::Str(s) => Some(s.clone()),
                    JsonValue::Num(t) => Some(t.clone()),
                    _ => None,
                };
                match coerced {
                    Some(t) => {
                        smap_insert_first_wins(&mut m, o[i].0.clone(), t);
                    },
                    None => {},
                }
                proof {
                    assert(o@.take(i + 1).drop_last() =~= o@.take(i as int));
                    assert(o@.take(i + 1).last() == o@[i as int]);
                }
                i += 1;
            }
            assert(o@.take(n as int) =~= o@);
            Some(m)
        },
        Some(JsonValue::Str(_)) => None,
        Some(JsonValue::Num(_)) => None,
        Some(JsonValue::Arr(_)) => None,
        Some(JsonValue::Bool(_)) => None,
        Some(JsonValue::Null) => None,
        None => None,
    }
}

fn parse_string_array(v: Option<JsonValue>) -> (r: Option<Vec<String>>)
    ensures
        match v {
            Some(JsonValue::Arr(a)) => r matches Some(w) && w@ == string_items(a@),
            _ => r is None,
        },
{
    match v {
        Some(JsonValue::Arr(a)) => {
            let mut w: Vec<String> = Vec::new();
            let n = a.len();
            let mut i: usize = 0;
            assert(a@.take(0) =~= Seq::empty());
            while i < n
                invariant
                    n == a@.len(),
                    i <= n,
                    w@ == string_items(a@.take(i as int)),
                decreases n - i,
            {
                match &a[i] {
                    JsonValue::Str(s) => {
                        w.push(s.clone());
                    },
                    _ => {},
                }
                proof {
                    assert(a@.take(i + 1).drop_last() =~= a@.take(i as int));
                    assert(a@.take(i + 1).last() == a@[i as int]);
                }
                i += 1;
            }
            assert(a@.take(n as int) =~= a@);
            Some(w)
        },
        Some(JsonValue::Str(_)) => None,
        Some(JsonValue::Num(_)) => None,
        Some(JsonValue::Obj(_)) => None,
        Some(JsonValue::Bool(_)) => None,
        Some(JsonValue::Null) => None,
        None => None,
    }
}

impl PackageJson {
    /// The manifest a blank source yields: every field at its default.
    fn default_with_path(path: String) -> (m: PackageJson)
        ensures
            manifest_is_default(m),
            m.path == path,
    {
        proof {
            reveal_strlit("none");
        }
        let typ = "none".to_owned();
        assert(typ@ == "none"@);
        PackageJson {
            exports: None,
            imports: None,
            bin: None,
            main: None,
            module: None,
            name: None,
            version: None,
            path,
            typ,
            types: None,
            dependencies: None,
            dev_dependencies: None,
            scripts: None,
            workspaces: None,
            resolved_deps: None,
        }
    }

    /// Builds a manifest from a JSON document; a non-object document counts
    /// as an empty object, unrecognised keys are ignored. A document whose
    /// `exports` object mixes both key styles is irreconcilable and excluded;
    /// `try_load_from_string` screens for it.
    pub fn load_from_value(path: String, doc: JsonValue) -> (m: PackageJson)
        requires
            !exports_field_mixed(doc),
        ensures
            m.path == path,
            manifest_from_doc(m, doc),
    {
        let ghost gdoc = doc;
        let mut entries: Vec<(String, JsonValue)> = match doc {
            JsonValue::Obj(es) => es,
            _ => Vec::new(),
        };
        let ghost all = entries@;
        proof {
            assert(doc_entries(gdoc) =~= all);
        }
        let mut imports_v: Option<JsonValue> = None;
        let mut main_v: Option<JsonValue> = None;
        let mut module_v: Option<JsonValue> = None;
        let mut name_v: Option<JsonValue> = None;
        let mut version_v: Option<JsonValue> = None;
        let mut type_v: Option<JsonValue> = None;
        let mut bin_v: Option<JsonValue> = None;
        let mut exports_v: Option<JsonValue> = None;
        let mut deps_v: Option<JsonValue> = None;
        let mut dev_deps_v: Option<JsonValue> = None;
        let mut scripts_v: Option<JsonValue> = None;
        let mut typings_v: Option<JsonValue> = None;
        let mut types_v: Option<JsonValue> = None;
        let mut workspaces_v: Option<JsonValue> = None;
        proof {
            assert(all.skip(all.len() as int) =~= Seq::empty());
        }
        while entries.len() > 0
            invariant
                entries@.len() <= all.len(),
                entries@ == all.take(entries@.len() as int),
                imports_v == assoc_lookup(all.skip(entries@.len() as int), "imports"@),
                main_v == assoc_lookup(all.skip(entries@.len() as int), "main"@),
                module_v == assoc_lookup(all.skip(entries@.len() as int), "module"@),
                name_v == assoc_lookup(all.skip(entries@.len() as int), "name"@),
                version_v == assoc_lookup(all.skip(entries@.len() as int), "version"@),
                type_v == assoc_lookup(all.skip(entries@.len() as int), "type"@),
                bin_v == assoc_lookup(all.skip(entries@.len() as int), "bin"@),
                exports_v == assoc_lookup(all.skip(entries@.len() as int), "exports"@),
                deps_v == assoc_lookup(all.skip(entries@.len() as int), "dependencies"@),
                dev_deps_v == assoc_lookup(all.skip(entries@.len() as int), "devDependencies"@),
                scripts_v == assoc_lookup(all.skip(entries@.len() as int), "scripts"@),
                typings_v == assoc_lookup(all.skip(entries@.len() as int), "typings"@),
                types_v == assoc_lookup(all.skip(entries@.len() as int), "types"@),
                workspaces_v == assoc_lookup(all.skip(entries@.len() as int), "workspaces"@),
            decreases entries@.len(),
        {
            let ghost n = entries@.len() as int;
            let kv = match entries.pop() {
                Some(kv) => kv,
                None => {
                    proof {
                        assert(false);
                    }
                    (String::new(), JsonValue::Null)
                },
            };
            proof {
                reveal_strlit("imports");
                reveal_strlit("main");
                reveal_strlit("module");
                reveal_strlit("name");
                reveal_strlit("version");
                reveal_strlit("type");
                reveal_strlit("bin");
                reveal_strlit("exports");
                reveal_strlit("dependencies");
                reveal_strlit("devDependencies");
                reveal_strlit("scripts");
                reveal_strlit("typings");
                reveal_strlit("types");
                reveal_strlit("workspaces");
                assert("imports"@.len() == 7 && "main"@.len() == 4 && "module"@.len() == 6
                    && "name"@.len() == 4 && "version"@.len() == 7 && "type"@.len() == 4
                    && "bin"@.len() == 3 && "exports"@.len() == 7 && "dependencies"@.len() == 12
                    && "devDependencies"@.len() == 15 && "scripts"@.len() == 7
                    && "typings"@.len() == 7 && "types"@.len() == 5 && "workspaces"@.len() == 10);
                assert("imports"@[0] == 'i' && "version"@[0] == 'v' && "exports"@[0] == 'e'
                    && "scripts"@[0] == 's' && "typings"@[0] == 't');
                assert("main"@[0] == 'm' && "name"@[0] == 'n' && "type"@[0] == 't');
                assert(all.skip(n - 1)[0] == all[n - 1]);
                assert(all.skip(n - 1).skip(1) =~= all.skip(n));
                assert(kv == all[n - 1]);
                assert(entries@ =~= all.take(n - 1));
            }
            let (k, val) = kv;
            if str_eq(k.as_str(), "imports") {
                imports_v = Some(val);
            } else if str_eq(k.as_str(), "main") {
                main_v = Some(val);
            } else if str_eq(k.as_str(), "module") {
                module_v = Some(val);
            } else if str_eq(k.as_str(), "name") {
                name_v = Some(val);
            } else if str_eq(k.as_str(), "version") {
                version_v = Some(val);
            } else if str_eq(k.as_str(), "type") {
                type_v = Some(val);
            } else if str_eq(k.as_str(), "bin") {
                bin_v = Some(val);
            } else if str_eq(k.as_str(), "exports") {
                exports_v = Some(val);
            } else if str_eq(k.as_str(), "dependencies") {
                deps_v = Some(val);
            } else if str_eq(k.as_str(), "devDependencies") {
                dev_deps_v = Some(val);
            } else if str_eq(k.as_str(), "scripts") {
                scripts_v = Some(val);
            } else if str_eq(k.as_str(), "typings") {
                typings_v = Some(val);
            } else if str_eq(k.as_str(), "types") {
                types_v = Some(val);
            } else if str_eq(k.as_str(), "workspaces") {
                workspaces_v = Some(val);
            }
        }
        proof {
            assert(all.skip(0) =~= all);
        }
        let exports: Option<Vec<(String, JsonValue)>> = match exports_v {
            None => None,
            Some(e) => {
                if is_conditional_exports_main_sugar(&e) {
                    let mut w: Vec<(String, JsonValue)> = Vec::new();
                    proof {
                        reveal_strlit(".");
                    }
                    w.push((".".to_owned(), e));
                    Some(w)
                } else {
                    match e {
                        JsonValue::Obj(o) => Some(o),
                        _ => None,
                    }
                }
            },
        };
        let typ: String = match type_v {
            Some(JsonValue::Str(s)) => {
                if str_eq(s.as_str(), "module") || str_eq(s.as_str(), "commonjs") {
                    s
                } else {
                    proof {
                        reveal_strlit("none");
                    }
                    "none".to_owned()
                }
            },
            _ => {
                proof {
                    reveal_strlit("none");
                }
                "none".to_owned()
            },
        };
        let types: Option<String> = match map_string(typings_v) {
            Some(t) => Some(t),
            None => map_string(types_v),
        };
        PackageJson {
            exports,
            imports: match imports_v {
                Some(JsonValue::Obj(o)) => Some(o),
                _ => None,
            },
            bin: bin_v,
            main: map_string(main_v),
            module: map_string(module_v),
            name: map_string(name_v),
            version: map_string(version_v),
            path,
            typ,
            types,
            dependencies: parse_string_map(deps_v),
            dev_dependencies: parse_string_map(dev_deps_v),
            scripts: parse_string_map(scripts_v),
            workspaces: parse_string_array(workspaces_v),
            resolved_deps: None,
        }
    }

    /// Builds a manifest from manifest text: blank text gives the default
    /// manifest, text that is not valid JSON the deserialize failure. The
    /// mixed-style `exports` object is excluded; `try_load_from_string`
    /// screens for it first.
    pub fn load_from_string(path: String, source: &str) -> (r: Result<
        PackageJson,
        PackageJsonLoadError,
    >)
        requires
            !parsed_doc_mixed(source@),
        ensures
            load_outcome_matches(path, source@, r),
    {
        if str_is_blank(source) {
            return Ok(Self::default_with_path(path));
        }
        match parse_json_text(source) {
            Ok(doc) => Ok(Self::load_from_value(path, doc)),
            Err(e) => Err(PackageJsonLoadError::Deserialize { path, source: e }),
        }
    }

    /// Like `load_from_string`, screening first for the one irreconcilable
    /// document: an `exports` object mixing both key styles yields `None`.
    pub fn try_load_from_string(path: String, source: &str) -> (r: Option<
        Result<PackageJson, PackageJsonLoadError>,
    >)
        ensures
            match r {
                Some(res) => !parsed_doc_mixed(source@) && load_outcome_matches(path, source@, res),
                None => parsed_doc_mixed(source@),
            },
    {
        if str_is_blank(source) {
            return Some(Ok(Self::default_with_path(path)));
        }
        match parse_json_text(source) {
            Ok(doc) => {
                let mixed = match doc_exports_value(&doc) {
                    Some(e) => exports_value_is_mixed(e),
                    None => false,
                };
                if mixed {
                    None
                } else {
                    Some(Ok(Self::load_from_value(path, doc)))
                }
            },
            Err(e) => Some(Err(PackageJsonLoadError::Deserialize { path, source: e })),
        }
    }

    /// The entrypoint for a referrer: an ESM referrer in a `"module"`-typed
    /// manifest gets `module` when it is present and non-blank, falling back
    /// to `main`; everyone else gets `main`. The value is trimmed;
    /// blank-after-trim counts as absent.
    pub fn main<'a>(&'a self, referrer_kind: NodeModuleKind) -> (r: Option<&'a str>)
        ensures
            match r {
                Some(t) => spec_main(*self, referrer_kind) == Some(t@),
                None => spec_main(*self, referrer_kind) is None,
            },
    {
        proof {
            reveal_strlit("module");
        }
        let chosen: Option<&String> = if referrer_kind == NodeModuleKind::Esm && str_eq(
            self.typ.as_str(),
            "module",
        ) {
            match &self.module {
                Some(m) => {
                    match str_trim_nonempty(m.as_str()) {
                        Some(t) => {
                            return Some(t);
                        },
                        None => self.main.as_ref(),
                    }
                },
                None => self.main.as_ref(),
            }
        } else {
            self.main.as_ref()
        };
        match chosen {
            Some(s) => str_trim_nonempty(s.as_str()),
            None => None,
        }
    }

    /// Resolves the manifest's dependency maps into classified requirement
    /// values. Computed once: a second call returns the stored result
    /// unchanged, whatever the raw maps now hold.
    pub fn resolve_local_package_json_deps(&mut self) -> (deps: PackageJsonDepsRc)
        ensures
            final(self).same_but_resolved(*old(self)),
            match old(self).resolved_deps {
                Some(rc) => deps == rc && final(self).resolved_deps == Some(rc),
                None => deps_resolved_from(*old(self), *deps)
                    && final(self).resolved_deps == Some(deps),
            },
    {
        match &self.resolved_deps {
            Some(rc) => {
                return clone_deps_rc(rc);
            },
            None => {},
        }
        let d = PackageJsonDeps {
            dependencies: resolve_map(&self.dependencies),
            dev_dependencies: resolve_map(&self.dev_dependencies),
        };
        let rc = Arc::new(d);
        let stored = clone_deps_rc(&rc);
        self.resolved_deps = Some(stored);
        rc
    }

    /// Serialises the record back to its recognised-field JSON document:
    /// the thirteen recognised keys in order, absent fields as `null`,
    /// `typings` and `types` collapsed into `types`; the path and the
    /// dependency-resolution cache are not serialised.
    pub fn into_value(self) -> (v: JsonValue)
        ensures
            manifest_value_of(self, v),
    {
        let mut es: Vec<(String, JsonValue)> = Vec::new();
        es.push(("exports".to_owned(), obj_or_null(self.exports)));
        es.push(("imports".to_owned(), obj_or_null(self.imports)));
        es.push(
            (
                "bin".to_owned(),
                match self.bin {
                    Some(b) => b,
                    None => JsonValue::Null,
                },
            ),
        );
        es.push(("main".to_owned(), str_or_null(self.main)));
        es.push(("module".to_owned(), str_or_null(self.module)));
        es.push(("name".to_owned(), str_or_null(self.name)));
        es.push(("version".to_owned(), str_or_null(self.version)));
        es.push(("type".to_owned(), JsonValue::Str(self.typ)));
        es.push(("types".to_owned(), str_or_null(self.types)));
        es.push(("dependencies".to_owned(), smap_to_value(self.dependencies)));
        es.push(("devDependencies".to_owned(), smap_to_value(self.dev_dependencies)));
        es.push(("scripts".to_owned(), smap_to_value(self.scripts)));
        es.push(("workspaces".to_owned(), workspaces_to_value(self.workspaces)));
        JsonValue::Obj(es)
    }

    /// All fields agree with `other`, the dependency-resolution cache aside.
    pub open spec fn same_but_resolved(&self, other: PackageJson) -> bool {
        &&& self.exports == other.exports
        &&& self.imports == other.imports
        &&& self.bin == other.bin
        &&& self.main == other.main
        &&& self.module == other.module
        &&& self.name == other.name
        &&& self.version == other.version
        &&& self.path == other.path
        &&& self.typ == other.typ
        &&& self.types == other.types
        &&& self.dependencies == other.dependencies
        &&& self.dev_dependencies == other.dev_dependencies
        &&& self.scripts == other.scripts
        &&& self.workspaces == other.workspaces
    }
}

/// An optional string field as it serialises: the string, or `null`.
pub open spec fn field_str_or_null(f: Option<String>) -> JsonValue {
    match f {
        Some(s) => JsonValue::Str(s),
        None => JsonValue::Null,
    }
}

/// An optional object field as it serialises: the object, or `null`.
pub open spec fn field_obj_or_null(f: Option<Vec<(String, JsonValue)>>) -> JsonValue {
    match f {
        Some(o) => JsonValue::Obj(o),
        None => JsonValue::Null,
    }
}

/// String-map entries as they serialise: each value wrapped as a string.
pub open spec fn smap_json_entries(s: Seq<(String, String)>) -> Seq<(String, JsonValue)> {
    s.map_values(|p: (String, String)| (p.0, JsonValue::Str(p.1)))
}

/// How a serialised manifest relates to the record it came from: one object
/// holding the thirteen recognised keys in order, absent fields as `null`,
/// `typings` and `types` collapsed into `types`, the path left out.
pub open spec fn manifest_value_of(m: PackageJson, v: JsonValue) -> bool {
    &&& v matches JsonValue::Obj(es)
    &&& es@.len() == 13
    &&& es@[0].0@ == "exports"@ && es@[0].1 == field_obj_or_null(m.exports)
    &&& es@[1].0@ == "imports"@ && es@[1].1 == field_obj_or_null(m.imports)
    &&& es@[2].0@ == "bin"@ && es@[2].1 == (match m.bin {
        Some(b) => b,
        None => JsonValue::Null,
    })
    &&& es@[3].0@ == "main"@ && es@[3].1 == field_str_or_null(m.main)
    &&& es@[4].0@ == "module"@ && es@[4].1 == field_str_or_null(m.module)
    &&& es@[5].0@ == "name"@ && es@[5].1 == field_str_or_null(m.name)
    &&& es@[6].0@ == "version"@ && es@[6].1 == field_str_or_null(m.version)
    &&& es@[7].0@ == "type"@ && es@[7].1 == JsonValue::Str(m.typ)
    &&& es@[8].0@ == "types"@ && es@[8].1 == field_str_or_null(m.types)
    &&& es@[9].0@ == "dependencies"@ && smap_value_matches(m.dependencies, es@[9].1)
    &&& es@[10].0@ == "devDependencies"@ && smap_value_matches(m.dev_dependencies, es@[10].1)
    &&& es@[11].0@ == "scripts"@ && smap_value_matches(m.scripts, es@[11].1)
    &&& es@[12].0@ == "workspaces"@ && (match m.workspaces {
        Some(w) => es@[12].1 matches JsonValue::Arr(a) && a@ == w@.map_values(
            |s: String| JsonValue::Str(s),
        ),
        None => es@[12].1 == JsonValue::Null,
    })
}

/// How a serialised string-map field relates to the map, or `null`.
pub open spec fn smap_value_matches(f: Option<StringMap>, v: JsonValue) -> bool {
    match f {
        Some(sm) => v matches JsonValue::Obj(d) && d@ == smap_json_entries(smap_entries(sm)),
        None => v == JsonValue::Null,
    }
}

fn str_or_null(f: Option<String>) -> (r: JsonValue)
    ensures
        r == field_str_or_null(f),
{
    match f {
        Some(s) => JsonValue::Str(s),
        None => JsonValue::Null,
    }
}

fn obj_or_null(f: Option<Vec<(String, JsonValue)>>) -> (r: JsonValue)
    ensures
        r == field_obj_or_null(f),
{
    match f {
        Some(o) => JsonValue::Obj(o),
        None => JsonValue::Null,
    }
}

fn smap_to_value(f: Option<StringMap>) -> (r: JsonValue)
    ensures
        smap_value_matches(f, r),
{
    match f {
        Some(sm) => {
            let evec = smap_entries_vec(&sm);
            let mut out: Vec<(String, JsonValue)> = Vec::new();
            let n = evec.len();
            let mut i: usize = 0;
            assert(smap_json_entries(evec@.take(0)) =~= Seq::empty());
            while i < n
                invariant
                    n == evec@.len(),
                    i <= n,
                    out@ == smap_json_entries(evec@.take(i as int)),
                decreases n - i,
            {
                out.push((evec[i].0.clone(), JsonValue::Str(evec[i].1.clone())));
                proof {
                    assert(smap_json_entries(evec@.take(i + 1)) =~= smap_json_entries(
                        evec@.take(i as int),
                    ).push((evec@[i as int].0, JsonValue::Str(evec@[i as int].1))));
                }
                i += 1;
            }
            assert(evec@.take(n as int) =~= evec@);
            JsonValue::Obj(out)
        },
        None => JsonValue::Null,
    }
}

fn workspaces_to_value(f: Option<Vec<String>>) -> (r: JsonValue)
    ensures
        match f {
            Some(w) => r matches JsonValue::Arr(a) && a@ == w@.map_values(
                |s: String| JsonValue::Str(s),
            ),
            None => r == JsonValue::Null,
        },
{
    match f {
        Some(w) => {
            let mut out: Vec<JsonValue> = Vec::new();
            let n = w.len();
            let mut i: usize = 0;
            assert(w@.take(0).map_values(|s: String| JsonValue::Str(s)) =~= Seq::empty());
            while i < n
                invariant
                    n == w@.len(),
                    i <= n,
                    out@ == w@.take(i as int).map_values(|s: String| JsonValue::Str(s)),
                decreases n - i,
            {
                out.push(JsonValue::Str(w[i].clone()));
                proof {
                    assert(w@.take(i + 1).map_values(|s: String| JsonValue::Str(s))
                        =~= w@.take(i as int).map_values(|s: String| JsonValue::Str(s)).push(
                        JsonValue::Str(w@[i as int]),
                    ));
                }
                i += 1;
            }
            assert(w@.take(n as int) =~= w@);
            JsonValue::Arr(out)
        },
        None => JsonValue::Null,
    }
}

/// The parsed document's `exports` object mixes both key styles.
pub open spec fn parsed_doc_mixed(source: Seq<char>) -> bool {
    if seq_all_ws(source) {
        false
    } else {
        match json_document_of(source) {
            Ok(doc) => exports_field_mixed(doc),
            Err(_) => false,
        }
    }
}

/// What loading from text yields: the default manifest for blank text, a
/// built manifest for a parsed document, the deserialize failure otherwise.
pub open spec fn load_outcome_matches(
    path: String,
    source: Seq<char>,
    r: Result<PackageJson, PackageJsonLoadError>,
) -> bool {
    match r {
        Ok(m) => m.path == path && if seq_all_ws(source) {
            manifest_is_default(m)
        } else {
            json_document_of(source) matches Ok(doc) && manifest_from_doc(m, doc)
        },
        Err(e) => {
            &&& !seq_all_ws(source)
            &&& json_document_of(source) matches Err(pe)
            &&& e matches PackageJsonLoadError::Deserialize { path: p, source: se }
            &&& p == path
            &&& se == pe
        },
    }
}

/// Fetches the document's `exports` value, when the document is an object.
fn doc_exports_value<'a>(doc: &'a JsonValue) -> (r: Option<&'a JsonValue>)
    ensures
        match r {
            Some(v) => assoc_lookup(doc_entries(*doc), "exports"@) == Some(*v),
            None => assoc_lookup(doc_entries(*doc), "exports"@) is None,
        },
{
    match doc {
        JsonValue::Obj(es) => obj_get(es, "exports"),
        _ => {
            proof {
                assert(doc_entries(*doc) =~= Seq::<(String, JsonValue)>::empty());
            }
            None
        },
    }
}

/// What the entrypoint selection returns, as a character sequence: an ESM
/// referrer in a `"module"`-typed manifest gets `module` when it is present
/// and non-blank, falling back to `main`; everyone else gets `main`.
pub open spec fn spec_main(m: PackageJson, kind: NodeModuleKind) -> Option<Seq<char>> {
    let chosen = if kind == NodeModuleKind::Esm && m.typ@ == "module"@ {
        match m.module {
            Some(s) => if trim_seq(s@).len() > 0 {
                Some(s)
            } else {
                m.main
            },
            None => m.main,
        }
    } else {
        m.main
    };
    match chosen {
        Some(s) => if trim_seq(s@).len() == 0 {
            None
        } else {
            Some(trim_seq(s@))
        },
        None => None,
    }
}

/// The raw entries a dependency map is resolved from: absent means empty.
pub open spec fn raw_entries(raw: Option<StringMap>) -> Seq<(String, String)> {
    match raw {
        Some(m) => smap_entries(m),
        None => Seq::empty(),
    }
}

/// Each raw entry classified in place: same aliases, same order, the value
/// classified as `dep_result_matches` states.
pub open spec fn dep_map_resolved(raw: Option<StringMap>, out: PackageJsonDepsMap) -> bool {
    let src = raw_entries(raw);
    let res = dmap_entries(out);
    &&& res.len() == src.len()
    &&& forall|i: int|
        0 <= i < res.len() ==> res[i].0 == src[i].0 && dep_result_matches(
            src[i].0@,
            src[i].1@,
            res[i].1,
        )
}

/// Both of the resolved set's maps come from the manifest's raw maps.
pub open spec fn deps_resolved_from(m: PackageJson, deps: PackageJsonDeps) -> bool {
    &&& dep_map_resolved(m.dependencies, deps.dependencies)
    &&& dep_map_resolved(m.dev_dependencies, deps.dev_dependencies)
}

/// Relies on `Arc::clone`: a handle to the same allocation, equal to it.
#[verifier::external_body]
fn clone_deps_rc(rc: &PackageJsonDepsRc) -> (r: PackageJsonDepsRc)
    ensures
        r == *rc,
{
    rc.clone()
}

fn resolve_map(raw: &Option<StringMap>) -> (out: PackageJsonDepsMap)
    ensures
        dep_map_resolved(*raw, out),
{
    let mut out = dmap_new();
    match raw {
        None => out,
        Some(m) => {
            let es = smap_entries_vec(m);
            let n = es.len();
            let mut i: usize = 0;
            while i < n
                invariant
                    es@ == smap_entries(*m),
                    entries_keys_distinct(es@),
                    n == es@.len(),
                    i <= n,
                    dmap_entries(out).len() == i,
                    forall|j: int|
                        0 <= j < i ==> dmap_entries(out)[j].0 == es@[j].0 && dep_result_matches(
                            es@[j].0@,
                            es@[j].1@,
                            dmap_entries(out)[j].1,
                        ),
                decreases n - i,
            {
                let key = es[i].0.clone();
                let r = parse_dep_entry(key.as_str(), es[i].1.as_str());
                proof {
                    if entries_has_key(dmap_entries(out), key@) {
                        let j = choose|j: int|
                            0 <= j < dmap_entries(out).len() && dmap_entries(out)[j].0@ == key@;
                        assert(es@[j].0@ == es@[i as int].0@);
                        assert(false);
                    }
                }
                dmap_insert_first_wins(&mut out, key, r);
                i += 1;
            }
            out
        },
    }
}

} // verus!
