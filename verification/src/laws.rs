//! Laws the library keeps, stated over the contracts of the builder, the
//! serialiser and the dependency classifier.

use vstd::prelude::*;
use crate::json::JsonValue;
use crate::json::assoc_lookup;
use crate::json::lemma_assoc_lookup_some_iff_has_key;
use crate::json::is_sugar_key;
use crate::json::is_sugar_exports;
use crate::strs::seq_starts_with;
use crate::strs::lemma_first_index_of_at;
use crate::deps::PackageJsonDepValue;
use crate::deps::PackageJsonDepValueParseError;
use crate::deps::dep_result_matches;
use crate::deps::has_unsupported_scheme;
use crate::deps::scheme_of;
use crate::json::lemma_assoc_lookup_at;
use crate::imap::entries_keys_distinct;
use crate::imap::StringMap;
use crate::imap::PackageJsonDepsMap;
use crate::imap::dmap_entries;
use crate::manifest::PackageJson;
use crate::manifest::doc_entries;
use crate::manifest::manifest_from_doc;
use crate::manifest::manifest_is_default;
use crate::manifest::manifest_value_of;
use crate::manifest::smap_json_entries;
use crate::manifest::coerced_entries;
use crate::manifest::string_items;
use crate::manifest::dep_map_resolved;
use crate::manifest::raw_entries;

verus! {

/// A top-level key the manifest builder recognises.
pub open spec fn is_recognized_key(k: Seq<char>) -> bool {
    ||| k == "imports"@
    ||| k == "main"@
    ||| k == "module"@
    ||| k == "name"@
    ||| k == "version"@
    ||| k == "type"@
    ||| k == "bin"@
    ||| k == "exports"@
    ||| k == "dependencies"@
    ||| k == "devDependencies"@
    ||| k == "scripts"@
    ||| k == "typings"@
    ||| k == "types"@
    ||| k == "workspaces"@
}

/// Law: a document none of whose keys is recognised builds the default
/// manifest — every optional field absent and `type` `"none"`. Unknown keys
/// never cause a failure; they are ignored.
pub proof fn lemma_unrecognized_keys_default(m: PackageJson, doc: JsonValue)
    requires
        manifest_from_doc(m, doc),
        forall|i: int|
            0 <= i < doc_entries(doc).len() ==> !is_recognized_key(
                #[trigger] doc_entries(doc)[i].0@,
            ),
    ensures
        manifest_is_default(m),
{
    let es = doc_entries(doc);
    lemma_lookup_none_when_unrecognized(es, "imports"@);
    lemma_lookup_none_when_unrecognized(es, "main"@);
    lemma_lookup_none_when_unrecognized(es, "module"@);
    lemma_lookup_none_when_unrecognized(es, "name"@);
    lemma_lookup_none_when_unrecognized(es, "version"@);
    lemma_lookup_none_when_unrecognized(es, "type"@);
    lemma_lookup_none_when_unrecognized(es, "bin"@);
    lemma_lookup_none_when_unrecognized(es, "exports"@);
    lemma_lookup_none_when_unrecognized(es, "dependencies"@);
    lemma_lookup_none_when_unrecognized(es, "devDependencies"@);
    lemma_lookup_none_when_unrecognized(es, "scripts"@);
    lemma_lookup_none_when_unrecognized(es, "typings"@);
    lemma_lookup_none_when_unrecognized(es, "types"@);
    lemma_lookup_none_when_unrecognized(es, "workspaces"@);
}

proof fn lemma_lookup_none_when_unrecognized(es: Seq<(String, JsonValue)>, k: Seq<char>)
    requires
        is_recognized_key(k),
        forall|i: int| 0 <= i < es.len() ==> !is_recognized_key(#[trigger] es[i].0@),
    ensures
        assoc_lookup(es, k) is None,
{
    lemma_assoc_lookup_some_iff_has_key(es, k);
    if assoc_lookup(es, k) is Some {
        let i = choose|i: int| 0 <= i < es.len() && es[i].0@ == k;
        assert(!is_recognized_key(es[i].0@));
    }
}

/// The scheme token that classification reports for a URL-like value.
pub open spec fn expected_scheme_token(value: Seq<char>) -> Seq<char> {
    if seq_starts_with(value, "file:"@) {
        "file"@
    } else if seq_starts_with(value, "git:"@) {
        "git"@
    } else if seq_starts_with(value, "http:"@) {
        "http"@
    } else {
        "https"@
    }
}

/// Law: whatever the alias and whatever follows the colon, a dependency
/// value led by `file:`, `git:`, `http:` or `https:` classifies as
/// unsupported, and the scheme it carries is exactly the token before the
/// colon.
pub proof fn lemma_unsupported_scheme_classifies(
    key: Seq<char>,
    value: Seq<char>,
    r: Result<PackageJsonDepValue, PackageJsonDepValueParseError>,
)
    requires
        has_unsupported_scheme(value),
        dep_result_matches(key, value, r),
    ensures
        r matches Err(PackageJsonDepValueParseError::Unsupported { scheme }) && scheme@
            == expected_scheme_token(value),
{
    reveal_strlit("workspace:");
    reveal_strlit("file:");
    reveal_strlit("git:");
    reveal_strlit("http:");
    reveal_strlit("https:");
    reveal_strlit("file");
    reveal_strlit("git");
    reveal_strlit("http");
    reveal_strlit("https");
    assert(!seq_starts_with(value, "workspace:"@)) by {
        if seq_starts_with(value, "workspace:"@) {
            assert(value.subrange(0, 10)[0] == 'w');
            if seq_starts_with(value, "file:"@) {
                assert(value.subrange(0, 5)[0] == 'f');
            } else if seq_starts_with(value, "git:"@) {
                assert(value.subrange(0, 4)[0] == 'g');
            } else if seq_starts_with(value, "http:"@) {
                assert(value.subrange(0, 5)[0] == 'h');
            } else {
                assert(value.subrange(0, 6)[0] == 'h');
            }
        }
    }
    if seq_starts_with(value, "file:"@) {
        assert forall|j: int| 0 <= j < 4 implies value[j] != ':' by {
            assert(value.subrange(0, 5)[j] == value[j]);
        }
        assert(value.subrange(0, 5)[4] == ':');
        lemma_first_index_of_at(value, ':', 4);
        assert(scheme_of(value) =~= "file"@) by {
            assert forall|j: int| 0 <= j < 4 implies value.subrange(0, 4)[j] == "file"@[j] by {
                assert(value.subrange(0, 5)[j] == value[j]);
            }
        }
    } else if seq_starts_with(value, "git:"@) {
        assert forall|j: int| 0 <= j < 3 implies value[j] != ':' by {
            assert(value.subrange(0, 4)[j] == value[j]);
        }
        assert(value.subrange(0, 4)[3] == ':');
        lemma_first_index_of_at(value, ':', 3);
        assert(scheme_of(value) =~= "git"@) by {
            assert forall|j: int| 0 <= j < 3 implies value.subrange(0, 3)[j] == "git"@[j] by {
                assert(value.subrange(0, 4)[j] == value[j]);
            }
        }
    } else if seq_starts_with(value, "http:"@) {
        assert forall|j: int| 0 <= j < 4 implies value[j] != ':' by {
            assert(value.subrange(0, 5)[j] == value[j]);
        }
        assert(value.subrange(0, 5)[4] == ':');
        lemma_first_index_of_at(value, ':', 4);
        assert(scheme_of(value) =~= "http"@) by {
            assert forall|j: int| 0 <= j < 4 implies value.subrange(0, 4)[j] == "http"@[j] by {
                assert(value.subrange(0, 5)[j] == value[j]);
            }
        }
    } else {
        assert(seq_starts_with(value, "https:"@));
        assert forall|j: int| 0 <= j < 5 implies value[j] != ':' by {
            assert(value.subrange(0, 6)[j] == value[j]);
        }
        assert(value.subrange(0, 6)[5] == ':');
        lemma_first_index_of_at(value, ':', 5);
        assert(scheme_of(value) =~= "https"@) by {
            assert forall|j: int| 0 <= j < 5 implies value.subrange(0, 5)[j] == "https"@[j] by {
                assert(value.subrange(0, 6)[j] == value[j]);
            }
        }
    }
}

/// Law: a classification failure is scoped to its own entry. In a resolved
/// dependency map every alias keeps its raw position, and its outcome is
/// fixed by its own `(alias, value)` pair alone — the outcome that pair gets
/// in isolation — so one bad entry never disturbs its siblings in either map.
pub proof fn lemma_classification_failure_is_scoped(
    raw: Option<StringMap>,
    out: PackageJsonDepsMap,
    i: int,
)
    requires
        dep_map_resolved(raw, out),
        0 <= i < dmap_entries(out).len(),
    ensures
        dmap_entries(out).len() == raw_entries(raw).len(),
        dmap_entries(out)[i].0 == raw_entries(raw)[i].0,
        dep_result_matches(raw_entries(raw)[i].0@, raw_entries(raw)[i].1@, dmap_entries(out)[i].1),
{
}

/// An object field whose values are all strings, with no repeated key.
pub open spec fn string_obj_field(v: Option<JsonValue>) -> bool {
    &&& v matches Some(JsonValue::Obj(o))
    &&& entries_keys_distinct(o@)
    &&& forall|i: int| 0 <= i < o@.len() ==> #[trigger] o@[i].1 matches JsonValue::Str(_)
}

/// A document whose round trip through the record is lossless: each
/// recognised field present once, in the shape the record keeps it in —
/// plain strings where strings are kept, a valid `type`, no `typings` key
/// (it collapses into `types`), subpath-form `exports`, string-valued maps
/// with distinct keys, and a workspaces array of strings.
pub open spec fn round_trip_doc(doc: JsonValue) -> bool {
    let es = doc_entries(doc);
    &&& doc matches JsonValue::Obj(_)
    &&& assoc_lookup(es, "name"@) matches Some(JsonValue::Str(_))
    &&& assoc_lookup(es, "version"@) matches Some(JsonValue::Str(_))
    &&& assoc_lookup(es, "main"@) matches Some(JsonValue::Str(_))
    &&& assoc_lookup(es, "module"@) matches Some(JsonValue::Str(_))
    &&& assoc_lookup(es, "types"@) matches Some(JsonValue::Str(_))
    &&& assoc_lookup(es, "typings"@) is None
    &&& (assoc_lookup(es, "type"@) matches Some(JsonValue::Str(s)) && (s@ == "module"@ || s@
        == "commonjs"@))
    &&& assoc_lookup(es, "bin"@) is Some
    &&& (assoc_lookup(es, "exports"@) matches Some(JsonValue::Obj(o)) && (forall|i: int|
        0 <= i < o@.len() ==> !is_sugar_key(#[trigger] o@[i].0@)))
    &&& assoc_lookup(es, "imports"@) matches Some(JsonValue::Obj(_))
    &&& string_obj_field(assoc_lookup(es, "dependencies"@))
    &&& string_obj_field(assoc_lookup(es, "devDependencies"@))
    &&& string_obj_field(assoc_lookup(es, "scripts"@))
    &&& (assoc_lookup(es, "workspaces"@) matches Some(JsonValue::Arr(a)) && (forall|i: int|
        0 <= i < a@.len() ==> #[trigger] a@[i] matches JsonValue::Str(_)))
}

/// Both lookups are objects holding the same entries.
pub open spec fn obj_views_equal(a: Option<JsonValue>, b: Option<JsonValue>) -> bool {
    &&& a matches Some(JsonValue::Obj(x))
    &&& b matches Some(JsonValue::Obj(y))
    &&& x@ == y@
}

/// The serialised document gives back, at every recognised key, the value
/// the source document held there.
pub open spec fn round_trip_reproduces(
    des: Seq<(String, JsonValue)>,
    ves: Seq<(String, JsonValue)>,
) -> bool {
    &&& assoc_lookup(ves, "exports"@) == assoc_lookup(des, "exports"@)
    &&& assoc_lookup(ves, "imports"@) == assoc_lookup(des, "imports"@)
    &&& assoc_lookup(ves, "bin"@) == assoc_lookup(des, "bin"@)
    &&& assoc_lookup(ves, "main"@) == assoc_lookup(des, "main"@)
    &&& assoc_lookup(ves, "module"@) == assoc_lookup(des, "module"@)
    &&& assoc_lookup(ves, "name"@) == assoc_lookup(des, "name"@)
    &&& assoc_lookup(ves, "version"@) == assoc_lookup(des, "version"@)
    &&& assoc_lookup(ves, "type"@) == assoc_lookup(des, "type"@)
    &&& assoc_lookup(ves, "types"@) == assoc_lookup(des, "types"@)
    &&& obj_views_equal(assoc_lookup(ves, "dependencies"@), assoc_lookup(des, "dependencies"@))
    &&& obj_views_equal(
        assoc_lookup(ves, "devDependencies"@),
        assoc_lookup(des, "devDependencies"@),
    )
    &&& obj_views_equal(assoc_lookup(ves, "scripts"@), assoc_lookup(des, "scripts"@))
    &&& (assoc_lookup(ves, "workspaces"@) matches Some(JsonValue::Arr(x))
        && assoc_lookup(des, "workspaces"@) matches Some(JsonValue::Arr(y)) && x@ == y@)
}

proof fn lemma_coerced_entries_all_str(o: Seq<(String, JsonValue)>)
    requires
        entries_keys_distinct(o),
        forall|i: int| 0 <= i < o.len() ==> #[trigger] o[i].1 matches JsonValue::Str(_),
    ensures
        smap_json_entries(coerced_entries(o)) == o,
    decreases o.len(),
{
    if o.len() == 0 {
        assert(smap_json_entries(coerced_entries(o)) =~= o);
    } else {
        let pre = o.drop_last();
        assert forall|i: int| 0 <= i < pre.len() implies #[trigger] pre[i].1 matches JsonValue::Str(
            _,
        ) by {
            assert(pre[i] == o[i]);
        }
        assert(entries_keys_distinct(pre)) by {
            assert forall|i: int, j: int| 0 <= i < j < pre.len() implies pre[i].0@ != pre[j].0@ by {
                assert(pre[i] == o[i] && pre[j] == o[j]);
            }
        }
        lemma_coerced_entries_all_str(pre);
        let kv = o.last();
        assert(kv.1 matches JsonValue::Str(_));
        let t = kv.1->Str_0;
        assert(!crate::imap::entries_has_key(coerced_entries(pre), kv.0@)) by {
            if crate::imap::entries_has_key(coerced_entries(pre), kv.0@) {
                let i = choose|i: int|
                    0 <= i < coerced_entries(pre).len() && coerced_entries(pre)[i].0@ == kv.0@;
                assert(smap_json_entries(coerced_entries(pre))[i] == pre[i]);
                assert(smap_json_entries(coerced_entries(pre))[i].0 == coerced_entries(pre)[i].0);
                assert(o[i].0@ == o[o.len() - 1].0@);
            }
        }
        assert(coerced_entries(o) == coerced_entries(pre).push((kv.0, t)));
        assert(smap_json_entries(coerced_entries(o)) =~= o) by {
            assert(smap_json_entries(coerced_entries(pre)) == pre);
            assert forall|i: int| 0 <= i < o.len() implies smap_json_entries(coerced_entries(o))[i]
                == o[i] by {
                if i < o.len() - 1 {
                    assert(smap_json_entries(coerced_entries(pre))[i] == pre[i]);
                    assert(pre[i] == o[i]);
                }
            }
        }
    }
}

proof fn lemma_string_items_all_str(a: Seq<JsonValue>)
    requires
        forall|i: int| 0 <= i < a.len() ==> #[trigger] a[i] matches JsonValue::Str(_),
    ensures
        string_items(a).map_values(|s: String| JsonValue::Str(s)) == a,
        string_items(a).len() == a.len(),
    decreases a.len(),
{
    if a.len() == 0 {
        assert(string_items(a).map_values(|s: String| JsonValue::Str(s)) =~= a);
    } else {
        let pre = a.drop_last();
        assert forall|i: int| 0 <= i < pre.len() implies #[trigger] pre[i] matches JsonValue::Str(
            _,
        ) by {
            assert(pre[i] == a[i]);
        }
        lemma_string_items_all_str(pre);
        assert(a.last() matches JsonValue::Str(_));
        assert(string_items(a).map_values(|s: String| JsonValue::Str(s)) =~= a) by {
            assert forall|i: int|
                0 <= i < a.len() implies string_items(a).map_values(|s: String| JsonValue::Str(s))[i]
                == a[i] by {
                if i < a.len() - 1 {
                    assert(string_items(pre).map_values(|s: String| JsonValue::Str(s))[i] == pre[i]);
                    assert(pre[i] == a[i]);
                }
            }
        }
    }
}

/// Law: a manifest built from a document that holds exactly the recognised
/// fields, in the shapes the record keeps, serialises back to the same value
/// at every recognised key.
pub proof fn lemma_round_trip(m: PackageJson, doc: JsonValue, v: JsonValue)
    requires
        round_trip_doc(doc),
        manifest_from_doc(m, doc),
        manifest_value_of(m, v),
    ensures
        round_trip_reproduces(doc_entries(doc), doc_entries(v)),
{
    reveal_strlit("imports");
    reveal_strlit("main");
    reveal_strlit("module");
    reveal_strlit("name");
    reveal_strlit("version");
    reveal_strlit("type");
    reveal_strlit("bin");
    reveal_strlit("exports");
    reveal_strlit("dependencies");
    reveal_strlit("devDependencies");
    reveal_strlit("scripts");
    reveal_strlit("typings");
    reveal_strlit("types");
    reveal_strlit("workspaces");
    assert("imports"@.len() == 7 && "main"@.len() == 4 && "module"@.len() == 6 && "name"@.len()
        == 4 && "version"@.len() == 7 && "type"@.len() == 4 && "bin"@.len() == 3
        && "exports"@.len() == 7 && "dependencies"@.len() == 12 && "devDependencies"@.len() == 15
        && "scripts"@.len() == 7 && "typings"@.len() == 7 && "types"@.len() == 5
        && "workspaces"@.len() == 10);
    assert("imports"@[0] == 'i' && "version"@[0] == 'v' && "exports"@[0] == 'e' && "scripts"@[0]
        == 's' && "typings"@[0] == 't');
    assert("main"@[0] == 'm' && "name"@[0] == 'n' && "type"@[0] == 't');
    let des = doc_entries(doc);
    let ves = doc_entries(v);
    assert(v matches JsonValue::Obj(x) && ves == x@);
    lemma_assoc_lookup_at(ves, 0);
    lemma_assoc_lookup_at(ves, 1);
    lemma_assoc_lookup_at(ves, 2);
    lemma_assoc_lookup_at(ves, 3);
    lemma_assoc_lookup_at(ves, 4);
    lemma_assoc_lookup_at(ves, 5);
    lemma_assoc_lookup_at(ves, 6);
    lemma_assoc_lookup_at(ves, 7);
    lemma_assoc_lookup_at(ves, 8);
    lemma_assoc_lookup_at(ves, 9);
    lemma_assoc_lookup_at(ves, 10);
    lemma_assoc_lookup_at(ves, 11);
    lemma_assoc_lookup_at(ves, 12);
    assert(assoc_lookup(des, "exports"@) matches Some(JsonValue::Obj(o)) && m.exports == Some(o))
        by {
        let e = assoc_lookup(des, "exports"@)->0;
        let o = e->Obj_0;
        if o@.len() > 0 {
            assert(!is_sugar_key(o@[0].0@));
        }
        assert(!is_sugar_exports(e));
    }
    assert(obj_views_equal(assoc_lookup(ves, "dependencies"@), assoc_lookup(des, "dependencies"@)))
        by {
        let o = assoc_lookup(des, "dependencies"@)->0->Obj_0;
        lemma_coerced_entries_all_str(o@);
    }
    assert(obj_views_equal(
        assoc_lookup(ves, "devDependencies"@),
        assoc_lookup(des, "devDependencies"@),
    )) by {
        let o = assoc_lookup(des, "devDependencies"@)->0->Obj_0;
        lemma_coerced_entries_all_str(o@);
    }
    assert(obj_views_equal(assoc_lookup(ves, "scripts"@), assoc_lookup(des, "scripts"@))) by {
        let o = assoc_lookup(des, "scripts"@)->0->Obj_0;
        lemma_coerced_entries_all_str(o@);
    }
    assert(assoc_lookup(ves, "workspaces"@) matches Some(JsonValue::Arr(x))
        && assoc_lookup(des, "workspaces"@) matches Some(JsonValue::Arr(y)) && x@ == y@) by {
        let a = assoc_lookup(des, "workspaces"@)->0->Arr_0;
        lemma_string_items_all_str(a@);
    }
}

} // verus!
