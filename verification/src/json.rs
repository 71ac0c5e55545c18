//! A plain JSON tree: the generic value shape that a manifest document is
//! pattern-matched out of. Numbers carry their canonical decimal text, so the
//! tree itself holds nothing but booleans, strings and nested collections.

use vstd::prelude::*;
use vstd::string::StrSliceExecFns;
use crate::strs::str_eq;

verus! {

#[derive(Debug)]
pub enum JsonValue {
    Null,
    Bool(bool),
    /// A JSON number, kept as its canonical decimal text.
    Num(String),
    Str(String),
    Arr(Vec<JsonValue>),
    Obj(Vec<(String, JsonValue)>),
}

/// First-occurrence lookup in an association list keyed by strings.
pub open spec fn assoc_lookup<V>(es: Seq<(String, V)>, k: Seq<char>) -> Option<V>
    decreases es.len(),
{
    if es.len() == 0 {
        None
    } else if es[0].0@ == k {
        Some(es[0].1)
    } else {
        assoc_lookup(es.skip(1), k)
    }
}

/// The key occurs in the association list.
pub open spec fn assoc_has_key<V>(es: Seq<(String, V)>, k: Seq<char>) -> bool {
    exists|i: int| 0 <= i < es.len() && es[i].0@ == k
}

pub proof fn lemma_assoc_lookup_some_iff_has_key<V>(es: Seq<(String, V)>, k: Seq<char>)
    ensures
        assoc_lookup(es, k) is Some <==> assoc_has_key(es, k),
    decreases es.len(),
{
    if es.len() > 0 {
        if es[0].0@ == k {
            assert(assoc_has_key(es, k));
        } else {
            lemma_assoc_lookup_some_iff_has_key(es.skip(1), k);
            if assoc_has_key(es.skip(1), k) {
                let i = choose|i: int| 0 <= i < es.skip(1).len() && es.skip(1)[i].0@ == k;
                assert(es[i + 1].0@ == k);
            }
            if assoc_has_key(es, k) {
                let i = choose|i: int| 0 <= i < es.len() && es[i].0@ == k;
                assert(es.skip(1)[i - 1].0@ == k);
            }
        }
    }
}

pub proof fn lemma_assoc_lookup_at<V>(es: Seq<(String, V)>, i: int)
    requires
        0 <= i < es.len(),
        forall|j: int| 0 <= j < i ==> es[j].0@ != es[i].0@,
    ensures
        assoc_lookup(es, es[i].0@) == Some(es[i].1),
    decreases i,
{
    if i == 0 {
    } else {
        assert(es[0].0@ != es[i].0@);
        assert(es.skip(1)[i - 1] == es[i]);
        assert forall|j: int| 0 <= j < i - 1 implies (#[trigger] es.skip(1)[j]).0@ != es.skip(1)[i
            - 1].0@ by {
            assert(es.skip(1)[j] == es[j + 1]);
        }
        lemma_assoc_lookup_at(es.skip(1), i - 1);
    }
}

/// Finds the first entry bound to `k` in an object's entry list.
pub fn obj_get<'a>(es: &'a Vec<(String, JsonValue)>, k: &str) -> (r: Option<&'a JsonValue>)
    ensures
        match r {
            Some(v) => assoc_lookup(es@, k@) == Some(*v),
            None => assoc_lookup(es@, k@) is None,
        },
{
    let n = es.len();
    assert(es@.skip(0) =~= es@);
    let mut i: usize = 0;
    while i < n
        invariant
            n == es@.len(),
            i <= n,
            assoc_lookup(es@, k@) == assoc_lookup(es@.skip(i as int), k@),
        decreases n - i,
    {
        if str_eq(es[i].0.as_str(), k) {
            assert(es@.skip(i as int)[0] == es@[i as int]);
            return Some(&es[i].1);
        }
        proof {
            assert(es@.skip(i as int)[0] == es@[i as int]);
            assert(es@.skip(i as int).skip(1) =~= es@.skip(i as int + 1));
        }
        i += 1;
    }
    None
}

/// A key in `exports` that selects the main-entrypoint sugar reading: empty,
/// or not beginning with `.`.
pub open spec fn is_sugar_key(k: Seq<char>) -> bool {
    k.len() == 0 || k[0] != '.'
}

fn sugar_key(k: &str) -> (r: bool)
    ensures
        r == is_sugar_key(k@),
{
    let l = k.unicode_len();
    l == 0 || k.get_char(0) != '.'
}

/// An `exports` object mixes subpath keys with condition-name keys: the
/// irreconcilable configuration that normalisation refuses.
pub open spec fn exports_obj_mixed(es: Seq<(String, JsonValue)>) -> bool {
    exists|i: int, j: int|
        0 <= i < es.len() && 0 <= j < es.len() && is_sugar_key(es[i].0@) && !is_sugar_key(es[j].0@)
}

/// An `exports` value that mixes both key styles in one object.
pub open spec fn exports_value_mixed(v: JsonValue) -> bool {
    match v {
        JsonValue::Obj(es) => exports_obj_mixed(es@),
        _ => false,
    }
}

/// The value is the main-entrypoint shorthand: a bare string or array, or an
/// object whose keys are condition names rather than subpaths.
pub open spec fn is_sugar_exports(v: JsonValue) -> bool {
    match v {
        JsonValue::Str(_) => true,
        JsonValue::Arr(_) => true,
        JsonValue::Obj(es) => es@.len() > 0 && is_sugar_key(es@[0].0@),
        _ => false,
    }
}

/// Decides whether an `exports` value uses the main-entrypoint sugar form.
/// An object mixing both key styles is an irreconcilable configuration and is
/// excluded by precondition; `exports_value_is_mixed` tests for it.
pub fn is_conditional_exports_main_sugar(exports: &JsonValue) -> (r: bool)
    requires
        !exports_value_mixed(*exports),
    ensures
        r == is_sugar_exports(*exports),
{
    match exports {
        JsonValue::Str(_) => true,
        JsonValue::Arr(_) => true,
        JsonValue::Obj(es) => {
            if es.len() == 0 {
                false
            } else {
                sugar_key(es[0].0.as_str())
            }
        },
        _ => false,
    }
}

/// Reports whether an `exports` value mixes subpath keys with condition-name
/// keys; such a value cannot be normalised and manifest building refuses it.
pub fn exports_value_is_mixed(exports: &JsonValue) -> (r: bool)
    ensures
        r == exports_value_mixed(*exports),
{
    match exports {
        JsonValue::Obj(es) => {
            let n = es.len();
            if n == 0 {
                return false;
            }
            let first_sugar = sugar_key(es[0].0.as_str());
            let mut i: usize = 1;
            while i < n
                invariant
                    exports_value_mixed(*exports) == exports_obj_mixed(es@),
                    n == es@.len(),
                    n > 0,
                    1 <= i <= n,
                    first_sugar == is_sugar_key(es@[0].0@),
                    forall|j: int| 0 <= j < i ==> is_sugar_key(es@[j].0@) == first_sugar,
                decreases n - i,
            {
                if sugar_key(es[i].0.as_str()) != first_sugar {
                    proof {
                        let gi: int = if first_sugar { 0 } else { i as int };
                        let gj: int = if first_sugar { i as int } else { 0 };
                        assert(0 <= gi < es@.len() && 0 <= gj < es@.len() && is_sugar_key(
                            es@[gi].0@,
                        ) && !is_sugar_key(es@[gj].0@));
                        assert(exports_obj_mixed(es@));
                    }
                    return true;
                }
                i += 1;
            }
            false
        },
        _ => false,
    }
}

} // verus!
