//! `watch(src, cb, { deep: true })` re-traverses the whole watched object
//! on every change.
//!
//! The rule fires when the third argument is an inline options object
//! whose `deep` is the literal `true` and whose `once` is not the literal
//! `true` (a once-watcher fires a single time). When a key occurs twice,
//! the last boolean occurrence counts.

use vstd::prelude::*;

use crate::context::ScanContext;
use crate::parser::estree::{get, get_field, get_items, is_type, node_type, Json};
use crate::parser::script::{
    call_arg, call_args, callee_path, get_prop_key_name, object_props, path_is1, prop_key_name,
    spec_callee_path,
};
use crate::rules::{finding_spans, Category, Finding, Rule, RuleInfo, RuleKind};
use crate::severity::Severity;
use crate::text::str_is;
use crate::visitor::script::{check_script, script_hits, ScriptCheck};

verus! {

pub struct NoDeepWatchWithoutHandler;

/// The boolean literal value of a property named `key`.
pub open spec fn bool_prop(p: Json, key: Seq<char>) -> Option<bool> {
    if prop_key_name(p) == Some(key) && (get(p, "value"@) matches Some(v) && node_type(v)
        == "Literal"@ && get(v, "value"@) matches Some(Json::Bool(_))) {
        match get(p, "value"@) {
            Some(v) => match get(v, "value"@) {
                Some(Json::Bool(b)) => Some(b),
                _ => None,
            },
            None => None,
        }
    } else {
        None
    }
}

/// The value of the last boolean property named `key`.
pub open spec fn last_bool(props: Seq<Json>, key: Seq<char>) -> Option<bool>
    decreases props.len(),
{
    if props.len() == 0 {
        None
    } else {
        match bool_prop(props.last(), key) {
            Some(b) => Some(b),
            None => last_bool(props.drop_last(), key),
        }
    }
}

/// `watch(...)` with an options object `{ deep: true }` that is not also
/// `{ once: true }`.
pub open spec fn hit(n: Json) -> bool {
    node_type(n) == "CallExpression"@ && spec_callee_path(n) == seq!["watch"@] && call_args(n).len() > 2
        && node_type(call_args(n)[2]) == "ObjectExpression"@ && last_bool(
        object_props(call_args(n)[2]),
        "deep"@,
    ) == Some(true) && last_bool(object_props(call_args(n)[2]), "once"@) != Some(true)
}

fn get_bool_prop(p: &Json, key: &str) -> (r: Option<bool>)
    ensures
        r == bool_prop(*p, key@),
{
    match get_prop_key_name(p) {
        Some(k) => {
            if !str_is(k, key) {
                return None;
            }
        },
        None => {
            return None;
        },
    }
    match get_field(p, "value") {
        Some(v) => {
            if !is_type(v, "Literal") {
                return None;
            }
            match get_field(v, "value") {
                Some(Json::Bool(b)) => Some(*b),
                _ => None,
            }
        },
        None => None,
    }
}

fn options_flags(o: &Json) -> (r: (Option<bool>, Option<bool>))
    ensures
        r.0 == last_bool(object_props(*o), "deep"@),
        r.1 == last_bool(object_props(*o), "once"@),
{
    let mut deep: Option<bool> = None;
    let mut once: Option<bool> = None;
    if !is_type(o, "ObjectExpression") {
        return (deep, once);
    }
    match get_items(o, "properties") {
        Some(props) => {
            let mut i: usize = 0;
            assert(props@.take(0) =~= Seq::<Json>::empty());
            while i < props.len()
                invariant
                    i <= props.len(),
                    object_props(*o) == props@,
                    deep == last_bool(props@.take(i as int), "deep"@),
                    once == last_bool(props@.take(i as int), "once"@),
                decreases props.len() - i,
            {
                proof {
                    let t = props@.take(i + 1);
                    assert(t.drop_last() =~= props@.take(i as int));
                    assert(t.last() == props@[i as int]);
                }
                match get_bool_prop(&props[i], "deep") {
                    Some(b) => {
                        deep = Some(b);
                    },
                    None => {},
                }
                match get_bool_prop(&props[i], "once") {
                    Some(b) => {
                        once = Some(b);
                    },
                    None => {},
                }
                i = i + 1;
            }
            assert(props@.take(props.len() as int) =~= props@);
            (deep, once)
        },
        None => (deep, once),
    }
}

pub fn is_hit(n: &Json) -> (r: bool)
    ensures
        r == hit(*n),
{
    if !is_type(n, "CallExpression") {
        return false;
    }
    let path = callee_path(n);
    if !path_is1(&path, "watch") {
        return false;
    }
    match call_arg(n, 2) {
        Some(o) => {
            if !is_type(o, "ObjectExpression") {
                return false;
            }
            let (deep, once) = options_flags(o);
            deep == Some(true) && once != Some(true)
        },
        None => false,
    }
}

impl Rule for NoDeepWatchWithoutHandler {
    fn info(&self) -> (r: RuleInfo)
        ensures
            r.id@ == "vue/performance/no-deep-watch-without-handler"@,
            r.name@ == "no-deep-watch-without-handler"@,
            r.severity == Severity::Low,
            r.category == Category::Performance,
    {
        RuleInfo {
            id: "vue/performance/no-deep-watch-without-handler",
            name: "no-deep-watch-without-handler",
            description: "Warn about `watch(source, callback, { deep: true })` watchers that traverse the whole object on every change",
            severity: Severity::Low,
            category: Category::Performance,
            kind: RuleKind::Syntactic,
            message: "`watch(..., { deep: true })` traverses the whole object graph on every change",
            label: "`deep: true` watcher here",
            help: "Deep watchers re-compare every nested property on each mutation, which degrades as the object grows. Prefer watching an explicit path (`() => obj.field`), splitting the watcher per field, or `{ once: true }` when only the first notification is needed.",
        }
    }

    fn check(&self, ctx: &ScanContext) -> (r: Vec<Finding>)
        ensures
            finding_spans(r@) == script_hits(ScriptCheck::DeepWatch, *ctx),
    {
        check_script(ScriptCheck::DeepWatch, ctx)
    }
}

} // verus!
