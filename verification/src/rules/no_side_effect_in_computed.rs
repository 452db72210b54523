//! A `computed(...)` getter with side effects.
//!
//! A computed getter must be a pure function of reactive state: Vue
//! re-evaluates it lazily, an unpredictable number of times. The rule
//! reports a `computed(getter)` call whose getter (an arrow function, a
//! function expression, or the `get` member of an options object):
//!
//! * is `async` (Vue cannot await a computed),
//! * assigns or updates anything (`x = 1`, `x += y`, `x++`),
//! * calls a side-effecting API (`fetch`, `console.*`, `axios.*`, `watch`,
//!   `setTimeout`, `emit`, ...) or a mutating method (`push`, `splice`,
//!   `setItem`, `appendChild`, ...).
//!
//! Functions declared inside the getter are not searched: they are only
//! declared, not run, while the getter evaluates.

use vstd::prelude::*;

use crate::context::ScanContext;
use crate::parser::estree::{get, get_field, get_items, is_type, node_type, Json};
use crate::parser::script::{
    call_arg, call_args, callee_path, get_prop_key_name, object_props, path_is1, prop_key_name,
    spec_callee_path, texts,
};
use crate::rules::{finding_spans, Category, Finding, Rule, RuleInfo, RuleKind};
use crate::severity::Severity;
use crate::text::{str_eq, str_is};
use crate::visitor::script::{check_script, script_hits, ScriptCheck};

verus! {

pub struct NoSideEffectInComputed;

/// Methods that change their receiver (collections, storage, the DOM).
pub open spec fn is_mutating(name: Seq<char>) -> bool {
    name == "push"@ || name == "pop"@ || name == "shift"@ || name == "unshift"@ || name == "splice"@
        || name == "sort"@ || name == "reverse"@ || name == "fill"@ || name == "copyWithin"@ || name
        == "set"@ || name == "add"@ || name == "delete"@ || name == "clear"@ || name == "write"@ || name
        == "writeln"@ || name == "open"@ || name == "close"@ || name == "assign"@ || name == "setItem"@
        || name == "removeItem"@ || name == "setAttribute"@ || name == "removeAttribute"@ || name
        == "setProperty"@ || name == "removeProperty"@ || name == "appendChild"@ || name
        == "insertBefore"@ || name == "replaceChild"@ || name == "removeChild"@
}

/// Global functions whose call is a side effect.
pub open spec fn is_effect_global(name: Seq<char>) -> bool {
    name == "fetch"@ || name == "alert"@ || name == "confirm"@ || name == "prompt"@ || name
        == "setTimeout"@ || name == "setInterval"@ || name == "watch"@ || name == "watchEffect"@ || name
        == "nextTick"@ || name == "emit"@
}

/// A call with a side effect: a side-effecting global, anything on
/// `console` or `axios`, or a mutating method (of any receiver, or
/// called bare).
pub open spec fn side_effect_call(call: Json) -> bool {
    let p = spec_callee_path(call);
    p.len() > 0 && ((p.len() == 1 && is_effect_global(p[0])) || p[0] == "console"@ || p[0] == "axios"@
        || is_mutating(p.last()))
}

/// Function nodes: their bodies are not run when they are declared.
pub open spec fn is_function_node(n: Json) -> bool {
    let t = node_type(n);
    t == "FunctionDeclaration"@ || t == "FunctionExpression"@ || t == "ArrowFunctionExpression"@ || t
        == "TSDeclareFunction"@ || t == "TSEmptyBodyFunctionExpression"@
}

/// `j` holds, outside nested functions, an assignment, an update or a
/// side-effecting call.
pub open spec fn effect(j: Json) -> bool
    decreases j, 0int,
{
    match j {
        Json::Obj(fields) => if is_function_node(j) {
            false
        } else if node_type(j) == "AssignmentExpression"@ || node_type(j) == "UpdateExpression"@ {
            true
        } else if node_type(j) == "CallExpression"@ && side_effect_call(j) {
            true
        } else {
            fields_effect(fields@)
        },
        Json::Arr(items) => items_effect(items@),
        _ => false,
    }
}

pub open spec fn items_effect(items: Seq<Json>) -> bool
    decreases items, 1int,
{
    if items.len() == 0 {
        false
    } else {
        items_effect(items.drop_last()) || effect(items.last())
    }
}

pub open spec fn fields_effect(fields: Seq<(String, Json)>) -> bool
    decreases fields, 1int,
{
    if fields.len() == 0 {
        false
    } else {
        fields_effect(fields.drop_last()) || effect(fields.last().1)
    }
}

/// The function is `async`.
pub open spec fn is_async(f: Json) -> bool {
    get(f, "async"@) == Some(Json::Bool(true))
}

/// An arrow function or function expression.
pub open spec fn is_getter_fn(f: Json) -> bool {
    node_type(f) == "ArrowFunctionExpression"@ || node_type(f) == "FunctionExpression"@
}

/// A getter function is `async` or its body has an effect.
pub open spec fn fn_effect(f: Json) -> bool {
    is_async(f) || match get(f, "body"@) {
        Some(b) => effect(b),
        None => false,
    }
}

/// An options-object member `get` whose function has an effect.
pub open spec fn get_member_effect(p: Json) -> bool {
    prop_key_name(p) == Some("get"@) && match get(p, "value"@) {
        Some(v) => is_getter_fn(v) && fn_effect(v),
        None => false,
    }
}

/// The first argument of `computed(...)` is a getter with an effect.
pub open spec fn getter_effect(a: Json) -> bool {
    if is_getter_fn(a) {
        fn_effect(a)
    } else if node_type(a) == "ObjectExpression"@ {
        exists|k: int| 0 <= k < object_props(a).len() && get_member_effect(#[trigger] object_props(a)[k])
    } else {
        false
    }
}

/// `computed(getter)` with a side-effecting getter.
pub open spec fn hit(n: Json) -> bool {
    node_type(n) == "CallExpression"@ && spec_callee_path(n) == seq!["computed"@] && call_args(n).len() > 0
        && getter_effect(call_args(n)[0])
}

fn mutating_name(s: &String) -> (r: bool)
    ensures
        r == is_mutating(s@),
{
    str_is(s, "push") || str_is(s, "pop") || str_is(s, "shift") || str_is(s, "unshift") || str_is(s, "splice")
        || str_is(s, "sort") || str_is(s, "reverse") || str_is(s, "fill") || str_is(s, "copyWithin")
        || str_is(s, "set") || str_is(s, "add") || str_is(s, "delete") || str_is(s, "clear") || str_is(
        s,
        "write",
    ) || str_is(s, "writeln") || str_is(s, "open") || str_is(s, "close") || str_is(s, "assign") || str_is(
        s,
        "setItem",
    ) || str_is(s, "removeItem") || str_is(s, "setAttribute") || str_is(s, "removeAttribute") || str_is(
        s,
        "setProperty",
    ) || str_is(s, "removeProperty") || str_is(s, "appendChild") || str_is(s, "insertBefore") || str_is(
        s,
        "replaceChild",
    ) || str_is(s, "removeChild")
}

fn effect_global(s: &String) -> (r: bool)
    ensures
        r == is_effect_global(s@),
{
    str_is(s, "fetch") || str_is(s, "alert") || str_is(s, "confirm") || str_is(s, "prompt") || str_is(
        s,
        "setTimeout",
    ) || str_is(s, "setInterval") || str_is(s, "watch") || str_is(s, "watchEffect") || str_is(s, "nextTick")
        || str_is(s, "emit")
}

fn is_side_effect_call(call: &Json) -> (r: bool)
    ensures
        r == side_effect_call(*call),
{
    let path = callee_path(call);
    let n = path.len();
    if n == 0 {
        return false;
    }
    assert(texts(path@)[0] == path@[0]@);
    assert(texts(path@)[n - 1] == path@[n - 1]@);
    if n == 1 && effect_global(&path[0]) {
        return true;
    }
    if str_is(&path[0], "console") || str_is(&path[0], "axios") {
        return true;
    }
    mutating_name(&path[n - 1])
}

fn is_function_type(n: &Json) -> (r: bool)
    ensures
        r == is_function_node(*n),
{
    is_type(n, "FunctionDeclaration") || is_type(n, "FunctionExpression") || is_type(n, "ArrowFunctionExpression")
        || is_type(n, "TSDeclareFunction") || is_type(n, "TSEmptyBodyFunctionExpression")
}

/// Whether `j` holds an effect outside nested functions.
pub fn has_effect(j: &Json) -> (r: bool)
    ensures
        r == effect(*j),
    decreases *j,
{
    match j {
        Json::Obj(fields) => {
            if is_function_type(j) {
                return false;
            }
            if is_type(j, "AssignmentExpression") || is_type(j, "UpdateExpression") {
                return true;
            }
            if is_type(j, "CallExpression") && is_side_effect_call(j) {
                return true;
            }
            let mut found = false;
            let mut i: usize = 0;
            assert(fields@.take(0) =~= Seq::<(String, Json)>::empty());
            while i < fields.len()
                invariant
                    i <= fields.len(),
                    *j == Json::Obj(*fields),
                    found == fields_effect(fields@.take(i as int)),
                decreases fields.len() - i,
            {
                proof {
                    let t = fields@.take(i + 1);
                    assert(t.drop_last() =~= fields@.take(i as int));
                    assert(t.last() == fields@[i as int]);
                    assert(decreases_to!(fields@ => fields@[i as int]));
                    assert(decreases_to!(*j => (*j)->Obj_0));
                    assert(decreases_to!(*fields => fields@));
                    assert(decreases_to!(*j => fields@[i as int].1));
                }
                if !found {
                    found = has_effect(&fields[i].1);
                }
                i = i + 1;
            }
            assert(fields@.take(fields.len() as int) =~= fields@);
            found
        },
        Json::Arr(items) => {
            let mut found = false;
            let mut i: usize = 0;
            assert(items@.take(0) =~= Seq::<Json>::empty());
            while i < items.len()
                invariant
                    i <= items.len(),
                    *j == Json::Arr(*items),
                    found == items_effect(items@.take(i as int)),
                decreases items.len() - i,
            {
                proof {
                    let t = items@.take(i + 1);
                    assert(t.drop_last() =~= items@.take(i as int));
                    assert(t.last() == items@[i as int]);
                    assert(decreases_to!(items@ => items@[i as int]));
                    assert(decreases_to!(*j => (*j)->Arr_0));
                    assert(decreases_to!(*items => items@));
                    assert(decreases_to!(*j => items@[i as int]));
                }
                if !found {
                    found = has_effect(&items[i]);
                }
                i = i + 1;
            }
            assert(items@.take(items.len() as int) =~= items@);
            found
        },
        _ => false,
    }
}

pub fn async_flag(f: &Json) -> (r: bool)
    ensures
        r == is_async(*f),
{
    match get_field(f, "async") {
        Some(Json::Bool(b)) => *b,
        _ => false,
    }
}

pub fn getter_fn(f: &Json) -> (r: bool)
    ensures
        r == is_getter_fn(*f),
{
    is_type(f, "ArrowFunctionExpression") || is_type(f, "FunctionExpression")
}

fn fn_has_effect(f: &Json) -> (r: bool)
    ensures
        r == fn_effect(*f),
{
    if async_flag(f) {
        return true;
    }
    match get_field(f, "body") {
        Some(b) => has_effect(b),
        None => false,
    }
}

fn get_member_has_effect(p: &Json) -> (r: bool)
    ensures
        r == get_member_effect(*p),
{
    match get_prop_key_name(p) {
        Some(k) => {
            if !str_is(k, "get") {
                return false;
            }
        },
        None => {
            return false;
        },
    }
    match get_field(p, "value") {
        Some(v) => getter_fn(v) && fn_has_effect(v),
        None => false,
    }
}

fn getter_has_effect(a: &Json) -> (r: bool)
    ensures
        r == getter_effect(*a),
{
    if getter_fn(a) {
        return fn_has_effect(a);
    }
    if !is_type(a, "ObjectExpression") {
        return false;
    }
    match get_items(a, "properties") {
        Some(props) => {
            let mut i: usize = 0;
            while i < props.len()
                invariant
                    i <= props.len(),
                    object_props(*a) == props@,
                    !is_getter_fn(*a),
                    forall|k: int| 0 <= k < i ==> !get_member_effect(#[trigger] props@[k]),
                decreases props.len() - i,
            {
                if get_member_has_effect(&props[i]) {
                    assert(get_member_effect(object_props(*a)[i as int]));
                    return true;
                }
                i = i + 1;
            }
            false
        },
        None => {
            assert(object_props(*a) =~= Seq::<Json>::empty());
            false
        },
    }
}

pub fn is_hit(n: &Json) -> (r: bool)
    ensures
        r == hit(*n),
{
    if !is_type(n, "CallExpression") {
        return false;
    }
    let path = callee_path(n);
    if !path_is1(&path, "computed") {
        return false;
    }
    match call_arg(n, 0) {
        Some(a) => getter_has_effect(a),
        None => false,
    }
}

impl Rule for NoSideEffectInComputed {
    fn info(&self) -> (r: RuleInfo)
        ensures
            r.id@ == "vue/architecture/no-side-effect-in-computed"@,
            r.name@ == "no-side-effect-in-computed"@,
            r.severity == Severity::Medium,
            r.category == Category::Architecture,
    {
        RuleInfo {
            id: "vue/architecture/no-side-effect-in-computed",
            name: "no-side-effect-in-computed",
            description: "Disallow side effects inside `computed(...)` getters",
            severity: Severity::Medium,
            category: Category::Architecture,
            kind: RuleKind::Syntactic,
            message: "Side effect inside a `computed` getter",
            label: "`computed` with side effects",
            help: "A computed getter must be pure: Vue re-evaluates it lazily and unpredictably, so mutations, writes, `fetch`, `watch`, `console`, and `emit` inside it fire an unknown number of times. Move the side effect to a `watch`/event handler, or use a plain `function`. An `async` getter returns a Promise, which Vue cannot react to.",
        }
    }

    fn check(&self, ctx: &ScanContext) -> (r: Vec<Finding>)
        ensures
            finding_spans(r@) == script_hits(ScriptCheck::SideEffectComputed, *ctx),
    {
        check_script(ScriptCheck::SideEffectComputed, ctx)
    }
}

} // verus!
