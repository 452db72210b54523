//! The taint analysis over the script tree and the template.
//!
//! Sources seed taint where external input enters (storage reads, network
//! responses, route data, props, DOM reads, form data, event payloads);
//! assignment, operators, template literals, member reads, method calls on
//! tainted receivers, reactivity wrappers, destructuring and calls of local
//! functions propagate it; sanitizer calls downgrade it to clean. A call of
//! an unknown function never taints its result. The script is walked twice
//! in document order so that facts set after a function's definition reach
//! its later uses; template bindings are then read with the identifier
//! facts of the script.

use vstd::prelude::*;

use crate::context::ScanContext;
use crate::parser::estree::{
    get, get_field, get_items, get_str, is_type, items_of, lemma_get_smaller, lemma_item_smaller,
    node_type, Json,
};
use crate::parser::script::{
    callee_path, get_ident_name, ident_name, get_prop_key_name, get_string_lit, is_computed, parse_expression,
    path_is1, path_is2, path_last_is, prop_key_name, spec_callee_path, string_lit_value, texts,
};
use crate::parser::template::{Attribute, DirectiveValue, TemplateNode};
use crate::taint::{combine_taint, TaintInfo, TaintResult, TaintStatus};
use crate::text::{nl_count, push_str, str_eq, string_push, to_owned_string};

verus! {

/// The value bound to `k` in an association list (the last binding wins).
pub open spec fn assoc<V>(s: Seq<(String, V)>, k: Seq<char>) -> Option<V>
    decreases s.len(),
{
    if s.len() == 0 {
        None
    } else if s.last().0@ == k {
        Some(s.last().1)
    } else {
        assoc(s.drop_last(), k)
    }
}

fn assoc_find<'b, V>(v: &'b Vec<(String, V)>, k: &str) -> (r: Option<&'b V>)
    ensures
        match r {
            Some(x) => assoc(v@, k@) == Some(*x),
            None => assoc(v@, k@) is None,
        },
{
    let mut i = v.len();
    assert(v@.take(i as int) =~= v@);
    while i > 0
        invariant
            i <= v.len(),
            assoc(v@, k@) == assoc(v@.take(i as int), k@),
        decreases i,
    {
        assert(v@.take(i as int).drop_last() =~= v@.take(i - 1));
        if str_eq(v[i - 1].0.as_str(), k) {
            return Some(&v[i - 1].1);
        }
        i = i - 1;
    }
    None
}

/// The decimal digit `d`.
pub open spec fn digit_char(d: int) -> char {
    if d == 0 {
        '0'
    } else if d == 1 {
        '1'
    } else if d == 2 {
        '2'
    } else if d == 3 {
        '3'
    } else if d == 4 {
        '4'
    } else if d == 5 {
        '5'
    } else if d == 6 {
        '6'
    } else if d == 7 {
        '7'
    } else if d == 8 {
        '8'
    } else {
        '9'
    }
}

/// The decimal text of `n`.
pub open spec fn spec_decimal(n: nat) -> Seq<char>
    decreases n,
{
    if n < 10 {
        seq![digit_char(n as int)]
    } else {
        spec_decimal(n / 10).push(digit_char((n % 10) as int))
    }
}

fn digit(d: usize) -> (r: char)
    requires
        d < 10,
    ensures
        r == digit_char(d as int),
{
    match d {
        0 => '0',
        1 => '1',
        2 => '2',
        3 => '3',
        4 => '4',
        5 => '5',
        6 => '6',
        7 => '7',
        8 => '8',
        _ => '9',
    }
}

/// The decimal text of `n`.
pub fn decimal(n: usize) -> (r: String)
    ensures
        r@ == spec_decimal(n as nat),
    decreases n,
{
    if n < 10 {
        let mut s = String::new();
        string_push(&mut s, digit(n));
        s
    } else {
        let mut s = decimal(n / 10);
        string_push(&mut s, digit(n % 10));
        s
    }
}

/// Number of newline bytes among the first `k` bytes.
pub open spec fn newlines(b: Seq<u8>, k: int) -> int
    decreases k,
{
    if k <= 0 || k > b.len() {
        0
    } else {
        newlines(b, k - 1) + if b[k - 1] == 10 {
            1int
        } else {
            0int
        }
    }
}

proof fn lemma_newlines_le(b: Seq<u8>, k: int)
    requires
        0 <= k <= b.len(),
    ensures
        0 <= newlines(b, k) <= k,
    decreases k,
{
    if k > 0 {
        lemma_newlines_le(b, k - 1);
    }
}

/// The texts of a list of strings.
pub open spec fn name_texts(v: Seq<String>) -> Seq<Seq<char>> {
    v.map_values(|s: String| s@)
}

/// Names bound by a binding pattern, in order: an identifier, the values
/// of an object pattern's properties, the elements of an array pattern
/// (rest elements excluded), the left side of a default value.
pub open spec fn pattern_names_of(p: Json) -> Seq<Seq<char>>
    decreases p, 2int,
{
    if ident_name(p) is Some {
        seq![ident_name(p)->0]
    } else if node_type(p) == "ObjectPattern"@ {
        match get(p, "properties"@) {
            Some(Json::Arr(v)) => {
                proof {
                    lemma_get_smaller(p, "properties"@);
                    assert(decreases_to!(Json::Arr(v) => v));
                    assert(decreases_to!(v => v@));
                }
                property_names(v@)
            },
            _ => seq![],
        }
    } else if node_type(p) == "ArrayPattern"@ {
        match get(p, "elements"@) {
            Some(Json::Arr(v)) => {
                proof {
                    lemma_get_smaller(p, "elements"@);
                    assert(decreases_to!(Json::Arr(v) => v));
                    assert(decreases_to!(v => v@));
                }
                element_names(v@)
            },
            _ => seq![],
        }
    } else if node_type(p) == "AssignmentPattern"@ {
        match get(p, "left"@) {
            Some(l) => {
                proof {
                    lemma_get_smaller(p, "left"@);
                }
                pattern_names_of(l)
            },
            None => seq![],
        }
    } else {
        seq![]
    }
}

/// Names bound by the values of an object pattern's `Property` members.
pub open spec fn property_names(props: Seq<Json>) -> Seq<Seq<char>>
    decreases props, 1int,
{
    if props.len() == 0 {
        seq![]
    } else {
        property_names(props.drop_last()) + if node_type(props.last()) == "Property"@ {
            match get(props.last(), "value"@) {
                Some(v) => {
                    proof {
                        lemma_get_smaller(props.last(), "value"@);
                    }
                    pattern_names_of(v)
                },
                None => seq![],
            }
        } else {
            seq![]
        }
    }
}

/// Names bound by the elements of an array pattern, rest elements
/// excluded.
pub open spec fn element_names(els: Seq<Json>) -> Seq<Seq<char>>
    decreases els, 1int,
{
    if els.len() == 0 {
        seq![]
    } else {
        element_names(els.drop_last()) + if node_type(els.last()) != "RestElement"@ {
            pattern_names_of(els.last())
        } else {
            seq![]
        }
    }
}

/// Names bound by a binding pattern, in order (rest elements excluded).
fn collect_pattern_names(p: &Json, out: &mut Vec<String>)
    ensures
        name_texts(final(out)@) == name_texts(old(out)@) + pattern_names_of(*p),
    decreases *p,
{
    if let Some(n) = get_ident_name(p) {
        out.push(n.clone());
        assert(name_texts(out@) =~= name_texts(old(out)@) + pattern_names_of(*p));
        return;
    }
    if is_type(p, "ObjectPattern") {
        match get_field(p, "properties") {
            Some(Json::Arr(props)) => {
                let mut i: usize = 0;
                assert(props@.take(0) =~= Seq::<Json>::empty());
                assert(name_texts(out@) =~= name_texts(old(out)@) + property_names(props@.take(0)));
                while i < props.len()
                    invariant
                        i <= props.len(),
                        get(*p, "properties"@) == Some(Json::Arr(*props)),
                        name_texts(out@) == name_texts(old(out)@) + property_names(props@.take(i as int)),
                    decreases props.len() - i,
                {
                    proof {
                        lemma_get_smaller(*p, "properties"@);
                        let arr = get(*p, "properties"@)->0;
                        assert(decreases_to!(arr => arr->Arr_0));
                        assert(decreases_to!(*props => props@));
                        assert(decreases_to!(props@ => props@[i as int]));
                        assert(props@.take(i + 1).drop_last() =~= props@.take(i as int));
                        assert(props@.take(i + 1).last() == props@[i as int]);
                    }
                    let ghost before = name_texts(out@);
                    if is_type(&props[i], "Property") {
                        match get_field(&props[i], "value") {
                            Some(v) => {
                                proof {
                                    lemma_get_smaller(props@[i as int], "value"@);
                                }
                                collect_pattern_names(v, out);
                            },
                            None => {},
                        }
                    }
                    assert(name_texts(out@) =~= name_texts(old(out)@) + property_names(props@.take(i + 1)));
                    i = i + 1;
                }
                assert(props@.take(props.len() as int) =~= props@);
            },
            _ => {
                assert(name_texts(out@) =~= name_texts(old(out)@) + pattern_names_of(*p));
            },
        }
    } else if is_type(p, "ArrayPattern") {
        match get_field(p, "elements") {
            Some(Json::Arr(els)) => {
                let mut i: usize = 0;
                assert(els@.take(0) =~= Seq::<Json>::empty());
                assert(name_texts(out@) =~= name_texts(old(out)@) + element_names(els@.take(0)));
                while i < els.len()
                    invariant
                        i <= els.len(),
                        get(*p, "elements"@) == Some(Json::Arr(*els)),
                        name_texts(out@) == name_texts(old(out)@) + element_names(els@.take(i as int)),
                    decreases els.len() - i,
                {
                    proof {
                        lemma_get_smaller(*p, "elements"@);
                        let arr = get(*p, "elements"@)->0;
                        assert(decreases_to!(arr => arr->Arr_0));
                        assert(decreases_to!(*els => els@));
                        assert(decreases_to!(els@ => els@[i as int]));
                        assert(els@.take(i + 1).drop_last() =~= els@.take(i as int));
                        assert(els@.take(i + 1).last() == els@[i as int]);
                    }
                    if !is_type(&els[i], "RestElement") {
                        collect_pattern_names(&els[i], out);
                    }
                    assert(name_texts(out@) =~= name_texts(old(out)@) + element_names(els@.take(i + 1)));
                    i = i + 1;
                }
                assert(els@.take(els.len() as int) =~= els@);
            },
            _ => {
                assert(name_texts(out@) =~= name_texts(old(out)@) + pattern_names_of(*p));
            },
        }
    } else if is_type(p, "AssignmentPattern") {
        match get_field(p, "left") {
            Some(l) => {
                proof {
                    lemma_get_smaller(*p, "left"@);
                }
                collect_pattern_names(l, out);
            },
            None => {
                assert(name_texts(out@) =~= name_texts(old(out)@) + pattern_names_of(*p));
            },
        }
    } else {
        assert(name_texts(out@) =~= name_texts(old(out)@) + pattern_names_of(*p));
    }
}

/// Names bound by a parameter list (rest parameters excluded).
pub open spec fn params_names(params: Seq<Json>) -> Seq<Seq<char>>
    decreases params.len(),
{
    if params.len() == 0 {
        seq![]
    } else {
        params_names(params.drop_last()) + if node_type(params.last()) != "RestElement"@ {
            pattern_names_of(params.last())
        } else {
            seq![]
        }
    }
}

/// Names bound by a function's parameter list (a rest parameter excluded).
fn param_names(f: &Json) -> (r: Vec<String>)
    ensures
        name_texts(r@) == params_names(items_of(get(*f, "params"@))),
{
    let mut out: Vec<String> = Vec::new();
    match get_items(f, "params") {
        Some(params) => {
            let mut i: usize = 0;
            assert(params@.take(0) =~= Seq::<Json>::empty());
            assert(name_texts(out@) =~= Seq::<Seq<char>>::empty());
            while i < params.len()
                invariant
                    i <= params.len(),
                    items_of(get(*f, "params"@)) == params@,
                    name_texts(out@) == params_names(params@.take(i as int)),
                decreases params.len() - i,
            {
                proof {
                    assert(params@.take(i + 1).drop_last() =~= params@.take(i as int));
                    assert(params@.take(i + 1).last() == params@[i as int]);
                }
                if !is_type(&params[i], "RestElement") {
                    collect_pattern_names(&params[i], &mut out);
                }
                assert(name_texts(out@) =~= params_names(params@.take(i + 1)));
                i = i + 1;
            }
            assert(params@.take(params.len() as int) =~= params@);
        },
        None => {
            assert(name_texts(out@) =~= Seq::<Seq<char>>::empty());
        },
    }
    out
}

/// Node kinds whose `expression` member is the whole value: chains,
/// parentheses and TypeScript wrappers.
pub open spec fn is_wrapper_node(e: Json) -> bool {
    let t = node_type(e);
    t == "ChainExpression"@ || t == "ParenthesizedExpression"@ || t == "TSAsExpression"@ || t
        == "TSSatisfiesExpression"@ || t == "TSNonNullExpression"@ || t == "TSTypeAssertion"@ || t
        == "TSInstantiationExpression"@
}

/// The expression, or one of its sub-expressions, mentions the identifier
/// `name`: itself, the object (and a computed key) of a member access
/// (not a private field access), the callee and arguments of a call, the
/// operands of operators, assignments and conditionals, the parts of
/// template literals (tagged ones with their tag), sequences, arrays and
/// object values, the operand of wrappers, unary and update operators,
/// `await`, `yield` and spreads, the arguments of `new` and of `import()`,
/// the right side of `#x in obj`, and the body of an expression-bodied
/// arrow function. The bodies of other functions are not searched.
pub open spec fn references(e: Json, name: Seq<char>) -> bool
    decreases e, 2int,
{
    if ident_name(e) is Some {
        ident_name(e) == Some(name)
    } else if node_type(e) == "MemberExpression"@ {
        if get(e, "computed"@) == Some(Json::Bool(true)) {
            child_refs(e, "object"@, name) || child_refs(e, "property"@, name)
        } else {
            !(get(e, "property"@) matches Some(p) && node_type(p) == "PrivateIdentifier"@) && child_refs(
                e,
                "object"@,
                name,
            )
        }
    } else if node_type(e) == "CallExpression"@ {
        child_refs(e, "callee"@, name) || items_refs(e, "arguments"@, name)
    } else if node_type(e) == "BinaryExpression"@ || node_type(e) == "LogicalExpression"@ {
        child_refs(e, "left"@, name) || child_refs(e, "right"@, name)
    } else if node_type(e) == "ConditionalExpression"@ {
        child_refs(e, "test"@, name) || child_refs(e, "consequent"@, name) || child_refs(e, "alternate"@, name)
    } else if node_type(e) == "TemplateLiteral"@ || node_type(e) == "SequenceExpression"@ {
        items_refs(e, "expressions"@, name)
    } else if node_type(e) == "ArrayExpression"@ {
        items_refs(e, "elements"@, name)
    } else if node_type(e) == "ObjectExpression"@ {
        props_refs_of(e, name)
    } else if is_wrapper_node(e) {
        child_refs(e, "expression"@, name)
    } else if node_type(e) == "UnaryExpression"@ || node_type(e) == "AwaitExpression"@ {
        child_refs(e, "argument"@, name)
    } else if node_type(e) == "NewExpression"@ {
        items_refs(e, "arguments"@, name)
    } else if node_type(e) == "ArrowFunctionExpression"@ {
        get(e, "expression"@) == Some(Json::Bool(true)) && child_refs(e, "body"@, name)
    } else if node_type(e) == "AssignmentExpression"@ {
        child_refs(e, "left"@, name) || child_refs(e, "right"@, name)
    } else if node_type(e) == "UpdateExpression"@ || node_type(e) == "YieldExpression"@ || node_type(e)
        == "SpreadElement"@ {
        child_refs(e, "argument"@, name)
    } else if node_type(e) == "TaggedTemplateExpression"@ {
        child_refs(e, "tag"@, name) || child_refs(e, "quasi"@, name)
    } else if node_type(e) == "ImportExpression"@ {
        child_refs(e, "source"@, name) || child_refs(e, "options"@, name)
    } else if node_type(e) == "PrivateInExpression"@ {
        child_refs(e, "right"@, name)
    } else {
        false
    }
}

/// The member `key` of `e` references `name`.
pub open spec fn child_refs(e: Json, key: Seq<char>, name: Seq<char>) -> bool
    decreases e, 1int,
{
    match get(e, key) {
        Some(c) => {
            proof {
                lemma_get_smaller(e, key);
            }
            references(c, name)
        },
        None => false,
    }
}

/// Some element of the array member `key` of `e` references `name`.
pub open spec fn items_refs(e: Json, key: Seq<char>, name: Seq<char>) -> bool
    decreases e, 1int,
{
    match get(e, key) {
        Some(Json::Arr(v)) => {
            proof {
                lemma_get_smaller(e, key);
                assert(decreases_to!(Json::Arr(v) => v));
                assert(decreases_to!(v => v@));
            }
            seq_refs(v@, name)
        },
        _ => false,
    }
}

/// Some element references `name`.
pub open spec fn seq_refs(items: Seq<Json>, name: Seq<char>) -> bool
    decreases items, 0int,
{
    if items.len() == 0 {
        false
    } else {
        seq_refs(items.drop_last(), name) || references(items.last(), name)
    }
}

/// Some property's value of the object expression `e` references `name`.
pub open spec fn props_refs_of(e: Json, name: Seq<char>) -> bool
    decreases e, 1int,
{
    match get(e, "properties"@) {
        Some(Json::Arr(v)) => {
            proof {
                lemma_get_smaller(e, "properties"@);
                assert(decreases_to!(Json::Arr(v) => v));
                assert(decreases_to!(v => v@));
            }
            props_refs(v@, name)
        },
        _ => false,
    }
}

/// Some `Property` among `props` has a value that references `name`, or
/// some spread among them does.
pub open spec fn props_refs(props: Seq<Json>, name: Seq<char>) -> bool
    decreases props, 0int,
{
    if props.len() == 0 {
        false
    } else {
        props_refs(props.drop_last(), name) || (node_type(props.last()) == "Property"@ && child_refs(
            props.last(),
            "value"@,
            name,
        )) || (node_type(props.last()) == "SpreadElement"@ && references(props.last(), name))
    }
}

proof fn lemma_seq_refs_prefix(items: Seq<Json>, i: int, name: Seq<char>)
    requires
        0 <= i <= items.len(),
        seq_refs(items.take(i), name),
    ensures
        seq_refs(items, name),
    decreases items.len() - i,
{
    if i < items.len() {
        assert(items.take(i + 1).drop_last() =~= items.take(i));
        lemma_seq_refs_prefix(items, i + 1, name);
    } else {
        assert(items.take(i) =~= items);
    }
}

proof fn lemma_props_refs_prefix(items: Seq<Json>, i: int, name: Seq<char>)
    requires
        0 <= i <= items.len(),
        props_refs(items.take(i), name),
    ensures
        props_refs(items, name),
    decreases items.len() - i,
{
    if i < items.len() {
        assert(items.take(i + 1).drop_last() =~= items.take(i));
        lemma_props_refs_prefix(items, i + 1, name);
    } else {
        assert(items.take(i) =~= items);
    }
}

/// Some element of the array member `key` of `e` references `name`
/// (spread elements excluded).
fn any_item_references(e: &Json, key: &str, name: &str) -> (r: bool)
    ensures
        r == items_refs(*e, key@, name@),
    decreases *e, 1int,
{
    match get_field(e, key) {
        Some(Json::Arr(items)) => {
            let mut i: usize = 0;
            assert(items@.take(0) =~= Seq::<Json>::empty());
            while i < items.len()
                invariant
                    i <= items.len(),
                    get(*e, key@) == Some(Json::Arr(*items)),
                    !seq_refs(items@.take(i as int), name@),
                decreases items.len() - i,
            {
                proof {
                    lemma_get_smaller(*e, key@);
                    let arr = get(*e, key@)->0;
                    assert(decreases_to!(arr => arr->Arr_0));
                    assert(decreases_to!(*items => items@));
                    assert(decreases_to!(items@ => items@[i as int]));
                    assert(items@.take(i + 1).drop_last() =~= items@.take(i as int));
                    assert(items@.take(i + 1).last() == items@[i as int]);
                }
                if expression_references(&items[i], name) {
                    proof {
                        lemma_seq_refs_prefix(items@, i + 1, name@);
                    }
                    return true;
                }
                i = i + 1;
            }
            assert(items@.take(items.len() as int) =~= items@);
            false
        },
        _ => false,
    }
}

/// The member `key` of `e` references `name`.
fn child_references(e: &Json, key: &str, name: &str) -> (r: bool)
    ensures
        r == child_refs(*e, key@, name@),
    decreases *e, 1int,
{
    match get_field(e, key) {
        Some(c) => {
            proof {
                lemma_get_smaller(*e, key@);
            }
            expression_references(c, name)
        },
        None => false,
    }
}

/// True when an expression (or one of its sub-expressions) references the
/// identifier `name` (see [`references`]).
fn expression_references(e: &Json, name: &str) -> (r: bool)
    ensures
        r == references(*e, name@),
    decreases *e, 2int,
{
    if let Some(n) = get_ident_name(e) {
        return str_eq(n.as_str(), name);
    }
    if is_type(e, "MemberExpression") {
        if is_computed(e) {
            return child_references(e, "object", name) || child_references(e, "property", name);
        }
        let private = match get_field(e, "property") {
            Some(p) => is_type(p, "PrivateIdentifier"),
            None => false,
        };
        return !private && child_references(e, "object", name);
    }
    if is_type(e, "CallExpression") {
        return child_references(e, "callee", name) || any_item_references(e, "arguments", name);
    }
    if is_type(e, "BinaryExpression") || is_type(e, "LogicalExpression") {
        return child_references(e, "left", name) || child_references(e, "right", name);
    }
    if is_type(e, "ConditionalExpression") {
        return child_references(e, "test", name) || child_references(e, "consequent", name)
            || child_references(e, "alternate", name);
    }
    if is_type(e, "TemplateLiteral") || is_type(e, "SequenceExpression") {
        return any_item_references(e, "expressions", name);
    }
    if is_type(e, "ArrayExpression") {
        return any_item_references(e, "elements", name);
    }
    if is_type(e, "ObjectExpression") {
        return object_references(e, name);
    }
    if is_type(e, "ChainExpression") || is_type(e, "ParenthesizedExpression") || is_type(e, "TSAsExpression")
        || is_type(e, "TSSatisfiesExpression") || is_type(e, "TSNonNullExpression") || is_type(
        e,
        "TSTypeAssertion",
    ) || is_type(e, "TSInstantiationExpression") {
        return child_references(e, "expression", name);
    }
    if is_type(e, "UnaryExpression") || is_type(e, "AwaitExpression") {
        return child_references(e, "argument", name);
    }
    if is_type(e, "NewExpression") {
        return any_item_references(e, "arguments", name);
    }
    if is_type(e, "ArrowFunctionExpression") {
        return match get_field(e, "expression") {
            Some(Json::Bool(true)) => child_references(e, "body", name),
            _ => false,
        };
    }
    if is_type(e, "AssignmentExpression") {
        return child_references(e, "left", name) || child_references(e, "right", name);
    }
    if is_type(e, "UpdateExpression") || is_type(e, "YieldExpression") || is_type(e, "SpreadElement") {
        return child_references(e, "argument", name);
    }
    if is_type(e, "TaggedTemplateExpression") {
        return child_references(e, "tag", name) || child_references(e, "quasi", name);
    }
    if is_type(e, "ImportExpression") {
        return child_references(e, "source", name) || child_references(e, "options", name);
    }
    if is_type(e, "PrivateInExpression") {
        return child_references(e, "right", name);
    }
    false
}

/// Some property's value of the object expression `e` references `name`.
fn object_references(e: &Json, name: &str) -> (r: bool)
    ensures
        r == props_refs_of(*e, name@),
    decreases *e, 1int,
{
    match get_field(e, "properties") {
        Some(Json::Arr(props)) => {
            let mut i: usize = 0;
            assert(props@.take(0) =~= Seq::<Json>::empty());
            while i < props.len()
                invariant
                    i <= props.len(),
                    get(*e, "properties"@) == Some(Json::Arr(*props)),
                    !props_refs(props@.take(i as int), name@),
                decreases props.len() - i,
            {
                proof {
                    lemma_get_smaller(*e, "properties"@);
                    let arr = get(*e, "properties"@)->0;
                    assert(decreases_to!(arr => arr->Arr_0));
                    assert(decreases_to!(*props => props@));
                    assert(decreases_to!(props@ => props@[i as int]));
                    assert(props@.take(i + 1).drop_last() =~= props@.take(i as int));
                    assert(props@.take(i + 1).last() == props@[i as int]);
                }
                if (is_type(&props[i], "Property") && child_references(&props[i], "value", name)) || (is_type(
                    &props[i],
                    "SpreadElement",
                ) && expression_references(&props[i], name)) {
                    proof {
                        lemma_props_refs_prefix(props@, i + 1, name@);
                    }
                    return true;
                }
                i = i + 1;
            }
            assert(props@.take(props.len() as int) =~= props@);
            false
        },
        _ => false,
    }
}

/// The values behind a list of references.
pub open spec fn derefs(v: Seq<&Json>) -> Seq<Json> {
    v.map_values(|r: &Json| *r)
}

/// The returned expressions of a statement: the argument of a `return`
/// (when it is an expression), descending into `if` branches and blocks.
pub open spec fn stmt_returns(st: Json) -> Seq<Json>
    decreases st, 2int,
{
    if node_type(st) == "ReturnStatement"@ {
        match get(st, "argument"@) {
            Some(Json::Obj(f)) => seq![Json::Obj(f)],
            _ => seq![],
        }
    } else if node_type(st) == "IfStatement"@ {
        (match get(st, "consequent"@) {
            Some(c) => {
                proof {
                    lemma_get_smaller(st, "consequent"@);
                }
                stmt_returns(c)
            },
            None => seq![],
        }) + match get(st, "alternate"@) {
            Some(a) => {
                proof {
                    lemma_get_smaller(st, "alternate"@);
                }
                stmt_returns(a)
            },
            None => seq![],
        }
    } else if node_type(st) == "BlockStatement"@ {
        match get(st, "body"@) {
            Some(Json::Arr(v)) => {
                proof {
                    lemma_get_smaller(st, "body"@);
                    assert(decreases_to!(Json::Arr(v) => v));
                    assert(decreases_to!(v => v@));
                }
                stmts_returns(v@)
            },
            _ => seq![],
        }
    } else {
        seq![]
    }
}

/// The returned expressions of a statement list, in order.
pub open spec fn stmts_returns(stmts: Seq<Json>) -> Seq<Json>
    decreases stmts, 1int,
{
    if stmts.len() == 0 {
        seq![]
    } else {
        stmts_returns(stmts.drop_last()) + stmt_returns(stmts.last())
    }
}

/// The argument of every `return` in a statement list, descending into
/// `if` branches and blocks.
fn collect_returns<'a>(stmts: &'a Vec<Json>, out: &mut Vec<&'a Json>)
    ensures
        derefs(final(out)@) == derefs(old(out)@) + stmts_returns(stmts@),
{
    let mut i: usize = 0;
    assert(stmts@.take(0) =~= Seq::<Json>::empty());
    assert(derefs(out@) =~= derefs(old(out)@) + stmts_returns(stmts@.take(0)));
    while i < stmts.len()
        invariant
            i <= stmts.len(),
            derefs(out@) == derefs(old(out)@) + stmts_returns(stmts@.take(i as int)),
        decreases stmts.len() - i,
    {
        proof {
            assert(stmts@.take(i + 1).drop_last() =~= stmts@.take(i as int));
            assert(stmts@.take(i + 1).last() == stmts@[i as int]);
        }
        collect_returns_in_stmt(&stmts[i], out);
        assert(derefs(out@) =~= derefs(old(out)@) + stmts_returns(stmts@.take(i + 1)));
        i = i + 1;
    }
    assert(stmts@.take(stmts.len() as int) =~= stmts@);
}

fn collect_returns_in_stmt<'a>(st: &'a Json, out: &mut Vec<&'a Json>)
    ensures
        derefs(final(out)@) == derefs(old(out)@) + stmt_returns(*st),
    decreases *st,
{
    if is_type(st, "ReturnStatement") {
        match get_field(st, "argument") {
            Some(arg) => {
                if let Json::Obj(_) = arg {
                    out.push(arg);
                }
            },
            None => {},
        }
        assert(derefs(out@) =~= derefs(old(out)@) + stmt_returns(*st));
    } else if is_type(st, "IfStatement") {
        match get_field(st, "consequent") {
            Some(c) => {
                proof {
                    lemma_get_smaller(*st, "consequent"@);
                }
                collect_returns_in_stmt(c, out);
            },
            None => {},
        }
        let ghost mid = derefs(out@);
        match get_field(st, "alternate") {
            Some(a) => {
                proof {
                    lemma_get_smaller(*st, "alternate"@);
                }
                collect_returns_in_stmt(a, out);
            },
            None => {},
        }
        assert(derefs(out@) =~= derefs(old(out)@) + stmt_returns(*st));
    } else if is_type(st, "BlockStatement") {
        match get_field(st, "body") {
            Some(Json::Arr(body)) => {
                let mut i: usize = 0;
                assert(body@.take(0) =~= Seq::<Json>::empty());
                assert(derefs(out@) =~= derefs(old(out)@) + stmts_returns(body@.take(0)));
                while i < body.len()
                    invariant
                        i <= body.len(),
                        get(*st, "body"@) == Some(Json::Arr(*body)),
                        derefs(out@) == derefs(old(out)@) + stmts_returns(body@.take(i as int)),
                    decreases body.len() - i,
                {
                    proof {
                        lemma_get_smaller(*st, "body"@);
                        let arr = get(*st, "body"@)->0;
                        assert(decreases_to!(arr => arr->Arr_0));
                        assert(decreases_to!(*body => body@));
                        assert(decreases_to!(body@ => body@[i as int]));
                        assert(body@.take(i + 1).drop_last() =~= body@.take(i as int));
                        assert(body@.take(i + 1).last() == body@[i as int]);
                    }
                    collect_returns_in_stmt(&body[i], out);
                    assert(derefs(out@) =~= derefs(old(out)@) + stmts_returns(body@.take(i + 1)));
                    i = i + 1;
                }
                assert(body@.take(body.len() as int) =~= body@);
            },
            _ => {
                assert(derefs(out@) =~= derefs(old(out)@) + stmt_returns(*st));
            },
        }
    } else {
        assert(derefs(out@) =~= derefs(old(out)@) + stmt_returns(*st));
    }
}

/// What a local function does with its arguments: its parameters, which
/// of them its returned values reference, and its returned expressions.
#[derive(Debug, Clone)]
pub struct FunctionSummary<'a> {
    pub params: Vec<String>,
    /// `param_deps[i]`: a returned expression references parameter `i`.
    pub param_deps: Vec<bool>,
    /// Every returned expression (arrow bodies included), in order.
    pub returned: Vec<&'a Json>,
}

/// The summary of function `f` with returned expressions `returned`: its
/// parameter names, and for each whether a returned expression references
/// it.
fn summarize<'a>(f: &'a Json, returned: Vec<&'a Json>) -> (r: FunctionSummary<'a>)
    ensures
        name_texts(r.params@) == params_names(items_of(get(*f, "params"@))),
        r.returned@ == returned@,
        r.param_deps@.len() == r.params@.len(),
        forall|i: int|
            0 <= i < r.params@.len() ==> #[trigger] r.param_deps@[i] == exists|k: int|
                0 <= k < returned@.len() && references(*returned@[k], r.params@[i]@),
{
    let params = param_names(f);
    let mut param_deps: Vec<bool> = Vec::new();
    let mut i: usize = 0;
    while i < params.len()
        invariant
            i <= params.len(),
            param_deps@.len() == i,
            forall|m: int|
                0 <= m < i ==> #[trigger] param_deps@[m] == exists|k: int|
                    0 <= k < returned@.len() && references(*returned@[k], params@[m]@),
        decreases params.len() - i,
    {
        let mut dep = false;
        let mut k: usize = 0;
        while k < returned.len()
            invariant
                k <= returned.len(),
                i < params.len(),
                dep == exists|q: int| 0 <= q < k && references(*returned@[q], params@[i as int]@),
            decreases returned.len() - k,
        {
            if expression_references(returned[k], params[i].as_str()) {
                dep = true;
            }
            k = k + 1;
        }
        param_deps.push(dep);
        i = i + 1;
    }
    FunctionSummary { params, param_deps, returned }
}

/// The expressions a function-like node's block body returns.
pub open spec fn block_returns_of(f: Json) -> Seq<Json> {
    match get(f, "body"@) {
        Some(b) => stmts_returns(items_of(get(b, "body"@))),
        None => seq![],
    }
}

/// The returned expressions of a function-like node's block body.
fn body_returns<'a>(f: &'a Json) -> (r: Vec<&'a Json>)
    ensures
        derefs(r@) == block_returns_of(*f),
{
    let mut returned: Vec<&'a Json> = Vec::new();
    assert(derefs(returned@) =~= Seq::<Json>::empty());
    match get_field(f, "body") {
        Some(body) => match get_items(body, "body") {
            Some(stmts) => {
                collect_returns(stmts, &mut returned);
                assert(derefs(returned@) =~= stmts_returns(stmts@));
            },
            None => {
                assert(stmts_returns(items_of(get(*body, "body"@))) =~= Seq::<Json>::empty());
            },
        },
        None => {},
    }
    returned
}

/// The names of collected summaries, in order.
pub open spec fn summary_names<'a>(v: Seq<(String, FunctionSummary<'a>)>) -> Seq<Seq<char>> {
    v.map_values(|p: (String, FunctionSummary<'a>)| p.0@)
}

/// The local function a node defines by itself: a function declaration
/// with a name, or an arrow function bound to a plain identifier.
pub open spec fn own_definition(j: Json) -> Seq<Seq<char>> {
    if node_type(j) == "FunctionDeclaration"@ {
        match get(j, "id"@) {
            Some(id) => match ident_name(id) {
                Some(n) => seq![n],
                None => seq![],
            },
            None => seq![],
        }
    } else if node_type(j) == "VariableDeclarator"@ {
        match (get(j, "id"@), get(j, "init"@)) {
            (Some(id), Some(init)) => match ident_name(id) {
                Some(n) => if node_type(init) == "ArrowFunctionExpression"@ {
                    seq![n]
                } else {
                    seq![]
                },
                None => seq![],
            },
            _ => seq![],
        }
    } else {
        seq![]
    }
}

/// The local functions a subtree defines, in document order.
pub open spec fn defined_names(j: Json) -> Seq<Seq<char>>
    decreases j, 1int,
{
    own_definition(j) + match j {
        Json::Obj(fields) => {
            proof {
                assert(decreases_to!(j => fields));
                assert(decreases_to!(fields => fields@));
            }
            fields_defined(fields@)
        },
        Json::Arr(items) => {
            proof {
                assert(decreases_to!(j => items));
                assert(decreases_to!(items => items@));
            }
            items_defined(items@)
        },
        _ => seq![],
    }
}

pub open spec fn fields_defined(fields: Seq<(String, Json)>) -> Seq<Seq<char>>
    decreases fields, 0int,
{
    if fields.len() == 0 {
        seq![]
    } else {
        proof {
            assert(decreases_to!(fields => fields[fields.len() - 1]));
        }
        fields_defined(fields.drop_last()) + defined_names(fields.last().1)
    }
}

pub open spec fn items_defined(items: Seq<Json>) -> Seq<Seq<char>>
    decreases items, 0int,
{
    if items.len() == 0 {
        seq![]
    } else {
        items_defined(items.drop_last()) + defined_names(items.last())
    }
}

/// Summaries of the local functions: function declarations and arrow
/// functions bound to a plain identifier. A later definition of a name
/// replaces an earlier one.
#[verifier::loop_isolation(false)]
fn collect_summaries<'a>(j: &'a Json, out: &mut Vec<(String, FunctionSummary<'a>)>)
    ensures
        summary_names(final(out)@) == summary_names(old(out)@) + defined_names(*j),
    decreases *j,
{
    proof {
        reveal_strlit("FunctionDeclaration");
        reveal_strlit("VariableDeclarator");
        assert("FunctionDeclaration"@.len() == 19);
        assert("VariableDeclarator"@.len() == 18);
    }
    match j {
        Json::Obj(fields) => {
            if is_type(j, "FunctionDeclaration") {
                if let Some(id) = get_field(j, "id") {
                    if let Some(name) = get_ident_name(id) {
                        let summary = summarize(j, body_returns(j));
                        out.push((name.clone(), summary));
                    }
                }
            } else if is_type(j, "VariableDeclarator") {
                if let (Some(id), Some(init)) = (get_field(j, "id"), get_field(j, "init")) {
                    if let Some(name) = get_ident_name(id) {
                        if is_type(init, "ArrowFunctionExpression") {
                            let returned = match get_field(init, "expression") {
                                Some(Json::Bool(true)) => {
                                    let mut r: Vec<&'a Json> = Vec::new();
                                    if let Some(b) = get_field(init, "body") {
                                        r.push(b);
                                    }
                                    r
                                },
                                _ => body_returns(init),
                            };
                            let summary = summarize(init, returned);
                            out.push((name.clone(), summary));
                        }
                    }
                }
            }
            assert(summary_names(out@) =~= summary_names(old(out)@) + own_definition(*j));
            let ghost own = summary_names(out@);
            let mut i: usize = 0;
            assert(fields@.take(0) =~= Seq::<(String, Json)>::empty());
            assert(summary_names(out@) =~= own + fields_defined(fields@.take(0)));
            while i < fields.len()
                invariant
                    *j == Json::Obj(*fields),
                    i <= fields.len(),
                    summary_names(out@) == own + fields_defined(fields@.take(i as int)),
                decreases fields.len() - i,
            {
                proof {
                    assert(decreases_to!(*j => (*j)->Obj_0));
                    assert(decreases_to!(fields@ => fields@[i as int]));
                    assert(fields@.take(i + 1).drop_last() =~= fields@.take(i as int));
                    assert(fields@.take(i + 1).last() == fields@[i as int]);
                }
                collect_summaries(&fields[i].1, out);
                assert(summary_names(out@) =~= own + fields_defined(fields@.take(i + 1)));
                i = i + 1;
            }
            assert(fields@.take(fields.len() as int) =~= fields@);
        },
        Json::Arr(items) => {
            let mut i: usize = 0;
            assert(items@.take(0) =~= Seq::<Json>::empty());
            assert(summary_names(out@) =~= summary_names(old(out)@) + own_definition(*j) + items_defined(
                items@.take(0),
            ));
            while i < items.len()
                invariant
                    *j == Json::Arr(*items),
                    i <= items.len(),
                    summary_names(out@) == summary_names(old(out)@) + own_definition(*j) + items_defined(
                        items@.take(i as int),
                    ),
                decreases items.len() - i,
            {
                proof {
                    assert(decreases_to!(*j => (*j)->Arr_0));
                    assert(decreases_to!(items@ => items@[i as int]));
                    assert(items@.take(i + 1).drop_last() =~= items@.take(i as int));
                    assert(items@.take(i + 1).last() == items@[i as int]);
                }
                collect_summaries(&items[i], out);
                assert(summary_names(out@) =~= summary_names(old(out)@) + own_definition(*j) + items_defined(
                    items@.take(i + 1),
                ));
                i = i + 1;
            }
            assert(items@.take(items.len() as int) =~= items@);
        },
        _ => {
            assert(summary_names(out@) =~= summary_names(old(out)@) + defined_names(*j));
        },
    }
}


/// A call path that downgrades taint: `DOMPurify.sanitize`, `sanitize`,
/// `escapeHtml`, `htmlEscape`, `escape`, `xss`.
pub open spec fn is_sanitizer_path(p: Seq<Seq<char>>) -> bool {
    p == seq!["DOMPurify"@, "sanitize"@] || p == seq!["sanitize"@] || p == seq!["escapeHtml"@] || p
        == seq!["htmlEscape"@] || p == seq!["escape"@] || p == seq!["xss"@]
}

/// A call path whose result is external input: storage reads, network
/// calls, route access.
pub open spec fn is_source_call_path(p: Seq<Seq<char>>) -> bool {
    p == seq!["localStorage"@, "getItem"@] || p == seq!["sessionStorage"@, "getItem"@] || p
        == seq!["fetch"@] || p == seq!["axios"@, "get"@] || p == seq!["axios"@, "post"@] || p
        == seq!["axios"@, "put"@] || p == seq!["axios"@, "patch"@] || p == seq!["axios"@, "delete"@]
        || p == seq!["axios"@, "request"@] || p == seq!["useFetch"@] || p == seq!["useRoute"@]
}

/// Calls whose result carries a tainted argument: the reactivity wrappers
/// and the known propagators.
pub open spec fn is_wrapping_path(p: Seq<Seq<char>>) -> bool {
    p == seq!["computed"@] || p == seq!["ref"@] || p == seq!["reactive"@] || p == seq!["shallowRef"@] || p
        == seq!["String"@] || p == seq!["JSON"@, "stringify"@]
}

/// A call of a plain name that is no source, no sanitizer, no wrapper or
/// propagator, and no local function of `functions`: an unknown callee.
pub open spec fn unknown_plain_call<V>(call: Json, functions: Seq<(String, V)>) -> bool {
    let p = spec_callee_path(call);
    &&& get(call, "callee"@) matches Some(c) && node_type(c) == "Identifier"@
    &&& !is_sanitizer_path(p)
    &&& !is_source_call_path(p)
    &&& !is_source_object_path(p)
    &&& !is_wrapping_path(p)
    &&& p.len() == 1 ==> assoc(functions, p[0]) is None
}

/// A call path whose result is a source object: props, DOM reads.
pub open spec fn is_source_object_path(p: Seq<Seq<char>>) -> bool {
    p == seq!["defineProps"@] || p == seq!["document"@, "getElementById"@] || p == seq![
        "document"@,
        "getElementsByClassName"@,
    ] || p == seq!["document"@, "getElementsByTagName"@] || p == seq!["document"@, "querySelector"@]
        || p == seq!["document"@, "querySelectorAll"@]
}

fn sanitizer_path(p: &Vec<String>) -> (r: bool)
    ensures
        r == is_sanitizer_path(texts(p@)),
{
    path_is2(p, "DOMPurify", "sanitize") || path_is1(p, "sanitize") || path_is1(p, "escapeHtml") || path_is1(
        p,
        "htmlEscape",
    ) || path_is1(p, "escape") || path_is1(p, "xss")
}

fn source_call_path(p: &Vec<String>) -> (r: bool)
    ensures
        r == is_source_call_path(texts(p@)),
{
    path_is2(p, "localStorage", "getItem") || path_is2(p, "sessionStorage", "getItem") || path_is1(p, "fetch")
        || path_is2(p, "axios", "get") || path_is2(p, "axios", "post") || path_is2(p, "axios", "put")
        || path_is2(p, "axios", "patch") || path_is2(p, "axios", "delete") || path_is2(p, "axios", "request")
        || path_is1(p, "useFetch") || path_is1(p, "useRoute")
}

fn source_object_path(p: &Vec<String>) -> (r: bool)
    ensures
        r == is_source_object_path(texts(p@)),
{
    path_is1(p, "defineProps") || path_is2(p, "document", "getElementById") || path_is2(
        p,
        "document",
        "getElementsByClassName",
    ) || path_is2(p, "document", "getElementsByTagName") || path_is2(p, "document", "querySelector")
        || path_is2(p, "document", "querySelectorAll")
}

/// Methods whose result is a boolean, index or key, never the value: a
/// tainted receiver does not taint their result.
pub open spec fn is_boolean_method(m: Seq<char>) -> bool {
    m == "includes"@ || m == "indexOf"@ || m == "lastIndexOf"@ || m == "startsWith"@ || m == "endsWith"@ || m
        == "some"@ || m == "every"@ || m == "findIndex"@ || m == "findLastIndex"@ || m == "has"@ || m
        == "isArray"@ || m == "keys"@ || m == "values"@ || m == "entries"@
}

fn boolean_method(m: &str) -> (r: bool)
    ensures
        r == is_boolean_method(m@),
{
    str_eq(m, "includes") || str_eq(m, "indexOf") || str_eq(m, "lastIndexOf") || str_eq(m, "startsWith")
        || str_eq(m, "endsWith") || str_eq(m, "some") || str_eq(m, "every") || str_eq(m, "findIndex")
        || str_eq(m, "findLastIndex") || str_eq(m, "has") || str_eq(m, "isArray") || str_eq(m, "keys")
        || str_eq(m, "values") || str_eq(m, "entries")
}

/// The segments joined with `.`.
pub open spec fn dotted(p: Seq<Seq<char>>) -> Seq<char>
    decreases p.len(),
{
    if p.len() == 0 {
        seq![]
    } else if p.len() == 1 {
        p[0]
    } else {
        dotted(p.drop_last()) + seq!['.'] + p.last()
    }
}

/// The segments joined with `.`.
fn join_path(p: &Vec<String>) -> (r: String)
    ensures
        r@ == dotted(texts(p@)),
{
    let mut out = String::new();
    let mut i: usize = 0;
    while i < p.len()
        invariant
            i <= p.len(),
            out@ == dotted(texts(p@).take(i as int)),
        decreases p.len() - i,
    {
        let ghost t = texts(p@).take(i + 1);
        proof {
            assert(t.drop_last() =~= texts(p@).take(i as int));
            assert(t.last() == p@[i as int]@);
        }
        if i > 0 {
            string_push(&mut out, '.');
        }
        push_str(&mut out, p[i].as_str());
        proof {
            if i == 0 {
                assert(out@ =~= dotted(t));
            } else {
                assert(out@ =~= dotted(t));
            }
        }
        i = i + 1;
    }
    assert(texts(p@).take(p.len() as int) =~= texts(p@));
    out
}

/// Special member chains that are sources by themselves, and the source
/// each stands for.
pub open spec fn chain_source_of(c: Seq<char>) -> Option<Seq<char>> {
    if c == "window.location"@ || (c.len() >= 16 && c.take(16) == "window.location."@) {
        Some("window.location"@)
    } else if c == "location.search"@ || c == "location.hash"@ {
        Some("location.search/hash"@)
    } else if c == "document.cookie"@ {
        Some("document.cookie"@)
    } else if c == "document.referrer"@ {
        Some("document.referrer"@)
    } else {
        None
    }
}

/// Special member chains that are sources by themselves.
fn global_chain_source(chain: &String) -> (r: Option<&'static str>)
    ensures
        match r {
            Some(x) => chain_source_of(chain@) == Some(x@),
            None => chain_source_of(chain@) is None,
        },
{
    let cs = crate::text::chars_of(chain.as_str());
    let prefix = crate::text::chars_of("window.location.");
    proof {
        reveal_strlit("window.location.");
    }
    let starts = crate::text::starts_with_at(&cs, 0, &prefix);
    proof {
        if starts {
            assert(cs@.take(16) =~= "window.location."@);
        } else if cs@.len() >= 16 && cs@.take(16) == "window.location."@ {
            assert(crate::text::spec_starts_with_at(cs@, 0, prefix@)) by {
                assert forall|k: int| 0 <= k < prefix@.len() implies cs@[0 + k] == prefix@[k] by {
                    assert(cs@.take(16)[k] == cs@[k]);
                }
            }
        }
    }
    if str_eq(chain.as_str(), "window.location") || starts {
        Some("window.location")
    } else if str_eq(chain.as_str(), "location.search") || str_eq(chain.as_str(), "location.hash") {
        Some("location.search/hash")
    } else if str_eq(chain.as_str(), "document.cookie") {
        Some("document.cookie")
    } else if str_eq(chain.as_str(), "document.referrer") {
        Some("document.referrer")
    } else {
        None
    }
}

/// The static name of a key member: a non-computed identifier, or a
/// string literal.
pub open spec fn spec_key_name(n: Json) -> Option<Seq<char>> {
    match get(n, "key"@) {
        Some(k) => if ident_name(k) is Some && !(get(n, "computed"@) == Some(Json::Bool(true))) {
            ident_name(k)
        } else {
            crate::parser::script::string_lit_value(k)
        },
        None => None,
    }
}

fn key_name(n: &Json) -> (r: Option<&String>)
    ensures
        match r {
            Some(s) => spec_key_name(*n) == Some(s@),
            None => spec_key_name(*n) is None,
        },
{
    match get_field(n, "key") {
        Some(k) => {
            if let Some(name) = get_ident_name(k) {
                if !is_computed(n) {
                    return Some(name);
                }
            }
            get_string_lit(k)
        },
        None => None,
    }
}

/// The file offset of a node analysed with base `base`, when it fits.
pub open spec fn abs_pos(base: u32, e: Json) -> Option<u32> {
    match crate::parser::estree::range_of(e) {
        Some((s, _)) => if base + s <= u32::MAX {
            Some((base + s) as u32)
        } else {
            None
        },
        None => None,
    }
}

fn node_pos(base: u32, e: &Json) -> (r: Option<u32>)
    ensures
        r == abs_pos(base, *e),
{
    match crate::parser::estree::get_range(e) {
        Some((s, _)) => {
            if s <= 0xffff_ffffu64 - base as u64 {
                Some((base as u64 + s) as u32)
            } else {
                None
            }
        },
        None => None,
    }
}

/// What reading an identifier gives: `$route`, `event` and `$event` are
/// sources; any other name is tainted exactly when its last binding is.
pub open spec fn identifier_taint(ids: Seq<(String, bool)>, name: Seq<char>, status: TaintStatus) -> bool {
    &&& status != TaintStatus::Unknown
    &&& if name == "$route"@ || name == "event"@ || name == "$event"@ {
        status == TaintStatus::Tainted
    } else {
        status == TaintStatus::Tainted <==> assoc(ids, name) == Some(true)
    }
}

/// `new FormData(...)` and `new URLSearchParams(...)`: constructors of
/// user input.
pub open spec fn is_source_constructor(n: Json) -> bool {
    get(n, "callee"@) matches Some(c) && (ident_name(c) == Some("FormData"@) || ident_name(c) == Some(
        "URLSearchParams"@,
    ))
}

/// The lengths of the node kinds `classify_inner` tells apart.
proof fn lemma_kind_lengths()
    ensures
        "CallExpression"@.len() == 14,
        "Literal"@.len() == 7,
        "ObjectExpression"@.len() == 16,
        "ArrowFunctionExpression"@.len() == 23,
        "FunctionExpression"@.len() == 18,
        "ThisExpression"@.len() == 14,
        "UpdateExpression"@.len() == 16,
        "Identifier"@.len() == 10,
        "TemplateLiteral"@.len() == 15,
        "ChainExpression"@.len() == 15,
        "ParenthesizedExpression"@.len() == 23,
        "TSAsExpression"@.len() == 14,
        "TSSatisfiesExpression"@.len() == 21,
        "TSTypeAssertion"@.len() == 15,
        "TSNonNullExpression"@.len() == 19,
        "TSInstantiationExpression"@.len() == 25,
        "AwaitExpression"@.len() == 15,
        "UnaryExpression"@.len() == 15,
        "BinaryExpression"@.len() == 16,
        "LogicalExpression"@.len() == 17,
        "ConditionalExpression"@.len() == 21,
        "SequenceExpression"@.len() == 18,
        "ArrayExpression"@.len() == 15,
        "AssignmentExpression"@.len() == 20,
        "TaggedTemplateExpression"@.len() == 24,
        "ImportExpression"@.len() == 16,
        "NewExpression"@.len() == 13,
{
    reveal_strlit("CallExpression");
    reveal_strlit("Literal");
    reveal_strlit("ObjectExpression");
    reveal_strlit("ArrowFunctionExpression");
    reveal_strlit("FunctionExpression");
    reveal_strlit("ThisExpression");
    reveal_strlit("UpdateExpression");
    reveal_strlit("Identifier");
    reveal_strlit("TemplateLiteral");
    reveal_strlit("ChainExpression");
    reveal_strlit("ParenthesizedExpression");
    reveal_strlit("TSAsExpression");
    reveal_strlit("TSSatisfiesExpression");
    reveal_strlit("TSTypeAssertion");
    reveal_strlit("TSNonNullExpression");
    reveal_strlit("TSInstantiationExpression");
    reveal_strlit("AwaitExpression");
    reveal_strlit("UnaryExpression");
    reveal_strlit("BinaryExpression");
    reveal_strlit("LogicalExpression");
    reveal_strlit("ConditionalExpression");
    reveal_strlit("SequenceExpression");
    reveal_strlit("ArrayExpression");
    reveal_strlit("AssignmentExpression");
    reveal_strlit("TaggedTemplateExpression");
    reveal_strlit("ImportExpression");
    reveal_strlit("NewExpression");
}

/// Identifier bindings by their names' text.
pub open spec fn id_view(ids: Seq<(String, bool)>) -> Seq<(Seq<char>, bool)> {
    ids.map_values(|p: (String, bool)| (p.0@, p.1))
}

/// Each name bound to one taint state.
pub open spec fn bound(names: Seq<Seq<char>>, tainted: bool) -> Seq<(Seq<char>, bool)> {
    names.map_values(|n: Seq<char>| (n, tainted))
}

/// A type assertion around an assignment target.
pub open spec fn is_assertion_kind(k: Seq<char>) -> bool {
    k == "TSAsExpression"@ || k == "TSSatisfiesExpression"@ || k == "TSNonNullExpression"@ || k
        == "TSTypeAssertion"@
}

/// The identifiers an assignment target writes, in order: an identifier;
/// the targets of an object pattern's property values (a shorthand with a
/// default writes its name, another default nothing); the elements of an
/// array pattern (defaults and rest elements skipped); an identifier under
/// a type assertion. A member write binds no identifier.
pub open spec fn target_names(t: Json) -> Seq<Seq<char>>
    decreases t, 2int,
{
    if ident_name(t) is Some {
        seq![ident_name(t)->0]
    } else if node_type(t) == "MemberExpression"@ {
        seq![]
    } else if node_type(t) == "ObjectPattern"@ {
        match get(t, "properties"@) {
            Some(Json::Arr(v)) => {
                proof {
                    lemma_get_smaller(t, "properties"@);
                    assert(decreases_to!(Json::Arr(v) => v));
                    assert(decreases_to!(v => v@));
                }
                target_property_names(v@)
            },
            _ => seq![],
        }
    } else if node_type(t) == "ArrayPattern"@ {
        match get(t, "elements"@) {
            Some(Json::Arr(v)) => {
                proof {
                    lemma_get_smaller(t, "elements"@);
                    assert(decreases_to!(Json::Arr(v) => v));
                    assert(decreases_to!(v => v@));
                }
                target_element_names(v@)
            },
            _ => seq![],
        }
    } else if is_assertion_kind(node_type(t)) {
        match get(t, "expression"@) {
            Some(e) => match ident_name(e) {
                Some(n) => seq![n],
                None => seq![],
            },
            None => seq![],
        }
    } else {
        seq![]
    }
}

/// `{ a = 1 }`: a shorthand property.
pub open spec fn is_shorthand(p: Json) -> bool {
    get(p, "shorthand"@) matches Some(Json::Bool(b)) && b
}

/// The identifiers written through an object pattern's properties.
pub open spec fn target_property_names(props: Seq<Json>) -> Seq<Seq<char>>
    decreases props, 1int,
{
    if props.len() == 0 {
        seq![]
    } else {
        let p = props.last();
        target_property_names(props.drop_last()) + if node_type(p) == "Property"@ {
            match get(p, "value"@) {
                Some(v) => {
                    proof {
                        lemma_get_smaller(p, "value"@);
                    }
                    if node_type(v) == "AssignmentPattern"@ {
                        if is_shorthand(p) {
                            match get(v, "left"@) {
                                Some(l) => match ident_name(l) {
                                    Some(n) => seq![n],
                                    None => seq![],
                                },
                                None => seq![],
                            }
                        } else {
                            seq![]
                        }
                    } else {
                        target_names(v)
                    }
                },
                None => seq![],
            }
        } else {
            seq![]
        }
    }
}

/// The identifiers written through an array pattern's elements.
pub open spec fn target_element_names(els: Seq<Json>) -> Seq<Seq<char>>
    decreases els, 1int,
{
    if els.len() == 0 {
        seq![]
    } else {
        target_element_names(els.drop_last()) + if node_type(els.last()) != "AssignmentPattern"@
            && node_type(els.last()) != "RestElement"@ {
            target_names(els.last())
        } else {
            seq![]
        }
    }
}

/// `after` keeps every binding of `before` and adds only bindings that
/// mark an identifier tainted.
pub open spec fn gains_taint(before: Seq<(String, bool)>, after: Seq<(String, bool)>) -> bool {
    &&& before.len() <= after.len()
    &&& forall|k: int| 0 <= k < before.len() ==> #[trigger] after[k] == before[k]
    &&& forall|k: int| before.len() <= k < after.len() ==> #[trigger] after[k].1
}

/// An identifier tainted before stays tainted when only taint is added.
pub proof fn lemma_assoc_gains(before: Seq<(String, bool)>, after: Seq<(String, bool)>, name: Seq<char>)
    requires
        gains_taint(before, after),
        assoc(before, name) == Some(true),
    ensures
        assoc(after, name) == Some(true),
    decreases after.len(),
{
    if after.len() == before.len() {
        assert(after =~= before);
    } else if after.last().0@ != name {
        let shorter = after.drop_last();
        assert(gains_taint(before, shorter));
        lemma_assoc_gains(before, shorter, name);
    }
}

/// `member` of an Options API object declares the prop `name`: a key of
/// its `props` object, or a string of its `props` array.
pub open spec fn declares_prop(member: Json, name: Seq<char>) -> bool {
    &&& prop_key_name(member) == Some("props"@)
    &&& get(member, "value"@) matches Some(v) && {
        ||| node_type(v) == "ObjectExpression"@ && exists|k: int|
            0 <= k < items_of(get(v, "properties"@)).len() && prop_key_name(
                #[trigger] items_of(get(v, "properties"@))[k],
            ) == Some(name)
        ||| node_type(v) == "ArrayExpression"@ && exists|k: int|
            0 <= k < items_of(get(v, "elements"@)).len() && string_lit_value(
                #[trigger] items_of(get(v, "elements"@))[k],
            ) == Some(name)
    }
}

/// Every prop declared by the first `upto` members is tainted in `ids`.
pub open spec fn props_tainted(ids: Seq<(String, bool)>, members: Seq<Json>, upto: int) -> bool {
    forall|i: int, n: Seq<char>|
        0 <= i < upto && #[trigger] declares_prop(members[i], n) ==> assoc(ids, n) == Some(true)
}

/// Adding only taint keeps declared props tainted.
proof fn lemma_props_kept(before: Seq<(String, bool)>, after: Seq<(String, bool)>, members: Seq<Json>, upto: int)
    requires
        gains_taint(before, after),
        props_tainted(before, members, upto),
    ensures
        props_tainted(after, members, upto),
{
    assert forall|i: int, n: Seq<char>|
        0 <= i < upto && #[trigger] declares_prop(members[i], n) implies assoc(after, n) == Some(true) by {
        lemma_assoc_gains(before, after, n);
    }
}

/// Tracked member chains by their text, with the source text of each.
pub open spec fn chain_view(chains: Seq<(String, Option<String>)>) -> Seq<(Seq<char>, Option<Seq<char>>)> {
    chains.map_values(
        |p: (String, Option<String>)|
            (
                p.0@,
                match p.1 {
                    Some(t) => Some(t@),
                    None => None,
                },
            ),
    )
}

/// The chain `base.key`.
pub open spec fn chain_text(base: Seq<char>, key: Seq<char>) -> Seq<char> {
    base + seq!['.'] + key
}

/// Reading `base.key` is tainted: the chain itself carries a source, or
/// the base identifier is tainted.
pub open spec fn member_read_tainted(
    ids: Seq<(String, bool)>,
    chains: Seq<(String, Option<String>)>,
    base: Seq<char>,
    key: Seq<char>,
) -> bool {
    (assoc(chains, chain_text(base, key)) matches Some(Some(_))) || assoc(ids, base) == Some(true)
}

/// The chain a member write `ident.prop = ...` writes; none for any other
/// target.
pub open spec fn member_write_chain(m: Json) -> Option<Seq<char>> {
    if node_type(m) == "MemberExpression"@ && get(m, "computed"@) != Some(Json::Bool(true)) {
        match (get(m, "object"@), get(m, "property"@)) {
            (Some(o), Some(p)) => match (ident_name(o), ident_name(p)) {
                (Some(b), Some(k)) => Some(chain_text(b, k)),
                _ => None,
            },
            _ => None,
        }
    } else {
        None
    }
}

/// `after` keeps every record of `before`, in place, and adds more after
/// them.
/// The array member whose items an expression's fact is drawn from: the
/// parts of a template literal, the elements of an array.
pub open spec fn items_key_of(t: Seq<char>) -> Option<Seq<char>> {
    if t == "TemplateLiteral"@ {
        Some("expressions"@)
    } else if t == "ArrayExpression"@ {
        Some("elements"@)
    } else {
        None
    }
}

/// The kinds that neither pass a member through nor combine two.
pub open spec fn is_plain_kind(t: Seq<char>) -> bool {
    t == "CallExpression"@ || t == "Literal"@ || t == "ObjectExpression"@ || t == "ArrowFunctionExpression"@ || t
        == "FunctionExpression"@ || t == "ThisExpression"@ || t == "UpdateExpression"@ || t == "Identifier"@ || t
        == "TemplateLiteral"@ || t == "ChainExpression"@ || t == "SequenceExpression"@ || t == "ArrayExpression"@
        || t == "TaggedTemplateExpression"@ || t == "NewExpression"@ || t == "MemberExpression"@
}

proof fn lemma_kind_keys(t: Seq<char>)
    ensures
        is_plain_kind(t) ==> passthrough_of(t) is None && combined_of(t) is None,
        passthrough_of(t) is Some ==> combined_of(t) is None,
        t == "AwaitExpression"@ || t == "UnaryExpression"@ ==> passthrough_of(t) == Some("argument"@),
        t == "AssignmentExpression"@ ==> passthrough_of(t) == Some("right"@),
        t == "ImportExpression"@ ==> passthrough_of(t) == Some("source"@),
        t == "BinaryExpression"@ || t == "LogicalExpression"@ ==> passthrough_of(t) is None && combined_of(t)
            == Some(("left"@, "right"@)),
        t == "ConditionalExpression"@ ==> passthrough_of(t) is None && combined_of(t) == Some(
            ("consequent"@, "alternate"@),
        ),
        t == "TemplateLiteral"@ ==> items_key_of(t) == Some("expressions"@),
        t == "ArrayExpression"@ ==> items_key_of(t) == Some("elements"@),
        t == "CallExpression"@ || t == "Literal"@ || t == "ObjectExpression"@ || t == "ArrowFunctionExpression"@
            || t == "FunctionExpression"@ || t == "ThisExpression"@ || t == "UpdateExpression"@ || t == "Identifier"@
            || t == "ChainExpression"@ || t == "SequenceExpression"@ || t == "TaggedTemplateExpression"@ || t
            == "NewExpression"@ || t == "MemberExpression"@ || passthrough_of(t) is Some || combined_of(t) is Some
            ==> items_key_of(t) is None,
{
    lemma_kind_lengths();
    reveal_strlit("CallExpression");
    reveal_strlit("ThisExpression");
    reveal_strlit("TSAsExpression");
    reveal_strlit("TemplateLiteral");
    reveal_strlit("ChainExpression");
    reveal_strlit("ArrayExpression");
    reveal_strlit("TSTypeAssertion");
    reveal_strlit("AwaitExpression");
    reveal_strlit("UnaryExpression");
    reveal_strlit("ObjectExpression");
    reveal_strlit("UpdateExpression");
    reveal_strlit("MemberExpression");
    reveal_strlit("ImportExpression");
    reveal_strlit("BinaryExpression");
    reveal_strlit("TSSatisfiesExpression");
    reveal_strlit("ConditionalExpression");
    reveal_strlit("ArrowFunctionExpression");
    reveal_strlit("ParenthesizedExpression");
    reveal_strlit("Literal");
    reveal_strlit("FunctionExpression");
    reveal_strlit("Identifier");
    reveal_strlit("SequenceExpression");
    reveal_strlit("TaggedTemplateExpression");
    reveal_strlit("NewExpression");
    reveal_strlit("TSNonNullExpression");
    reveal_strlit("TSInstantiationExpression");
    reveal_strlit("LogicalExpression");
    reveal_strlit("AssignmentExpression");
    assert("MemberExpression"@.len() == 16);
    assert("CallExpression"@[0] != "TSAsExpression"@[0]);
    assert("ThisExpression"@[1] != "TSAsExpression"@[1]);
    assert("TemplateLiteral"@[1] != "TSTypeAssertion"@[1]);
    assert("TemplateLiteral"@[0] != "AwaitExpression"@[0]);
    assert("TemplateLiteral"@[0] != "UnaryExpression"@[0]);
    assert("ChainExpression"@[0] != "TSTypeAssertion"@[0]);
    assert("ChainExpression"@[0] != "AwaitExpression"@[0]);
    assert("ChainExpression"@[0] != "UnaryExpression"@[0]);
    assert("ArrayExpression"@[0] != "TSTypeAssertion"@[0]);
    assert("ArrayExpression"@[1] != "AwaitExpression"@[1]);
    assert("ArrayExpression"@[0] != "UnaryExpression"@[0]);
    assert("AwaitExpression"@[0] != "TSTypeAssertion"@[0]);
    assert("UnaryExpression"@[0] != "TSTypeAssertion"@[0]);
    assert("UnaryExpression"@[0] != "AwaitExpression"@[0]);
    assert("ObjectExpression"@[0] != "ImportExpression"@[0]);
    assert("ObjectExpression"@[0] != "BinaryExpression"@[0]);
    assert("UpdateExpression"@[0] != "ImportExpression"@[0]);
    assert("UpdateExpression"@[0] != "BinaryExpression"@[0]);
    assert("MemberExpression"@[0] != "ImportExpression"@[0]);
    assert("MemberExpression"@[0] != "BinaryExpression"@[0]);
    assert("BinaryExpression"@[0] != "ImportExpression"@[0]);
    assert("TSSatisfiesExpression"@[0] != "ConditionalExpression"@[0]);
    assert("ArrowFunctionExpression"@[0] != "ParenthesizedExpression"@[0]);
    assert("TemplateLiteral"@[0] != "ArrayExpression"@[0]);
    assert("ChainExpression"@[0] != "ArrayExpression"@[0]);
    assert("ChainExpression"@[0] != "TemplateLiteral"@[0]);
}

/// Where a call is placed: its absolute start, or the base offset when it
/// has none.
pub open spec fn call_at(base: u32, call: Json) -> u32 {
    match abs_pos(base, call) {
        Some(p) => p,
        None => base,
    }
}

/// A call's start within its own text, 0 when it has none.
pub open spec fn call_start(call: Json) -> u32 {
    match crate::parser::estree::range_of(call) {
        Some((s, _)) => if s <= 0xffff_ffffu64 {
            s as u32
        } else {
            0
        },
        None => 0,
    }
}

/// Every item but spread elements has a position.
pub open spec fn items_positioned(items: Seq<Json>, base: u32) -> bool {
    forall|k: int| 0 <= k < items.len() && node_type(#[trigger] items[k]) != "SpreadElement"@ ==> abs_pos(base, items[k]) is Some
}

/// A tainted fact with `r`'s source was recorded after `before` at the
/// position of an item other than a spread element.
pub open spec fn tainted_item_fact(
    before: Seq<(u32, TaintInfo)>,
    after: Seq<(u32, TaintInfo)>,
    items: Seq<Json>,
    base: u32,
    r: TaintInfo,
) -> bool {
    exists|k: int, j: int|
        #![trigger items[k], after[j]]
        0 <= k < items.len() && before.len() <= j < after.len() && node_type(items[k]) != "SpreadElement"@ && abs_pos(
            base,
            items[k],
        ) == Some(after[j].0) && after[j].1.status == TaintStatus::Tainted && after[j].1.source == r.source
}

/// Each of the first `upto` items but spread elements has an untainted
/// fact recorded after `before` at its position.
pub open spec fn untainted_item_facts(
    before: Seq<(u32, TaintInfo)>,
    after: Seq<(u32, TaintInfo)>,
    items: Seq<Json>,
    base: u32,
    upto: int,
) -> bool {
    forall|k: int|
        0 <= k < upto && node_type(#[trigger] items[k]) != "SpreadElement"@ ==> (abs_pos(base, items[k]) matches Some(
            p,
        ) ==> exists|j: int| before.len() <= j < after.len() && #[trigger] after[j].0 == p && after[j].1.status
            != TaintStatus::Tainted)
}

proof fn lemma_tainted_item_fact_grow(
    b0: Seq<(u32, TaintInfo)>,
    b1: Seq<(u32, TaintInfo)>,
    b2: Seq<(u32, TaintInfo)>,
    items: Seq<Json>,
    base: u32,
    r: TaintInfo,
)
    requires
        tainted_item_fact(b0, b1, items, base, r),
        records_grow(b1, b2),
    ensures
        tainted_item_fact(b0, b2, items, base, r),
{
    let (k, j) = choose|k: int, j: int|
        #![trigger items[k], b1[j]]
        0 <= k < items.len() && b0.len() <= j < b1.len() && node_type(items[k]) != "SpreadElement"@ && abs_pos(
            base,
            items[k],
        ) == Some(b1[j].0) && b1[j].1.status == TaintStatus::Tainted && b1[j].1.source == r.source;
    assert(b2[j] == b1[j]);
}

proof fn lemma_untainted_item_facts_grow(
    b0: Seq<(u32, TaintInfo)>,
    b1: Seq<(u32, TaintInfo)>,
    b2: Seq<(u32, TaintInfo)>,
    items: Seq<Json>,
    base: u32,
    upto: int,
)
    requires
        untainted_item_facts(b0, b1, items, base, upto),
        records_grow(b1, b2),
    ensures
        untainted_item_facts(b0, b2, items, base, upto),
{
    assert forall|k: int| 0 <= k < upto && node_type(#[trigger] items[k]) != "SpreadElement"@ implies (abs_pos(base, items[k]) matches Some(p) ==> exists|j: int| b0.len() <= j < b2.len() && #[trigger] b2[j].0 == p && b2[j].1.status != TaintStatus::Tainted) by {
        if let Some(p) = abs_pos(base, items[k]) {
            let j = choose|j: int| b0.len() <= j < b1.len() && #[trigger] b1[j].0 == p && b1[j].1.status != TaintStatus::Tainted;
            assert(b2[j] == b1[j]);
        }
    }
}

/// Two operands classified one after the other: the fact recorded last
/// for the first is still in place when the second's is recorded.
proof fn lemma_combined_witness(
    r0: Seq<(u32, TaintInfo)>,
    r1: Seq<(u32, TaintInfo)>,
    r2: Seq<(u32, TaintInfo)>,
    e: Json,
    ka: Seq<char>,
    kb: Seq<char>,
    base: u32,
    fa: TaintInfo,
    fb: TaintInfo,
)
    requires
        records_grow(r1, r2),
        get(e, ka) matches Some(a) ==> (abs_pos(base, a) matches Some(pa) ==> last_record_is(r0, r1, pa, fa)),
        get(e, kb) matches Some(b) ==> (abs_pos(base, b) matches Some(pb) ==> last_record_is(r1, r2, pb, fb)),
    ensures
        get(e, ka) matches Some(a) ==> (get(e, kb) matches Some(b) ==> (abs_pos(base, a) matches Some(pa) ==> (abs_pos(
            base,
            b,
        ) matches Some(pb) ==> combines_recorded(
            r0,
            r2,
            pa,
            pb,
            TaintInfo { status: crate::taint::spec_combine(fa.status, fb.status), ..fa },
        )))),
{
    if let Some(a) = get(e, ka) {
        if let Some(b) = get(e, kb) {
            if let Some(pa) = abs_pos(base, a) {
                if let Some(pb) = abs_pos(base, b) {
                    let i = r1.len() - 1;
                    assert(r2[i] == r1[i]);
                    assert(r2[i].0 == pa);
                }
            }
        }
    }
}

/// Facts were added after `before`, and the last of them, recorded at
/// `at`, is `info`'s.
pub open spec fn last_record_is(before: Seq<(u32, TaintInfo)>, after: Seq<(u32, TaintInfo)>, at: u32, info: TaintInfo) -> bool {
    &&& before.len() < after.len()
    &&& after.last().0 == at
    &&& after.last().1.status == info.status
    &&& after.last().1.source == info.source
}

/// The member that an expression's fact passes through unchanged: the
/// operand of parentheses, TypeScript wrappers, `await` and unary
/// operators, the value of an assignment, the source of `import()`.
pub open spec fn passthrough_key(e: Json) -> Option<Seq<char>> {
    passthrough_of(node_type(e))
}

/// The member passed through by nodes of kind `t`.
pub open spec fn passthrough_of(t: Seq<char>) -> Option<Seq<char>> {
    if t == "ParenthesizedExpression"@ || t == "TSAsExpression"@ || t == "TSSatisfiesExpression"@ || t
        == "TSTypeAssertion"@ || t == "TSNonNullExpression"@ || t == "TSInstantiationExpression"@ {
        Some("expression"@)
    } else if t == "AwaitExpression"@ || t == "UnaryExpression"@ {
        Some("argument"@)
    } else if t == "AssignmentExpression"@ {
        Some("right"@)
    } else if t == "ImportExpression"@ {
        Some("source"@)
    } else {
        None
    }
}

/// The two members whose facts an expression combines: the operands of a
/// binary or logical operator, the branches of a conditional.
pub open spec fn combined_keys(e: Json) -> Option<(Seq<char>, Seq<char>)> {
    combined_of(node_type(e))
}

/// The members combined by nodes of kind `t`.
pub open spec fn combined_of(t: Seq<char>) -> Option<(Seq<char>, Seq<char>)> {
    if t == "BinaryExpression"@ || t == "LogicalExpression"@ {
        Some(("left"@, "right"@))
    } else if t == "ConditionalExpression"@ {
        Some(("consequent"@, "alternate"@))
    } else {
        None
    }
}

/// `r` combines a fact recorded at `pa` after `before` with the last fact
/// recorded, at `pb`: tainted when either is.
pub open spec fn combines_recorded(before: Seq<(u32, TaintInfo)>, after: Seq<(u32, TaintInfo)>, pa: u32, pb: u32, r: TaintInfo) -> bool {
    exists|i: int|
        before.len() <= i < after.len() - 1 && #[trigger] after[i].0 == pa && after.last().0 == pb && r.status
            == crate::taint::spec_combine(after[i].1.status, after.last().1.status)
}

pub open spec fn records_grow(before: Seq<(u32, TaintInfo)>, after: Seq<(u32, TaintInfo)>) -> bool {
    &&& before.len() <= after.len()
    &&& forall|k: int| 0 <= k < before.len() ==> #[trigger] after[k] == before[k]
}

/// Some fact is recorded at `at`.
pub open spec fn has_record(records: Seq<(u32, TaintInfo)>, at: u32) -> bool {
    exists|j: int| 0 <= j < records.len() && #[trigger] records[j].0 == at
}

/// A fact found at `at` was recorded there.
pub proof fn lemma_lookup_has_record(records: Seq<(u32, TaintInfo)>, at: u32)
    requires
        crate::taint::lookup(records, at) is Some,
    ensures
        has_record(records, at),
    decreases records.len(),
{
    if records.last().0 == at {
        assert(records[records.len() - 1].0 == at);
    } else {
        lemma_lookup_has_record(records.drop_last(), at);
        let j = choose|j: int| 0 <= j < records.drop_last().len() && #[trigger] records.drop_last()[j].0 == at;
        assert(records[j].0 == at);
    }
}

/// A kept record stays kept.
pub proof fn lemma_has_record_grow(before: Seq<(u32, TaintInfo)>, after: Seq<(u32, TaintInfo)>, at: u32)
    requires
        records_grow(before, after),
        has_record(before, at),
    ensures
        has_record(after, at),
{
    let j = choose|j: int| 0 <= j < before.len() && #[trigger] before[j].0 == at;
    assert(after[j].0 == at);
}

/// Each of the first `upto` items but spread elements has a fact recorded
/// at its position.
pub open spec fn items_recorded(records: Seq<(u32, TaintInfo)>, items: Seq<Json>, base: u32, upto: int) -> bool {
    forall|k: int|
        0 <= k < upto && node_type(#[trigger] items[k]) != "SpreadElement"@ ==> (abs_pos(base, items[k]) matches Some(
            p,
        ) ==> has_record(records, p))
}

/// Each of the first `upto` statements that returns an object node has a
/// fact recorded at the returned node's position.
pub open spec fn returns_recorded(records: Seq<(u32, TaintInfo)>, stmts: Seq<Json>, base: u32, upto: int) -> bool {
    forall|k: int|
        0 <= k < upto && node_type(#[trigger] stmts[k]) == "ReturnStatement"@ ==> (get(stmts[k], "argument"@) matches Some(
            a,
        ) ==> (a is Obj ==> (abs_pos(base, a) matches Some(p) ==> has_record(records, p))))
}

proof fn lemma_items_recorded_grow(
    before: Seq<(u32, TaintInfo)>,
    after: Seq<(u32, TaintInfo)>,
    items: Seq<Json>,
    base: u32,
    upto: int,
)
    requires
        records_grow(before, after),
        items_recorded(before, items, base, upto),
    ensures
        items_recorded(after, items, base, upto),
{
    assert forall|k: int|
        0 <= k < upto && node_type(#[trigger] items[k]) != "SpreadElement"@ implies (abs_pos(base, items[k]) matches Some(
            p,
        ) ==> has_record(after, p)) by {
        if let Some(p) = abs_pos(base, items[k]) {
            lemma_has_record_grow(before, after, p);
        }
    }
}

proof fn lemma_returns_recorded_grow(
    before: Seq<(u32, TaintInfo)>,
    after: Seq<(u32, TaintInfo)>,
    stmts: Seq<Json>,
    base: u32,
    upto: int,
)
    requires
        records_grow(before, after),
        returns_recorded(before, stmts, base, upto),
    ensures
        returns_recorded(after, stmts, base, upto),
{
    assert forall|k: int|
        0 <= k < upto && node_type(#[trigger] stmts[k]) == "ReturnStatement"@ implies (get(stmts[k], "argument"@) matches Some(
            a,
        ) ==> (a is Obj ==> (abs_pos(base, a) matches Some(p) ==> has_record(after, p)))) by {
        if let Some(a) = get(stmts[k], "argument"@) {
            if let Some(p) = abs_pos(base, a) {
                lemma_has_record_grow(before, after, p);
            }
        }
    }
}

/// A `return` statement whose argument is a node.
pub open spec fn returns_object(st: Json) -> bool {
    &&& node_type(st) == "ReturnStatement"@
    &&& get(st, "argument"@) matches Some(a) && a is Obj
}

/// The receiver of a method call `recv.name(...)`: the object of a
/// non-computed member callee whose property is a name.
pub open spec fn method_receiver(call: Json) -> Option<Json> {
    match get(call, "callee"@) {
        Some(c) => if node_type(c) == "MemberExpression"@ && get(c, "computed"@) != Some(Json::Bool(true))
            && (get(c, "property"@) matches Some(p) && ident_name(p) is Some) {
            get(c, "object"@)
        } else {
            None
        },
        None => None,
    }
}

/// The callback of a call: its last argument, when it is a function.
pub open spec fn callback_of(call: Json) -> Option<Json> {
    let args = items_of(get(call, "arguments"@));
    if args.len() > 0 && (node_type(args.last()) == "ArrowFunctionExpression"@ || node_type(args.last())
        == "FunctionExpression"@) {
        Some(args.last())
    } else {
        None
    }
}

/// A function node: an arrow function or a function expression.
pub open spec fn is_function_node(e: Json) -> bool {
    node_type(e) == "ArrowFunctionExpression"@ || node_type(e) == "FunctionExpression"@
}

/// Each of the first `upto` arguments that is neither a function nor a
/// spread element has a fact recorded at its position.
pub open spec fn values_recorded(records: Seq<(u32, TaintInfo)>, items: Seq<Json>, base: u32, upto: int) -> bool {
    forall|k: int|
        0 <= k < upto && !is_function_node(#[trigger] items[k]) && node_type(items[k]) != "SpreadElement"@
            ==> (abs_pos(base, items[k]) matches Some(p) ==> has_record(records, p))
}

/// The prop that entry `k` of a `defineProps` argument declares: a key of
/// an object argument, or a string of an array argument.
pub open spec fn arg_declared(a: Json, k: int) -> Option<Seq<char>> {
    if node_type(a) == "ObjectExpression"@ && 0 <= k < items_of(get(a, "properties"@)).len() {
        prop_key_name(items_of(get(a, "properties"@))[k])
    } else if node_type(a) == "ArrayExpression"@ && 0 <= k < items_of(get(a, "elements"@)).len() {
        string_lit_value(items_of(get(a, "elements"@))[k])
    } else {
        None
    }
}

/// The prop that member `k` of a `defineProps` type argument declares: the
/// key of a property signature of a type literal.
pub open spec fn type_declared(t: Json, k: int) -> Option<Seq<char>> {
    if node_type(t) == "TSTypeLiteral"@ && 0 <= k < items_of(get(t, "members"@)).len() && node_type(
        items_of(get(t, "members"@))[k],
    ) == "TSPropertySignature"@ {
        spec_key_name(items_of(get(t, "members"@))[k])
    } else {
        None
    }
}

/// The props the first `upto` entries of `a` declare are tainted.
pub open spec fn arg_props_tainted(ids: Seq<(String, bool)>, a: Json, upto: int) -> bool {
    forall|k: int| k < upto && #[trigger] arg_declared(a, k) is Some ==> assoc(ids, arg_declared(a, k)->0) == Some(true)
}

/// The props the first `upto` members of `t` declare are tainted.
pub open spec fn type_props_tainted(ids: Seq<(String, bool)>, t: Json, upto: int) -> bool {
    forall|k: int| k < upto && #[trigger] type_declared(t, k) is Some ==> assoc(ids, type_declared(t, k)->0) == Some(true)
}

proof fn lemma_arg_props_kept(before: Seq<(String, bool)>, after: Seq<(String, bool)>, a: Json, upto: int)
    requires
        gains_taint(before, after),
        arg_props_tainted(before, a, upto),
    ensures
        arg_props_tainted(after, a, upto),
{
    assert forall|k: int| k < upto && #[trigger] arg_declared(a, k) is Some implies assoc(after, arg_declared(a, k)->0)
        == Some(true) by {
        lemma_assoc_gains(before, after, arg_declared(a, k)->0);
    }
}

proof fn lemma_type_props_kept(before: Seq<(String, bool)>, after: Seq<(String, bool)>, t: Json, upto: int)
    requires
        gains_taint(before, after),
        type_props_tainted(before, t, upto),
    ensures
        type_props_tainted(after, t, upto),
{
    assert forall|k: int| k < upto && #[trigger] type_declared(t, k) is Some implies assoc(after, type_declared(t, k)->0)
        == Some(true) by {
        lemma_assoc_gains(before, after, type_declared(t, k)->0);
    }
}

/// A `defineProps` call's type argument parameters.
pub open spec fn type_params_of(call: Json) -> Seq<Json> {
    match get(call, "typeArguments"@) {
        Some(ta) => items_of(get(ta, "params"@)),
        None => seq![],
    }
}

/// What one node of the script records by itself, with `base` the
/// script's offset: a declaration with a node initialiser records the
/// initialiser and the binding; an assignment its value; an expression
/// statement its expression; a `return` its node value.
pub open spec fn visited_recorded(records: Seq<(u32, TaintInfo)>, j: Json, base: u32) -> bool {
    let at = |e: Json| abs_pos(base, e) matches Some(p) ==> has_record(records, p);
    &&& node_type(j) == "VariableDeclarator"@ ==> match (get(j, "id"@), get(j, "init"@)) {
        (Some(id), Some(init)) => init is Obj ==> at(id) && at(init),
        _ => true,
    }
    &&& node_type(j) == "AssignmentExpression"@ ==> match (get(j, "left"@), get(j, "right"@)) {
        (Some(_), Some(right)) => at(right),
        _ => true,
    }
    &&& node_type(j) == "ExpressionStatement"@ ==> match get(j, "expression"@) {
        Some(e) => at(e),
        None => true,
    }
    &&& node_type(j) == "ReturnStatement"@ ==> match get(j, "argument"@) {
        Some(a) => a is Obj ==> at(a),
        None => true,
    }
}

proof fn lemma_visited_grow(before: Seq<(u32, TaintInfo)>, after: Seq<(u32, TaintInfo)>, j: Json, base: u32)
    requires
        records_grow(before, after),
        visited_recorded(before, j, base),
    ensures
        visited_recorded(after, j, base),
{
    let pos_of = |e: Json| abs_pos(base, e);
    if let Some(e) = get(j, "id"@) {
        if let Some(p) = pos_of(e) {
            if has_record(before, p) {
                lemma_has_record_grow(before, after, p);
            }
        }
    }
    if let Some(e) = get(j, "init"@) {
        if let Some(p) = pos_of(e) {
            if has_record(before, p) {
                lemma_has_record_grow(before, after, p);
            }
        }
    }
    if let Some(e) = get(j, "right"@) {
        if let Some(p) = pos_of(e) {
            if has_record(before, p) {
                lemma_has_record_grow(before, after, p);
            }
        }
    }
    if let Some(e) = get(j, "expression"@) {
        if let Some(p) = pos_of(e) {
            if has_record(before, p) {
                lemma_has_record_grow(before, after, p);
            }
        }
    }
    if let Some(e) = get(j, "argument"@) {
        if let Some(p) = pos_of(e) {
            if has_record(before, p) {
                lemma_has_record_grow(before, after, p);
            }
        }
    }
}

/// The names of identifier bindings, in order.
pub open spec fn id_names(ids: Seq<(String, bool)>) -> Seq<Seq<char>> {
    ids.map_values(|p: (String, bool)| p.0@)
}

/// The identifiers a declaration's binding pattern binds, in order: an
/// identifier; the values of an object pattern's properties and the name of
/// its rest element; the elements of an array pattern (a rest element by
/// its name); the left side of a default value.
pub open spec fn bind_names(p: Json) -> Seq<Seq<char>>
    decreases p, 2int,
{
    if ident_name(p) is Some {
        seq![ident_name(p)->0]
    } else if node_type(p) == "ObjectPattern"@ {
        match get(p, "properties"@) {
            Some(Json::Arr(v)) => {
                proof {
                    lemma_get_smaller(p, "properties"@);
                    assert(decreases_to!(Json::Arr(v) => v));
                    assert(decreases_to!(v => v@));
                }
                bind_property_names(v@)
            },
            _ => seq![],
        }
    } else if node_type(p) == "ArrayPattern"@ {
        match get(p, "elements"@) {
            Some(Json::Arr(v)) => {
                proof {
                    lemma_get_smaller(p, "elements"@);
                    assert(decreases_to!(Json::Arr(v) => v));
                    assert(decreases_to!(v => v@));
                }
                bind_element_names(v@)
            },
            _ => seq![],
        }
    } else if node_type(p) == "AssignmentPattern"@ {
        match get(p, "left"@) {
            Some(l) => {
                proof {
                    lemma_get_smaller(p, "left"@);
                }
                bind_names(l)
            },
            None => seq![],
        }
    } else {
        seq![]
    }
}

/// The name a rest element binds, when its argument is an identifier.
pub open spec fn rest_name(r: Json) -> Seq<Seq<char>> {
    match get(r, "argument"@) {
        Some(a) => match ident_name(a) {
            Some(n) => seq![n],
            None => seq![],
        },
        None => seq![],
    }
}

pub open spec fn bind_property_names(props: Seq<Json>) -> Seq<Seq<char>>
    decreases props, 1int,
{
    if props.len() == 0 {
        seq![]
    } else {
        let p = props.last();
        bind_property_names(props.drop_last()) + if node_type(p) == "Property"@ {
            match get(p, "value"@) {
                Some(v) => {
                    proof {
                        lemma_get_smaller(p, "value"@);
                    }
                    bind_names(v)
                },
                None => seq![],
            }
        } else if node_type(p) == "RestElement"@ {
            rest_name(p)
        } else {
            seq![]
        }
    }
}

pub open spec fn bind_element_names(els: Seq<Json>) -> Seq<Seq<char>>
    decreases els, 1int,
{
    if els.len() == 0 {
        seq![]
    } else {
        bind_element_names(els.drop_last()) + if node_type(els.last()) == "RestElement"@ {
            rest_name(els.last())
        } else {
            bind_names(els.last())
        }
    }
}

/// The segments of a named chain `a.b.c`, outermost object first: an
/// identifier, then non-computed member accesses by name.
pub open spec fn chain_segments(e: Json) -> Option<Seq<Seq<char>>>
    decreases e,
{
    if ident_name(e) is Some {
        Some(seq![ident_name(e)->0])
    } else if node_type(e) == "MemberExpression"@ && get(e, "computed"@) != Some(Json::Bool(true)) {
        match (get(e, "property"@), get(e, "object"@)) {
            (Some(p), Some(o)) => match ident_name(p) {
                Some(k) => {
                    proof {
                        lemma_get_smaller(e, "object"@);
                    }
                    match chain_segments(o) {
                        Some(sg) => Some(sg.push(k)),
                        None => None,
                    }
                },
                None => None,
            },
            _ => None,
        }
    } else {
        None
    }
}

/// The chain a member read `obj.name` names: its object's chain, then the
/// property's name.
pub open spec fn named_path(m: Json) -> Option<Seq<Seq<char>>> {
    match (get(m, "property"@), get(m, "object"@)) {
        (Some(p), Some(o)) => match (ident_name(p), chain_segments(o)) {
            (Some(k), Some(sg)) => Some(sg.push(k)),
            _ => None,
        },
        _ => None,
    }
}

/// A named chain is tainted: it is a global source chain, one of its
/// prefixes is a tracked chain with a source, or its base identifier is
/// tainted.
pub open spec fn chain_tainted(
    ids: Seq<(String, bool)>,
    chains: Seq<(String, Option<String>)>,
    path: Seq<Seq<char>>,
) -> bool {
    ||| chain_source_of(dotted(path)) is Some
    ||| exists|i: int| 1 <= i <= path.len() && #[trigger] assoc(chains, dotted(path.take(i))) matches Some(Some(_))
    ||| assoc(ids, path[0]) == Some(true)
}

/// The analysis state for one file.
pub struct Analyzer<'a> {
    script: Option<&'a str>,
    script_offset: u32,
    /// Identifier -> tainted (the last binding wins).
    ids: Vec<(String, bool)>,
    /// Identifier -> where its taint came from.
    source_of: Vec<(String, String)>,
    /// Member chain `a.b` -> its source; `None` once cleanly overwritten.
    chains: Vec<(String, Option<String>)>,
    /// Identifier -> the sanitizer that last cleaned it, and where.
    sanitized_ids: Vec<(String, (String, u32))>,
    /// Per-expression facts, keyed by absolute start offset.
    spans: TaintResult,
    /// Local function summaries.
    functions: Vec<(String, FunctionSummary<'a>)>,
    /// Local functions being classified, guarding against recursion.
    call_stack: Vec<String>,
}

impl<'a> Analyzer<'a> {
    fn new(ctx: &'a ScanContext) -> (r: Self)
        ensures
            r.spans.records().len() == 0,
    {
        let script: Option<&'a str> = match &ctx.script {
            Some(s) => Some(s.as_str()),
            None => None,
        };
        Analyzer {
            script,
            script_offset: ctx.script_offset as u32,
            ids: Vec::new(),
            source_of: Vec::new(),
            chains: Vec::new(),
            sanitized_ids: Vec::new(),
            spans: TaintResult::new(),
            functions: Vec::new(),
            call_stack: Vec::new(),
        }
    }

    /// The line, counted from 1, of the script position `abs` minus the
    /// script's offset (0 without a script): the line breaks before it
    /// (the position clamped to the script) plus one.
    pub closed spec fn spec_line(&self, abs: u32) -> nat {
        match self.script {
            Some(sc) => {
                let offset = if abs >= self.script_offset {
                    abs - self.script_offset
                } else {
                    0
                };
                let bs = vstd::utf8::encode_utf8(sc@);
                let end = if offset < bs.len() {
                    offset
                } else {
                    bs.len() as int
                };
                if nl_count(bs.take(end)) < usize::MAX {
                    nl_count(bs.take(end)) + 1
                } else {
                    nl_count(bs.take(end))
                }
            },
            None => 0nat,
        }
    }

    fn line_of(&self, abs: u32) -> (r: usize)
        ensures
            r == self.spec_line(abs),
    {
        let offset: usize = if abs >= self.script_offset {
            (abs - self.script_offset) as usize
        } else {
            0
        };
        match self.script {
            Some(script) => {
                let bytes = script.as_bytes();
                let ghost bs = vstd::utf8::encode_utf8(script@);
                let end = if offset < bytes.len() {
                    offset
                } else {
                    bytes.len()
                };
                let mut count: usize = 0;
                let mut i: usize = 0;
                assert(bs.take(0) =~= Seq::<u8>::empty());
                while i < end
                    invariant
                        i <= end <= bytes.len(),
                        bytes@ == bs,
                        count as int == nl_count(bs.take(i as int)),
                        count <= i,
                    decreases end - i,
                {
                    proof {
                        assert(bs.take(i + 1).drop_last() =~= bs.take(i as int));
                    }
                    if bytes[i] == 10u8 {
                        count = count + 1;
                    }
                    i = i + 1;
                }
                if count < usize::MAX {
                    count + 1
                } else {
                    count
                }
            },
            None => 0,
        }
    }

    /// `name (line N)` for a source call at script position `at`.
    fn source_label(&self, path: &Vec<String>, at: u32) -> (r: String)
        ensures
            r@ == dotted(texts(path@)) + " (line "@ + spec_decimal(self.spec_line(at)) + ")"@,
    {
        let mut s = join_path(path);
        push_str(&mut s, " (line ");
        let line = decimal(self.line_of(at));
        push_str(&mut s, line.as_str());
        push_str(&mut s, ")");
        s
    }

    fn id_tainted(&self, name: &str) -> (r: bool)
        ensures
            r == (assoc(self.ids@, name@) == Some(true)),
    {
        match assoc_find(&self.ids, name) {
            Some(t) => *t,
            None => false,
        }
    }

    fn source_or(&self, name: &str) -> (r: String)
        ensures
            r@ == match assoc(self.source_of@, name@) {
                Some(t) => t@,
                None => name@,
            },
    {
        match assoc_find(&self.source_of, name) {
            Some(s) => s.clone(),
            None => to_owned_string(name),
        }
    }

    fn chain_source(&self, chain: &str) -> (r: Option<String>)
        ensures
            match assoc(self.chains@, chain@) {
                Some(Some(t)) => r matches Some(u) && u@ == t@,
                _ => r is None,
            },
    {
        match assoc_find(&self.chains, chain) {
            Some(Some(s)) => Some(s.clone()),
            _ => None,
        }
    }

    fn one(s: &str) -> (r: Vec<String>)
        ensures
            texts(r@) == seq![s@],
    {
        let mut v: Vec<String> = Vec::new();
        v.push(to_owned_string(s));
        v
    }

    /// Bind a taint state to an identifier. An unknown state leaves the
    /// previous one; a sanitized clean value remembers its sanitizer.
    fn set_id(&mut self, name: &str, info: &TaintInfo)
        ensures
            final(self).spans.records() == old(self).spans.records(),
            info.status == TaintStatus::Tainted ==> gains_taint(old(self).ids@, final(self).ids@),
            info.status == TaintStatus::Tainted ==> assoc(final(self).ids@, name@) == Some(true),
            info.status == TaintStatus::Clean ==> assoc(final(self).ids@, name@) == Some(false),
            info.status == TaintStatus::Unknown ==> final(self).ids@ == old(self).ids@,
            info.status != TaintStatus::Unknown ==> id_view(final(self).ids@) == id_view(old(self).ids@).push(
                (name@, info.status == TaintStatus::Tainted),
            ),
            info.status != TaintStatus::Unknown ==> id_names(final(self).ids@) == id_names(old(self).ids@).push(
                name@,
            ),
            final(self).functions@ == old(self).functions@,
    {
        match info.status {
            TaintStatus::Tainted => {
                let source = match &info.source {
                    Some(s) => s.clone(),
                    None => to_owned_string(name),
                };
                self.ids.push((to_owned_string(name), true));
                assert(id_names(self.ids@) =~= id_names(old(self).ids@).push(name@));
                self.source_of.push((to_owned_string(name), source));
            },
            TaintStatus::Clean => {
                self.ids.push((to_owned_string(name), false));
                assert(id_names(self.ids@) =~= id_names(old(self).ids@).push(name@));
                if let Some((san, at)) = &info.sanitized_by {
                    self.sanitized_ids.push((to_owned_string(name), (san.clone(), *at)));
                }
            },
            TaintStatus::Unknown => {},
        }
    }

    /// A prop name from `defineProps` or the Options API is a source.
    fn seed_prop(&mut self, name: &str)
        ensures
            final(self).spans.records() == old(self).spans.records(),
            gains_taint(old(self).ids@, final(self).ids@),
            assoc(final(self).ids@, name@) == Some(true),
            final(self).functions@ == old(self).functions@,
    {
        self.ids.push((to_owned_string(name), true));
        let mut src = to_owned_string("props (");
        push_str(&mut src, name);
        push_str(&mut src, ")");
        self.source_of.push((to_owned_string(name), src));
    }

    fn classify_identifier(&self, name: &str) -> (r: TaintInfo)
        ensures
            name@ == "$route"@ || name@ == "event"@ || name@ == "$event"@ ==> r.status == TaintStatus::Tainted,
            // Otherwise the identifier's last binding decides.
            !(name@ == "$route"@ || name@ == "event"@ || name@ == "$event"@) ==> (r.status
                == TaintStatus::Tainted <==> assoc(self.ids@, name@) == Some(true)),
            r.status != TaintStatus::Unknown,
            identifier_taint(self.ids@, name@, r.status),
    {
        if str_eq(name, "$route") {
            return TaintInfo::tainted(to_owned_string("$route (route params/query)"), Self::one(name));
        }
        if str_eq(name, "event") || str_eq(name, "$event") {
            return TaintInfo::tainted(to_owned_string("event payload"), Self::one(name));
        }
        if self.id_tainted(name) {
            let mut info = TaintInfo::tainted(self.source_or(name), Self::one(name));
            if let Some((san, at)) = assoc_find(&self.sanitized_ids, name) {
                let mut note = to_owned_string("value was sanitized by ");
                push_str(&mut note, san.as_str());
                push_str(&mut note, " (line ");
                let line = decimal(self.line_of(*at));
                push_str(&mut note, line.as_str());
                push_str(&mut note, ") earlier and is tainted again");
                info.sanitizer_note = Some(note);
            }
            info
        } else {
            TaintInfo::clean()
        }
    }

    /// `base.key` read: the chain's own fact, or the base identifier's.
    fn member_taint_from_id_named(&self, base: &str, key: &str) -> (r: TaintInfo)
        ensures
            r.status == if member_read_tainted(self.ids@, self.chains@, base@, key@) {
                TaintStatus::Tainted
            } else {
                TaintStatus::Clean
            },
            // A tracked chain names its own source.
            assoc(self.chains@, chain_text(base@, key@)) matches Some(Some(t)) ==> (r.source matches Some(u)
                && u@ == t@),
    {
        let mut chain = to_owned_string(base);
        string_push(&mut chain, '.');
        push_str(&mut chain, key);
        assert(chain@ =~= chain_text(base@, key@));
        if let Some(src) = self.chain_source(chain.as_str()) {
            let mut via: Vec<String> = Vec::new();
            via.push(chain);
            return TaintInfo::tainted(src, via);
        }
        if self.id_tainted(base) {
            let mut via: Vec<String> = Vec::new();
            via.push(chain);
            return TaintInfo::tainted(self.source_or(base), via);
        }
        TaintInfo::clean()
    }

    fn member_taint(&self, object: &Json, key: &str) -> (r: TaintInfo)
        ensures
            r.status == match ident_name(*object) {
                Some(n) => if member_read_tainted(self.ids@, self.chains@, n, key@) {
                    TaintStatus::Tainted
                } else {
                    TaintStatus::Clean
                },
                None => TaintStatus::Clean,
            },
    {
        match get_ident_name(object) {
            Some(n) => self.member_taint_from_id_named(n.as_str(), key),
            None => TaintInfo::clean(),
        }
    }

    /// `base.prop = value`: record the chain, or clear it on a clean
    /// overwrite.
    fn write_chain(&mut self, base: &str, prop: &str, info: &TaintInfo)
        ensures
            final(self).spans.records() == old(self).spans.records(),
            final(self).ids@ == old(self).ids@,
            final(self).functions@ == old(self).functions@,
            // A tainted write records the chain with its source (or
            // `unknown`); a clean write clears it; an unknown one changes
            // nothing.
            info.status == TaintStatus::Tainted ==> chain_view(final(self).chains@) == chain_view(
                old(self).chains@,
            ).push(
                (
                    chain_text(base@, prop@),
                    Some(
                        match info.source {
                            Some(t) => t@,
                            None => "unknown"@,
                        },
                    ),
                ),
            ),
            info.status == TaintStatus::Clean ==> chain_view(final(self).chains@) == chain_view(
                old(self).chains@,
            ).push((chain_text(base@, prop@), None)),
            info.status == TaintStatus::Unknown ==> final(self).chains@ == old(self).chains@,
    {
        let mut chain = to_owned_string(base);
        string_push(&mut chain, '.');
        push_str(&mut chain, prop);
        assert(chain@ =~= chain_text(base@, prop@));
        match info.status {
            TaintStatus::Tainted => {
                let src = match &info.source {
                    Some(s) => s.clone(),
                    None => to_owned_string("unknown"),
                };
                self.chains.push((chain, Some(src)));
                assert(chain_view(self.chains@) =~= chain_view(old(self).chains@).push(
                    (chain_text(base@, prop@), Some(src@)),
                ));
            },
            TaintStatus::Clean => {
                self.chains.push((chain, None));
                assert(chain_view(self.chains@) =~= chain_view(old(self).chains@).push(
                    (chain_text(base@, prop@), None),
                ));
            },
            TaintStatus::Unknown => {},
        }
    }

    /// A member write `ident.prop = ...`.
    fn bind_member_write(&mut self, m: &Json, info: &TaintInfo)
        ensures
            final(self).spans.records() == old(self).spans.records(),
            final(self).ids@ == old(self).ids@,
            final(self).functions@ == old(self).functions@,
            // `ident.prop = ...` writes the chain `ident.prop`; any other
            // target changes no chain.
            match member_write_chain(*m) {
                Some(c) => info.status == TaintStatus::Tainted ==> chain_view(final(self).chains@) == chain_view(
                    old(self).chains@,
                ).push(
                    (
                        c,
                        Some(
                            match info.source {
                                Some(t) => t@,
                                None => "unknown"@,
                            },
                        ),
                    ),
                ),
                None => final(self).chains@ == old(self).chains@,
            },
            match member_write_chain(*m) {
                Some(c) => info.status == TaintStatus::Clean ==> chain_view(final(self).chains@) == chain_view(
                    old(self).chains@,
                ).push((c, None)),
                None => true,
            },
            info.status == TaintStatus::Unknown ==> final(self).chains@ == old(self).chains@,
    {
        if !is_type(m, "MemberExpression") || is_computed(m) {
            return;
        }
        if let (Some(o), Some(p)) = (get_field(m, "object"), get_field(m, "property")) {
            if let (Some(base), Some(prop)) = (get_ident_name(o), get_ident_name(p)) {
                self.write_chain(base.as_str(), prop.as_str(), info);
            }
        }
    }

    /// Bind a target reached through a type assertion.
    fn bind_simple_target(&mut self, e: &Json, info: &TaintInfo)
        ensures
            final(self).spans.records() == old(self).spans.records(),
            info.status != TaintStatus::Unknown ==> id_view(final(self).ids@) == id_view(old(self).ids@) + bound(
                match ident_name(*e) {
                    Some(n) => seq![n],
                    None => seq![],
                },
                info.status == TaintStatus::Tainted,
            ),
            info.status == TaintStatus::Unknown ==> final(self).ids@ == old(self).ids@,
            final(self).functions@ == old(self).functions@,
    {
        if let Some(n) = get_ident_name(e) {
            self.set_id(n.as_str(), info);
        } else {
            self.bind_member_write(e, info);
        }
    }

    /// Write a value's fact into an assignment target: each identifier it
    /// names takes the fact, in order (an unknown fact changes none).
    fn bind_assignment_target(&mut self, t: &Json, info: &TaintInfo)
        ensures
            final(self).spans.records() == old(self).spans.records(),
            info.status != TaintStatus::Unknown ==> id_view(final(self).ids@) == id_view(old(self).ids@) + bound(
                target_names(*t),
                info.status == TaintStatus::Tainted,
            ),
            info.status == TaintStatus::Unknown ==> final(self).ids@ == old(self).ids@,
            final(self).functions@ == old(self).functions@,
        decreases *t,
    {
        let ghost tainted = info.status == TaintStatus::Tainted;
        proof {
            lemma_kind_lengths();
            reveal_strlit("ObjectPattern");
            reveal_strlit("ArrayPattern");
            reveal_strlit("MemberExpression");
            reveal_strlit("TSAsExpression");
            reveal_strlit("TSSatisfiesExpression");
            reveal_strlit("TSNonNullExpression");
            reveal_strlit("TSTypeAssertion");
        }
        if let Some(n) = get_ident_name(t) {
            self.set_id(n.as_str(), info);
            assert(bound(target_names(*t), tainted) =~= seq![(n@, tainted)]);
        } else if is_type(t, "MemberExpression") {
            self.bind_member_write(t, info);
            assert(id_view(self.ids@) =~= id_view(old(self).ids@) + bound(target_names(*t), tainted));
        } else if is_type(t, "ObjectPattern") {
            if let Some(props) = get_items(t, "properties") {
                let mut i: usize = 0;
                assert(props@.take(0) =~= Seq::<Json>::empty());
                assert(id_view(self.ids@) =~= id_view(old(self).ids@) + bound(
                    target_property_names(props@.take(0)),
                    tainted,
                ));
                while i < props.len()
                    invariant
                        self.spans.records() == old(self).spans.records(),
                        i <= props.len(),
                        get(*t, "properties"@) == Some(Json::Arr(*props)),
                        tainted == (info.status == TaintStatus::Tainted),
                        info.status != TaintStatus::Unknown ==> id_view(self.ids@) == id_view(old(self).ids@)
                            + bound(target_property_names(props@.take(i as int)), tainted),
                        info.status == TaintStatus::Unknown ==> self.ids@ == old(self).ids@,
                        self.functions@ == old(self).functions@,
                    decreases props.len() - i,
                {
                    proof {
                        lemma_item_smaller(*t, "properties"@, i as int);
                        assert(props@.take(i + 1).drop_last() =~= props@.take(i as int));
                        assert(props@.take(i + 1).last() == props@[i as int]);
                    }
                    let ghost before = id_view(self.ids@);
                    let p = &props[i];
                    let ghost added: Seq<Seq<char>> = seq![];
                    if is_type(p, "Property") {
                        if let Some(v) = get_field(p, "value") {
                            proof {
                                lemma_get_smaller(*p, "value"@);
                            }
                            let shorthand = match get_field(p, "shorthand") {
                                Some(Json::Bool(b)) => *b,
                                _ => false,
                            };
                            assert(shorthand == is_shorthand(*p));
                            if is_type(v, "AssignmentPattern") {
                                if shorthand {
                                    if let Some(l) = get_field(v, "left") {
                                        if let Some(n) = get_ident_name(l) {
                                            self.set_id(n.as_str(), info);
                                            proof {
                                                added = seq![n@];
                                            }
                                        }
                                    }
                                }
                            } else {
                                self.bind_assignment_target(v, info);
                                proof {
                                    added = target_names(*v);
                                }
                            }
                        }
                    }
                    proof {
                        let step = target_property_names(props@.take(i + 1));
                        assert(step == target_property_names(props@.take(i as int)) + added);
                        if info.status != TaintStatus::Unknown {
                            assert(id_view(self.ids@) =~= before + bound(added, tainted));
                            assert(bound(step, tainted) =~= bound(
                                target_property_names(props@.take(i as int)),
                                tainted,
                            ) + bound(added, tainted));
                        }
                    }
                    i = i + 1;
                }
                assert(props@.take(props.len() as int) =~= props@);
            } else {
                assert(id_view(self.ids@) =~= id_view(old(self).ids@) + bound(target_names(*t), tainted));
            }
        } else if is_type(t, "ArrayPattern") {
            if let Some(els) = get_items(t, "elements") {
                let mut i: usize = 0;
                assert(els@.take(0) =~= Seq::<Json>::empty());
                assert(id_view(self.ids@) =~= id_view(old(self).ids@) + bound(
                    target_element_names(els@.take(0)),
                    tainted,
                ));
                while i < els.len()
                    invariant
                        self.spans.records() == old(self).spans.records(),
                        i <= els.len(),
                        get(*t, "elements"@) == Some(Json::Arr(*els)),
                        tainted == (info.status == TaintStatus::Tainted),
                        info.status != TaintStatus::Unknown ==> id_view(self.ids@) == id_view(old(self).ids@)
                            + bound(target_element_names(els@.take(i as int)), tainted),
                        info.status == TaintStatus::Unknown ==> self.ids@ == old(self).ids@,
                        self.functions@ == old(self).functions@,
                    decreases els.len() - i,
                {
                    proof {
                        lemma_item_smaller(*t, "elements"@, i as int);
                        assert(els@.take(i + 1).drop_last() =~= els@.take(i as int));
                        assert(els@.take(i + 1).last() == els@[i as int]);
                    }
                    let ghost before = id_view(self.ids@);
                    let el = &els[i];
                    let ghost added: Seq<Seq<char>> = seq![];
                    if !is_type(el, "AssignmentPattern") && !is_type(el, "RestElement") {
                        self.bind_assignment_target(el, info);
                        proof {
                            added = target_names(*el);
                        }
                    }
                    proof {
                        let step = target_element_names(els@.take(i + 1));
                        assert(step == target_element_names(els@.take(i as int)) + added);
                        if info.status != TaintStatus::Unknown {
                            assert(id_view(self.ids@) =~= before + bound(added, tainted));
                            assert(bound(step, tainted) =~= bound(
                                target_element_names(els@.take(i as int)),
                                tainted,
                            ) + bound(added, tainted));
                        }
                    }
                    i = i + 1;
                }
                assert(els@.take(els.len() as int) =~= els@);
            } else {
                assert(id_view(self.ids@) =~= id_view(old(self).ids@) + bound(target_names(*t), tainted));
            }
        } else if is_type(t, "TSAsExpression") || is_type(t, "TSSatisfiesExpression") || is_type(
            t,
            "TSNonNullExpression",
        ) || is_type(t, "TSTypeAssertion") {
            if let Some(e) = get_field(t, "expression") {
                self.bind_simple_target(e, info);
            } else {
                assert(id_view(self.ids@) =~= id_view(old(self).ids@) + bound(target_names(*t), tainted));
            }
        } else {
            assert(id_view(self.ids@) =~= id_view(old(self).ids@) + bound(target_names(*t), tainted));
        }
    }

    /// Write the initialiser's facts into a declaration's binding pattern;
    /// a destructured key takes the fact of `init.key`.
    #[verifier::loop_isolation(false)]
    fn bind_pattern(&mut self, pattern: &Json, init: &Json, info: &TaintInfo)
        ensures
            final(self).spans.records() == old(self).spans.records(),
            // With a known fact, every name of the pattern is bound, in
            // order; a plain identifier takes the fact itself.
            info.status != TaintStatus::Unknown ==> id_names(final(self).ids@) == id_names(old(self).ids@)
                + bind_names(*pattern),
            ident_name(*pattern) matches Some(n) ==> (info.status != TaintStatus::Unknown ==> id_view(
                final(self).ids@,
            ) == id_view(old(self).ids@).push((n, info.status == TaintStatus::Tainted))),
        decreases *pattern,
    {
        let ghost known = info.status != TaintStatus::Unknown;
        proof {
            lemma_kind_lengths();
            reveal_strlit("ObjectPattern");
            reveal_strlit("ArrayPattern");
            reveal_strlit("AssignmentPattern");
            reveal_strlit("Property");
            reveal_strlit("RestElement");
        }
        if let Some(n) = get_ident_name(pattern) {
            self.set_id(n.as_str(), info);
            assert(bind_names(*pattern) =~= seq![n@]);
        } else if is_type(pattern, "ObjectPattern") {
            if let Some(props) = get_items(pattern, "properties") {
                let mut i: usize = 0;
                assert(props@.take(0) =~= Seq::<Json>::empty());
                assert(id_names(self.ids@) =~= id_names(old(self).ids@) + bind_property_names(props@.take(0)));
                while i < props.len()
                    invariant
                        self.spans.records() == old(self).spans.records(),
                        i <= props.len(),
                        get(*pattern, "properties"@) == Some(Json::Arr(*props)),
                        known == (info.status != TaintStatus::Unknown),
                        known ==> id_names(self.ids@) == id_names(old(self).ids@) + bind_property_names(
                            props@.take(i as int),
                        ),
                    decreases props.len() - i,
                {
                    proof {
                        lemma_item_smaller(*pattern, "properties"@, i as int);
                        assert(props@.take(i + 1).drop_last() =~= props@.take(i as int));
                        assert(props@.take(i + 1).last() == props@[i as int]);
                    }
                    let ghost before = id_names(self.ids@);
                    let ghost mut added: Seq<Seq<char>> = seq![];
                    let p = &props[i];
                    if is_type(p, "Property") {
                        if let Some(v) = get_field(p, "value") {
                            proof {
                                lemma_get_smaller(*p, "value"@);
                            }
                            match get_prop_key_name(p) {
                                Some(key) => {
                                    let member = self.member_taint(init, key.as_str());
                                    self.bind_pattern(v, init, &member);
                                },
                                None => {
                                    self.bind_pattern(v, init, info);
                                },
                            }
                            proof {
                                added = bind_names(*v);
                            }
                        }
                    } else if is_type(p, "RestElement") {
                        if let Some(a) = get_field(p, "argument") {
                            if let Some(n) = get_ident_name(a) {
                                self.set_id(n.as_str(), info);
                                proof {
                                    added = seq![n@];
                                }
                            }
                        }
                    }
                    proof {
                        let step = bind_property_names(props@.take(i + 1));
                        assert(step == bind_property_names(props@.take(i as int)) + added);
                        if known {
                            assert(id_names(self.ids@) =~= before + added);
                            assert(id_names(self.ids@) =~= id_names(old(self).ids@) + step);
                        }
                    }
                    i = i + 1;
                }
                assert(props@.take(props.len() as int) =~= props@);
            } else {
                assert(id_names(self.ids@) =~= id_names(old(self).ids@) + bind_names(*pattern));
            }
        } else if is_type(pattern, "ArrayPattern") {
            if let Some(els) = get_items(pattern, "elements") {
                let mut i: usize = 0;
                assert(els@.take(0) =~= Seq::<Json>::empty());
                assert(id_names(self.ids@) =~= id_names(old(self).ids@) + bind_element_names(els@.take(0)));
                while i < els.len()
                    invariant
                        self.spans.records() == old(self).spans.records(),
                        i <= els.len(),
                        get(*pattern, "elements"@) == Some(Json::Arr(*els)),
                        known == (info.status != TaintStatus::Unknown),
                        known ==> id_names(self.ids@) == id_names(old(self).ids@) + bind_element_names(
                            els@.take(i as int),
                        ),
                    decreases els.len() - i,
                {
                    proof {
                        lemma_item_smaller(*pattern, "elements"@, i as int);
                        assert(els@.take(i + 1).drop_last() =~= els@.take(i as int));
                        assert(els@.take(i + 1).last() == els@[i as int]);
                    }
                    let ghost before = id_names(self.ids@);
                    let ghost mut added: Seq<Seq<char>> = seq![];
                    let el = &els[i];
                    if is_type(el, "RestElement") {
                        if let Some(a) = get_field(el, "argument") {
                            if let Some(n) = get_ident_name(a) {
                                self.set_id(n.as_str(), info);
                                proof {
                                    added = seq![n@];
                                }
                            }
                        }
                    } else {
                        self.bind_pattern(el, init, info);
                        proof {
                            added = bind_names(*el);
                        }
                    }
                    proof {
                        let step = bind_element_names(els@.take(i + 1));
                        assert(step == bind_element_names(els@.take(i as int)) + added);
                        if known {
                            assert(id_names(self.ids@) =~= before + added);
                            assert(id_names(self.ids@) =~= id_names(old(self).ids@) + step);
                        }
                    }
                    i = i + 1;
                }
                assert(els@.take(els.len() as int) =~= els@);
            } else {
                assert(id_names(self.ids@) =~= id_names(old(self).ids@) + bind_names(*pattern));
            }
        } else if is_type(pattern, "AssignmentPattern") {
            if let Some(l) = get_field(pattern, "left") {
                proof {
                    lemma_get_smaller(*pattern, "left"@);
                }
                self.bind_pattern(l, init, info);
            } else {
                assert(id_names(self.ids@) =~= id_names(old(self).ids@) + bind_names(*pattern));
            }
        } else {
            assert(id_names(self.ids@) =~= id_names(old(self).ids@) + bind_names(*pattern));
        }
    }

    /// Prop names from `defineProps(...)`: object keys, array string
    /// literals, and the TypeScript type-literal form.
    #[verifier::loop_isolation(false)]
    fn props_from_call(&mut self, call: &Json)
        ensures
            records_grow(old(self).spans.records(), final(self).spans.records()),
            gains_taint(old(self).ids@, final(self).ids@),
            final(self).spans.records() == old(self).spans.records(),
            // Every prop the call declares, in any of its three forms, is a
            // source.
            forall|i: int|
                0 <= i < items_of(get(*call, "arguments"@)).len() ==> arg_props_tainted(
                    final(self).ids@,
                    #[trigger] items_of(get(*call, "arguments"@))[i],
                    i64::MAX as int,
                ),
            forall|i: int|
                0 <= i < type_params_of(*call).len() ==> type_props_tainted(
                    final(self).ids@,
                    #[trigger] type_params_of(*call)[i],
                    i64::MAX as int,
                ),
    {
        proof {
            lemma_kind_lengths();
            reveal_strlit("TSTypeLiteral");
            reveal_strlit("TSPropertySignature");
        }
        let ghost argsv = items_of(get(*call, "arguments"@));
        if let Some(args) = get_items(call, "arguments") {
            let mut i: usize = 0;
            while i < args.len()
                invariant
                    gains_taint(old(self).ids@, self.ids@),
                    self.spans.records() == old(self).spans.records(),
                    args@ == argsv,
                    i <= args.len(),
                    forall|q: int| 0 <= q < i ==> arg_props_tainted(self.ids@, #[trigger] argsv[q], i64::MAX as int),
                    "ObjectExpression"@.len() == 16,
                    "ArrayExpression"@.len() == 15,
                decreases args.len() - i,
            {
                let a = &args[i];
                let ghost start = self.ids@;
                if is_type(a, "ObjectExpression") {
                    if let Some(props) = get_items(a, "properties") {
                        let mut k: usize = 0;
                        while k < props.len()
                            invariant
                                gains_taint(start, self.ids@),
                                self.spans.records() == old(self).spans.records(),
                                props@ == items_of(get(*a, "properties"@)),
                                node_type(*a) == "ObjectExpression"@,
                                k <= props.len(),
                                arg_props_tainted(self.ids@, *a, k as int),
                            decreases props.len() - k,
                        {
                            let ghost mid = self.ids@;
                            if let Some(key) = get_prop_key_name(&props[k]) {
                                self.seed_prop(key.as_str());
                            }
                            proof {
                                lemma_arg_props_kept(mid, self.ids@, *a, k as int);
                                assert forall|q: int| q < k + 1 && #[trigger] arg_declared(*a, q) is Some implies assoc(
                                    self.ids@,
                                    arg_declared(*a, q)->0,
                                ) == Some(true) by {
                                    if q < k {
                                        assert(arg_props_tainted(self.ids@, *a, k as int));
                                    }
                                }
                            }
                            k = k + 1;
                        }
                        proof {
                            assert forall|q: int| q < i64::MAX as int && #[trigger] arg_declared(*a, q) is Some implies assoc(
                                self.ids@,
                                arg_declared(*a, q)->0,
                            ) == Some(true) by {
                                assert(q < props.len());
                            }
                        }
                    }
                } else if is_type(a, "ArrayExpression") {
                    if let Some(els) = get_items(a, "elements") {
                        let mut k: usize = 0;
                        while k < els.len()
                            invariant
                                gains_taint(start, self.ids@),
                                self.spans.records() == old(self).spans.records(),
                                els@ == items_of(get(*a, "elements"@)),
                                node_type(*a) == "ArrayExpression"@,
                                "ObjectExpression"@.len() == 16,
                                "ArrayExpression"@.len() == 15,
                                k <= els.len(),
                                arg_props_tainted(self.ids@, *a, k as int),
                            decreases els.len() - k,
                        {
                            let ghost mid = self.ids@;
                            if let Some(v) = get_string_lit(&els[k]) {
                                self.seed_prop(v.as_str());
                            }
                            proof {
                                lemma_arg_props_kept(mid, self.ids@, *a, k as int);
                                assert forall|q: int| q < k + 1 && #[trigger] arg_declared(*a, q) is Some implies assoc(
                                    self.ids@,
                                    arg_declared(*a, q)->0,
                                ) == Some(true) by {
                                    if q < k {
                                        assert(arg_props_tainted(self.ids@, *a, k as int));
                                    }
                                }
                            }
                            k = k + 1;
                        }
                        proof {
                            assert forall|q: int| q < i64::MAX as int && #[trigger] arg_declared(*a, q) is Some implies assoc(
                                self.ids@,
                                arg_declared(*a, q)->0,
                            ) == Some(true) by {
                                assert(q < els.len());
                            }
                        }
                    }
                }
                proof {
                    assert forall|q: int| 0 <= q < i + 1 implies arg_props_tainted(self.ids@, #[trigger] argsv[q], i64::MAX as int) by {
                        if q < i {
                            lemma_arg_props_kept(start, self.ids@, argsv[q], i64::MAX as int);
                        }
                    }
                }
                i = i + 1;
            }
        }
        let ghost after_args = self.ids@;
        let ghost tparams = type_params_of(*call);
        if let Some(ta) = get_field(call, "typeArguments") {
            if let Some(params) = get_items(ta, "params") {
                let mut i: usize = 0;
                while i < params.len()
                    invariant
                        gains_taint(old(self).ids@, self.ids@),
                        gains_taint(after_args, self.ids@),
                        self.spans.records() == old(self).spans.records(),
                        params@ == tparams,
                        i <= params.len(),
                        forall|q: int| 0 <= q < i ==> type_props_tainted(self.ids@, #[trigger] tparams[q], i64::MAX as int),
                        "TSTypeLiteral"@.len() == 13,
                        "TSPropertySignature"@.len() == 19,
                    decreases params.len() - i,
                {
                    let ghost start = self.ids@;
                    if is_type(&params[i], "TSTypeLiteral") {
                        if let Some(members) = get_items(&params[i], "members") {
                            let mut k: usize = 0;
                            while k < members.len()
                                invariant
                                    gains_taint(start, self.ids@),
                                    self.spans.records() == old(self).spans.records(),
                                    members@ == items_of(get(params@[i as int], "members"@)),
                                    node_type(params@[i as int]) == "TSTypeLiteral"@,
                                    "TSTypeLiteral"@.len() == 13,
                                    "TSPropertySignature"@.len() == 19,
                                    k <= members.len(),
                                    type_props_tainted(self.ids@, params@[i as int], k as int),
                                decreases members.len() - k,
                            {
                                let ghost mid = self.ids@;
                                if is_type(&members[k], "TSPropertySignature") {
                                    if let Some(key) = key_name(&members[k]) {
                                        self.seed_prop(key.as_str());
                                    }
                                }
                                proof {
                                    lemma_type_props_kept(mid, self.ids@, params@[i as int], k as int);
                                    assert forall|q: int| q < k + 1 && #[trigger] type_declared(params@[i as int], q) is Some implies assoc(
                                        self.ids@,
                                        type_declared(params@[i as int], q)->0,
                                    ) == Some(true) by {
                                        if q < k {
                                            assert(type_props_tainted(self.ids@, params@[i as int], k as int));
                                        }
                                    }
                                }
                                k = k + 1;
                            }
                            proof {
                                assert forall|q: int| q < i64::MAX as int && #[trigger] type_declared(params@[i as int], q) is Some implies assoc(
                                    self.ids@,
                                    type_declared(params@[i as int], q)->0,
                                ) == Some(true) by {
                                    assert(q < members.len());
                                }
                            }
                        }
                    }
                    proof {
                        assert forall|q: int| 0 <= q < i + 1 implies type_props_tainted(self.ids@, #[trigger] tparams[q], i64::MAX as int) by {
                            if q < i {
                                lemma_type_props_kept(start, self.ids@, tparams[q], i64::MAX as int);
                            }
                        }
                    }
                    i = i + 1;
                }
            }
        }
        proof {
            assert forall|q: int| 0 <= q < argsv.len() implies arg_props_tainted(self.ids@, #[trigger] argsv[q], i64::MAX as int) by {
                lemma_arg_props_kept(after_args, self.ids@, argsv[q], i64::MAX as int);
            }
        }
    }

    /// Classify an expression, record its fact at its absolute start, and
    /// return the fact.
    fn classify(&mut self, e: &Json, base: u32, budget: usize) -> (r: TaintInfo)
        ensures
            abs_pos(base, *e) matches Some(p) ==> has_record(final(self).spans.records(), p),
            records_grow(old(self).spans.records(), final(self).spans.records()),
            gains_taint(old(self).ids@, final(self).ids@),
            abs_pos(base, *e) matches Some(p) ==> (final(self).spans.fact(p) matches Some(f) && f.status
                == r.status && f.source == r.source),
            // The expression's own fact is the last one recorded.
            abs_pos(base, *e) matches Some(p) ==> last_record_is(
                old(self).spans.records(),
                final(self).spans.records(),
                p,
                r,
            ),
            node_type(*e) == "Literal"@ || node_type(*e) == "ObjectExpression"@ || node_type(*e)
                == "ArrowFunctionExpression"@ || node_type(*e) == "FunctionExpression"@ || node_type(*e)
                == "ThisExpression"@ || node_type(*e) == "UpdateExpression"@ ==> r.status == TaintStatus::Clean,
            node_type(*e) == "CallExpression"@ && is_sanitizer_path(spec_callee_path(*e)) ==> (r.status
                == TaintStatus::Clean && r.sanitized_by is Some),
            node_type(*e) == "CallExpression"@ && !is_sanitizer_path(spec_callee_path(*e))
                && is_source_call_path(spec_callee_path(*e)) ==> r.status == TaintStatus::Tainted,
            node_type(*e) == "CallExpression"@ && !is_sanitizer_path(spec_callee_path(*e))
                && is_source_object_path(spec_callee_path(*e)) ==> r.status == TaintStatus::Tainted,
            // A call to an unknown function never taints its result.
            node_type(*e) == "CallExpression"@ && unknown_plain_call(*e, old(self).functions@) ==> r.status
                == TaintStatus::Clean,
            // An identifier reads its binding.
            ident_name(*e) matches Some(n) ==> identifier_taint(old(self).ids@, n, r.status),
            // `new FormData()` and `new URLSearchParams()` are sources.
            node_type(*e) == "NewExpression"@ && is_source_constructor(*e) ==> r.status
                == TaintStatus::Tainted,
        decreases budget, *e, 5int,
    {
        let info = self.classify_inner(e, base, budget);
        if let Some(p) = node_pos(base, e) {
            self.spans.record(p, info.duplicate());
            proof {
                assert(self.spans.records().last() == (p, self.spans.records().last().1));
                lemma_lookup_has_record(self.spans.records(), p);
            }
        }
        info
    }

    /// The first tainted fact among the elements of the array member
    /// `key` (spread elements skipped); clean when there is none.
    #[verifier::loop_isolation(false)]
    fn first_tainted_items(&mut self, e: &Json, key: &str, base: u32, budget: usize) -> (r: TaintInfo)
        ensures
            records_grow(old(self).spans.records(), final(self).spans.records()),
            gains_taint(old(self).ids@, final(self).ids@),
            r.status != TaintStatus::Unknown,
            // Every item but spread elements is classified for its own
            // record; with none, the result is clean and nothing is
            // recorded.
            items_recorded(
                final(self).spans.records(),
                items_of(get(*e, key@)),
                base,
                items_of(get(*e, key@)).len() as int,
            ),
            (forall|k: int|
                0 <= k < items_of(get(*e, key@)).len() ==> node_type(#[trigger] items_of(get(*e, key@))[k])
                    == "SpreadElement"@) ==> r.status == TaintStatus::Clean && final(self).spans.records()
                == old(self).spans.records(),
            // Tainted when an item's own fact is, with that item's source;
            // otherwise every item's own fact is untainted.
            items_positioned(items_of(get(*e, key@)), base) && r.status == TaintStatus::Tainted ==> tainted_item_fact(
                old(self).spans.records(),
                final(self).spans.records(),
                items_of(get(*e, key@)),
                base,
                r,
            ),
            r.status != TaintStatus::Tainted ==> untainted_item_facts(
                old(self).spans.records(),
                final(self).spans.records(),
                items_of(get(*e, key@)),
                base,
                items_of(get(*e, key@)).len() as int,
            ),
        decreases budget, *e, 1int,
    {
        let mut found: Option<TaintInfo> = None;
        if let Some(items) = get_items(e, key) {
            let mut i: usize = 0;
            while i < items.len()
                invariant
                    gains_taint(old(self).ids@, self.ids@),
                    records_grow(old(self).spans.records(), self.spans.records()),
                    found matches Some(f) ==> f.status == TaintStatus::Tainted,
                    items@ == items_of(get(*e, key@)),
                    i <= items.len(),
                    items_recorded(self.spans.records(), items@, base, i as int),
                    (forall|k: int| 0 <= k < i ==> node_type(#[trigger] items@[k]) == "SpreadElement"@)
                        ==> found is None && self.spans.records() == old(self).spans.records(),
                    found matches Some(f) ==> (items_positioned(items@, base) ==> tainted_item_fact(
                        old(self).spans.records(),
                        self.spans.records(),
                        items@,
                        base,
                        f,
                    )),
                    found is None ==> untainted_item_facts(
                        old(self).spans.records(),
                        self.spans.records(),
                        items@,
                        base,
                        i as int,
                    ),
                decreases items.len() - i,
            {
                proof {
                    lemma_item_smaller(*e, key@, i as int);
                }
                let ghost before = self.spans.records();
                let ghost was = found;
                if !is_type(&items[i], "SpreadElement") {
                    let info = self.classify(&items[i], base, budget);
                    proof {
                        if items_positioned(items@, base) {
                            assert(abs_pos(base, items@[i as int]) is Some);
                        }
                        if abs_pos(base, items@[i as int]) is Some {
                            let j = self.spans.records().len() - 1;
                            assert(self.spans.records()[j].0 == abs_pos(base, items@[i as int])->0);
                            if info.status == TaintStatus::Tainted {
                                assert(tainted_item_fact(
                                    old(self).spans.records(),
                                    self.spans.records(),
                                    items@,
                                    base,
                                    info,
                                )) by {
                                    assert(node_type(items@[i as int]) != "SpreadElement"@);
                                    assert(abs_pos(base, items@[i as int]) == Some(self.spans.records()[j].0));
                                }
                            }
                        }
                    }
                    if found.is_none() && info.status == TaintStatus::Tainted {
                        found = Some(info);
                    }
                }
                proof {
                    if let Some(f) = was {
                        if items_positioned(items@, base) {
                            lemma_tainted_item_fact_grow(old(self).spans.records(), before, self.spans.records(), items@, base, f);
                        }
                    }
                    if found is None {
                        lemma_untainted_item_facts_grow(old(self).spans.records(), before, self.spans.records(), items@, base, i as int);
                        assert forall|k: int| 0 <= k < i + 1 && node_type(#[trigger] items@[k]) != "SpreadElement"@ implies (abs_pos(base, items@[k]) matches Some(p) ==> exists|j: int| old(self).spans.records().len() <= j < self.spans.records().len() && #[trigger] self.spans.records()[j].0 == p && self.spans.records()[j].1.status != TaintStatus::Tainted) by {
                            if k == i {
                                if let Some(p) = abs_pos(base, items@[k]) {
                                    let j = self.spans.records().len() - 1;
                                    assert(self.spans.records()[j].0 == p);
                                }
                            }
                        }
                    }
                    lemma_items_recorded_grow(before, self.spans.records(), items@, base, i as int);
                    if (forall|k: int| 0 <= k < i + 1 ==> node_type(#[trigger] items@[k]) == "SpreadElement"@) {
                        assert(node_type(items@[i as int]) == "SpreadElement"@);
                    }
                }
                i = i + 1;
            }
        }
        match found {
            Some(f) => f,
            None => TaintInfo::clean(),
        }
    }

    /// Classify the member `key` of `e`; clean when it is absent.
    fn classify_child(&mut self, e: &Json, key: &str, base: u32, budget: usize) -> (r: TaintInfo)
        ensures
            records_grow(old(self).spans.records(), final(self).spans.records()),
            gains_taint(old(self).ids@, final(self).ids@),
            // An absent member is clean; a present one is classified, and its
            // fact is recorded at its position.
            match get(*e, key@) {
                None => r.status == TaintStatus::Clean && final(self).spans.records() == old(self).spans.records(),
                Some(c) => abs_pos(base, c) matches Some(p) ==> (final(self).spans.fact(p) matches Some(f)
                    && f.status == r.status && f.source == r.source) && last_record_is(
                    old(self).spans.records(),
                    final(self).spans.records(),
                    p,
                    r,
                ),
            },
        decreases budget, *e, 1int,
    {
        match get_field(e, key) {
            Some(c) => {
                proof {
                    lemma_get_smaller(*e, key@);
                }
                self.classify(c, base, budget)
            },
            None => TaintInfo::clean(),
        }
    }

    /// A member object's fact: kept when tainted, clean otherwise.
    fn classify_member_object(&mut self, o: &Json, base: u32, budget: usize) -> (r: TaintInfo)
        ensures
            records_grow(old(self).spans.records(), final(self).spans.records()),
            gains_taint(old(self).ids@, final(self).ids@),
            r.status != TaintStatus::Unknown,
            // The object's own fact is recorded; only its taint carries over.
            abs_pos(base, *o) matches Some(p) ==> (final(self).spans.fact(p) matches Some(f) && (r.status
                == TaintStatus::Tainted <==> f.status == TaintStatus::Tainted) && (f.status == TaintStatus::Tainted
                ==> r.source == f.source)),
        decreases budget, *o, 6int,
    {
        let info = self.classify(o, base, budget);
        if info.status == TaintStatus::Tainted {
            info
        } else {
            TaintInfo::clean()
        }
    }

    /// `obj[index]`: the object's fact, then the index's.
    fn classify_computed_member(&mut self, m: &Json, base: u32, budget: usize) -> (r: TaintInfo)
        ensures
            records_grow(old(self).spans.records(), final(self).spans.records()),
            gains_taint(old(self).ids@, final(self).ids@),
            // The index and the object are both classified; a tainted object
            // taints the read.
            get(*m, "property"@) matches Some(c) ==> (abs_pos(base, c) matches Some(p) ==> has_record(
                final(self).spans.records(),
                p,
            )),
            get(*m, "object"@) matches Some(o) ==> (abs_pos(base, o) matches Some(p) ==> (final(self).spans.fact(
                p,
            ) matches Some(f) && (f.status == TaintStatus::Tainted ==> r.status == TaintStatus::Tainted))),
        decreases budget, *m, 2int,
    {
        let index = self.classify_child(m, "property", base, budget);
        let ghost mid = self.spans.records();
        proof {
            if let Some(c) = get(*m, "property"@) {
                if let Some(p) = abs_pos(base, c) {
                    lemma_lookup_has_record(mid, p);
                }
            }
        }
        let object = match get_field(m, "object") {
            Some(o) => {
                proof {
                    lemma_get_smaller(*m, "object"@);
                }
                self.classify_member_object(o, base, budget)
            },
            None => TaintInfo::clean(),
        };
        proof {
            if let Some(c) = get(*m, "property"@) {
                if let Some(p) = abs_pos(base, c) {
                    lemma_has_record_grow(mid, self.spans.records(), p);
                }
            }
        }
        combine_taint(object, index)
    }

    /// The fact of a named chain `a.b.c`: a global source chain, a tracked
    /// chain or one of its prefixes, or a tainted base identifier.
    fn named_chain(&self, m: &Json) -> (r: Option<TaintInfo>)
        ensures
            r is Some <==> (named_path(*m) matches Some(path) && chain_tainted(self.ids@, self.chains@, path)),
            r matches Some(i) ==> i.status == TaintStatus::Tainted,
    {
        proof {
            reveal_strlit("MemberExpression");
        }
        let mut segments: Vec<String> = Vec::new();
        let prop = match get_field(m, "property") {
            Some(p) => match get_ident_name(p) {
                Some(n) => n,
                None => {
                    return None;
                },
            },
            None => {
                return None;
            },
        };
        segments.push(prop.clone());
        let mut object = match get_field(m, "object") {
            Some(o) => o,
            None => {
                return None;
            },
        };
        assert(texts(segments@).reverse() =~= seq![prop@]);
        loop
            invariant_except_break
                named_path(*m) == match chain_segments(*object) {
                    Some(sg) => Some(sg + texts(segments@).reverse()),
                    None => None,
                },
            invariant
                segments.len() >= 1,
            ensures
                named_path(*m) == Some(texts(segments@).reverse()),
                segments.len() >= 1,
            decreases *object,
        {
            if let Some(n) = get_ident_name(object) {
                let ghost before = texts(segments@);
                segments.push(n.clone());
                assert(texts(segments@).reverse() =~= seq![n@] + before.reverse());
                assert(chain_segments(*object) == Some(seq![n@]));
                break;
            }
            if !is_type(object, "MemberExpression") || is_computed(object) {
                return None;
            }
            match (get_field(object, "property"), get_field(object, "object")) {
                (Some(p), Some(inner)) => match get_ident_name(p) {
                    Some(n) => {
                        let ghost before = texts(segments@);
                        segments.push(n.clone());
                        assert(texts(segments@).reverse() =~= seq![n@] + before.reverse());
                        proof {
                            lemma_get_smaller(*object, "object"@);
                            match chain_segments(*inner) {
                                Some(sg) => {
                                    assert(sg.push(n@) + before.reverse() =~= sg + texts(segments@).reverse());
                                },
                                None => {},
                            }
                        }
                        object = inner;
                    },
                    None => {
                        return None;
                    },
                },
                _ => {
                    return None;
                },
            }
        }
        let ghost path = texts(segments@).reverse();
        let mut ordered: Vec<String> = Vec::new();
        let mut k = segments.len();
        while k > 0
            invariant
                k <= segments.len(),
                path == texts(segments@).reverse(),
                texts(ordered@) == path.take(segments.len() - k),
            decreases k,
        {
            let ghost before = texts(ordered@);
            let next = segments[k - 1].clone();
            ordered.push(next);
            assert(path[segments.len() - k] == texts(segments@)[k - 1]);
            assert(texts(ordered@) =~= before.push(next@));
            assert(path.take(segments.len() - k + 1) =~= path.take(segments.len() - k).push(
                path[segments.len() - k],
            ));
            assert(texts(ordered@) =~= path.take(segments.len() - k + 1));
            k = k - 1;
        }
        assert(texts(ordered@) =~= path);
        let chain = join_path(&ordered);
        if let Some(src) = global_chain_source(&chain) {
            return Some(TaintInfo::tainted(to_owned_string(src), Self::one(chain.as_str())));
        }
        let mut partial = String::new();
        let mut i: usize = 0;
        while i < ordered.len()
            invariant
                i <= ordered.len(),
                texts(ordered@) == path,
                path.len() >= 1,
                chain_source_of(dotted(path)) is None,
                partial@ == dotted(path.take(i as int)),
                forall|q: int| 1 <= q <= i ==> !(#[trigger] assoc(self.chains@, dotted(path.take(q))) matches Some(Some(_))),
                i > 0 ==> assoc(self.ids@, path[0]) != Some(true),
                named_path(*m) == Some(path),
            decreases ordered.len() - i,
        {
            let ghost t = path.take(i + 1);
            proof {
                assert(t.drop_last() =~= path.take(i as int));
                assert(t.last() == ordered@[i as int]@);
            }
            if i > 0 {
                string_push(&mut partial, '.');
            }
            push_str(&mut partial, ordered[i].as_str());
            proof {
                assert(partial@ =~= dotted(t));
            }
            if let Some(src) = self.chain_source(partial.as_str()) {
                assert(assoc(self.chains@, dotted(path.take(i + 1))) matches Some(Some(_)));
                return Some(TaintInfo::tainted(src, Self::one(partial.as_str())));
            }
            assert(ordered@[0]@ == path[0]);
            if i == 0 && self.id_tainted(ordered[0].as_str()) {
                return Some(TaintInfo::tainted(self.source_or(ordered[0].as_str()), Self::one(chain.as_str())));
            }
            i = i + 1;
        }
        assert(path.take(path.len() as int) =~= path);
        None
    }

    /// `a.b.c`: the named chain's fact, else the object's.
    fn classify_member(&mut self, m: &Json, base: u32, budget: usize) -> (r: TaintInfo)
        ensures
            records_grow(old(self).spans.records(), final(self).spans.records()),
            gains_taint(old(self).ids@, final(self).ids@),
            // A tainted named chain decides; otherwise the object's own fact
            // does, and only its taint carries over.
            named_path(*m) matches Some(path) && chain_tainted(old(self).ids@, old(self).chains@, path) ==> r.status
                == TaintStatus::Tainted,
            !(named_path(*m) matches Some(path) && chain_tainted(old(self).ids@, old(self).chains@, path)) ==> match get(*m, "object"@) {
                Some(o) => r.status != TaintStatus::Unknown && (abs_pos(base, o) matches Some(p) ==> (final(self).spans.fact(p) matches Some(f)
                    && (r.status == TaintStatus::Tainted <==> f.status == TaintStatus::Tainted))),
                None => r.status == TaintStatus::Clean,
            },
        decreases budget, *m, 2int,
    {
        if let Some(info) = self.named_chain(m) {
            return info;
        }
        match get_field(m, "object") {
            Some(o) => {
                proof {
                    lemma_get_smaller(*m, "object"@);
                }
                self.classify_member_object(o, base, budget)
            },
            None => TaintInfo::clean(),
        }
    }

    /// Classify every non-spread argument, for their own records.
    fn record_arguments(&mut self, call: &Json, base: u32, budget: usize)
        ensures
            records_grow(old(self).spans.records(), final(self).spans.records()),
            gains_taint(old(self).ids@, final(self).ids@),
            items_recorded(
                final(self).spans.records(),
                items_of(get(*call, "arguments"@)),
                base,
                items_of(get(*call, "arguments"@)).len() as int,
            ),
            (forall|k: int|
                0 <= k < items_of(get(*call, "arguments"@)).len() ==> node_type(
                    #[trigger] items_of(get(*call, "arguments"@))[k],
                ) == "SpreadElement"@) ==> final(self).spans.records() == old(self).spans.records(),
        decreases budget, *call, 2int,
    {
        self.first_tainted_items(call, "arguments", base, budget);
    }

    /// `recv.method(...)` on a tainted receiver: the callback's parameters
    /// take the receiver's fact, and so does the result.
    #[verifier::loop_isolation(false)]
    fn tainted_receiver(&mut self, call: &Json, base: u32, budget: usize) -> (r: Option<TaintInfo>)
        ensures
            records_grow(old(self).spans.records(), final(self).spans.records()),
            gains_taint(old(self).ids@, final(self).ids@),
            r matches Some(info) ==> info.status == TaintStatus::Tainted,
            r is Some ==> (get(*call, "callee"@) matches Some(c) && node_type(c) == "MemberExpression"@),
            // The receiver is classified; the call carries its taint, and so
            // do the callback's parameters.
            match method_receiver(*call) {
                None => r is None && final(self).spans.records() == old(self).spans.records(),
                Some(o) => abs_pos(base, o) matches Some(p) ==> (final(self).spans.fact(p) matches Some(f) && (r
                    is Some <==> f.status == TaintStatus::Tainted) && (r matches Some(i) ==> i.source == f.source)),
            },
            r is Some ==> (callback_of(*call) matches Some(cb) ==> forall|k: int|
                0 <= k < params_names(items_of(get(cb, "params"@))).len() ==> assoc(
                    final(self).ids@,
                    #[trigger] params_names(items_of(get(cb, "params"@)))[k],
                ) == Some(true)),
        decreases budget, *call, 2int,
    {
        let callee = match get_field(call, "callee") {
            Some(c) => c,
            None => {
                return None;
            },
        };
        if !is_type(callee, "MemberExpression") || is_computed(callee) {
            return None;
        }
        match get_field(callee, "property") {
            Some(p) => {
                if get_ident_name(p).is_none() {
                    return None;
                }
            },
            None => {
                return None;
            },
        }
        let object = match get_field(callee, "object") {
            Some(o) => o,
            None => {
                return None;
            },
        };
        proof {
            lemma_get_smaller(*call, "callee"@);
            lemma_get_smaller(*callee, "object"@);
        }
        let recv = self.classify(object, base, budget);
        if recv.status != TaintStatus::Tainted {
            return None;
        }
        if let Some(args) = get_items(call, "arguments") {
            if args.len() > 0 {
                let callback = &args[args.len() - 1];
                if is_type(callback, "ArrowFunctionExpression") || is_type(callback, "FunctionExpression") {
                    let names = param_names(callback);
                    let ghost after = self.spans.records();
                    let mut i: usize = 0;
                    while i < names.len()
                        invariant
                            gains_taint(old(self).ids@, self.ids@),
                            records_grow(old(self).spans.records(), self.spans.records()),
                            recv.status == TaintStatus::Tainted,
                            self.spans.records() == after,
                            i <= names.len(),
                            forall|k: int| 0 <= k < i ==> assoc(self.ids@, #[trigger] name_texts(names@)[k]) == Some(true),
                        decreases names.len() - i,
                    {
                        let ghost mid = self.ids@;
                        self.set_id(names[i].as_str(), &recv);
                        proof {
                            assert forall|k: int| 0 <= k < i + 1 implies assoc(self.ids@, #[trigger] name_texts(names@)[k])
                                == Some(true) by {
                                if k < i {
                                    lemma_assoc_gains(mid, self.ids@, name_texts(names@)[k]);
                                }
                            }
                        }
                        i = i + 1;
                    }
                }
            }
        }
        Some(recv)
    }

    /// The first tainted `return` argument among a block's statements.
    #[verifier::loop_isolation(false)]
    fn classify_block_returns(&mut self, body: &Json, base: u32, budget: usize) -> (r: TaintInfo)
        ensures
            records_grow(old(self).spans.records(), final(self).spans.records()),
            gains_taint(old(self).ids@, final(self).ids@),
            r.status != TaintStatus::Unknown,
            // Every returned node is classified for its own record; without
            // one the result is clean and nothing is recorded.
            returns_recorded(
                final(self).spans.records(),
                items_of(get(*body, "body"@)),
                base,
                items_of(get(*body, "body"@)).len() as int,
            ),
            (forall|k: int|
                0 <= k < items_of(get(*body, "body"@)).len() ==> !returns_object(
                    #[trigger] items_of(get(*body, "body"@))[k],
                )) ==> r.status == TaintStatus::Clean && final(self).spans.records() == old(self).spans.records(),
        decreases budget, *body, 1int,
    {
        let mut found: Option<TaintInfo> = None;
        if let Some(stmts) = get_items(body, "body") {
            let mut i: usize = 0;
            while i < stmts.len()
                invariant
                    gains_taint(old(self).ids@, self.ids@),
                    records_grow(old(self).spans.records(), self.spans.records()),
                    stmts@ == items_of(get(*body, "body"@)),
                    i <= stmts.len(),
                    found matches Some(fd) ==> fd.status == TaintStatus::Tainted,
                    returns_recorded(self.spans.records(), stmts@, base, i as int),
                    (forall|k: int| 0 <= k < i ==> !returns_object(#[trigger] stmts@[k])) ==> found is None
                        && self.spans.records() == old(self).spans.records(),
                decreases stmts.len() - i,
            {
                proof {
                    lemma_item_smaller(*body, "body"@, i as int);
                }
                let ghost before = self.spans.records();
                let st = &stmts[i];
                if is_type(st, "ReturnStatement") {
                    if let Some(arg) = get_field(st, "argument") {
                        if let Json::Obj(_) = arg {
                            proof {
                                lemma_get_smaller(*st, "argument"@);
                            }
                            let info = self.classify(arg, base, budget);
                            if found.is_none() && info.status == TaintStatus::Tainted {
                                found = Some(info);
                            }
                        }
                    }
                }
                proof {
                    lemma_returns_recorded_grow(before, self.spans.records(), stmts@, base, i as int);
                    if (forall|k: int| 0 <= k < i + 1 ==> !returns_object(#[trigger] stmts@[k])) {
                        assert(!returns_object(stmts@[i as int]));
                    }
                }
                i = i + 1;
            }
        }
        match found {
            Some(f) => f,
            None => TaintInfo::clean(),
        }
    }

    /// An arrow function's returned value: its expression body, or the
    /// first tainted `return` of its block.
    fn classify_arrow_body(&mut self, f: &Json, base: u32, budget: usize) -> (r: TaintInfo)
        ensures
            records_grow(old(self).spans.records(), final(self).spans.records()),
            gains_taint(old(self).ids@, final(self).ids@),
            match get(*f, "body"@) {
                None => r.status == TaintStatus::Clean && final(self).spans.records() == old(self).spans.records(),
                Some(b) => if get(*f, "expression"@) == Some(Json::Bool(true)) {
                    abs_pos(base, b) matches Some(p) ==> (final(self).spans.fact(p) matches Some(fa) && fa.status
                        == r.status && fa.source == r.source)
                } else {
                    r.status != TaintStatus::Unknown && returns_recorded(
                        final(self).spans.records(),
                        items_of(get(b, "body"@)),
                        base,
                        items_of(get(b, "body"@)).len() as int,
                    )
                },
            },
        decreases budget, *f, 2int,
    {
        let body = match get_field(f, "body") {
            Some(b) => b,
            None => {
                return TaintInfo::clean();
            },
        };
        proof {
            lemma_get_smaller(*f, "body"@);
        }
        match get_field(f, "expression") {
            Some(Json::Bool(true)) => self.classify(body, base, budget),
            _ => self.classify_block_returns(body, base, budget),
        }
    }

    /// A function's first tainted `return` value, classified with the
    /// script's offset.
    fn classify_function_returns(&mut self, f: &Json, budget: usize) -> (r: TaintInfo)
        ensures
            records_grow(old(self).spans.records(), final(self).spans.records()),
            gains_taint(old(self).ids@, final(self).ids@),
            match get(*f, "body"@) {
                None => r.status == TaintStatus::Clean && final(self).spans.records() == old(self).spans.records(),
                Some(b) => r.status != TaintStatus::Unknown && returns_recorded(
                    final(self).spans.records(),
                    items_of(get(b, "body"@)),
                    old(self).script_offset,
                    items_of(get(b, "body"@)).len() as int,
                ),
            },
        decreases budget, *f, 2int,
    {
        let base = self.script_offset;
        match get_field(f, "body") {
            Some(b) => {
                proof {
                    lemma_get_smaller(*f, "body"@);
                }
                self.classify_block_returns(b, base, budget)
            },
            None => TaintInfo::clean(),
        }
    }

    fn on_stack(&self, name: &str) -> (r: bool)
        ensures
            r == texts(self.call_stack@).contains(name@),
    {
        let mut i: usize = 0;
        while i < self.call_stack.len()
            invariant
                i <= self.call_stack.len(),
                forall|k: int| 0 <= k < i ==> self.call_stack@[k]@ != name@,
            decreases self.call_stack.len() - i,
        {
            if str_eq(self.call_stack[i].as_str(), name) {
                assert(texts(self.call_stack@)[i as int] == name@);
                return true;
            }
            i = i + 1;
        }
        false
    }

    /// A call of a local function: tainted when a tainted argument reaches
    /// a parameter its returns reference, or when it returns a tainted
    /// value; `None` when neither (or when the function is already being
    /// classified).
    #[verifier::loop_isolation(false)]
    fn classify_local_call(&mut self, name: &str, call: &Json, base: u32, budget: usize) -> (r: Option<TaintInfo>)
        ensures
            records_grow(old(self).spans.records(), final(self).spans.records()),
            gains_taint(old(self).ids@, final(self).ids@),
            r matches Some(info) ==> info.status == TaintStatus::Tainted,
            // No budget left, a recursive call, or an unknown function: no
            // fact and nothing recorded.
            budget == 0 || texts(old(self).call_stack@).contains(name@) || assoc(old(self).functions@, name@)
                is None ==> r is None && final(self).spans.records() == old(self).spans.records()
                && final(self).ids@ == old(self).ids@,
            // Otherwise every argument but spread ones is classified for its
            // own record, and a fact found names the function last.
            !(budget == 0 || texts(old(self).call_stack@).contains(name@) || assoc(old(self).functions@, name@)
                is None) ==> items_recorded(
                final(self).spans.records(),
                items_of(get(*call, "arguments"@)),
                base,
                items_of(get(*call, "arguments"@)).len() as int,
            ),
            r matches Some(info) ==> info.via@.len() > 0 && info.via@.last()@ == name@,
        decreases budget, *call, 2int,
    {
        let ghost argsv = items_of(get(*call, "arguments"@));
        if budget == 0 || self.on_stack(name) {
            return None;
        }
        let summary = match assoc_find(&self.functions, name) {
            Some(s) => s.clone(),
            None => {
                return None;
            },
        };
        self.call_stack.push(to_owned_string(name));
        let mut arg_infos: Vec<TaintInfo> = Vec::new();
        if let Some(args) = get_items(call, "arguments") {
            let mut i: usize = 0;
            while i < args.len()
                invariant
                    gains_taint(old(self).ids@, self.ids@),
                    records_grow(old(self).spans.records(), self.spans.records()),
                    args@ == argsv,
                    i <= args.len(),
                    items_recorded(self.spans.records(), argsv, base, i as int),
                decreases args.len() - i,
            {
                proof {
                    lemma_item_smaller(*call, "arguments"@, i as int);
                }
                let ghost before = self.spans.records();
                if is_type(&args[i], "SpreadElement") {
                    arg_infos.push(TaintInfo::clean());
                } else {
                    let info = self.classify(&args[i], base, budget);
                    arg_infos.push(info);
                }
                proof {
                    lemma_items_recorded_grow(before, self.spans.records(), argsv, base, i as int);
                }
                i = i + 1;
            }
        }
        assert(items_recorded(self.spans.records(), argsv, base, argsv.len() as int));
        let mut i: usize = 0;
        while i < summary.params.len()
            invariant
                gains_taint(old(self).ids@, self.ids@),
                records_grow(old(self).spans.records(), self.spans.records()),
                items_recorded(self.spans.records(), argsv, base, argsv.len() as int),
            decreases summary.params.len() - i,
        {
            let depends = i < summary.param_deps.len() && summary.param_deps[i];
            if depends && i < arg_infos.len() && arg_infos[i].status == TaintStatus::Tainted {
                self.call_stack.pop();
                let mut info = arg_infos[i].duplicate();
                info.via.push(to_owned_string(name));
                return Some(info);
            }
            i = i + 1;
        }
        let script_base = self.script_offset;
        let mut k: usize = 0;
        while k < summary.returned.len()
            invariant
                gains_taint(old(self).ids@, self.ids@),
                records_grow(old(self).spans.records(), self.spans.records()),
                items_recorded(self.spans.records(), argsv, base, argsv.len() as int),
            decreases summary.returned.len() - k,
        {
            let ghost before = self.spans.records();
            let info = self.classify(summary.returned[k], script_base, budget - 1);
            proof {
                lemma_items_recorded_grow(before, self.spans.records(), argsv, base, argsv.len() as int);
            }
            if info.status == TaintStatus::Tainted {
                self.call_stack.pop();
                let mut info = info;
                info.via.push(to_owned_string(name));
                return Some(info);
            }
            k = k + 1;
        }
        self.call_stack.pop();
        None
    }

    /// The first tainted argument, classifying arrow functions by their
    /// returned value and function expressions by their `return`s.
    #[verifier::loop_isolation(false)]
    fn first_tainted_wrapped(&mut self, call: &Json, base: u32, budget: usize) -> (r: Option<TaintInfo>)
        ensures
            records_grow(old(self).spans.records(), final(self).spans.records()),
            gains_taint(old(self).ids@, final(self).ids@),
            r matches Some(i) ==> i.status == TaintStatus::Tainted,
            // Plain arguments are classified for their own records; with
            // only spread arguments nothing is found or recorded.
            values_recorded(
                final(self).spans.records(),
                items_of(get(*call, "arguments"@)),
                base,
                items_of(get(*call, "arguments"@)).len() as int,
            ),
            (forall|k: int|
                0 <= k < items_of(get(*call, "arguments"@)).len() ==> node_type(
                    #[trigger] items_of(get(*call, "arguments"@))[k],
                ) == "SpreadElement"@) ==> r is None && final(self).spans.records() == old(self).spans.records(),
        decreases budget, *call, 1int,
    {
        let mut found: Option<TaintInfo> = None;
        if let Some(args) = get_items(call, "arguments") {
            let mut i: usize = 0;
            while i < args.len()
                invariant
                    gains_taint(old(self).ids@, self.ids@),
                    records_grow(old(self).spans.records(), self.spans.records()),
                    args@ == items_of(get(*call, "arguments"@)),
                    i <= args.len(),
                    found matches Some(fd) ==> fd.status == TaintStatus::Tainted,
                    values_recorded(self.spans.records(), args@, base, i as int),
                    (forall|k: int| 0 <= k < i ==> node_type(#[trigger] args@[k]) == "SpreadElement"@) ==> found is None
                        && self.spans.records() == old(self).spans.records(),
                decreases args.len() - i,
            {
                proof {
                    lemma_item_smaller(*call, "arguments"@, i as int);
                    lemma_kind_lengths();
                    reveal_strlit("SpreadElement");
                }
                let ghost before = self.spans.records();
                let a = &args[i];
                let info = if is_type(a, "ArrowFunctionExpression") {
                    Some(self.classify_arrow_body(a, base, budget))
                } else if is_type(a, "FunctionExpression") {
                    Some(self.classify_function_returns(a, budget))
                } else if !is_type(a, "SpreadElement") {
                    Some(self.classify(a, base, budget))
                } else {
                    None
                };
                if let Some(info) = info {
                    if found.is_none() && info.status == TaintStatus::Tainted {
                        found = Some(info);
                    }
                }
                proof {
                    assert forall|k: int|
                        0 <= k < i + 1 && !is_function_node(#[trigger] args@[k]) && node_type(args@[k]) != "SpreadElement"@
                            implies (abs_pos(base, args@[k]) matches Some(p) ==> has_record(self.spans.records(), p)) by {
                        if let Some(p) = abs_pos(base, args@[k]) {
                            if k < i {
                                lemma_has_record_grow(before, self.spans.records(), p);
                            }
                        }
                    }
                    if (forall|k: int| 0 <= k < i + 1 ==> node_type(#[trigger] args@[k]) == "SpreadElement"@) {
                        assert(node_type(args@[i as int]) == "SpreadElement"@);
                    }
                }
                i = i + 1;
            }
        }
        found
    }

    /// Classify a call.
    fn classify_call(&mut self, call: &Json, base: u32, budget: usize) -> (r: TaintInfo)
        ensures
            records_grow(old(self).spans.records(), final(self).spans.records()),
            gains_taint(old(self).ids@, final(self).ids@),
            is_sanitizer_path(spec_callee_path(*call)) ==> (r.status == TaintStatus::Clean
                && r.sanitized_by is Some),
            !is_sanitizer_path(spec_callee_path(*call)) && is_source_call_path(spec_callee_path(*call))
                ==> r.status == TaintStatus::Tainted,
            !is_sanitizer_path(spec_callee_path(*call)) && is_source_object_path(spec_callee_path(*call))
                ==> r.status == TaintStatus::Tainted,
            unknown_plain_call(*call, old(self).functions@) ==> r.status == TaintStatus::Clean,
            // A sanitizer call names the sanitizer and where it was called.
            is_sanitizer_path(spec_callee_path(*call)) ==> ((r.sanitized_by matches Some((s, at)) && s@ == dotted(
                spec_callee_path(*call),
            ) && at == call_at(base, *call)) && r.source is None && r.via@.len() == 0),
            // A source call names the source and its line, and the path
            // starts at the callee.
            !is_sanitizer_path(spec_callee_path(*call)) && (is_source_call_path(spec_callee_path(*call))
                || is_source_object_path(spec_callee_path(*call))) ==> ((r.source matches Some(s) && s@ == dotted(
                spec_callee_path(*call),
            ) + " (line "@ + spec_decimal(old(self).spec_line(call_start(*call))) + ")"@) && texts(r.via@) == seq![
                dotted(spec_callee_path(*call)),
            ]),
        decreases budget, *call, 3int,
    {
        proof {
            reveal_strlit("Identifier");
            reveal_strlit("MemberExpression");
            assert("Identifier"@.len() != "MemberExpression"@.len());
        }
        let path = callee_path(call);
        let start: u32 = match crate::parser::estree::get_range(call) {
            Some((s, _)) => {
                if s <= 0xffff_ffffu64 {
                    s as u32
                } else {
                    0
                }
            },
            None => 0,
        };
        if sanitizer_path(&path) {
            self.record_arguments(call, base, budget);
            let mut info = TaintInfo::clean();
            let at = match node_pos(base, call) {
                Some(p) => p,
                None => base,
            };
            info.sanitized_by = Some((join_path(&path), at));
            return info;
        }
        if source_call_path(&path) {
            let source = self.source_label(&path, start);
            self.record_arguments(call, base, budget);
            return TaintInfo::tainted(source, Self::one(join_path(&path).as_str()));
        }
        if source_object_path(&path) {
            let source = self.source_label(&path, start);
            if path_is1(&path, "defineProps") {
                self.props_from_call(call);
            }
            self.record_arguments(call, base, budget);
            return TaintInfo::tainted(source, Self::one(join_path(&path).as_str()));
        }
        if path.len() == 1 && assoc_find(&self.functions, path[0].as_str()).is_some() {
            if let Some(info) = self.classify_local_call(path[0].as_str(), call, base, budget) {
                return info;
            }
        }
        if let Some(recv) = self.tainted_receiver(call, base, budget) {
            let boolean = if path.len() > 0 {
                boolean_method(path[path.len() - 1].as_str())
            } else {
                boolean_method("")
            };
            if !boolean {
                return recv;
            }
        }
        if path_is1(&path, "computed") || path_is1(&path, "ref") || path_is1(&path, "reactive") || path_is1(
            &path,
            "shallowRef",
        ) {
            if let Some(info) = self.first_tainted_wrapped(call, base, budget) {
                return info;
            }
        }
        if path_is1(&path, "String") || path_is2(&path, "JSON", "stringify") {
            let info = self.first_tainted_items(call, "arguments", base, budget);
            if info.status == TaintStatus::Tainted {
                return info;
            }
        }
        self.record_arguments(call, base, budget);
        TaintInfo::clean()
    }

    /// `new C(...)`: `FormData` and `URLSearchParams` are sources; other
    /// constructors carry their first tainted argument.
    fn classify_new(&mut self, n: &Json, base: u32, budget: usize) -> (r: TaintInfo)
        ensures
            records_grow(old(self).spans.records(), final(self).spans.records()),
            gains_taint(old(self).ids@, final(self).ids@),
            is_source_constructor(*n) ==> r.status == TaintStatus::Tainted,
            // Other constructors are tainted when an argument's own fact is.
            !is_source_constructor(*n) ==> ((items_positioned(items_of(get(*n, "arguments"@)), base) && r.status
                == TaintStatus::Tainted ==> tainted_item_fact(
                old(self).spans.records(),
                final(self).spans.records(),
                items_of(get(*n, "arguments"@)),
                base,
                r,
            )) && (r.status != TaintStatus::Tainted ==> untainted_item_facts(
                old(self).spans.records(),
                final(self).spans.records(),
                items_of(get(*n, "arguments"@)),
                base,
                items_of(get(*n, "arguments"@)).len() as int,
            ))),
        decreases budget, *n, 2int,
    {
        if let Some(c) = get_field(n, "callee") {
            if let Some(name) = get_ident_name(c) {
                if str_eq(name.as_str(), "FormData") {
                    return TaintInfo::tainted(to_owned_string("new FormData()"), Self::one("FormData"));
                }
                if str_eq(name.as_str(), "URLSearchParams") {
                    return TaintInfo::tainted(
                        to_owned_string("new URLSearchParams()"),
                        Self::one("URLSearchParams"),
                    );
                }
            }
        }
        self.first_tainted_items(n, "arguments", base, budget)
    }

    /// The fact of an expression, by its kind.
    fn classify_inner(&mut self, e: &Json, base: u32, budget: usize) -> (r: TaintInfo)
        ensures
            records_grow(old(self).spans.records(), final(self).spans.records()),
            gains_taint(old(self).ids@, final(self).ids@),
            node_type(*e) == "Literal"@ || node_type(*e) == "ObjectExpression"@ || node_type(*e)
                == "ArrowFunctionExpression"@ || node_type(*e) == "FunctionExpression"@ || node_type(*e)
                == "ThisExpression"@ || node_type(*e) == "UpdateExpression"@ ==> r.status == TaintStatus::Clean,
            node_type(*e) == "CallExpression"@ && is_sanitizer_path(spec_callee_path(*e)) ==> (r.status
                == TaintStatus::Clean && r.sanitized_by is Some),
            node_type(*e) == "CallExpression"@ && !is_sanitizer_path(spec_callee_path(*e))
                && is_source_call_path(spec_callee_path(*e)) ==> r.status == TaintStatus::Tainted,
            node_type(*e) == "CallExpression"@ && !is_sanitizer_path(spec_callee_path(*e))
                && is_source_object_path(spec_callee_path(*e)) ==> r.status == TaintStatus::Tainted,
            node_type(*e) == "CallExpression"@ && unknown_plain_call(*e, old(self).functions@) ==> r.status
                == TaintStatus::Clean,
            ident_name(*e) matches Some(n) ==> identifier_taint(old(self).ids@, n, r.status),
            node_type(*e) == "NewExpression"@ && is_source_constructor(*e) ==> r.status
                == TaintStatus::Tainted,
            // Wrappers, `await`, unary operators, assignments and `import()`
            // pass their operand's fact on.
            passthrough_key(*e) matches Some(k) ==> match get(*e, k) {
                None => r.status == TaintStatus::Clean,
                Some(c) => abs_pos(base, c) matches Some(p) ==> last_record_is(
                    old(self).spans.records(),
                    final(self).spans.records(),
                    p,
                    r,
                ),
            },
            // Template literals and arrays are tainted when one of their
            // parts' own facts is; otherwise no part's own fact is tainted.
            items_key_of(node_type(*e)) matches Some(k) ==> ((items_positioned(items_of(get(*e, k)), base)
                && r.status == TaintStatus::Tainted ==> tainted_item_fact(
                old(self).spans.records(),
                final(self).spans.records(),
                items_of(get(*e, k)),
                base,
                r,
            )) && (r.status != TaintStatus::Tainted ==> untainted_item_facts(
                old(self).spans.records(),
                final(self).spans.records(),
                items_of(get(*e, k)),
                base,
                items_of(get(*e, k)).len() as int,
            ))),
            // Other constructors are tainted when an argument's own fact is.
            node_type(*e) == "NewExpression"@ && !is_source_constructor(*e) ==> ((items_positioned(
                items_of(get(*e, "arguments"@)),
                base,
            ) && r.status == TaintStatus::Tainted ==> tainted_item_fact(
                old(self).spans.records(),
                final(self).spans.records(),
                items_of(get(*e, "arguments"@)),
                base,
                r,
            )) && (r.status != TaintStatus::Tainted ==> untainted_item_facts(
                old(self).spans.records(),
                final(self).spans.records(),
                items_of(get(*e, "arguments"@)),
                base,
                items_of(get(*e, "arguments"@)).len() as int,
            ))),
            // A sequence has the fact of its last expression.
            node_type(*e) == "SequenceExpression"@ && items_of(get(*e, "expressions"@)).len() > 0 ==> (abs_pos(
                base,
                items_of(get(*e, "expressions"@)).last(),
            ) matches Some(p) ==> last_record_is(old(self).spans.records(), final(self).spans.records(), p, r)),
            // Operators and conditionals are tainted when either operand's
            // fact is, and clean otherwise.
            combined_keys(*e) matches Some((ka, kb)) ==> (get(*e, ka) matches Some(a) ==> (get(*e, kb) matches Some(
                b,
            ) ==> (abs_pos(base, a) matches Some(pa) ==> (abs_pos(base, b) matches Some(pb) ==> combines_recorded(
                old(self).spans.records(),
                final(self).spans.records(),
                pa,
                pb,
                r,
            ))))),
        decreases budget, *e, 4int,
    {
        proof {
            lemma_kind_lengths();
            lemma_kind_keys(node_type(*e));
        }
        if is_type(e, "CallExpression") {
            proof {
                reveal_strlit("CallExpression");
                reveal_strlit("Literal");
                reveal_strlit("ObjectExpression");
                reveal_strlit("ArrowFunctionExpression");
                reveal_strlit("FunctionExpression");
                reveal_strlit("ThisExpression");
                reveal_strlit("UpdateExpression");
                assert("CallExpression"@.len() == 14);
                assert("CallExpression"@ != "Literal"@);
                assert("CallExpression"@ != "ObjectExpression"@);
                assert("CallExpression"@ != "ArrowFunctionExpression"@);
                assert("CallExpression"@[0] != "FunctionExpression"@[0]);
                assert("CallExpression"@ != "FunctionExpression"@);
                assert("CallExpression"@ != "ThisExpression"@);
                assert("CallExpression"@ != "UpdateExpression"@);
                reveal_strlit("Identifier");
                assert("Identifier"@.len() != "CallExpression"@.len());
            }
            return self.classify_call(e, base, budget);
        }
        if is_type(e, "Literal") || is_type(e, "ObjectExpression") || is_type(e, "ArrowFunctionExpression")
            || is_type(e, "FunctionExpression") || is_type(e, "ThisExpression") || is_type(e, "UpdateExpression") {
            proof {
                reveal_strlit("Identifier");
                reveal_strlit("Literal");
                reveal_strlit("ObjectExpression");
                reveal_strlit("ArrowFunctionExpression");
                reveal_strlit("FunctionExpression");
                reveal_strlit("ThisExpression");
                reveal_strlit("UpdateExpression");
                reveal_strlit("SequenceExpression");
                assert("Identifier"@.len() == 10);
                assert(node_type(*e) != "Identifier"@);
                assert("SequenceExpression"@[0] != "FunctionExpression"@[0]);
            }
            return TaintInfo::clean();
        }
        if let Some(n) = get_ident_name(e) {
            return self.classify_identifier(n.as_str());
        }
        if is_type(e, "TemplateLiteral") {
            return self.first_tainted_items(e, "expressions", base, budget);
        }
        if is_type(e, "ChainExpression") {
            let inner = match get_field(e, "expression") {
                Some(x) => x,
                None => {
                    return TaintInfo::clean();
                },
            };
            proof {
                lemma_get_smaller(*e, "expression"@);
            }
            if is_type(inner, "CallExpression") {
                return self.classify_call(inner, base, budget);
            }
            if is_type(inner, "TSNonNullExpression") {
                return self.classify_child(inner, "expression", base, budget);
            }
            if is_type(inner, "MemberExpression") {
                if is_computed(inner) {
                    return self.classify_computed_member(inner, base, budget);
                }
                let private = match get_field(inner, "property") {
                    Some(p) => is_type(p, "PrivateIdentifier"),
                    None => true,
                };
                if private {
                    return TaintInfo::clean();
                }
                return self.classify_member(inner, base, budget);
            }
            return TaintInfo::clean();
        }
        if is_type(e, "ParenthesizedExpression") || is_type(e, "TSAsExpression") || is_type(
            e,
            "TSSatisfiesExpression",
        ) || is_type(e, "TSTypeAssertion") || is_type(e, "TSNonNullExpression") || is_type(
            e,
            "TSInstantiationExpression",
        ) {
            return self.classify_child(e, "expression", base, budget);
        }
        if is_type(e, "AwaitExpression") || is_type(e, "UnaryExpression") {
            return self.classify_child(e, "argument", base, budget);
        }
        if is_type(e, "BinaryExpression") || is_type(e, "LogicalExpression") {
            let l = self.classify_child(e, "left", base, budget);
            let ghost mid = self.spans.records();
            let r = self.classify_child(e, "right", base, budget);
            proof {
                lemma_combined_witness(old(self).spans.records(), mid, self.spans.records(), *e, "left"@, "right"@, base, l, r);
            }
            return combine_taint(l, r);
        }
        if is_type(e, "ConditionalExpression") {
            let c = self.classify_child(e, "consequent", base, budget);
            let ghost mid = self.spans.records();
            let a = self.classify_child(e, "alternate", base, budget);
            proof {
                lemma_combined_witness(
                    old(self).spans.records(),
                    mid,
                    self.spans.records(),
                    *e,
                    "consequent"@,
                    "alternate"@,
                    base,
                    c,
                    a,
                );
            }
            return combine_taint(c, a);
        }
        if is_type(e, "SequenceExpression") {
            let mut last = TaintInfo::clean();
            if let Some(items) = get_items(e, "expressions") {
                let mut i: usize = 0;
                while i < items.len()
                    invariant
                        gains_taint(old(self).ids@, self.ids@),
                        records_grow(old(self).spans.records(), self.spans.records()),
                        items@ == items_of(get(*e, "expressions"@)),
                        i <= items.len(),
                        i > 0 ==> (abs_pos(base, items@[i - 1]) matches Some(p) ==> last_record_is(
                            old(self).spans.records(),
                            self.spans.records(),
                            p,
                            last,
                        )),
                    decreases items.len() - i,
                {
                    proof {
                        lemma_item_smaller(*e, "expressions"@, i as int);
                    }
                    last = self.classify(&items[i], base, budget);
                    i = i + 1;
                }
            }
            return last;
        }
        if is_type(e, "ArrayExpression") {
            return self.first_tainted_items(e, "elements", base, budget);
        }
        if is_type(e, "AssignmentExpression") {
            return self.classify_child(e, "right", base, budget);
        }
        if is_type(e, "TaggedTemplateExpression") {
            let tag = self.classify_child(e, "tag", base, budget);
            let quasi = match get_field(e, "quasi") {
                Some(q) => {
                    proof {
                        lemma_get_smaller(*e, "quasi"@);
                    }
                    self.first_tainted_items(q, "expressions", base, budget)
                },
                None => TaintInfo::clean(),
            };
            if quasi.status == TaintStatus::Tainted {
                return quasi;
            }
            return tag;
        }
        if is_type(e, "ImportExpression") {
            return self.classify_child(e, "source", base, budget);
        }
        if is_type(e, "NewExpression") {
            return self.classify_new(e, base, budget);
        }
        if is_type(e, "MemberExpression") {
            if is_computed(e) {
                return self.classify_computed_member(e, base, budget);
            }
            let private = match get_field(e, "property") {
                Some(p) => is_type(p, "PrivateIdentifier"),
                None => true,
            };
            if private {
                return TaintInfo::clean();
            }
            return self.classify_member(e, base, budget);
        }
        TaintInfo::clean()
    }

    /// A local function defined as a component method.
    fn register_function(&mut self, name: &str, f: &'a Json)
        ensures
            final(self).ids@ == old(self).ids@,
            final(self).spans.records() == old(self).spans.records(),
            // The function is known by its name from now on, with its
            // parameters and its returns.
            final(self).functions@.len() == old(self).functions@.len() + 1,
            final(self).functions@.drop_last() == old(self).functions@,
            final(self).functions@.last().0@ == name@,
            name_texts(final(self).functions@.last().1.params@) == params_names(items_of(get(*f, "params"@))),
            derefs(final(self).functions@.last().1.returned@) == block_returns_of(*f),
    {
        let summary = summarize(f, body_returns(f));
        self.functions.push((to_owned_string(name), summary));
    }

    /// The Options API object (`export default { ... }` or
    /// `defineComponent({ ... })`): `props` are sources, tainted `data()`
    /// fields and `computed` getters are tainted identifiers, `methods`
    /// are local functions.
    #[verifier::loop_isolation(false)]
    fn analyze_component_options(&mut self, obj: &'a Json)
        ensures
            records_grow(old(self).spans.records(), final(self).spans.records()),
            gains_taint(old(self).ids@, final(self).ids@),
            // The props it declares are sources.
            props_tainted(
                final(self).ids@,
                items_of(get(*obj, "properties"@)),
                items_of(get(*obj, "properties"@)).len() as int,
            ),
    {
        proof {
            reveal_strlit("props");
            reveal_strlit("data");
            lemma_kind_lengths();
        }
        let props = match get_items(obj, "properties") {
            Some(p) => p,
            None => {
                return;
            },
        };
        let mut i: usize = 0;
        while i < props.len()
            invariant
                i <= props.len(),
                props@ == items_of(get(*obj, "properties"@)),
                gains_taint(old(self).ids@, self.ids@),
                records_grow(old(self).spans.records(), self.spans.records()),
                props_tainted(self.ids@, props@, i as int),
                "props"@.len() == 5,
                "data"@.len() == 4,
                "ObjectExpression"@.len() == 16,
                "ArrayExpression"@.len() == 15,
            decreases props.len() - i,
        {
            let prop = &props[i];
            let ghost before = self.ids@;
            if let (Some(key), Some(value)) = (get_prop_key_name(prop), get_field(prop, "value")) {
                if str_eq(key.as_str(), "data") {
                    if is_type(value, "FunctionExpression") {
                        if let Some(body) = get_field(value, "body") {
                            if let Some(stmts) = get_items(body, "body") {
                                let mut k: usize = 0;
                                while k < stmts.len()
                                    invariant
                                        gains_taint(before, self.ids@),
                                        records_grow(old(self).spans.records(), self.spans.records()),
                                    decreases stmts.len() - k,
                                {
                                    let st = &stmts[k];
                                    if is_type(st, "ReturnStatement") {
                                        if let Some(ret) = get_field(st, "argument") {
                                            if is_type(ret, "ObjectExpression") {
                                                if let Some(fields) = get_items(ret, "properties") {
                                                    let mut m: usize = 0;
                                                    while m < fields.len()
                                                        invariant
                                                            gains_taint(before, self.ids@),
                                                            records_grow(old(self).spans.records(), self.spans.records()),
                                                        decreases fields.len() - m,
                                                    {
                                                        let field = &fields[m];
                                                        if let (Some(fk), Some(fv)) = (get_prop_key_name(field), get_field(field, "value")) {
                                                            let budget = self.functions.len();
                                                            let base = self.script_offset;
                                                            let info = self.classify(fv, base, budget);
                                                            if info.status == TaintStatus::Tainted {
                                                                self.set_id(fk.as_str(), &info);
                                                            }
                                                        }
                                                        m = m + 1;
                                                    }
                                                }
                                            }
                                        }
                                    }
                                    k = k + 1;
                                }
                            }
                        }
                    }
                } else if str_eq(key.as_str(), "props") {
                    if is_type(value, "ObjectExpression") {
                        if let Some(ps) = get_items(value, "properties") {
                            let mut k: usize = 0;
                            while k < ps.len()
                                invariant
                                    k <= ps.len(),
                                    gains_taint(before, self.ids@),
                                    records_grow(old(self).spans.records(), self.spans.records()),
                                    forall|q: int|
                                        0 <= q < k ==> (prop_key_name(#[trigger] ps@[q]) matches Some(nm)
                                            && assoc(self.ids@, nm) == Some(true)) || prop_key_name(ps@[q]) is None,
                                decreases ps.len() - k,
                            {
                                let ghost mid = self.ids@;
                                if let Some(name) = get_prop_key_name(&ps[k]) {
                                    self.seed_prop(name.as_str());
                                }
                                assert forall|q: int|
                                    0 <= q < k + 1 implies (prop_key_name(#[trigger] ps@[q]) matches Some(nm)
                                        && assoc(self.ids@, nm) == Some(true)) || prop_key_name(ps@[q]) is None by {
                                    if q < k {
                                        if let Some(nm) = prop_key_name(ps@[q]) {
                                            lemma_assoc_gains(mid, self.ids@, nm);
                                        }
                                    }
                                }
                                k = k + 1;
                            }
                            proof {
                                assert forall|n: Seq<char>|
                                    #[trigger] declares_prop(props@[i as int], n) implies assoc(self.ids@, n)
                                        == Some(true) by {
                                    let q = choose|q: int|
                                        0 <= q < items_of(get(*value, "properties"@)).len() && prop_key_name(
                                            #[trigger] items_of(get(*value, "properties"@))[q],
                                        ) == Some(n);
                                    assert(ps@[q] == items_of(get(*value, "properties"@))[q]);
                                }
                            }
                        }
                    } else if is_type(value, "ArrayExpression") {
                        if let Some(els) = get_items(value, "elements") {
                            let mut k: usize = 0;
                            while k < els.len()
                                invariant
                                    k <= els.len(),
                                    gains_taint(before, self.ids@),
                                    records_grow(old(self).spans.records(), self.spans.records()),
                                    forall|q: int|
                                        0 <= q < k ==> (string_lit_value(#[trigger] els@[q]) matches Some(nm)
                                            && assoc(self.ids@, nm) == Some(true)) || string_lit_value(els@[q]) is None,
                                decreases els.len() - k,
                            {
                                let ghost mid = self.ids@;
                                if let Some(v) = get_string_lit(&els[k]) {
                                    self.seed_prop(v.as_str());
                                }
                                assert forall|q: int|
                                    0 <= q < k + 1 implies (string_lit_value(#[trigger] els@[q]) matches Some(nm)
                                        && assoc(self.ids@, nm) == Some(true)) || string_lit_value(els@[q]) is None by {
                                    if q < k {
                                        if let Some(nm) = string_lit_value(els@[q]) {
                                            lemma_assoc_gains(mid, self.ids@, nm);
                                        }
                                    }
                                }
                                k = k + 1;
                            }
                            proof {
                                assert forall|n: Seq<char>|
                                    #[trigger] declares_prop(props@[i as int], n) implies assoc(self.ids@, n)
                                        == Some(true) by {
                                    let q = choose|q: int|
                                        0 <= q < items_of(get(*value, "elements"@)).len() && string_lit_value(
                                            #[trigger] items_of(get(*value, "elements"@))[q],
                                        ) == Some(n);
                                    assert(els@[q] == items_of(get(*value, "elements"@))[q]);
                                }
                            }
                        }
                    }
                } else if str_eq(key.as_str(), "computed") {
                    if is_type(value, "ObjectExpression") {
                        if let Some(cs) = get_items(value, "properties") {
                            let mut k: usize = 0;
                            while k < cs.len()
                                invariant
                                    gains_taint(before, self.ids@),
                                    records_grow(old(self).spans.records(), self.spans.records()),
                                decreases cs.len() - k,
                            {
                                if let (Some(name), Some(cv)) = (get_prop_key_name(&cs[k]), get_field(&cs[k], "value")) {
                                    if is_type(cv, "FunctionExpression") {
                                        let budget = self.functions.len();
                                        let info = self.classify_function_returns(cv, budget);
                                        if info.status == TaintStatus::Tainted {
                                            self.set_id(name.as_str(), &info);
                                        }
                                    }
                                }
                                k = k + 1;
                            }
                        }
                    }
                } else if str_eq(key.as_str(), "methods") {
                    if is_type(value, "ObjectExpression") {
                        if let Some(ms) = get_items(value, "properties") {
                            let mut k: usize = 0;
                            while k < ms.len()
                                invariant
                                    gains_taint(before, self.ids@),
                                    records_grow(old(self).spans.records(), self.spans.records()),
                                decreases ms.len() - k,
                            {
                                if let (Some(name), Some(mv)) = (get_prop_key_name(&ms[k]), get_field(&ms[k], "value")) {
                                    if is_type(mv, "FunctionExpression") {
                                        self.register_function(name.as_str(), mv);
                                    }
                                }
                                k = k + 1;
                            }
                        }
                    }
                }
            }
            proof {
                lemma_props_kept(before, self.ids@, props@, i as int);
                assert forall|j: int, n: Seq<char>|
                    0 <= j < i + 1 && #[trigger] declares_prop(props@[j], n) implies assoc(self.ids@, n)
                        == Some(true) by {
                    if j == i {
                        assert(declares_prop(props@[i as int], n));
                    }
                }
            }
            i = i + 1;
        }
    }

    /// One pass over the script tree, in document order: declarations,
    /// assignments, expression statements and returns are classified and
    /// bound; component option objects are read.
    #[verifier::loop_isolation(false)]
    fn visit(&mut self, j: &'a Json)
        ensures
            records_grow(old(self).spans.records(), final(self).spans.records()),
            // A declaration records its initialiser's fact and its binding's;
            // an assignment its value's; an expression statement its
            // expression's; a `return` its value's.
            visited_recorded(final(self).spans.records(), *j, old(self).script_offset),
        decreases *j,
    {
        let ghost base0 = self.script_offset;
        proof {
            reveal_strlit("VariableDeclarator");
            reveal_strlit("AssignmentExpression");
            reveal_strlit("ExpressionStatement");
            reveal_strlit("ReturnStatement");
            reveal_strlit("ExportDefaultDeclaration");
            reveal_strlit("CallExpression");
            assert("VariableDeclarator"@.len() == 18);
            assert("AssignmentExpression"@.len() == 20);
            assert("ExpressionStatement"@.len() == 19);
            assert("ReturnStatement"@.len() == 15);
            assert("ExportDefaultDeclaration"@.len() == 24);
            assert("CallExpression"@.len() == 14);
        }
        match j {
            Json::Obj(fields) => {
                let base = self.script_offset;
                let budget = self.functions.len();
                if is_type(j, "VariableDeclarator") {
                    if let (Some(id), Some(init)) = (get_field(j, "id"), get_field(j, "init")) {
                        if let Json::Obj(_) = init {
                            let info = self.classify(init, base, budget);
                            let ghost mid = self.spans.records();
                            if let Some(p) = node_pos(base, id) {
                                self.spans.record(p, info.duplicate());
                                proof {
                                    assert(self.spans.records()[self.spans.records().len() - 1].0 == p);
                                }
                            }
                            proof {
                                if let Some(q) = abs_pos(base, *init) {
                                    lemma_has_record_grow(mid, self.spans.records(), q);
                                }
                            }
                            self.bind_pattern(id, init, &info);
                        }
                    }
                } else if is_type(j, "AssignmentExpression") {
                    if let (Some(left), Some(right)) = (get_field(j, "left"), get_field(j, "right")) {
                        let info = self.classify(right, base, budget);
                        self.bind_assignment_target(left, &info);
                    }
                } else if is_type(j, "ExpressionStatement") {
                    if let Some(e) = get_field(j, "expression") {
                        self.classify(e, base, budget);
                    }
                } else if is_type(j, "ReturnStatement") {
                    if let Some(arg) = get_field(j, "argument") {
                        if let Json::Obj(_) = arg {
                            self.classify(arg, base, budget);
                        }
                    }
                } else if is_type(j, "ExportDefaultDeclaration") {
                    if let Some(d) = get_field(j, "declaration") {
                        if is_type(d, "ObjectExpression") {
                            self.analyze_component_options(d);
                        }
                    }
                } else if is_type(j, "CallExpression") {
                    if let Some(c) = get_field(j, "callee") {
                        if let Some(n) = get_ident_name(c) {
                            if str_eq(n.as_str(), "defineComponent") {
                                if let Some(args) = get_items(j, "arguments") {
                                    if args.len() > 0 && is_type(&args[0], "ObjectExpression") {
                                        self.analyze_component_options(&args[0]);
                                    }
                                }
                            }
                        }
                    }
                }
                let ghost top = self.spans.records();
                assert(visited_recorded(top, *j, base0));
                let mut i: usize = 0;
                while i < fields.len()
                    invariant
                        records_grow(old(self).spans.records(), self.spans.records()),
                        records_grow(top, self.spans.records()),
                    decreases fields.len() - i,
                {
                    proof {
                        assert(decreases_to!(*j => (*j)->Obj_0));
                        assert(decreases_to!(fields@ => fields@[i as int]));
                    }
                    self.visit(&fields[i].1);
                    i = i + 1;
                }
                proof {
                    lemma_visited_grow(top, self.spans.records(), *j, base0);
                }
            },
            Json::Arr(items) => {
                let mut i: usize = 0;
                while i < items.len()
                    invariant
                        records_grow(old(self).spans.records(), self.spans.records()),
                    decreases items.len() - i,
                {
                    proof {
                        assert(decreases_to!(*j => (*j)->Arr_0));
                        assert(decreases_to!(items@ => items@[i as int]));
                    }
                    self.visit(&items[i]);
                    i = i + 1;
                }
            },
            _ => {},
        }
    }

    /// A template binding: parsed as one expression and classified at its
    /// absolute offset; an unparseable binding is recorded as unknown.
    fn analyze_template_expr(&mut self, raw: &str, abs_base: u32)
        ensures
            parse_expression_fails(raw@) ==> (final(self).spans.fact(abs_base) matches Some(f) && f.status
                == TaintStatus::Unknown),
            parse_expression_fails(raw@) ==> has_record_with(final(self).spans.records(), abs_base, TaintStatus::Unknown),
            records_grow(old(self).spans.records(), final(self).spans.records()),
    {
        match parse_expression(raw) {
            Some(expr) => {
                let budget = self.functions.len();
                self.classify(&expr, abs_base, budget);
            },
            None => {
                self.spans.record(abs_base, TaintInfo::unknown());
                assert(self.spans.records()[self.spans.records().len() - 1].0 == abs_base);
            },
        }
    }

    /// The template's bindings (`v-bind`, `v-on` and other directives with
    /// an expression), visited as a stack would: the last node first, each
    /// node before its children.
    #[verifier::loop_isolation(false)]
    fn analyze_template(&mut self, nodes: &Vec<TemplateNode>)
        ensures
            records_grow(old(self).spans.records(), final(self).spans.records()),
            // A binding that does not parse yields an unknown fact.
            nodes_failed_recorded(final(self).spans.records(), nodes@),
        decreases nodes@,
    {
        let mut i = nodes.len();
        while i > 0
            invariant
                i <= nodes.len(),
                records_grow(old(self).spans.records(), self.spans.records()),
                forall|j: int| i <= j < nodes.len() ==> failed_bindings_recorded(self.spans.records(), #[trigger] nodes@[j]),
            decreases i,
        {
            i = i - 1;
            let ghost start = self.spans.records();
            if let TemplateNode::Element(el) = &nodes[i] {
                let mut k: usize = 0;
                while k < el.attributes.len()
                    invariant
                        k <= el.attributes.len(),
                        records_grow(start, self.spans.records()),
                        records_grow(old(self).spans.records(), self.spans.records()),
                        forall|q: int|
                            0 <= q < k ==> (failed_binding(#[trigger] el.attributes@[q]) matches Some(at)
                                ==> has_record_with(self.spans.records(), at, TaintStatus::Unknown)),
                    decreases el.attributes.len() - k,
                {
                    let ghost mid = self.spans.records();
                    match &el.attributes[k] {
                        Attribute::Directive(d) | Attribute::OnDirective(d) => {
                            if let Some(DirectiveValue::Expression(e)) = &d.value {
                                self.analyze_template_expr(e.raw.as_str(), e.span.start);
                            }
                        },
                        _ => {},
                    }
                    proof {
                        assert forall|q: int|
                            0 <= q < k + 1 implies (failed_binding(#[trigger] el.attributes@[q]) matches Some(at)
                                ==> has_record_with(self.spans.records(), at, TaintStatus::Unknown)) by {
                            if q < k {
                                if let Some(at) = failed_binding(el.attributes@[q]) {
                                    lemma_with_grow(mid, self.spans.records(), at, TaintStatus::Unknown);
                                }
                            }
                        }
                    }
                    k = k + 1;
                }
                proof {
                    assert(decreases_to!(nodes@ => nodes@[i as int]));
                }
                let ghost before_children = self.spans.records();
                self.analyze_template(&el.children);
                proof {
                    assert forall|q: int|
                        0 <= q < el.attributes.len() implies (failed_binding(#[trigger] el.attributes@[q]) matches Some(at)
                            ==> has_record_with(self.spans.records(), at, TaintStatus::Unknown)) by {
                        if let Some(at) = failed_binding(el.attributes@[q]) {
                            lemma_with_grow(before_children, self.spans.records(), at, TaintStatus::Unknown);
                        }
                    }
                    assert(failed_bindings_recorded(self.spans.records(), nodes@[i as int]));
                }
            }
            proof {
                assert forall|j: int| i < j < nodes.len() implies failed_bindings_recorded(
                    self.spans.records(),
                    #[trigger] nodes@[j],
                ) by {
                    lemma_failed_grow(start, self.spans.records(), nodes@[j]);
                }
            }
        }
    }
}

/// The expression does not parse: the parser rejects it, or its tree text
/// is not read as JSON.
pub open spec fn parse_expression_fails(raw: Seq<char>) -> bool {
    !(crate::parser::script::expression_estree_text(raw) matches Some(t) && crate::parser::estree::json_parses(t))
}

/// Some fact with `status` is recorded at `at`.
pub open spec fn has_record_with(records: Seq<(u32, TaintInfo)>, at: u32, status: TaintStatus) -> bool {
    exists|j: int| 0 <= j < records.len() && #[trigger] records[j].0 == at && records[j].1.status == status
}

/// Where a binding that does not parse starts: a directive or event
/// handler whose expression fails to parse.
pub open spec fn failed_binding(a: Attribute) -> Option<u32> {
    match a {
        Attribute::Directive(d) => match d.value {
            Some(DirectiveValue::Expression(e)) => if parse_expression_fails(e.raw@) {
                Some(e.span.start)
            } else {
                None
            },
            _ => None,
        },
        Attribute::OnDirective(d) => match d.value {
            Some(DirectiveValue::Expression(e)) => if parse_expression_fails(e.raw@) {
                Some(e.span.start)
            } else {
                None
            },
            _ => None,
        },
        _ => None,
    }
}

/// Every binding of the node's tree that does not parse has an unknown
/// fact recorded at its start.
pub open spec fn failed_bindings_recorded(records: Seq<(u32, TaintInfo)>, n: TemplateNode) -> bool
    decreases n,
{
    match n {
        TemplateNode::Element(el) => {
            &&& forall|k: int|
                0 <= k < el.attributes.len() ==> (failed_binding(#[trigger] el.attributes@[k]) matches Some(at)
                    ==> has_record_with(records, at, TaintStatus::Unknown))
            &&& forall|c: int|
                0 <= c < el.children.len() ==> failed_bindings_recorded(records, #[trigger] el.children@[c])
        },
        _ => true,
    }
}

pub open spec fn nodes_failed_recorded(records: Seq<(u32, TaintInfo)>, nodes: Seq<TemplateNode>) -> bool {
    forall|k: int| 0 <= k < nodes.len() ==> failed_bindings_recorded(records, #[trigger] nodes[k])
}

proof fn lemma_with_grow(before: Seq<(u32, TaintInfo)>, after: Seq<(u32, TaintInfo)>, at: u32, status: TaintStatus)
    requires
        records_grow(before, after),
        has_record_with(before, at, status),
    ensures
        has_record_with(after, at, status),
{
    let j = choose|j: int| 0 <= j < before.len() && #[trigger] before[j].0 == at && before[j].1.status == status;
    assert(after[j].0 == at);
}

proof fn lemma_failed_grow(before: Seq<(u32, TaintInfo)>, after: Seq<(u32, TaintInfo)>, n: TemplateNode)
    requires
        records_grow(before, after),
        failed_bindings_recorded(before, n),
    ensures
        failed_bindings_recorded(after, n),
    decreases n,
{
    if let TemplateNode::Element(el) = n {
        assert forall|k: int|
            0 <= k < el.attributes.len() implies (failed_binding(#[trigger] el.attributes@[k]) matches Some(at)
                ==> has_record_with(after, at, TaintStatus::Unknown)) by {
            if let Some(at) = failed_binding(el.attributes@[k]) {
                lemma_with_grow(before, after, at, TaintStatus::Unknown);
            }
        }
        assert forall|c: int| 0 <= c < el.children.len() implies failed_bindings_recorded(
            after,
            #[trigger] el.children@[c],
        ) by {
            assert(decreases_to!(el.children => el.children@));
            lemma_failed_grow(before, after, el.children@[c]);
        }
    }
}

/// Run the analysis over one file and return its facts: the script is
/// summarised, walked twice, and the template bindings are then read. A
/// file with neither a script tree nor a template tree has no facts.
pub fn analyze(ctx: &ScanContext) -> (r: TaintResult)
    ensures
        (ctx.script is None || ctx.script_ast is None) && ctx.template_ast is None ==> r.records().len()
            == 0,
        // Every template binding that does not parse has an unknown fact
        // at its start.
        ctx.template_ast matches Some(root) ==> nodes_failed_recorded(r.records(), root.children@),
{
    let mut a = Analyzer::new(ctx);
    if let (Some(_), Some(program)) = (&ctx.script, &ctx.script_ast) {
        collect_summaries(program, &mut a.functions);
        a.visit(program);
        a.visit(program);
    }
    if let Some(root) = &ctx.template_ast {
        a.analyze_template(&root.children);
    }
    a.spans
}

/// The documented taint sources: the storage reads, `fetch`, every listed
/// `axios` method, `useFetch` and `useRoute` are source calls, and nothing
/// else is; `defineProps` and the `document` lookups are source objects;
/// the sanitizers are `DOMPurify.sanitize`, `sanitize`, `escapeHtml`,
/// `htmlEscape`, `escape` and `xss`. No source is a sanitizer, so a call of
/// a source is classified tainted.
pub proof fn lemma_documented_sources(p: Seq<Seq<char>>)
    ensures
        is_source_call_path(p) <==> (p == seq!["localStorage"@, "getItem"@]
            || p == seq!["sessionStorage"@, "getItem"@]
            || p == seq!["fetch"@]
            || p == seq!["axios"@, "get"@]
            || p == seq!["axios"@, "post"@]
            || p == seq!["axios"@, "put"@]
            || p == seq!["axios"@, "patch"@]
            || p == seq!["axios"@, "delete"@]
            || p == seq!["axios"@, "request"@]
            || p == seq!["useFetch"@]
            || p == seq!["useRoute"@]),
        is_source_object_path(p) <==> (p == seq!["defineProps"@]
            || p == seq!["document"@, "getElementById"@]
            || p == seq!["document"@, "getElementsByClassName"@]
            || p == seq!["document"@, "getElementsByTagName"@]
            || p == seq!["document"@, "querySelector"@]
            || p == seq!["document"@, "querySelectorAll"@]),
        is_sanitizer_path(p) <==> (p == seq!["DOMPurify"@, "sanitize"@]
            || p == seq!["sanitize"@]
            || p == seq!["escapeHtml"@]
            || p == seq!["htmlEscape"@]
            || p == seq!["escape"@]
            || p == seq!["xss"@]),
        is_source_call_path(p) || is_source_object_path(p) ==> !is_sanitizer_path(p),
{
    reveal_strlit("DOMPurify");
    reveal_strlit("axios");
    reveal_strlit("defineProps");
    reveal_strlit("delete");
    reveal_strlit("document");
    reveal_strlit("escape");
    reveal_strlit("escapeHtml");
    reveal_strlit("fetch");
    reveal_strlit("get");
    reveal_strlit("getElementById");
    reveal_strlit("getElementsByClassName");
    reveal_strlit("getElementsByTagName");
    reveal_strlit("getItem");
    reveal_strlit("htmlEscape");
    reveal_strlit("localStorage");
    reveal_strlit("patch");
    reveal_strlit("post");
    reveal_strlit("put");
    reveal_strlit("querySelector");
    reveal_strlit("querySelectorAll");
    reveal_strlit("request");
    reveal_strlit("sanitize");
    reveal_strlit("sessionStorage");
    reveal_strlit("useFetch");
    reveal_strlit("useRoute");
    reveal_strlit("xss");
    assert("DOMPurify"@.len() == 9);
    assert("axios"@.len() == 5);
    assert("defineProps"@.len() == 11);
    assert("delete"@.len() == 6);
    assert("document"@.len() == 8);
    assert("escape"@.len() == 6);
    assert("escapeHtml"@.len() == 10);
    assert("fetch"@.len() == 5);
    assert("get"@.len() == 3);
    assert("getElementById"@.len() == 14);
    assert("getElementsByClassName"@.len() == 22);
    assert("getElementsByTagName"@.len() == 20);
    assert("getItem"@.len() == 7);
    assert("htmlEscape"@.len() == 10);
    assert("localStorage"@.len() == 12);
    assert("patch"@.len() == 5);
    assert("post"@.len() == 4);
    assert("put"@.len() == 3);
    assert("querySelector"@.len() == 13);
    assert("querySelectorAll"@.len() == 16);
    assert("request"@.len() == 7);
    assert("sanitize"@.len() == 8);
    assert("sessionStorage"@.len() == 14);
    assert("useFetch"@.len() == 8);
    assert("useRoute"@.len() == 8);
    assert("xss"@.len() == 3);
    assert("useFetch"@[0] != "sanitize"@[0]);
    assert("useRoute"@[0] != "sanitize"@[0]);
    if is_sanitizer_path(p) && (is_source_call_path(p) || is_source_object_path(p)) {
        if p.len() == 2 {
            assert(p[0] == "DOMPurify"@);
            assert(p[0].len() != 9);
        } else {
            assert(p.len() == 1);
            assert(p[0] == "sanitize"@ || p[0] == "escapeHtml"@ || p[0] == "htmlEscape"@ || p[0] == "escape"@
                || p[0] == "xss"@);
            assert(p[0] == "fetch"@ || p[0] == "useFetch"@ || p[0] == "useRoute"@ || p[0] == "defineProps"@);
            assert(p[0] == "useFetch"@ || p[0] == "useRoute"@);
            assert(p[0] == "sanitize"@);
            assert(p[0][0] != "sanitize"@[0]);
        }
    }
}

/// The reactivity wrappers `ref`, `reactive`, `computed` and `shallowRef`
/// and the converters `String` and `JSON.stringify` pass their argument's
/// taint on, and no other call does so by name; the methods that answer a
/// boolean, index or key (`includes`, `indexOf`, `lastIndexOf`,
/// `startsWith`, `endsWith`, `some`, `every`, `findIndex`, `findLastIndex`,
/// `has`, `isArray`, `keys`, `values`, `entries`) are exactly those whose
/// result a tainted receiver does not taint.
pub proof fn lemma_documented_propagators(p: Seq<Seq<char>>, m: Seq<char>)
    ensures
        is_wrapping_path(p) <==> (p == seq!["computed"@] || p == seq!["ref"@] || p == seq!["reactive"@]
            || p == seq!["shallowRef"@] || p == seq!["String"@] || p == seq!["JSON"@, "stringify"@]),
        is_boolean_method(m) <==> (m == "includes"@ || m == "indexOf"@ || m == "lastIndexOf"@ || m
            == "startsWith"@ || m == "endsWith"@ || m == "some"@ || m == "every"@ || m == "findIndex"@
            || m == "findLastIndex"@ || m == "has"@ || m == "isArray"@ || m == "keys"@ || m
            == "values"@ || m == "entries"@),
{
}

} // verus!
