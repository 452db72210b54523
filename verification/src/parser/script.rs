//! The `<script>` block's syntax tree, and the helpers the script rules
//! share: most of them find a call to a known-dangerous function and
//! report it, so they need to recognise `name(...)`, `obj.name(...)` and
//! `window.obj.name(...)` call shapes.

use vstd::prelude::*;

use crate::context::ScriptLang;
use crate::parser::estree::{
    get, get_field, get_items, get_range, get_str, is_type, items_of, lemma_get_smaller, node_type,
    json_parses, parse_json, range_of, str_of, Json,
};
use crate::parser::template::Span;
use crate::text::str_eq;

verus! {

/// A span in the parsed script text.
#[derive(Debug, Clone, Copy)]
pub struct SpanInfo {
    pub start: u32,
    pub end: u32,
}

impl SpanInfo {
    /// Length of the span.
    pub fn len(self) -> (r: u32)
        requires
            self.start <= self.end,
        ensures
            r == self.end - self.start,
    {
        self.end - self.start
    }

    /// True when the span covers nothing.
    pub fn is_empty(self) -> (r: bool)
        ensures
            r == (self.end == self.start),
    {
        self.end == self.start
    }
}

/// A call that a rule matched, with the label shown in its diagnostic.
#[derive(Debug, Clone)]
pub struct CallMatch {
    pub call: SpanInfo,
    pub label: &'static str,
}

/// The ESTree JSON that oxc gives for a script parsed as a module
/// (TypeScript when `ts`): a function of the source alone.
pub uninterp spec fn program_estree_text(source: Seq<char>, ts: bool) -> Seq<char>;

/// The ESTree JSON that oxc gives for `raw` parsed as one expression, or
/// none when `raw` is not exactly one expression.
pub uninterp spec fn expression_estree_text(raw: Seq<char>) -> Option<Seq<char>>;

/// oxc's parser (`Parser::parse`) on `source`, its program serialised with
/// `Program::to_estree_json` (TypeScript fields included for TypeScript).
/// The result is named: the same source gives the same text.
#[verifier::external_body]
fn program_estree(source: &str, ts: bool) -> (r: String)
    ensures
        r@ == program_estree_text(source@, ts),
{
    let allocator = oxc_allocator::Allocator::default();
    let source_type = if ts { oxc_span::SourceType::ts() } else { oxc_span::SourceType::default() };
    let ret = oxc_parser::Parser::new(&allocator, source, source_type).parse();
    ret.program.to_estree_json(ts, false)
}

/// oxc's `Parser::parse_expression` on `raw`, the expression serialised
/// to ESTree JSON (`oxc_estree::CompactSerializer`); `None` when the
/// parser reports an error. The result is named.
#[verifier::external_body]
fn expression_estree(raw: &str) -> (r: Option<String>)
    ensures
        match r {
            Some(t) => expression_estree_text(raw@) == Some(t@),
            None => expression_estree_text(raw@) is None,
        },
{
    let allocator = oxc_allocator::Allocator::default();
    let parser = oxc_parser::Parser::new(&allocator, raw, oxc_span::SourceType::default());
    match parser.parse_expression() {
        Ok(expr) => {
            let mut serializer = oxc_estree::CompactSerializer::new(false, false);
            oxc_estree::ESTree::serialize(&expr, &mut serializer);
            Some(serializer.into_string())
        },
        Err(_) => None,
    }
}

/// Parse a `<script>` block into its ESTree tree (a `Program` node).
/// A TypeScript block is parsed as TypeScript; anything else as
/// JavaScript. Syntax errors leave the parser's partial tree.
pub fn parse_script(source: &str, lang: ScriptLang) -> (r: Json)
    ensures
        !json_parses(program_estree_text(source@, lang == ScriptLang::TypeScript)) ==> r is Null,
{
    let ts = match lang {
        ScriptLang::TypeScript => true,
        _ => false,
    };
    let text = program_estree(source, ts);
    match parse_json(text.as_str()) {
        Some(tree) => tree,
        None => Json::Null,
    }
}

/// Parse `raw` as one JavaScript expression; `None` when it is not one.
pub fn parse_expression(raw: &str) -> (r: Option<Json>)
    ensures
        r is Some <==> (expression_estree_text(raw@) matches Some(t) && json_parses(t)),
{
    match expression_estree(raw) {
        Some(text) => parse_json(text.as_str()),
        None => None,
    }
}

/// The name of an `Identifier` node.
pub open spec fn ident_name(e: Json) -> Option<Seq<char>> {
    if node_type(e) == "Identifier"@ {
        str_of(get(e, "name"@))
    } else {
        None
    }
}

/// True for a string literal.
pub open spec fn is_string_lit(e: Json) -> bool {
    node_type(e) == "Literal"@ && get(e, "value"@) matches Some(Json::Str(_))
}

/// The value of a string literal.
pub open spec fn string_lit_value(e: Json) -> Option<Seq<char>> {
    if node_type(e) == "Literal"@ {
        str_of(get(e, "value"@))
    } else {
        None
    }
}

/// True for a non-computed member access `a.b` (oxc's static member
/// expression).
pub open spec fn is_static_member(e: Json) -> bool {
    node_type(e) == "MemberExpression"@ && !(get(e, "computed"@) == Some(Json::Bool(true)))
        && ident_name_of_property(e) is Some
}

/// The name of a member access's property when it is an identifier.
pub open spec fn ident_name_of_property(e: Json) -> Option<Seq<char>> {
    match get(e, "property"@) {
        Some(p) => ident_name(p),
        None => None,
    }
}

/// The segments of an access path `a.b.c` (`a[x].c` skips the computed
/// part), outer to inner; `None` for any other shape.
pub open spec fn expr_path(e: Json) -> Option<Seq<Seq<char>>>
    decreases e,
{
    if ident_name(e) is Some {
        Some(seq![ident_name(e)->0])
    } else if node_type(e) == "MemberExpression"@ {
        match get(e, "object"@) {
            Some(o) => {
                proof {
                    lemma_get_smaller(e, "object"@);
                }
                if get(e, "computed"@) == Some(Json::Bool(true)) {
                    expr_path(o)
                } else {
                    match (ident_name_of_property(e), expr_path(o)) {
                        (Some(n), Some(p)) => Some(p.push(n)),
                        _ => None,
                    }
                }
            },
            None => None,
        }
    } else {
        None
    }
}

/// The callee path of a call: `["window", "open"]` for
/// `window.open(...)`; empty for any other callee shape.
pub open spec fn spec_callee_path(call: Json) -> Seq<Seq<char>> {
    match get(call, "callee"@) {
        Some(c) => match expr_path(c) {
            Some(p) => p,
            None => seq![],
        },
        None => seq![],
    }
}

/// The texts of a list of strings.
pub open spec fn texts(v: Seq<String>) -> Seq<Seq<char>> {
    v.map_values(|s: String| s@)
}

/// The arguments of a call.
pub open spec fn call_args(call: Json) -> Seq<Json> {
    items_of(get(call, "arguments"@))
}

/// The name of an `Identifier` node.
pub fn get_ident_name(e: &Json) -> (r: Option<&String>)
    ensures
        match r {
            Some(s) => ident_name(*e) == Some(s@),
            None => ident_name(*e) is None,
        },
{
    if is_type(e, "Identifier") {
        get_str(e, "name")
    } else {
        None
    }
}

/// The value of a string literal.
pub fn get_string_lit(e: &Json) -> (r: Option<&String>)
    ensures
        match r {
            Some(s) => string_lit_value(*e) == Some(s@),
            None => string_lit_value(*e) is None,
        },
{
    if is_type(e, "Literal") {
        get_str(e, "value")
    } else {
        None
    }
}

/// True when the `computed` member of `e` is `true`.
pub fn is_computed(e: &Json) -> (r: bool)
    ensures
        r == (get(*e, "computed"@) == Some(Json::Bool(true))),
{
    match get_field(e, "computed") {
        Some(Json::Bool(b)) => *b,
        _ => false,
    }
}

fn push_path(e: &Json, out: &mut Vec<String>) -> (ok: bool)
    ensures
        ok == (expr_path(*e) is Some),
        ok ==> texts(final(out)@) == texts(old(out)@) + expr_path(*e)->0,
    decreases *e,
{
    if let Some(n) = get_ident_name(e) {
        out.push(n.clone());
        proof {
            assert(texts(out@) =~= texts(old(out)@) + seq![n@]);
        }
        return true;
    }
    if !is_type(e, "MemberExpression") {
        return false;
    }
    match get_field(e, "object") {
        Some(o) => {
            proof {
                lemma_get_smaller(*e, "object"@);
            }
            if is_computed(e) {
                return push_path(o, out);
            }
            let prop = match get_field(e, "property") {
                Some(p) => match get_ident_name(p) {
                    Some(n) => n,
                    None => {
                        return false;
                    },
                },
                None => {
                    return false;
                },
            };
            if !push_path(o, out) {
                return false;
            }
            let ghost mid = texts(out@);
            assert(ident_name_of_property(*e) == Some(prop@));
            assert(expr_path(*e) == Some(expr_path(*o)->0.push(prop@)));
            out.push(prop.clone());
            proof {
                assert(texts(out@) =~= mid.push(prop@));
                assert(texts(out@) =~= texts(old(out)@) + expr_path(*e)->0);
            }
            true
        },
        None => false,
    }
}

/// The callee path of a call (see [`spec_callee_path`]).
pub fn callee_path(call: &Json) -> (r: Vec<String>)
    ensures
        texts(r@) == spec_callee_path(*call),
{
    let mut out: Vec<String> = Vec::new();
    match get_field(call, "callee") {
        Some(c) => {
            if push_path(c, &mut out) {
                assert(texts(out@) =~= spec_callee_path(*call));
                out
            } else {
                let empty: Vec<String> = Vec::new();
                assert(texts(empty@) =~= spec_callee_path(*call));
                empty
            }
        },
        None => {
            assert(texts(out@) =~= spec_callee_path(*call));
            out
        },
    }
}

/// The texts of a list of string slices.
pub open spec fn str_texts(v: Seq<&str>) -> Seq<Seq<char>> {
    v.map_values(|s: &str| s@)
}

/// True when the call's callee path is exactly `expected`.
pub fn is_call_named(call: &Json, expected: &[&str]) -> (r: bool)
    ensures
        r == (spec_callee_path(*call) == str_texts(expected@)),
{
    let path = callee_path(call);
    if path.len() != expected.len() {
        proof {
            if spec_callee_path(*call) == str_texts(expected@) {
                assert(texts(path@).len() == str_texts(expected@).len());
            }
        }
        return false;
    }
    let mut i: usize = 0;
    while i < path.len()
        invariant
            i <= path.len(),
            path.len() == expected.len(),
            texts(path@) == spec_callee_path(*call),
            forall|k: int| 0 <= k < i ==> texts(path@)[k] == str_texts(expected@)[k],
        decreases path.len() - i,
    {
        if !str_eq(path[i].as_str(), expected[i]) {
            proof {
                assert(texts(path@)[i as int] != str_texts(expected@)[i as int]);
            }
            return false;
        }
        i = i + 1;
    }
    assert(texts(path@) =~= str_texts(expected@));
    true
}

/// True when the path is the single segment `a`.
pub fn path_is1(p: &Vec<String>, a: &str) -> (r: bool)
    ensures
        r == (texts(p@) == seq![a@]),
{
    if p.len() != 1 {
        proof {
            if texts(p@) == seq![a@] {
                assert(texts(p@).len() == 1);
            }
        }
        return false;
    }
    let r = str_eq(p[0].as_str(), a);
    proof {
        if r {
            assert(texts(p@) =~= seq![a@]);
        } else if texts(p@) == seq![a@] {
            assert(texts(p@)[0] == a@);
        }
    }
    r
}

/// True when the path is the two segments `a.b`.
pub fn path_is2(p: &Vec<String>, a: &str, b: &str) -> (r: bool)
    ensures
        r == (texts(p@) == seq![a@, b@]),
{
    if p.len() != 2 {
        proof {
            if texts(p@) == seq![a@, b@] {
                assert(texts(p@).len() == 2);
            }
        }
        return false;
    }
    let r = str_eq(p[0].as_str(), a) && str_eq(p[1].as_str(), b);
    proof {
        if r {
            assert(texts(p@) =~= seq![a@, b@]);
        } else if texts(p@) == seq![a@, b@] {
            assert(texts(p@)[0] == a@);
            assert(texts(p@)[1] == b@);
        }
    }
    r
}

/// True when the path's last segment is `a`.
pub fn path_last_is(p: &Vec<String>, a: &str) -> (r: bool)
    ensures
        r == (p@.len() > 0 && texts(p@).last() == a@),
{
    if p.len() == 0 {
        return false;
    }
    str_eq(p[p.len() - 1].as_str(), a)
}

/// The `i`-th argument of a call.
pub fn call_arg(call: &Json, i: usize) -> (r: Option<&Json>)
    ensures
        match r {
            Some(a) => i < call_args(*call).len() && *a == call_args(*call)[i as int],
            None => i >= call_args(*call).len(),
        },
{
    match get_items(call, "arguments") {
        Some(args) => {
            if i < args.len() {
                Some(&args[i])
            } else {
                None
            }
        },
        None => None,
    }
}

/// Number of arguments of a call.
pub fn call_arg_count(call: &Json) -> (r: usize)
    ensures
        r == call_args(*call).len(),
{
    match get_items(call, "arguments") {
        Some(args) => args.len(),
        None => 0,
    }
}

/// True for a string literal.
pub fn is_string_literal(e: &Json) -> (r: bool)
    ensures
        r == is_string_lit(*e),
{
    if !is_type(e, "Literal") {
        return false;
    }
    match get_field(e, "value") {
        Some(Json::Str(_)) => true,
        _ => false,
    }
}

/// The value of the call's first argument when it is a string literal.
pub fn argument_as_string_literal(call: &Json) -> (r: Option<&String>)
    ensures
        match r {
            Some(s) => call_args(*call).len() > 0 && string_lit_value(call_args(*call)[0]) == Some(s@),
            None => call_args(*call).len() == 0 || string_lit_value(call_args(*call)[0]) is None,
        },
{
    match get_items(call, "arguments") {
        Some(args) => {
            if args.len() == 0 {
                None
            } else {
                get_string_lit(&args[0])
            }
        },
        None => None,
    }
}

/// The expression itself when it is a non-computed member access.
pub fn static_member(expr: &Json) -> (r: Option<&Json>)
    ensures
        match r {
            Some(m) => *m == *expr && is_static_member(*expr),
            None => !is_static_member(*expr),
        },
{
    if !is_type(expr, "MemberExpression") || is_computed(expr) {
        return None;
    }
    match get_field(expr, "property") {
        Some(p) => match get_ident_name(p) {
            Some(_) => Some(expr),
            None => None,
        },
        None => None,
    }
}

/// The file span of a script node: its offsets in the script moved by the
/// script's offset in the file. `None` when the node has no offsets or the
/// moved span does not fit the file's offset range.
pub open spec fn script_span(off: int, n: Json) -> Option<Span> {
    match range_of(n) {
        Some((s, e)) => if s <= e && off + e <= u32::MAX {
            Some(Span { start: (off + s) as u32, end: (off + e) as u32 })
        } else {
            None
        },
        None => None,
    }
}

/// The file span of a script node (see [`script_span`]).
pub fn node_span(off: usize, n: &Json) -> (r: Option<Span>)
    ensures
        r == script_span(off as int, *n),
{
    match get_range(n) {
        Some((s, e)) => {
            if s <= e && e <= 0xffff_ffffu64 && (off as u64) <= 0xffff_ffffu64 - e {
                let start = (off as u64 + s) as u32;
                let end = (off as u64 + e) as u32;
                Some(Span { start, end })
            } else {
                None
            }
        },
        None => None,
    }
}

/// The file offset where a script node starts, when it fits.
pub open spec fn script_start(off: int, n: Json) -> Option<u32> {
    match range_of(n) {
        Some((s, e)) => if off + s <= u32::MAX {
            Some((off + s) as u32)
        } else {
            None
        },
        None => None,
    }
}

/// The file offset where a script node starts (see [`script_start`]).
pub fn node_start(off: usize, n: &Json) -> (r: Option<u32>)
    ensures
        r == script_start(off as int, *n),
{
    match get_range(n) {
        Some((s, _e)) => {
            if s <= 0xffff_ffffu64 && (off as u64) <= 0xffff_ffffu64 - s {
                Some((off as u64 + s) as u32)
            } else {
                None
            }
        },
        None => None,
    }
}

/// The static name of an object property's key: a non-computed
/// identifier, or a string literal.
pub open spec fn prop_key_name(p: Json) -> Option<Seq<char>> {
    if node_type(p) != "Property"@ {
        None
    } else {
        match get(p, "key"@) {
            Some(k) => if ident_name(k) is Some && !(get(p, "computed"@) == Some(Json::Bool(true))) {
                ident_name(k)
            } else {
                string_lit_value(k)
            },
            None => None,
        }
    }
}

/// The static name of an object property's key (see [`prop_key_name`]).
pub fn get_prop_key_name(p: &Json) -> (r: Option<&String>)
    ensures
        match r {
            Some(s) => prop_key_name(*p) == Some(s@),
            None => prop_key_name(*p) is None,
        },
{
    if !is_type(p, "Property") {
        return None;
    }
    match get_field(p, "key") {
        Some(k) => {
            match get_ident_name(k) {
                Some(n) => {
                    if !is_computed(p) {
                        return Some(n);
                    }
                },
                None => {},
            }
            get_string_lit(k)
        },
        None => None,
    }
}

/// The properties of an object expression (empty for anything else).
pub open spec fn object_props(o: Json) -> Seq<Json> {
    if node_type(o) == "ObjectExpression"@ {
        items_of(get(o, "properties"@))
    } else {
        seq![]
    }
}

/// True when `o` is an object expression with a property named `name`
/// whose value satisfies nothing in particular.
pub open spec fn has_prop_named(o: Json, name: Seq<char>) -> bool {
    exists|k: int| 0 <= k < object_props(o).len() && prop_key_name(#[trigger] object_props(o)[k]) == Some(name)
}

/// True when `o` is an object expression with a property named `name`.
pub fn object_has_prop(o: &Json, name: &str) -> (r: bool)
    ensures
        r == has_prop_named(*o, name@),
{
    if !is_type(o, "ObjectExpression") {
        return false;
    }
    match get_items(o, "properties") {
        Some(props) => {
            let mut i: usize = 0;
            while i < props.len()
                invariant
                    i <= props.len(),
                    object_props(*o) == props@,
                    forall|k: int| 0 <= k < i ==> prop_key_name(#[trigger] props@[k]) != Some(name@),
                decreases props.len() - i,
            {
                match get_prop_key_name(&props[i]) {
                    Some(n) => {
                        if str_eq(n.as_str(), name) {
                            return true;
                        }
                    },
                    None => {},
                }
                i = i + 1;
            }
            false
        },
        None => false,
    }
}

} // verus!
