//! Auth-looking values written to `localStorage` are reachable by any
//! script on the page.
//!
//! The rule fires on `localStorage.setItem(key, value)` when the key or the
//! value reads like a credential: its text (a string literal's value, an
//! identifier's name, a member's property name) contains one of `token`,
//! `jwt`, `secret`, `auth`, `password`, `credential`, ignoring case.

use vstd::prelude::*;

use crate::context::ScanContext;
use crate::parser::estree::{get, get_field, is_type, node_type, Json};
use crate::parser::script::{
    call_arg, call_args, callee_path, get_ident_name, get_string_lit, ident_name,
    ident_name_of_property, is_static_member, is_string_lit, path_is2, spec_callee_path,
    static_member, string_lit_value,
};
use crate::rules::{finding_spans, Category, Finding, Rule, RuleInfo, RuleKind};
use crate::severity::Severity;
use crate::text::{chars_of, contains_in, lower_range, spec_ascii_lower_seq, spec_contains_in};
use crate::visitor::script::{check_script, script_hits, ScriptCheck};

verus! {

pub struct NoUnsafeLocalStorage;

/// The text an argument is judged by; `None` for other shapes and for an
/// empty text.
pub open spec fn arg_text(a: Json) -> Option<Seq<char>> {
    let t = if is_string_lit(a) {
        string_lit_value(a)
    } else if ident_name(a) is Some {
        ident_name(a)
    } else if is_static_member(a) {
        ident_name_of_property(a)
    } else if node_type(a) == "TemplateLiteral"@ {
        Some("template-literal"@)
    } else {
        None
    };
    match t {
        Some(s) => if s.len() > 0 {
            Some(s)
        } else {
            None
        },
        None => None,
    }
}

/// The text, lower-cased, contains a credential hint.
pub open spec fn has_hint(s: Seq<char>) -> bool {
    let l = spec_ascii_lower_seq(s);
    spec_contains_in(l, 0, l.len() as int, "token"@) || spec_contains_in(l, 0, l.len() as int, "jwt"@)
        || spec_contains_in(l, 0, l.len() as int, "secret"@) || spec_contains_in(
        l,
        0,
        l.len() as int,
        "auth"@,
    ) || spec_contains_in(l, 0, l.len() as int, "password"@) || spec_contains_in(
        l,
        0,
        l.len() as int,
        "credential"@,
    )
}

pub open spec fn arg_has_hint(args: Seq<Json>, i: int) -> bool {
    i < args.len() && (arg_text(args[i]) matches Some(t) && has_hint(t))
}

/// `localStorage.setItem(key, value)` with a credential-looking key or
/// value.
pub open spec fn hit(n: Json) -> bool {
    node_type(n) == "CallExpression"@ && spec_callee_path(n) == seq!["localStorage"@, "setItem"@] && (
    arg_has_hint(call_args(n), 0) || arg_has_hint(call_args(n), 1))
}

fn get_arg_text(a: &Json) -> (r: Option<Vec<char>>)
    ensures
        match r {
            Some(t) => arg_text(*a) == Some(t@),
            None => arg_text(*a) is None,
        },
{
    let t: Vec<char> = if is_type(a, "Literal") && get_string_lit(a).is_some() {
        match get_string_lit(a) {
            Some(v) => chars_of(v.as_str()),
            None => Vec::new(),
        }
    } else if get_ident_name(a).is_some() {
        match get_ident_name(a) {
            Some(v) => chars_of(v.as_str()),
            None => Vec::new(),
        }
    } else if static_member(a).is_some() {
        match get_field(a, "property") {
            Some(p) => match get_ident_name(p) {
                Some(v) => chars_of(v.as_str()),
                None => Vec::new(),
            },
            None => Vec::new(),
        }
    } else if is_type(a, "TemplateLiteral") {
        chars_of("template-literal")
    } else {
        return None;
    };
    if t.len() > 0 {
        Some(t)
    } else {
        None
    }
}

fn text_has_hint(t: &Vec<char>) -> (r: bool)
    ensures
        r == has_hint(t@),
{
    let l = lower_range(t, 0, t.len());
    assert(t@.subrange(0, t@.len() as int) =~= t@);
    contains_in(&l, 0, l.len(), &chars_of("token")) || contains_in(&l, 0, l.len(), &chars_of("jwt"))
        || contains_in(&l, 0, l.len(), &chars_of("secret")) || contains_in(
        &l,
        0,
        l.len(),
        &chars_of("auth"),
    ) || contains_in(&l, 0, l.len(), &chars_of("password")) || contains_in(
        &l,
        0,
        l.len(),
        &chars_of("credential"),
    )
}

fn arg_hint(n: &Json, i: usize) -> (r: bool)
    ensures
        r == arg_has_hint(call_args(*n), i as int),
{
    match call_arg(n, i) {
        Some(a) => match get_arg_text(a) {
            Some(t) => text_has_hint(&t),
            None => false,
        },
        None => false,
    }
}

pub fn is_hit(n: &Json) -> (r: bool)
    ensures
        r == hit(*n),
{
    if !is_type(n, "CallExpression") {
        return false;
    }
    let path = callee_path(n);
    path_is2(&path, "localStorage", "setItem") && (arg_hint(n, 0) || arg_hint(n, 1))
}

impl Rule for NoUnsafeLocalStorage {
    fn info(&self) -> (r: RuleInfo)
        ensures
            r.id@ == "vue/security/no-unsafe-localstorage"@,
            r.name@ == "no-unsafe-localstorage"@,
            r.severity == Severity::High,
            r.category == Category::Security,
    {
        RuleInfo {
            id: "vue/security/no-unsafe-localstorage",
            name: "no-unsafe-localstorage",
            description: "Warn when an auth-looking value is written to `localStorage`",
            severity: Severity::High,
            category: Category::Security,
            kind: RuleKind::Syntactic,
            message: "Auth-looking value is being written to `localStorage`",
            label: "localStorage.setItem of auth-looking value here",
            help: "Tokens in `localStorage` are reachable by any script running on the page (including injected ones) and persist across sessions. Prefer an `HttpOnly; Secure` cookie set by the server, or use `sessionStorage` for short-lived data.",
        }
    }

    fn check(&self, ctx: &ScanContext) -> (r: Vec<Finding>)
        ensures
            finding_spans(r@) == script_hits(ScriptCheck::LocalStorage, *ctx),
    {
        check_script(ScriptCheck::LocalStorage, ctx)
    }
}

} // verus!
