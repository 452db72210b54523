//! `eval(...)`, `new Function(...)`, and `setTimeout` / `setInterval`
//! with a string argument execute strings as code.

use vstd::prelude::*;

use crate::context::ScanContext;
use crate::parser::estree::{get, get_field, is_type, node_type, Json};
use crate::parser::script::{
    call_arg, call_args, callee_path, get_ident_name, ident_name, is_string_lit, is_string_literal,
    path_is1, spec_callee_path,
};
use crate::parser::template::Span;
use crate::rules::{finding_spans, Category, Finding, Rule, RuleInfo, RuleKind};
use crate::severity::Severity;
use crate::text::str_is;
use crate::visitor::script::{check_script, script_hits, ScriptCheck};

verus! {

pub struct NoEval;

/// `eval(...)`, or `setTimeout` / `setInterval` whose first argument is a
/// string literal.
pub open spec fn call_hit(n: Json) -> bool {
    node_type(n) == "CallExpression"@ && (spec_callee_path(n) == seq!["eval"@] || ((
    spec_callee_path(n) == seq!["setTimeout"@] || spec_callee_path(n) == seq!["setInterval"@])
        && call_args(n).len() > 0 && is_string_lit(call_args(n)[0])))
}

/// `new Function(...)`.
pub open spec fn new_hit(n: Json) -> bool {
    node_type(n) == "NewExpression"@ && (get(n, "callee"@) matches Some(c) && ident_name(c) == Some(
        "Function"@,
    ))
}

pub fn is_call_hit(n: &Json) -> (r: bool)
    ensures
        r == call_hit(*n),
{
    if !is_type(n, "CallExpression") {
        return false;
    }
    let path = callee_path(n);
    if path_is1(&path, "eval") {
        return true;
    }
    if path_is1(&path, "setTimeout") || path_is1(&path, "setInterval") {
        match call_arg(n, 0) {
            Some(a) => is_string_literal(a),
            None => false,
        }
    } else {
        false
    }
}

pub fn is_new_hit(n: &Json) -> (r: bool)
    ensures
        r == new_hit(*n),
{
    if !is_type(n, "NewExpression") {
        return false;
    }
    match get_field(n, "callee") {
        Some(c) => match get_ident_name(c) {
            Some(name) => str_is(name, "Function"),
            None => false,
        },
        None => false,
    }
}

impl Rule for NoEval {
    fn info(&self) -> (r: RuleInfo)
        ensures
            r.id@ == "vue/security/no-eval"@,
            r.name@ == "no-eval"@,
            r.severity == Severity::Critical,
            r.category == Category::Security,
    {
        RuleInfo {
            id: "vue/security/no-eval",
            name: "no-eval",
            description: "Disallow `eval(...)`, `new Function(...)`, and `setTimeout`/`setInterval` with string arguments",
            severity: Severity::Critical,
            category: Category::Security,
            kind: RuleKind::Syntactic,
            message: "`eval` and `new Function` execute arbitrary code",
            label: "eval / new Function call here",
            help: "`eval` (and `new Function`) execute strings as JavaScript. With any attacker-controlled substring this is RCE. Refactor to a static expression, a lookup table, or `Function.prototype` bindings.",
        }
    }

    /// The calls first, then the `new Function` expressions.
    fn check(&self, ctx: &ScanContext) -> (r: Vec<Finding>)
        ensures
            finding_spans(r@) == script_hits(ScriptCheck::EvalCall, *ctx) + script_hits(
                ScriptCheck::NewFunction,
                *ctx,
            ),
    {
        let mut calls = check_script(ScriptCheck::EvalCall, ctx);
        let mut news = check_script(ScriptCheck::NewFunction, ctx);
        let ghost a = calls@;
        let ghost b = news@;
        calls.append(&mut news);
        assert(finding_spans(calls@) =~= finding_spans(a) + finding_spans(b));
        calls
    }
}

} // verus!
