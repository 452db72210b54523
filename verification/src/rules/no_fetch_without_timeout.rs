//! `fetch` without an `AbortSignal` can hang indefinitely.
//!
//! The rule fires on `fetch(url)` with a string-literal URL and no
//! options, and on `fetch(url, { ... })` whose inline options object has
//! no `signal`. Options passed as a variable are not judged.

use vstd::prelude::*;

use crate::context::ScanContext;
use crate::parser::estree::{is_type, node_type, Json};
use crate::parser::script::{
    call_arg, call_arg_count, call_args, callee_path, has_prop_named, is_string_lit,
    is_string_literal, object_has_prop, path_is1, path_is2, spec_callee_path,
};
use crate::rules::{finding_spans, Category, Finding, Rule, RuleInfo, RuleKind};
use crate::severity::Severity;
use crate::visitor::script::{check_script, script_hits, ScriptCheck};

verus! {

pub struct NoFetchWithoutTimeout;

/// `fetch`, `window.fetch`, `globalThis.fetch` or `self.fetch`.
pub open spec fn is_fetch(n: Json) -> bool {
    let p = spec_callee_path(n);
    p == seq!["fetch"@] || p == seq!["window"@, "fetch"@] || p == seq!["globalThis"@, "fetch"@] || p
        == seq!["self"@, "fetch"@]
}

/// No `signal` is passed.
pub open spec fn missing_signal(n: Json) -> bool {
    let args = call_args(n);
    if args.len() > 1 {
        node_type(args[1]) == "ObjectExpression"@ && !has_prop_named(args[1], "signal"@)
    } else {
        args.len() == 1 && is_string_lit(args[0])
    }
}

pub open spec fn hit(n: Json) -> bool {
    node_type(n) == "CallExpression"@ && is_fetch(n) && missing_signal(n)
}

pub fn is_hit(n: &Json) -> (r: bool)
    ensures
        r == hit(*n),
{
    if !is_type(n, "CallExpression") {
        return false;
    }
    let p = callee_path(n);
    if !(path_is1(&p, "fetch") || path_is2(&p, "window", "fetch") || path_is2(&p, "globalThis", "fetch")
        || path_is2(&p, "self", "fetch")) {
        return false;
    }
    let count = call_arg_count(n);
    if count > 1 {
        match call_arg(n, 1) {
            Some(o) => is_type(o, "ObjectExpression") && !object_has_prop(o, "signal"),
            None => false,
        }
    } else if count == 1 {
        match call_arg(n, 0) {
            Some(a) => is_string_literal(a),
            None => false,
        }
    } else {
        false
    }
}

impl Rule for NoFetchWithoutTimeout {
    fn info(&self) -> (r: RuleInfo)
        ensures
            r.id@ == "vue/security/no-fetch-without-timeout"@,
            r.name@ == "no-fetch-without-timeout"@,
            r.severity == Severity::High,
            r.category == Category::Security,
    {
        RuleInfo {
            id: "vue/security/no-fetch-without-timeout",
            name: "no-fetch-without-timeout",
            description: "Disallow `fetch(url)` without an `AbortSignal` to bound request lifetime",
            severity: Severity::High,
            category: Category::Security,
            kind: RuleKind::Syntactic,
            message: "`fetch` is called without an `AbortSignal`",
            label: "fetch call here",
            help: "Pass a `signal` from an `AbortController` so the request can be cancelled: `fetch(url, { signal: ctrl.signal })`. Without it, a slow or unreachable host can hang the call indefinitely, exhausting the connection pool and leaking user state. Pair with a `setTimeout` to bound the wait time.",
        }
    }

    fn check(&self, ctx: &ScanContext) -> (r: Vec<Finding>)
        ensures
            finding_spans(r@) == script_hits(ScriptCheck::Fetch, *ctx),
    {
        check_script(ScriptCheck::Fetch, ctx)
    }
}

} // verus!
