//! A `watch(source, callback)` at module scope has no component to dispose
//! it.
//!
//! Calls inside a function, an arrow function, an object literal or a
//! class are owned by a component (`setup()`, Options API) and are not
//! reported; nor is anything in a `<script setup>` block, whose watchers
//! Vue disposes with the component.

use vstd::prelude::*;

use crate::context::ScanContext;
use crate::parser::estree::{is_type, node_type, Json};
use crate::parser::script::{call_arg, call_args, callee_path, path_is1, spec_callee_path};
use crate::rules::{finding_spans, Category, Finding, Rule, RuleInfo, RuleKind};
use crate::severity::Severity;
use crate::visitor::script::{check_script, script_hits, ScriptCheck};

verus! {

pub struct NoWatchWithCallback;

/// `watch(source, callback)` whose second argument is a function.
pub open spec fn hit(n: Json) -> bool {
    node_type(n) == "CallExpression"@ && spec_callee_path(n) == seq!["watch"@] && call_args(n).len() >= 2
        && (node_type(call_args(n)[1]) == "ArrowFunctionExpression"@ || node_type(call_args(n)[1])
        == "FunctionExpression"@)
}

pub fn is_hit(n: &Json) -> (r: bool)
    ensures
        r == hit(*n),
{
    if !is_type(n, "CallExpression") {
        return false;
    }
    let path = callee_path(n);
    if !path_is1(&path, "watch") {
        return false;
    }
    match call_arg(n, 1) {
        Some(cb) => is_type(cb, "ArrowFunctionExpression") || is_type(cb, "FunctionExpression"),
        None => false,
    }
}

impl Rule for NoWatchWithCallback {
    fn info(&self) -> (r: RuleInfo)
        ensures
            r.id@ == "vue/best-practice/no-watch-with-callback"@,
            r.name@ == "no-watch-with-callback"@,
            r.severity == Severity::Low,
            r.category == Category::BestPractice,
    {
        RuleInfo {
            id: "vue/best-practice/no-watch-with-callback",
            name: "no-watch-with-callback",
            description: "Warn about `watch(source, callback)` calls at module scope that have no owner to dispose them",
            severity: Severity::Low,
            category: Category::BestPractice,
            kind: RuleKind::Syntactic,
            message: "`watch` at module scope has no component lifecycle to dispose it",
            label: "module-scope `watch(source, callback)` call here",
            help: "In `<script setup>` and Options API, Vue disposes watchers automatically with the component. A module-scope `watch` (outside any component) has no owner and keeps its closure alive until the page unloads — move it into a component, or stop it explicitly with the returned stop handle.",
        }
    }

    fn check(&self, ctx: &ScanContext) -> (r: Vec<Finding>)
        ensures
            finding_spans(r@) == script_hits(ScriptCheck::Watch, *ctx),
    {
        check_script(ScriptCheck::Watch, ctx)
    }
}

} // verus!
