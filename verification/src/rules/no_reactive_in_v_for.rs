//! Reactive wrappers (`ref`, `reactive`, `shallowRef`, `shallowReactive`,
//! `computed`) created inside a loop body: a `for` / `for...in` /
//! `for...of` statement, or the callback of an array iteration method
//! (`map`, `filter`, `forEach`, `flatMap`, `reduce`, `reduceRight`,
//! `flat`, `some`, `every`). Each iteration allocates a wrapper and an
//! effect that are never released.
//!
//! The rule walks the `<script>` block; a reported call's own arguments
//! are not searched further.

use vstd::prelude::*;

use crate::context::ScanContext;
use crate::parser::estree::{is_type, node_type, Json};
use crate::parser::script::{callee_path, spec_callee_path, texts};
use crate::rules::{finding_spans, Category, Finding, Rule, RuleInfo, RuleKind};
use crate::severity::Severity;
use crate::text::str_eq;
use crate::visitor::script::{check_script, script_hits, ScriptCheck};

verus! {

pub struct NoReactiveInVFor;

pub open spec fn is_reactive_name(s: Seq<char>) -> bool {
    s == "ref"@ || s == "reactive"@ || s == "shallowRef"@ || s == "shallowReactive"@ || s == "computed"@
}

pub open spec fn is_iteration_method(s: Seq<char>) -> bool {
    s == "map"@ || s == "filter"@ || s == "forEach"@ || s == "flatMap"@ || s == "reduce"@ || s
        == "reduceRight"@ || s == "flat"@ || s == "some"@ || s == "every"@
}

/// A call of a reactive constructor by its bare name.
pub open spec fn hit(n: Json) -> bool {
    node_type(n) == "CallExpression"@ && spec_callee_path(n).len() == 1 && is_reactive_name(
        spec_callee_path(n)[0],
    )
}

/// A call of an array iteration method: its callback is a loop body.
pub open spec fn iteration_call(n: Json) -> bool {
    node_type(n) == "CallExpression"@ && spec_callee_path(n).len() > 0 && is_iteration_method(
        spec_callee_path(n).last(),
    )
}

/// A `for`, `for...in` or `for...of` statement.
pub open spec fn is_loop(n: Json) -> bool {
    node_type(n) == "ForStatement"@ || node_type(n) == "ForInStatement"@ || node_type(n)
        == "ForOfStatement"@
}

fn reactive_name(s: &str) -> (r: bool)
    ensures
        r == is_reactive_name(s@),
{
    str_eq(s, "ref") || str_eq(s, "reactive") || str_eq(s, "shallowRef") || str_eq(s, "shallowReactive")
        || str_eq(s, "computed")
}

fn iteration_method(s: &str) -> (r: bool)
    ensures
        r == is_iteration_method(s@),
{
    str_eq(s, "map") || str_eq(s, "filter") || str_eq(s, "forEach") || str_eq(s, "flatMap") || str_eq(
        s,
        "reduce",
    ) || str_eq(s, "reduceRight") || str_eq(s, "flat") || str_eq(s, "some") || str_eq(s, "every")
}

pub fn is_hit(n: &Json) -> (r: bool)
    ensures
        r == hit(*n),
{
    if !is_type(n, "CallExpression") {
        return false;
    }
    let path = callee_path(n);
    if path.len() != 1 {
        return false;
    }
    assert(texts(path@)[0] == path@[0]@);
    reactive_name(path[0].as_str())
}

pub fn is_iteration_call(n: &Json) -> (r: bool)
    ensures
        r == iteration_call(*n),
{
    if !is_type(n, "CallExpression") {
        return false;
    }
    let path = callee_path(n);
    if path.len() == 0 {
        return false;
    }
    assert(texts(path@).last() == path@[path@.len() - 1]@);
    iteration_method(path[path.len() - 1].as_str())
}

pub fn is_loop_statement(n: &Json) -> (r: bool)
    ensures
        r == is_loop(*n),
{
    is_type(n, "ForStatement") || is_type(n, "ForInStatement") || is_type(n, "ForOfStatement")
}

impl Rule for NoReactiveInVFor {
    fn info(&self) -> (r: RuleInfo)
        ensures
            r.id@ == "vue/performance/no-reactive-in-v-for"@,
            r.name@ == "no-reactive-in-v-for"@,
            r.severity == Severity::Low,
            r.category == Category::Performance,
    {
        RuleInfo {
            id: "vue/performance/no-reactive-in-v-for",
            name: "no-reactive-in-v-for",
            description: "Disallow reactive object creation inside loop bodies",
            severity: Severity::Low,
            category: Category::Performance,
            kind: RuleKind::Syntactic,
            message: "Reactive object created inside a loop body",
            label: "reactive wrapper created per iteration",
            help: "Each iteration allocates a fresh reactive wrapper and effect that is never released when the collection changes. Hoist the wrapper out of the loop, or keep plain per-item values — the render already derives them on demand.",
        }
    }

    fn check(&self, ctx: &ScanContext) -> (r: Vec<Finding>)
        ensures
            finding_spans(r@) == script_hits(ScriptCheck::ReactiveInLoop, *ctx),
    {
        check_script(ScriptCheck::ReactiveInLoop, ctx)
    }
}

} // verus!
