//! Vue 3 discourages `v-if` (or `v-else-if` / `v-else`) together with `v-for` on one element.

use vstd::prelude::*;

use crate::context::ScanContext;
use crate::parser::template::{Element, Span};
use crate::rules::attrs::{has_attr, has_attr_exec, AttrTest};
use crate::rules::{finding_spans, Category, Finding, Rule, RuleInfo, RuleKind};
use crate::severity::Severity;
use crate::text::str_is;
use crate::visitor::{check_template, template_hits, TemplateCheck};

verus! {

pub struct NoVIfWithVFor;

pub open spec fn hit(el: Element) -> Option<Span> {
    if has_attr(el, AttrTest::For) && has_attr(el, AttrTest::Conditional) {
        Some(el.span)
    } else {
        None
    }
}

pub fn hit_finding(el: &Element) -> (r: Option<Finding>)
    ensures
        match r {
            Some(f) => hit(*el) == Some(f.span),
            None => hit(*el) is None,
        },
{
    if has_attr_exec(el, AttrTest::For) && has_attr_exec(el, AttrTest::Conditional) {
        Some(Finding::at(NoVIfWithVFor.info(), el.span))
    } else {
        None
    }
}

impl Rule for NoVIfWithVFor {
    fn info(&self) -> (r: RuleInfo)
        ensures
            r.id@ == "vue/performance/no-v-if-with-v-for"@,
            r.name@ == "no-v-if-with-v-for"@,
            r.severity == Severity::Medium,
            r.category == Category::Performance,
    {
        RuleInfo {
            id: "vue/performance/no-v-if-with-v-for",
            name: "no-v-if-with-v-for",
            description: "Disallow `v-if` together with `v-for` on the same element",
            severity: Severity::Medium,
            category: Category::Performance,
            kind: RuleKind::Syntactic,
            message: "`v-if` and `v-for` on the same element is discouraged in Vue 3",
            label: "`v-if` + `v-for` on the same element",
            help: "Vue 3 evaluates `v-if` before `v-for`, so the list is built and then discarded when the condition is false — and the pair is a well-known source of priority bugs. Filter the list with a computed property instead, and keep `v-if` on a wrapper element.",
        }
    }

    fn check(&self, ctx: &ScanContext) -> (r: Vec<Finding>)
        ensures
            finding_spans(r@) == template_hits(TemplateCheck::VIfWithVFor, *ctx),
    {
        check_template(TemplateCheck::VIfWithVFor, ctx)
    }
}

} // verus!
