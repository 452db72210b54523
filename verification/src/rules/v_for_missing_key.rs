//! A `v-for` element needs a stable `:key`.

use vstd::prelude::*;

use crate::context::ScanContext;
use crate::parser::template::{Element, Span};
use crate::rules::attrs::{has_attr, has_attr_exec, AttrTest};
use crate::rules::{finding_spans, Category, Finding, Rule, RuleInfo, RuleKind};
use crate::severity::Severity;
use crate::text::str_is;
use crate::visitor::{check_template, template_hits, TemplateCheck};

verus! {

pub struct VForMissingKey;

pub open spec fn hit(el: Element) -> Option<Span> {
    if has_attr(el, AttrTest::For) && !has_attr(el, AttrTest::Key) {
        Some(el.span)
    } else {
        None
    }
}

pub fn hit_finding(el: &Element) -> (r: Option<Finding>)
    ensures
        match r {
            Some(f) => hit(*el) == Some(f.span),
            None => hit(*el) is None,
        },
{
    if has_attr_exec(el, AttrTest::For) && !has_attr_exec(el, AttrTest::Key) {
        Some(Finding::at(VForMissingKey.info(), el.span))
    } else {
        None
    }
}

impl Rule for VForMissingKey {
    fn info(&self) -> (r: RuleInfo)
        ensures
            r.id@ == "vue/best-practice/v-for-missing-key"@,
            r.name@ == "v-for-missing-key"@,
            r.severity == Severity::Medium,
            r.category == Category::BestPractice,
    {
        RuleInfo {
            id: "vue/best-practice/v-for-missing-key",
            name: "v-for-missing-key",
            description: "Require `:key` on `v-for` elements",
            severity: Severity::Medium,
            category: Category::BestPractice,
            kind: RuleKind::Syntactic,
            message: "`v-for` is missing a `:key` binding",
            label: "v-for here",
            help: "Without a stable `:key`, Vue falls back to index-based reconciliation which produces wrong DOM updates and loses component state when the list reorders. Add `:key=\"item.id\"` (or any stable identifier).",
        }
    }

    fn check(&self, ctx: &ScanContext) -> (r: Vec<Finding>)
        ensures
            finding_spans(r@) == template_hits(TemplateCheck::VForMissingKey, *ctx),
    {
        check_template(TemplateCheck::VForMissingKey, ctx)
    }
}

} // verus!
