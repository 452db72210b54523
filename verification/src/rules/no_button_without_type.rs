//! A `<button>` needs an explicit `type`; a binding that may set it counts.

use vstd::prelude::*;

use crate::context::ScanContext;
use crate::parser::template::{Element, Span};
use crate::rules::attrs::{has_attr, has_attr_exec, AttrTest};
use crate::rules::{finding_spans, Category, Finding, Rule, RuleInfo, RuleKind};
use crate::severity::Severity;
use crate::text::str_is;
use crate::visitor::{check_template, template_hits, TemplateCheck};

verus! {

pub struct NoButtonWithoutType;

pub open spec fn hit(el: Element) -> Option<Span> {
    if el.name@ == "button"@ && !has_attr(el, AttrTest::Type) {
        Some(el.span)
    } else {
        None
    }
}

pub fn hit_finding(el: &Element) -> (r: Option<Finding>)
    ensures
        match r {
            Some(f) => hit(*el) == Some(f.span),
            None => hit(*el) is None,
        },
{
    if str_is(&el.name, "button") && !has_attr_exec(el, AttrTest::Type) {
        Some(Finding::at(NoButtonWithoutType.info(), el.span))
    } else {
        None
    }
}

impl Rule for NoButtonWithoutType {
    fn info(&self) -> (r: RuleInfo)
        ensures
            r.id@ == "vue/accessibility/no-button-without-type"@,
            r.name@ == "no-button-without-type"@,
            r.severity == Severity::Low,
            r.category == Category::Accessibility,
    {
        RuleInfo {
            id: "vue/accessibility/no-button-without-type",
            name: "no-button-without-type",
            description: "Require an explicit `type` on every `<button>`",
            severity: Severity::Low,
            category: Category::Accessibility,
            kind: RuleKind::Syntactic,
            message: "`<button>` without an explicit `type` attribute",
            label: "<button> without type",
            help: "A `<button>` without `type` defaults to `type=\"submit\"`, so a click inside a form submits and navigates. Set `type=\"button\"` for in-page actions, or `type=\"submit\"` explicitly when submitting.",
        }
    }

    fn check(&self, ctx: &ScanContext) -> (r: Vec<Finding>)
        ensures
            finding_spans(r@) == template_hits(TemplateCheck::ButtonWithoutType, *ctx),
    {
        check_template(TemplateCheck::ButtonWithoutType, ctx)
    }
}

} // verus!
