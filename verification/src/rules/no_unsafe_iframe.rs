//! An `<iframe>` without `sandbox` inherits the embedding origin's capabilities.

use vstd::prelude::*;

use crate::context::ScanContext;
use crate::parser::template::{Element, Span};
use crate::rules::attrs::{has_attr, has_attr_exec, AttrTest};
use crate::rules::{finding_spans, Category, Finding, Rule, RuleInfo, RuleKind};
use crate::severity::Severity;
use crate::text::str_is;
use crate::visitor::{check_template, template_hits, TemplateCheck};

verus! {

pub struct NoUnsafeIframe;

pub open spec fn hit(el: Element) -> Option<Span> {
    if el.name@ == "iframe"@ && !has_attr(el, AttrTest::Sandbox) {
        Some(el.span)
    } else {
        None
    }
}

pub fn hit_finding(el: &Element) -> (r: Option<Finding>)
    ensures
        match r {
            Some(f) => hit(*el) == Some(f.span),
            None => hit(*el) is None,
        },
{
    if str_is(&el.name, "iframe") && !has_attr_exec(el, AttrTest::Sandbox) {
        Some(Finding::at(NoUnsafeIframe.info(), el.span))
    } else {
        None
    }
}

impl Rule for NoUnsafeIframe {
    fn info(&self) -> (r: RuleInfo)
        ensures
            r.id@ == "vue/security/no-unsafe-iframe"@,
            r.name@ == "no-unsafe-iframe"@,
            r.severity == Severity::Medium,
            r.category == Category::Security,
    {
        RuleInfo {
            id: "vue/security/no-unsafe-iframe",
            name: "no-unsafe-iframe",
            description: "Disallow `<iframe>` without a `sandbox` attribute",
            severity: Severity::Medium,
            category: Category::Security,
            kind: RuleKind::Syntactic,
            message: "`iframe` is missing a `sandbox` attribute",
            label: "iframe without sandbox here",
            help: "An `iframe` without `sandbox` inherits the embedding origin's full capabilities. Add at minimum `sandbox=\"\"` (or an explicit allow-list) to neutralise framed content that turns malicious.",
        }
    }

    fn check(&self, ctx: &ScanContext) -> (r: Vec<Finding>)
        ensures
            finding_spans(r@) == template_hits(TemplateCheck::UnsafeIframe, *ctx),
    {
        check_template(TemplateCheck::UnsafeIframe, ctx)
    }
}

} // verus!
