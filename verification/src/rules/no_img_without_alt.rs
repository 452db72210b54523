//! Every `<img>` needs `alt`; a binding that may set it (`:alt`, `:[key]`, a bare `v-bind`) counts.

use vstd::prelude::*;

use crate::context::ScanContext;
use crate::parser::template::{Element, Span};
use crate::rules::attrs::{has_attr, has_attr_exec, AttrTest};
use crate::rules::{finding_spans, Category, Finding, Rule, RuleInfo, RuleKind};
use crate::severity::Severity;
use crate::text::str_is;
use crate::visitor::{check_template, template_hits, TemplateCheck};

verus! {

pub struct NoImgWithoutAlt;

pub open spec fn hit(el: Element) -> Option<Span> {
    if el.name@ == "img"@ && !has_attr(el, AttrTest::Alt) {
        Some(el.span)
    } else {
        None
    }
}

pub fn hit_finding(el: &Element) -> (r: Option<Finding>)
    ensures
        match r {
            Some(f) => hit(*el) == Some(f.span),
            None => hit(*el) is None,
        },
{
    if str_is(&el.name, "img") && !has_attr_exec(el, AttrTest::Alt) {
        Some(Finding::at(NoImgWithoutAlt.info(), el.span))
    } else {
        None
    }
}

impl Rule for NoImgWithoutAlt {
    fn info(&self) -> (r: RuleInfo)
        ensures
            r.id@ == "vue/accessibility/no-img-without-alt"@,
            r.name@ == "no-img-without-alt"@,
            r.severity == Severity::Medium,
            r.category == Category::Accessibility,
    {
        RuleInfo {
            id: "vue/accessibility/no-img-without-alt",
            name: "no-img-without-alt",
            description: "Require an `alt` attribute on every `<img>`",
            severity: Severity::Medium,
            category: Category::Accessibility,
            kind: RuleKind::Syntactic,
            message: "`<img>` without an `alt` attribute",
            label: "<img> without alt",
            help: "Screen readers announce the `alt` text in place of the image. Add `alt=\"description\"`, or `alt=\"\"` for purely decorative images. Dynamic images can bind `:alt=\"item.label\"`.",
        }
    }

    fn check(&self, ctx: &ScanContext) -> (r: Vec<Finding>)
        ensures
            finding_spans(r@) == template_hits(TemplateCheck::ImgWithoutAlt, *ctx),
    {
        check_template(TemplateCheck::ImgWithoutAlt, ctx)
    }
}

} // verus!
