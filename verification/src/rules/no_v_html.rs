//! `v-html` renders its binding as raw HTML: an XSS sink when the binding
//! may carry untrusted data.

use vstd::prelude::*;

use crate::context::ScanContext;
use crate::parser::template::{Attribute, DirectiveValue, Span};
use crate::rules::{carries_flow, finding_spans, Category, Finding, Rule, RuleInfo, RuleKind};
use crate::severity::Severity;
use crate::taint::{FlowPath, TaintResult, TaintStatus};
use crate::text::str_is;
use crate::visitor::{check_template, flows_ok, template_hits, TemplateCheck};

verus! {

pub struct NoVHtml;

/// A `v-html` directive whose bound expression is not provably clean.
/// Clean bindings (literals, values derived from clean data) are the
/// false-positive cut; unknown (unparseable) bindings are reported.
pub open spec fn hit(taint: TaintResult, a: Attribute) -> Option<Span> {
    match a {
        Attribute::Directive(d) => if d.name.name@ == "v-html"@ && (d.value matches Some(
            DirectiveValue::Expression(e),
        ) && taint.spec_status_at(e.span.start) != TaintStatus::Clean) {
            Some(d.span)
        } else {
            None
        },
        _ => None,
    }
}

/// A finding on `a` carries the flow of the bound expression's fact.
pub open spec fn flow_of(taint: TaintResult, a: Attribute, fl: Option<Vec<FlowPath>>) -> bool {
    match a {
        Attribute::Directive(d) => match d.value {
            Some(DirectiveValue::Expression(e)) => carries_flow(taint, e.span.start, "`v-html` binding"@, fl),
            _ => true,
        },
        _ => true,
    }
}

pub fn hit_finding(taint: &TaintResult, a: &Attribute) -> (r: Option<Finding>)
    ensures
        match r {
            Some(f) => hit(*taint, *a) == Some(f.span),
            None => hit(*taint, *a) is None,
        },
        r matches Some(f) ==> flow_of(*taint, *a, f.flow),
{
    if let Attribute::Directive(d) = a {
        if str_is(&d.name.name, "v-html") {
            if let Some(DirectiveValue::Expression(e)) = &d.value {
                if taint.status_at(e.span.start) != TaintStatus::Clean {
                    let flow = taint.flow_at(e.span.start, "`v-html` binding");
                    return Some(Finding::with_flow(NoVHtml.info(), d.span, flow));
                }
            }
        }
    }
    None
}

impl Rule for NoVHtml {
    fn info(&self) -> (r: RuleInfo)
        ensures
            r.id@ == "vue/security/no-v-html"@,
            r.name@ == "no-v-html"@,
            r.severity == Severity::Critical,
            r.category == Category::Security,
    {
        RuleInfo {
            id: "vue/security/no-v-html",
            name: "no-v-html",
            description: "Disallow the `v-html` directive when its binding may carry untrusted data",
            severity: Severity::Critical,
            category: Category::Security,
            kind: RuleKind::Taint,
            message: "Unsafe `v-html` directive renders untrusted HTML",
            label: "`v-html` used here",
            help: "Rendering untrusted HTML can execute arbitrary JavaScript. Sanitise the input with DOMPurify (or an equivalent library), or use `v-text` / `{{ }}` interpolation instead.",
        }
    }

    fn check(&self, ctx: &ScanContext) -> (r: Vec<Finding>)
        ensures
            finding_spans(r@) == template_hits(TemplateCheck::VHtml, *ctx),
            // Each finding carries the flow of its binding's fact.
            flows_ok(TemplateCheck::VHtml, ctx.taint, r@, 0),
    {
        check_template(TemplateCheck::VHtml, ctx)
    }
}

} // verus!
