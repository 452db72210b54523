//! A dynamic `src` binding can load attacker-controlled resources.

use vstd::prelude::*;

use crate::context::ScanContext;
use crate::parser::template::{Attribute, Directive, DirectiveValue, Span};
use crate::rules::attrs::{dynamic_arg, is_bind, spec_dynamic_arg, spec_is_bind, spec_static_arg_is, static_arg_is};
use crate::rules::{carries_flow, finding_spans, Category, Finding, Rule, RuleInfo, RuleKind};
use crate::severity::Severity;
use crate::taint::{FlowPath, TaintResult, TaintStatus};
use crate::visitor::{check_template, flows_ok, template_hits, TemplateCheck};

verus! {

pub struct NoDynamicBindSrc;

/// The taint of the directive's bound value; a directive without a value
/// is clean.
pub open spec fn binding_status(taint: TaintResult, d: Directive) -> TaintStatus {
    match d.value {
        Some(DirectiveValue::Expression(e)) => taint.spec_status_at(e.span.start),
        _ => TaintStatus::Clean,
    }
}

pub open spec fn directive_hit(taint: TaintResult, d: Directive) -> Option<Span> {
    if spec_is_bind(d) && (spec_static_arg_is(d, "src"@) || spec_dynamic_arg(d))
        && binding_status(taint, d) != TaintStatus::Clean {
        Some(d.span)
    } else {
        None
    }
}

/// A `v-bind` / `:` of `src` (or of a dynamic argument, which may be
/// `src`) whose value is not provably clean.
pub open spec fn hit(taint: TaintResult, a: Attribute) -> Option<Span> {
    match a {
        Attribute::Directive(d) => directive_hit(taint, d),
        Attribute::OnDirective(d) => directive_hit(taint, d),
        _ => None,
    }
}

/// A finding on directive `d` carries the flow of the bound expression's
/// fact.
pub open spec fn directive_flow(taint: TaintResult, d: Directive, fl: Option<Vec<FlowPath>>) -> bool {
    match d.value {
        Some(DirectiveValue::Expression(e)) => carries_flow(taint, e.span.start, "dynamic `src` binding"@, fl),
        _ => fl is None,
    }
}

/// A finding on `a` carries the flow of the bound expression's fact.
pub open spec fn flow_of(taint: TaintResult, a: Attribute, fl: Option<Vec<FlowPath>>) -> bool {
    match a {
        Attribute::Directive(d) => directive_flow(taint, d, fl),
        Attribute::OnDirective(d) => directive_flow(taint, d, fl),
        _ => true,
    }
}

fn directive_finding(taint: &TaintResult, d: &Directive) -> (r: Option<Finding>)
    ensures
        match r {
            Some(f) => directive_hit(*taint, *d) == Some(f.span),
            None => directive_hit(*taint, *d) is None,
        },
        r matches Some(f) ==> directive_flow(*taint, *d, f.flow),
{
    if !is_bind(d) {
        return None;
    }
    if !(static_arg_is(d, "src") || dynamic_arg(d)) {
        return None;
    }
    let (status, at) = match &d.value {
        Some(DirectiveValue::Expression(e)) => (taint.status_at(e.span.start), Some(e.span.start)),
        _ => (TaintStatus::Clean, None),
    };
    if status == TaintStatus::Clean {
        return None;
    }
    let flow = match at {
        Some(start) => taint.flow_at(start, "dynamic `src` binding"),
        None => None,
    };
    Some(Finding::with_flow(NoDynamicBindSrc.info(), d.span, flow))
}

pub fn hit_finding(taint: &TaintResult, a: &Attribute) -> (r: Option<Finding>)
    ensures
        match r {
            Some(f) => hit(*taint, *a) == Some(f.span),
            None => hit(*taint, *a) is None,
        },
        r matches Some(f) ==> flow_of(*taint, *a, f.flow),
{
    match a {
        Attribute::Directive(d) => directive_finding(taint, d),
        Attribute::OnDirective(d) => directive_finding(taint, d),
        _ => None,
    }
}

impl Rule for NoDynamicBindSrc {
    fn info(&self) -> (r: RuleInfo)
        ensures
            r.id@ == "vue/security/no-dynamic-bind-src"@,
            r.name@ == "no-dynamic-bind-src"@,
            r.severity == Severity::High,
            r.category == Category::Security,
    {
        RuleInfo {
            id: "vue/security/no-dynamic-bind-src",
            name: "no-dynamic-bind-src",
            description: "Disallow dynamic `src` bindings to prevent loading untrusted resources",
            severity: Severity::High,
            category: Category::Security,
            kind: RuleKind::Taint,
            message: "Dynamic `src` binding can load untrusted resources",
            label: "dynamic `src` binding here",
            help: "Validate and sanitise the URL before binding it. Allow only an explicit allow-list of schemes (https, /) and hosts, and never concatenate user input into the URL.",
        }
    }

    fn check(&self, ctx: &ScanContext) -> (r: Vec<Finding>)
        ensures
            finding_spans(r@) == template_hits(TemplateCheck::DynamicBindSrc, *ctx),
            // Each finding carries the flow of its binding's fact.
            flows_ok(TemplateCheck::DynamicBindSrc, ctx.taint, r@, 0),
    {
        check_template(TemplateCheck::DynamicBindSrc, ctx)
    }
}

} // verus!
