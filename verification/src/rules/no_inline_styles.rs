//! Inline `style` and `:style` bindings bypass the cascade.

use vstd::prelude::*;

use crate::context::ScanContext;
use crate::parser::template::{Attribute, Span};
use crate::rules::attrs::{dynamic_arg, spec_dynamic_arg, spec_static_arg_is, static_arg_is};
use crate::rules::{finding_spans, Category, Finding, Rule, RuleInfo, RuleKind};
use crate::severity::Severity;
use crate::text::str_is;
use crate::visitor::{check_template, template_hits, TemplateCheck};

verus! {

pub struct NoInlineStyle;

/// A static `style` attribute, a directive whose argument is `style`, or a
/// `v-bind` with a dynamic argument (which may be `style`).
pub open spec fn hit(a: Attribute) -> Option<Span> {
    let matched = match a {
        Attribute::Static(s) => s.key.name@ == "style"@,
        Attribute::Directive(d) => spec_static_arg_is(d, "style"@) || (spec_dynamic_arg(d)
            && d.name.name@ == "v-bind"@),
        _ => false,
    };
    if matched {
        Some(a.spec_span())
    } else {
        None
    }
}

pub fn hit_finding(a: &Attribute) -> (r: Option<Finding>)
    ensures
        match r {
            Some(f) => hit(*a) == Some(f.span),
            None => hit(*a) is None,
        },
{
    let matched = match a {
        Attribute::Static(s) => str_is(&s.key.name, "style"),
        Attribute::Directive(d) => static_arg_is(d, "style") || (dynamic_arg(d) && str_is(
            &d.name.name,
            "v-bind",
        )),
        _ => false,
    };
    if matched {
        Some(Finding::at(NoInlineStyle.info(), a.span()))
    } else {
        None
    }
}

impl Rule for NoInlineStyle {
    fn info(&self) -> (r: RuleInfo)
        ensures
            r.id@ == "vue/best-practice/no-inline-style"@,
            r.name@ == "no-inline-style"@,
            r.severity == Severity::Low,
            r.category == Category::BestPractice,
    {
        RuleInfo {
            id: "vue/best-practice/no-inline-style",
            name: "no-inline-style",
            description: "Disallow inline `style` and `:style` bindings in templates",
            severity: Severity::Low,
            category: Category::BestPractice,
            kind: RuleKind::Syntactic,
            message: "Inline styles can hurt performance and maintainability",
            label: "inline `style` here",
            help: "Use a CSS class instead. Inline styles bypass the cascade, prevent theming, and tend to grow as the component evolves.",
        }
    }

    fn check(&self, ctx: &ScanContext) -> (r: Vec<Finding>)
        ensures
            finding_spans(r@) == template_hits(TemplateCheck::InlineStyle, *ctx),
    {
        check_template(TemplateCheck::InlineStyle, ctx)
    }
}

} // verus!
