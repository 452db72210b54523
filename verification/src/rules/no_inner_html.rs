//! `el.innerHTML = ...` writes are DOM XSS sinks.

use vstd::prelude::*;

use crate::context::ScanContext;
use crate::parser::estree::{get, get_field, is_type, node_type, Json};
use crate::parser::script::{
    get_ident_name, ident_name_of_property, is_static_member, static_member,
};
use crate::rules::{finding_spans, Category, Finding, Rule, RuleInfo, RuleKind};
use crate::severity::Severity;
use crate::text::str_is;
use crate::visitor::script::{check_script, script_hits, ScriptCheck};

verus! {

pub struct NoInnerHtml;

/// An assignment whose target is a member access `<expr>.innerHTML`.
pub open spec fn hit(n: Json) -> bool {
    node_type(n) == "AssignmentExpression"@ && (get(n, "left"@) matches Some(l) && is_static_member(l)
        && ident_name_of_property(l) == Some("innerHTML"@))
}

pub fn is_hit(n: &Json) -> (r: bool)
    ensures
        r == hit(*n),
{
    if !is_type(n, "AssignmentExpression") {
        return false;
    }
    match get_field(n, "left") {
        Some(l) => match static_member(l) {
            Some(m) => match get_field(m, "property") {
                Some(p) => match get_ident_name(p) {
                    Some(name) => str_is(name, "innerHTML"),
                    None => false,
                },
                None => false,
            },
            None => false,
        },
        None => false,
    }
}

impl Rule for NoInnerHtml {
    fn info(&self) -> (r: RuleInfo)
        ensures
            r.id@ == "vue/security/no-inner-html"@,
            r.name@ == "no-inner-html"@,
            r.severity == Severity::Critical,
            r.category == Category::Security,
    {
        RuleInfo {
            id: "vue/security/no-inner-html",
            name: "no-inner-html",
            description: "Disallow `el.innerHTML = ...` writes to prevent DOM XSS",
            severity: Severity::Critical,
            category: Category::Security,
            kind: RuleKind::Syntactic,
            message: "`.innerHTML` assignment introduces a DOM XSS sink",
            label: "innerHTML write here",
            help: "Setting `.innerHTML` from a dynamic value lets an attacker inject script tags and event handlers. Use `textContent` for plain text, or sanitise the value with DOMPurify before insertion.",
        }
    }

    fn check(&self, ctx: &ScanContext) -> (r: Vec<Finding>)
        ensures
            finding_spans(r@) == script_hits(ScriptCheck::InnerHtml, *ctx),
    {
        check_script(ScriptCheck::InnerHtml, ctx)
    }
}

} // verus!
