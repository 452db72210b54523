//! `@click` on a non-interactive element that has neither a `role` nor a
//! keyboard handler is unreachable for keyboard-only users.
//!
//! Only the clear-cut case is reported — a click handler on a
//! non-interactive element with **neither** `role` **nor** any keyboard
//! handler. Native interactive elements are never reported.

use vstd::prelude::*;

use crate::context::ScanContext;
use crate::parser::template::{Element, Span};
use crate::rules::attrs::{has_attr, has_attr_exec, AttrTest};
use crate::rules::{finding_spans, Category, Finding, Rule, RuleInfo, RuleKind};
use crate::severity::Severity;
use crate::text::str_is;
use crate::visitor::{check_template, template_hits, TemplateCheck};

verus! {

pub struct NoClickWithoutRoleKeyboard;

/// Elements the browser already treats as interactive.
pub open spec fn spec_is_interactive(name: Seq<char>) -> bool {
    name == "a"@ || name == "button"@ || name == "input"@ || name == "select"@ || name
        == "textarea"@ || name == "label"@ || name == "details"@ || name == "summary"@ || name
        == "option"@ || name == "audio"@ || name == "video"@
}

fn is_interactive(name: &String) -> (r: bool)
    ensures
        r == spec_is_interactive(name@),
{
    str_is(name, "a") || str_is(name, "button") || str_is(name, "input") || str_is(name, "select")
        || str_is(name, "textarea") || str_is(name, "label") || str_is(name, "details") || str_is(
        name,
        "summary",
    ) || str_is(name, "option") || str_is(name, "audio") || str_is(name, "video")
}

pub open spec fn hit(el: Element) -> Option<Span> {
    if !spec_is_interactive(el.name@) && has_attr(el, AttrTest::Click) && !has_attr(el, AttrTest::Role)
        && !has_attr(el, AttrTest::Keyboard) {
        Some(el.span)
    } else {
        None
    }
}

pub fn hit_finding(el: &Element) -> (r: Option<Finding>)
    ensures
        match r {
            Some(f) => hit(*el) == Some(f.span),
            None => hit(*el) is None,
        },
{
    if is_interactive(&el.name) {
        return None;
    }
    if !has_attr_exec(el, AttrTest::Click) {
        return None;
    }
    if has_attr_exec(el, AttrTest::Role) {
        return None;
    }
    if has_attr_exec(el, AttrTest::Keyboard) {
        return None;
    }
    Some(Finding::at(NoClickWithoutRoleKeyboard.info(), el.span))
}

impl Rule for NoClickWithoutRoleKeyboard {
    fn info(&self) -> (r: RuleInfo)
        ensures
            r.id@ == "vue/accessibility/no-click-without-role-keyboard"@,
            r.name@ == "no-click-without-role-keyboard"@,
            r.severity == Severity::Medium,
            r.category == Category::Accessibility,
    {
        RuleInfo {
            id: "vue/accessibility/no-click-without-role-keyboard",
            name: "no-click-without-role-keyboard",
            description: "Require `role` and a keyboard handler on `@click` of non-interactive elements",
            severity: Severity::Medium,
            category: Category::Accessibility,
            kind: RuleKind::Syntactic,
            message: "`@click` on a non-interactive element without `role` or a keyboard handler",
            label: "@click on non-interactive element",
            help: "An element that reacts to clicks but cannot receive keyboard focus is unreachable for keyboard-only users. Use a real interactive element (`<button>` / `<a href>`), or add `role=\"button\"` plus a matching `@keydown.enter` handler and `tabindex=\"0\"`.",
        }
    }

    fn check(&self, ctx: &ScanContext) -> (r: Vec<Finding>)
        ensures
            finding_spans(r@) == template_hits(TemplateCheck::ClickWithoutRoleKeyboard, *ctx),
    {
        check_template(TemplateCheck::ClickWithoutRoleKeyboard, ctx)
    }
}

} // verus!
