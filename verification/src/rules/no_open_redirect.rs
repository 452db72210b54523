//! Untrusted data forwarded to a navigation sink (`location.href = ...`,
//! `window.location = ...`, `location.assign(...)`,
//! `location.replace(...)`) is an open redirect.

use vstd::prelude::*;

use crate::context::ScanContext;
use crate::parser::estree::{get, get_field, is_type, node_type, Json};
use crate::parser::script::{
    call_arg, call_args, get_ident_name, ident_name, ident_name_of_property, is_static_member,
    is_string_lit, is_string_literal, node_start, script_start, static_member,
};
use crate::rules::{finding_spans, Category, Finding, Rule, RuleInfo, RuleKind};
use crate::severity::Severity;
use crate::taint::{TaintResult, TaintStatus};
use crate::text::str_is;
use crate::visitor::script::{check_script, script_flows_ok, script_hits, ScriptCheck};

verus! {

pub struct NoOpenRedirect;

/// The object of a member access is the identifier `name`.
pub open spec fn object_is(m: Json, name: Seq<char>) -> bool {
    get(m, "object"@) matches Some(o) && ident_name(o) == Some(name)
}

/// An assignment target that navigates: `location.href`,
/// `window.location.href`, or `window.location`.
pub open spec fn assignment_sink(l: Json) -> bool {
    is_static_member(l) && ((ident_name_of_property(l) == Some("href"@) && (object_is(l, "location"@)
        || (get(l, "object"@) matches Some(o) && is_static_member(o) && ident_name_of_property(o)
        == Some("location"@) && object_is(o, "window"@)))) || (ident_name_of_property(l) == Some(
        "location"@,
    ) && object_is(l, "window"@)))
}

/// A navigation call: `location.assign(...)` or `location.replace(...)`.
pub open spec fn call_sink(n: Json) -> bool {
    get(n, "callee"@) matches Some(c) && is_static_member(c) && object_is(c, "location"@) && (
    ident_name_of_property(c) == Some("assign"@) || ident_name_of_property(c) == Some("replace"@))
}

/// Where the forwarded value starts, for a navigation assignment or call.
pub open spec fn forwarded(n: Json) -> Option<Json> {
    if node_type(n) == "AssignmentExpression"@ {
        match (get(n, "left"@), get(n, "right"@)) {
            (Some(l), Some(r)) => if assignment_sink(l) {
                Some(r)
            } else {
                None
            },
            _ => None,
        }
    } else if node_type(n) == "CallExpression"@ && call_sink(n) && call_args(n).len() > 0
        && !is_string_lit(call_args(n)[0]) && node_type(call_args(n)[0]) != "SpreadElement"@ {
        Some(call_args(n)[0])
    } else {
        None
    }
}

/// A navigation whose forwarded value is not provably clean.
pub open spec fn hit(taint: TaintResult, off: int, n: Json) -> bool {
    forwarded(n) matches Some(v) && script_start(off, v) matches Some(s) && taint.spec_status_at(s)
        != TaintStatus::Clean
}

fn member_object_is(m: &Json, name: &str) -> (r: bool)
    ensures
        r == object_is(*m, name@),
{
    match get_field(m, "object") {
        Some(o) => match get_ident_name(o) {
            Some(n) => str_is(n, name),
            None => false,
        },
        None => false,
    }
}

fn property_is(m: &Json, name: &str) -> (r: bool)
    requires
        is_static_member(*m),
    ensures
        r == (ident_name_of_property(*m) == Some(name@)),
{
    match get_field(m, "property") {
        Some(p) => match get_ident_name(p) {
            Some(n) => str_is(n, name),
            None => false,
        },
        None => false,
    }
}

fn is_assignment_sink(l: &Json) -> (r: bool)
    ensures
        r == assignment_sink(*l),
{
    if static_member(l).is_none() {
        return false;
    }
    if property_is(l, "href") {
        if member_object_is(l, "location") {
            return true;
        }
        match get_field(l, "object") {
            Some(o) => {
                if static_member(o).is_some() && property_is(o, "location") && member_object_is(o, "window") {
                    return true;
                }
            },
            None => {},
        }
    }
    property_is(l, "location") && member_object_is(l, "window")
}

fn is_call_sink(n: &Json) -> (r: bool)
    ensures
        r == call_sink(*n),
{
    match get_field(n, "callee") {
        Some(c) => static_member(c).is_some() && member_object_is(c, "location") && (property_is(c, "assign")
            || property_is(c, "replace")),
        None => false,
    }
}

fn forwarded_value(n: &Json) -> (r: Option<&Json>)
    ensures
        match r {
            Some(v) => forwarded(*n) == Some(*v),
            None => forwarded(*n) is None,
        },
{
    if is_type(n, "AssignmentExpression") {
        match (get_field(n, "left"), get_field(n, "right")) {
            (Some(l), Some(r)) => if is_assignment_sink(l) {
                Some(r)
            } else {
                None
            },
            _ => None,
        }
    } else if is_type(n, "CallExpression") && is_call_sink(n) {
        match call_arg(n, 0) {
            Some(a) => if !is_string_literal(a) && !is_type(a, "SpreadElement") {
                Some(a)
            } else {
                None
            },
            None => None,
        }
    } else {
        None
    }
}

/// The file offset of the forwarded value when the node is a hit, and
/// whether the node is an assignment.
pub fn hit_value_start(taint: &TaintResult, off: usize, n: &Json) -> (r: Option<(u32, bool)>)
    ensures
        r is Some == hit(*taint, off as int, *n),
        r matches Some((s, a)) ==> (forwarded(*n) matches Some(v) && script_start(off as int, v) == Some(s)
            && a == (node_type(*n) == "AssignmentExpression"@)),
{
    match forwarded_value(n) {
        Some(v) => match node_start(off, v) {
            Some(s) => {
                if taint.status_at(s) != TaintStatus::Clean {
                    Some((s, is_type(n, "AssignmentExpression")))
                } else {
                    None
                }
            },
            None => None,
        },
        None => None,
    }
}

impl Rule for NoOpenRedirect {
    fn info(&self) -> (r: RuleInfo)
        ensures
            r.id@ == "vue/security/no-open-redirect"@,
            r.name@ == "no-open-redirect"@,
            r.severity == Severity::High,
            r.category == Category::Security,
    {
        RuleInfo {
            id: "vue/security/no-open-redirect",
            name: "no-open-redirect",
            description: "Disallow `location.href = ...` and `window.location = ...` with dynamic values",
            severity: Severity::High,
            category: Category::Security,
            kind: RuleKind::Taint,
            message: "Unvalidated value is forwarded to a navigation sink",
            label: "navigation assignment here",
            help: "Forwarding user-controlled data to `location.*` is a classic open-redirect vector. Validate the URL against an allow-list of hostnames before navigating, or use a router-managed navigation helper.",
        }
    }

    fn check(&self, ctx: &ScanContext) -> (r: Vec<Finding>)
        ensures
            finding_spans(r@) == script_hits(ScriptCheck::OpenRedirect, *ctx),
            // Each finding carries the flow of the value that reaches the sink.
            script_flows_ok(ScriptCheck::OpenRedirect, ctx.taint, ctx.script_offset as int, r@, 0),
    {
        check_script(ScriptCheck::OpenRedirect, ctx)
    }
}

} // verus!
