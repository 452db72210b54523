//! `postMessage(msg, '*')` lets any site that navigated the target window
//! read the message.

use vstd::prelude::*;

use crate::context::ScanContext;
use crate::parser::estree::{get, get_field, get_items, is_type, node_type, Json};
use crate::parser::script::{
    call_arg, call_args, callee_path, get_prop_key_name, get_string_lit, object_props, path_last_is,
    prop_key_name, spec_callee_path, string_lit_value, texts,
};
use crate::rules::{finding_spans, Category, Finding, Rule, RuleInfo, RuleKind};
use crate::severity::Severity;
use crate::text::str_is;
use crate::visitor::script::{check_script, script_hits, ScriptCheck};

verus! {

pub struct NoPostmessageWildcard;

/// A property `targetOrigin: '*'`.
pub open spec fn wildcard_prop(p: Json) -> bool {
    prop_key_name(p) == Some("targetOrigin"@) && (get(p, "value"@) matches Some(v)
        && string_lit_value(v) == Some("*"@))
}

/// The target-origin argument is `'*'`, or an options object with
/// `targetOrigin: '*'`.
pub open spec fn wildcard_origin(a: Json) -> bool {
    string_lit_value(a) == Some("*"@) || (node_type(a) == "ObjectExpression"@ && exists|k: int|
        0 <= k < object_props(a).len() && wildcard_prop(#[trigger] object_props(a)[k]))
}

/// A call of a `postMessage` method whose second argument is a wildcard
/// target origin.
pub open spec fn hit(n: Json) -> bool {
    node_type(n) == "CallExpression"@ && spec_callee_path(n).len() > 0 && spec_callee_path(n).last()
        == "postMessage"@ && call_args(n).len() > 1 && wildcard_origin(call_args(n)[1])
}

fn is_wildcard_prop(p: &Json) -> (r: bool)
    ensures
        r == wildcard_prop(*p),
{
    match get_prop_key_name(p) {
        Some(k) => {
            if !str_is(k, "targetOrigin") {
                return false;
            }
            match get_field(p, "value") {
                Some(v) => match get_string_lit(v) {
                    Some(s) => str_is(s, "*"),
                    None => false,
                },
                None => false,
            }
        },
        None => false,
    }
}

fn is_wildcard_origin(a: &Json) -> (r: bool)
    ensures
        r == wildcard_origin(*a),
{
    match get_string_lit(a) {
        Some(s) => {
            if str_is(s, "*") {
                return true;
            }
        },
        None => {},
    }
    if !is_type(a, "ObjectExpression") {
        return false;
    }
    match get_items(a, "properties") {
        Some(props) => {
            let mut i: usize = 0;
            while i < props.len()
                invariant
                    i <= props.len(),
                    object_props(*a) == props@,
                    forall|k: int| 0 <= k < i ==> !wildcard_prop(#[trigger] props@[k]),
                decreases props.len() - i,
            {
                if is_wildcard_prop(&props[i]) {
                    return true;
                }
                i = i + 1;
            }
            false
        },
        None => false,
    }
}

pub fn is_hit(n: &Json) -> (r: bool)
    ensures
        r == hit(*n),
{
    if !is_type(n, "CallExpression") {
        return false;
    }
    let path = callee_path(n);
    if !path_last_is(&path, "postMessage") {
        return false;
    }
    match call_arg(n, 1) {
        Some(a) => is_wildcard_origin(a),
        None => false,
    }
}

impl Rule for NoPostmessageWildcard {
    fn info(&self) -> (r: RuleInfo)
        ensures
            r.id@ == "vue/security/no-postmessage-wildcard"@,
            r.name@ == "no-postmessage-wildcard"@,
            r.severity == Severity::High,
            r.category == Category::Security,
    {
        RuleInfo {
            id: "vue/security/no-postmessage-wildcard",
            name: "no-postmessage-wildcard",
            description: "Disallow `postMessage(..., '*')` to prevent cross-origin message interception",
            severity: Severity::High,
            category: Category::Security,
            kind: RuleKind::Syntactic,
            message: "`postMessage` is called with a wildcard `targetOrigin` of `'*'`",
            label: "wildcard targetOrigin here",
            help: "Always pin a specific `targetOrigin` (for example `https://app.example.com`). The wildcard `'*'` lets a malicious site that has navigated the target window intercept the message. Use the URL of the receiver, or `/` only when you genuinely want same-origin delivery.",
        }
    }

    fn check(&self, ctx: &ScanContext) -> (r: Vec<Finding>)
        ensures
            finding_spans(r@) == script_hits(ScriptCheck::PostMessage, *ctx),
    {
        check_script(ScriptCheck::PostMessage, ctx)
    }
}

} // verus!
