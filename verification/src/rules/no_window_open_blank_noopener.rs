//! `window.open(url, '_blank')` without `noopener` hands the opened page a
//! handle on this one (`window.opener`).
//!
//! The rule fires when the target is the literal `'_blank'`, the features
//! argument is absent or a string literal without a `noopener` /
//! `noreferrer` key, and the URL may carry untrusted data.

use vstd::prelude::*;

use crate::context::ScanContext;
use crate::parser::estree::{is_type, node_type, Json};
use crate::parser::script::{
    call_arg, call_arg_count, call_args, callee_path, get_string_lit, node_start, path_is2,
    script_start, spec_callee_path, string_lit_value,
};
use crate::rules::no_dangerous_url::{strip_back, strip_back_exec, strip_front, strip_front_exec};
use crate::rules::{finding_spans, Category, Finding, Rule, RuleInfo, RuleKind};
use crate::severity::Severity;
use crate::taint::{TaintResult, TaintStatus};
use crate::text::{chars_eq, chars_of, copy_range, find_index, first_index, str_is};
use crate::visitor::script::{check_script, script_flows_ok, script_hits, ScriptCheck};

verus! {

pub struct NoWindowOpenBlankNoopener;

/// A feature token's key (the text before its first `=`) is `noopener` or
/// `noreferrer`.
pub open spec fn key_is_noopener(t: Seq<char>) -> bool {
    let k = t.subrange(0, first_index(t, 0, '='));
    k == "noopener"@ || k == "noreferrer"@
}

/// Some comma-separated token of `f`, from `from` on, trimmed, has a
/// `noopener` / `noreferrer` key.
pub open spec fn features_from(f: Seq<char>, from: int) -> bool
    decreases f.len() - from,
{
    if from < 0 || from > f.len() {
        false
    } else {
        let p = first_index(f, from, ',');
        key_is_noopener(strip_back(strip_front(f.subrange(from, p), true), true)) || (from <= p < f.len()
            && features_from(f, p + 1))
    }
}

/// The window-features string asks for `noopener` (or `noreferrer`).
pub open spec fn features_contain_noopener(f: Seq<char>) -> bool {
    features_from(f, 0)
}

/// The URL argument of an unsafe `window.open(url, '_blank', ...)`.
pub open spec fn unsafe_blank_open_url(n: Json) -> Option<Json> {
    let args = call_args(n);
    if args.len() < 2 || string_lit_value(args[1]) != Some("_blank"@) {
        None
    } else if args.len() == 2 {
        Some(args[0])
    } else {
        match string_lit_value(args[2]) {
            Some(f) => if !features_contain_noopener(f) {
                Some(args[0])
            } else {
                None
            },
            None => None,
        }
    }
}

/// A `window.open` that opens a `_blank` window without `noopener` on a
/// URL that is not provably clean.
pub open spec fn hit(taint: TaintResult, off: int, n: Json) -> bool {
    node_type(n) == "CallExpression"@ && spec_callee_path(n) == seq!["window"@, "open"@] && (
    unsafe_blank_open_url(n) matches Some(u) && script_start(off, u) matches Some(s) && taint.spec_status_at(s)
        != TaintStatus::Clean)
}

proof fn lemma_first_index_bounds(s: Seq<char>, from: int, c: char)
    requires
        0 <= from <= s.len(),
    ensures
        from <= first_index(s, from, c) <= s.len(),
{
}

fn key_noopener(t: &Vec<char>) -> (r: bool)
    ensures
        r == key_is_noopener(t@),
{
    let q = find_index(t, 0, '=');
    let k = copy_range(t, 0, q);
    chars_eq(&k, &chars_of("noopener")) || chars_eq(&k, &chars_of("noreferrer"))
}

proof fn lemma_features_step(f: Seq<char>, from: int)
    requires
        0 <= from <= f.len(),
    ensures
        from <= first_index(f, from, ',') <= f.len(),
        features_from(f, from) == (key_is_noopener(
            strip_back(strip_front(f.subrange(from, first_index(f, from, ',')), true), true),
        ) || (first_index(f, from, ',') < f.len() && features_from(f, first_index(f, from, ',') + 1))),
{
}

/// The trimmed token `f[from..p]`, as a range of `f`.
fn trimmed_token(f: &Vec<char>, from: usize, p: usize) -> (r: Vec<char>)
    requires
        from <= p <= f.len(),
    ensures
        r@ == strip_back(strip_front(f@.subrange(from as int, p as int), true), true),
{
    let c = strip_front_exec(f, from, p, true);
    let d = strip_back_exec(f, c, p, true);
    proof {
        assert(f@.subrange(from as int, p as int).subrange((c - from) as int, (p - from) as int) =~= f@.subrange(c as int, p as int));
    }
    copy_range(f, c, d)
}

/// True when the features string asks for `noopener` / `noreferrer`.
pub fn contains_noopener(features: &str) -> (r: bool)
    ensures
        r == features_contain_noopener(features@),
{
    let f = chars_of(features);
    let mut from: usize = 0;
    loop
        invariant
            from <= f.len(),
            f@ == features@,
            features_contain_noopener(f@) == features_from(f@, from as int),
        decreases f.len() - from,
    {
        proof {
            lemma_features_step(f@, from as int);
        }
        let p = find_index(&f, from, ',');
        let token = trimmed_token(&f, from, p);
        if key_noopener(&token) {
            return true;
        }
        if p >= f.len() {
            return false;
        }
        from = p + 1;
    }
}

fn blank_open_url(n: &Json) -> (r: Option<&Json>)
    ensures
        match r {
            Some(u) => unsafe_blank_open_url(*n) == Some(*u),
            None => unsafe_blank_open_url(*n) is None,
        },
{
    let count = call_arg_count(n);
    if count < 2 {
        return None;
    }
    let target_blank = match call_arg(n, 1) {
        Some(t) => match get_string_lit(t) {
            Some(v) => str_is(v, "_blank"),
            None => false,
        },
        None => false,
    };
    if !target_blank {
        return None;
    }
    if count == 2 {
        return call_arg(n, 0);
    }
    match call_arg(n, 2) {
        Some(fa) => match get_string_lit(fa) {
            Some(fv) => {
                if !contains_noopener(fv.as_str()) {
                    call_arg(n, 0)
                } else {
                    None
                }
            },
            None => None,
        },
        None => None,
    }
}

/// The file offset of the URL when the call is a hit.
pub fn hit_url_start(taint: &TaintResult, off: usize, n: &Json) -> (r: Option<u32>)
    ensures
        r is Some == hit(*taint, off as int, *n),
        r matches Some(s) ==> (unsafe_blank_open_url(*n) matches Some(u) && script_start(off as int, u)
            == Some(s)),
{
    if !is_type(n, "CallExpression") {
        return None;
    }
    let path = callee_path(n);
    if !path_is2(&path, "window", "open") {
        return None;
    }
    match blank_open_url(n) {
        Some(u) => match node_start(off, u) {
            Some(s) => {
                if taint.status_at(s) != TaintStatus::Clean {
                    Some(s)
                } else {
                    None
                }
            },
            None => None,
        },
        None => None,
    }
}

impl Rule for NoWindowOpenBlankNoopener {
    fn info(&self) -> (r: RuleInfo)
        ensures
            r.id@ == "vue/security/no-window-open-blank-noopener"@,
            r.name@ == "no-window-open-blank-noopener"@,
            r.severity == Severity::High,
            r.category == Category::Security,
    {
        RuleInfo {
            id: "vue/security/no-window-open-blank-noopener",
            name: "no-window-open-blank-noopener",
            description: "Disallow `window.open(url, '_blank', ...)` without `noopener` when the URL may carry untrusted data",
            severity: Severity::High,
            category: Category::Security,
            kind: RuleKind::Taint,
            message: "`window.open` with `_blank` is missing `noopener`",
            label: "window.open call here",
            help: "Add `noopener` (or `noreferrer`, which implies `noopener`) to the `windowFeatures` string: `window.open(url, '_blank', 'noopener,width=400')`. Without it the opened tab can call `window.opener.location = ...` and phish the originating page.",
        }
    }

    fn check(&self, ctx: &ScanContext) -> (r: Vec<Finding>)
        ensures
            finding_spans(r@) == script_hits(ScriptCheck::WindowOpen, *ctx),
            // Each finding carries the flow of the value that reaches the sink.
            script_flows_ok(ScriptCheck::WindowOpen, ctx.taint, ctx.script_offset as int, r@, 0),
    {
        check_script(ScriptCheck::WindowOpen, ctx)
    }
}

} // verus!
