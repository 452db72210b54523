//! Depth-first walk over the `<script>` block's tree, running one script
//! rule on every node in document order (a node before its children).

use vstd::prelude::*;

use crate::context::ScanContext;
use crate::parser::estree::{is_type, node_type, Json};
use crate::parser::script::{node_span, script_span, script_start};
use crate::parser::template::Span;
use crate::rules::no_reactive_in_v_for::{is_iteration_call, is_loop, is_loop_statement, iteration_call};
use crate::rules::{
    carries_flow, finding_spans, lemma_finding_spans_push, no_async_setup_without_error_boundary,
    no_deep_watch_without_handler, no_side_effect_in_computed, no_document_write, no_eval,
    no_fetch_without_timeout, no_inner_html, no_open_redirect, no_postmessage_wildcard,
    no_reactive_in_v_for, no_unsafe_localstorage, no_watch_with_callback,
    no_window_open_blank_noopener, Finding, Rule, RuleInfo,
};
use crate::taint::{FlowPath, TaintResult};
use crate::visitor::{kept, opt_seq};

verus! {

/// The script rules walked node by node (`no-eval` is two walks: calls,
/// then `new Function`).
#[derive(Debug, Clone, Copy, PartialEq, Eq, Structural)]
pub enum ScriptCheck {
    EvalCall,
    NewFunction,
    DocumentWrite,
    InnerHtml,
    LocalStorage,
    PostMessage,
    Fetch,
    WindowOpen,
    OpenRedirect,
    Watch,
    DeepWatch,
    ReactiveInLoop,
    SideEffectComputed,
    AsyncSetup,
}

/// What encloses a node: a function, arrow function, object literal or
/// class (an owner for watchers), and a loop body.
#[derive(Debug, Clone, Copy)]
pub struct Scope {
    pub in_owner: bool,
    pub in_loop: bool,
}

/// Nodes whose contents have an owner that disposes watchers.
pub open spec fn is_owner(n: Json) -> bool {
    let t = node_type(n);
    t == "FunctionDeclaration"@ || t == "FunctionExpression"@ || t == "ArrowFunctionExpression"@ || t
        == "ObjectExpression"@ || t == "ClassDeclaration"@ || t == "ClassExpression"@
}

/// The scope of a node's children.
pub open spec fn enter(n: Json, sc: Scope) -> Scope {
    Scope {
        in_owner: sc.in_owner || is_owner(n),
        in_loop: sc.in_loop || is_loop(n) || iteration_call(n),
    }
}

/// True when rule `check` matches node `n` in scope `sc`.
pub open spec fn node_matches(check: ScriptCheck, taint: TaintResult, off: int, n: Json, sc: Scope) -> bool {
    match check {
        ScriptCheck::EvalCall => no_eval::call_hit(n),
        ScriptCheck::NewFunction => no_eval::new_hit(n),
        ScriptCheck::DocumentWrite => no_document_write::hit(n),
        ScriptCheck::InnerHtml => no_inner_html::hit(n),
        ScriptCheck::LocalStorage => no_unsafe_localstorage::hit(n),
        ScriptCheck::PostMessage => no_postmessage_wildcard::hit(n),
        ScriptCheck::Fetch => no_fetch_without_timeout::hit(n),
        ScriptCheck::WindowOpen => no_window_open_blank_noopener::hit(taint, off, n),
        ScriptCheck::OpenRedirect => no_open_redirect::hit(taint, off, n),
        ScriptCheck::Watch => !sc.in_owner && no_watch_with_callback::hit(n),
        ScriptCheck::DeepWatch => no_deep_watch_without_handler::hit(n),
        ScriptCheck::ReactiveInLoop => sc.in_loop && no_reactive_in_v_for::hit(n),
        ScriptCheck::SideEffectComputed => no_side_effect_in_computed::hit(n),
        ScriptCheck::AsyncSetup => no_async_setup_without_error_boundary::hit(n),
    }
}

/// The findings of `check` on `j` and everything below it, in document
/// order. A node's finding is its file span; a reported reactive call is
/// not searched further.
pub open spec fn json_hits(check: ScriptCheck, taint: TaintResult, off: int, j: Json, sc: Scope) -> Seq<Span>
    decreases j, 0int,
{
    match j {
        Json::Obj(fields) => {
            let m = node_matches(check, taint, off, j, sc);
            let here = if m {
                opt_seq(script_span(off, j))
            } else {
                seq![]
            };
            if m && check == ScriptCheck::ReactiveInLoop {
                here
            } else {
                here + fields_hits(check, taint, off, fields@, enter(j, sc))
            }
        },
        Json::Arr(items) => items_hits(check, taint, off, items@, sc),
        _ => seq![],
    }
}

pub open spec fn items_hits(check: ScriptCheck, taint: TaintResult, off: int, items: Seq<Json>, sc: Scope) -> Seq<Span>
    decreases items, 1int,
{
    if items.len() == 0 {
        seq![]
    } else {
        items_hits(check, taint, off, items.drop_last(), sc) + json_hits(check, taint, off, items.last(), sc)
    }
}

pub open spec fn fields_hits(
    check: ScriptCheck,
    taint: TaintResult,
    off: int,
    fields: Seq<(String, Json)>,
    sc: Scope,
) -> Seq<Span>
    decreases fields, 1int,
{
    if fields.len() == 0 {
        seq![]
    } else {
        fields_hits(check, taint, off, fields.drop_last(), sc) + json_hits(
            check,
            taint,
            off,
            fields.last().1,
            sc,
        )
    }
}

/// The scope at the top of a script.
pub open spec fn top_scope() -> Scope {
    Scope { in_owner: false, in_loop: false }
}

/// All findings of script rule `check` on the file. Module-scope watchers
/// are not reported in a `<script setup>` block.
pub open spec fn script_hits(check: ScriptCheck, ctx: ScanContext) -> Seq<Span> {
    match ctx.script_ast {
        Some(tree) => if check == ScriptCheck::Watch && ctx.script_setup {
            seq![]
        } else {
            json_hits(check, ctx.taint, ctx.script_offset as int, tree, top_scope())
        },
        None => seq![],
    }
}

fn enter_scope(n: &Json, sc: Scope) -> (r: Scope)
    ensures
        r == enter(*n, sc),
{
    let owner = is_type(n, "FunctionDeclaration") || is_type(n, "FunctionExpression") || is_type(
        n,
        "ArrowFunctionExpression",
    ) || is_type(n, "ObjectExpression") || is_type(n, "ClassDeclaration") || is_type(n, "ClassExpression");
    Scope {
        in_owner: sc.in_owner || owner,
        in_loop: sc.in_loop || is_loop_statement(n) || is_iteration_call(n),
    }
}

/// The id of the rule behind `check`.
pub open spec fn check_rule_id(check: ScriptCheck) -> Seq<char> {
    match check {
        ScriptCheck::EvalCall | ScriptCheck::NewFunction => "vue/security/no-eval"@,
        ScriptCheck::DocumentWrite => "vue/security/no-document-write"@,
        ScriptCheck::InnerHtml => "vue/security/no-inner-html"@,
        ScriptCheck::LocalStorage => "vue/security/no-unsafe-localstorage"@,
        ScriptCheck::PostMessage => "vue/security/no-postmessage-wildcard"@,
        ScriptCheck::Fetch => "vue/security/no-fetch-without-timeout"@,
        ScriptCheck::WindowOpen => "vue/security/no-window-open-blank-noopener"@,
        ScriptCheck::OpenRedirect => "vue/security/no-open-redirect"@,
        ScriptCheck::Watch => "vue/best-practice/no-watch-with-callback"@,
        ScriptCheck::DeepWatch => "vue/performance/no-deep-watch-without-handler"@,
        ScriptCheck::ReactiveInLoop => "vue/performance/no-reactive-in-v-for"@,
        ScriptCheck::SideEffectComputed => "vue/architecture/no-side-effect-in-computed"@,
        ScriptCheck::AsyncSetup => "vue/architecture/no-async-setup-without-error-boundary"@,
    }
}

/// The description of the rule behind `check`.
fn check_info(check: ScriptCheck) -> (r: RuleInfo)
    ensures
        r.id@ == check_rule_id(check),
{
    match check {
        ScriptCheck::EvalCall | ScriptCheck::NewFunction => no_eval::NoEval.info(),
        ScriptCheck::DocumentWrite => no_document_write::NoDocumentWrite.info(),
        ScriptCheck::InnerHtml => no_inner_html::NoInnerHtml.info(),
        ScriptCheck::LocalStorage => no_unsafe_localstorage::NoUnsafeLocalStorage.info(),
        ScriptCheck::PostMessage => no_postmessage_wildcard::NoPostmessageWildcard.info(),
        ScriptCheck::Fetch => no_fetch_without_timeout::NoFetchWithoutTimeout.info(),
        ScriptCheck::WindowOpen => no_window_open_blank_noopener::NoWindowOpenBlankNoopener.info(),
        ScriptCheck::OpenRedirect => no_open_redirect::NoOpenRedirect.info(),
        ScriptCheck::Watch => no_watch_with_callback::NoWatchWithCallback.info(),
        ScriptCheck::DeepWatch => no_deep_watch_without_handler::NoDeepWatchWithoutHandler.info(),
        ScriptCheck::ReactiveInLoop => no_reactive_in_v_for::NoReactiveInVFor.info(),
        ScriptCheck::SideEffectComputed => no_side_effect_in_computed::NoSideEffectInComputed.info(),
        ScriptCheck::AsyncSetup => no_async_setup_without_error_boundary::NoAsyncSetupWithoutErrorBoundary.info(),
    }
}

/// The flows a finding of `check` on node `n` carries: for the sinks of
/// untrusted data (`window.open` URLs, navigation), the flow of the value's
/// fact; none for the other rules.
pub open spec fn node_flow(check: ScriptCheck, taint: TaintResult, off: int, n: Json, fl: Option<Vec<FlowPath>>) -> bool {
    match check {
        ScriptCheck::WindowOpen => match no_window_open_blank_noopener::unsafe_blank_open_url(n) {
            Some(u) => match script_start(off, u) {
                Some(s) => carries_flow(taint, s, "`window.open` URL"@, fl),
                None => true,
            },
            None => true,
        },
        ScriptCheck::OpenRedirect => match no_open_redirect::forwarded(n) {
            Some(v) => match script_start(off, v) {
                Some(s) => carries_flow(
                    taint,
                    s,
                    if node_type(n) == "AssignmentExpression"@ {
                        "navigation assignment"@
                    } else {
                        "navigation call"@
                    },
                    fl,
                ),
                None => true,
            },
            None => true,
        },
        _ => fl is None,
    }
}

/// Each finding from index `from` on is the finding of some node, with
/// that node's flow.
pub open spec fn script_flows_ok(check: ScriptCheck, taint: TaintResult, off: int, fs: Seq<Finding>, from: int) -> bool {
    forall|k: int|
        from <= k < fs.len() ==> exists|n: Json|
            script_span(off, n) == Some((#[trigger] fs[k]).span) && node_flow(check, taint, off, n, fs[k].flow)
}

proof fn lemma_script_flows_extend(
    check: ScriptCheck,
    taint: TaintResult,
    off: int,
    f0: Seq<Finding>,
    f1: Seq<Finding>,
    f2: Seq<Finding>,
)
    requires
        kept(f0, f1),
        kept(f1, f2),
        script_flows_ok(check, taint, off, f1, f0.len() as int),
        script_flows_ok(check, taint, off, f2, f1.len() as int),
    ensures
        kept(f0, f2),
        script_flows_ok(check, taint, off, f2, f0.len() as int),
{
    assert forall|k: int| f0.len() <= k < f2.len() implies exists|n: Json|
        script_span(off, n) == Some((#[trigger] f2[k]).span) && node_flow(check, taint, off, n, f2[k].flow) by {
        if k < f1.len() {
            assert(f2[k] == f1[k]);
            assert(exists|n: Json| script_span(off, n) == Some((#[trigger] f1[k]).span) && node_flow(check, taint, off, n, f1[k].flow));
        }
    }
}

/// Whether `check` matches node `n`, and its finding when the node's span
/// fits the file.
fn node_finding(check: ScriptCheck, taint: &TaintResult, off: usize, n: &Json, sc: Scope) -> (r: (
    bool,
    Option<Finding>,
))
    ensures
        r.0 == node_matches(check, *taint, off as int, *n, sc),
        match r.1 {
            Some(f) => r.0 && script_span(off as int, *n) == Some(f.span),
            None => !r.0 || script_span(off as int, *n) is None,
        },
        r.1 matches Some(f) ==> node_flow(check, *taint, off as int, *n, f.flow),
{
    let (matched, flow): (bool, Option<FlowPath>) = match check {
        ScriptCheck::EvalCall => (no_eval::is_call_hit(n), None),
        ScriptCheck::NewFunction => (no_eval::is_new_hit(n), None),
        ScriptCheck::DocumentWrite => (no_document_write::is_hit(n), None),
        ScriptCheck::InnerHtml => (no_inner_html::is_hit(n), None),
        ScriptCheck::LocalStorage => (no_unsafe_localstorage::is_hit(n), None),
        ScriptCheck::PostMessage => (no_postmessage_wildcard::is_hit(n), None),
        ScriptCheck::Fetch => (no_fetch_without_timeout::is_hit(n), None),
        ScriptCheck::WindowOpen => match no_window_open_blank_noopener::hit_url_start(taint, off, n) {
            Some(s) => (true, taint.flow_at(s, "`window.open` URL")),
            None => (false, None),
        },
        ScriptCheck::OpenRedirect => match no_open_redirect::hit_value_start(taint, off, n) {
            Some((s, assignment)) => {
                let sink = if assignment {
                    "navigation assignment"
                } else {
                    "navigation call"
                };
                (true, taint.flow_at(s, sink))
            },
            None => (false, None),
        },
        ScriptCheck::Watch => (!sc.in_owner && no_watch_with_callback::is_hit(n), None),
        ScriptCheck::DeepWatch => (no_deep_watch_without_handler::is_hit(n), None),
        ScriptCheck::ReactiveInLoop => (sc.in_loop && no_reactive_in_v_for::is_hit(n), None),
        ScriptCheck::SideEffectComputed => (no_side_effect_in_computed::is_hit(n), None),
        ScriptCheck::AsyncSetup => (no_async_setup_without_error_boundary::is_hit(n), None),
    };
    if !matched {
        return (false, None);
    }
    match node_span(off, n) {
        Some(span) => (true, Some(Finding::with_flow(check_info(check), span, flow))),
        None => (true, None),
    }
}

/// Run `check` over `j` and everything below it, appending findings.
pub fn walk_script(
    check: ScriptCheck,
    taint: &TaintResult,
    off: usize,
    j: &Json,
    sc: Scope,
    out: &mut Vec<Finding>,
)
    ensures
        finding_spans(final(out)@) == finding_spans(old(out)@) + json_hits(check, *taint, off as int, *j, sc),
        kept(old(out)@, final(out)@),
        script_flows_ok(check, *taint, off as int, final(out)@, old(out)@.len() as int),
    decreases *j,
{
    match j {
        Json::Obj(fields) => {
            let (matched, f) = node_finding(check, taint, off, j, sc);
            let ghost before = finding_spans(out@);
            match f {
                Some(x) => {
                    proof {
                        lemma_finding_spans_push(out@, x);
                    }
                    out.push(x);
                    proof {
                        assert(script_span(off as int, *j) == Some(out@[out@.len() - 1].span));
                        assert forall|k: int| old(out)@.len() <= k < out@.len() implies exists|n: Json|
                            script_span(off as int, n) == Some((#[trigger] out@[k]).span) && node_flow(
                                check,
                                *taint,
                                off as int,
                                n,
                                out@[k].flow,
                            ) by {
                            assert(out@[k] == x);
                        }
                    }
                },
                None => {},
            }
            let ghost after_here = out@;
            let ghost here = if matched {
                opt_seq(script_span(off as int, *j))
            } else {
                Seq::<Span>::empty()
            };
            assert(finding_spans(out@) =~= before + here);
            if matched && check == ScriptCheck::ReactiveInLoop {
                return;
            }
            let inner = enter_scope(j, sc);
            let ghost mid = finding_spans(out@);
            let mut i: usize = 0;
            assert(fields@.take(0) =~= Seq::<(String, Json)>::empty());
            while i < fields.len()
                invariant
                    i <= fields.len(),
                    *j == Json::Obj(*fields),
                    finding_spans(out@) == mid + fields_hits(check, *taint, off as int, fields@.take(i as int), inner),
                    kept(old(out)@, out@),
                    script_flows_ok(check, *taint, off as int, out@, old(out)@.len() as int),
                decreases fields.len() - i,
            {
                proof {
                    let t = fields@.take(i + 1);
                    assert(t.drop_last() =~= fields@.take(i as int));
                    assert(t.last() == fields@[i as int]);
                    assert(decreases_to!(fields@ => fields@[i as int]));
                    assert(decreases_to!(*j => (*j)->Obj_0));
                    assert(decreases_to!(*fields => fields@));
                    assert(decreases_to!(*j => fields@[i as int].1));
                }
                let ghost prev = out@;
                walk_script(check, taint, off, &fields[i].1, inner, out);
                proof {
                    lemma_script_flows_extend(check, *taint, off as int, old(out)@, prev, out@);
                }
                i = i + 1;
            }
            assert(fields@.take(fields.len() as int) =~= fields@);
            assert(finding_spans(out@) =~= finding_spans(old(out)@) + json_hits(check, *taint, off as int, *j, sc));
        },
        Json::Arr(items) => {
            let ghost start = finding_spans(out@);
            let mut i: usize = 0;
            assert(items@.take(0) =~= Seq::<Json>::empty());
            while i < items.len()
                invariant
                    i <= items.len(),
                    *j == Json::Arr(*items),
                    finding_spans(out@) == start + items_hits(check, *taint, off as int, items@.take(i as int), sc),
                    kept(old(out)@, out@),
                    script_flows_ok(check, *taint, off as int, out@, old(out)@.len() as int),
                decreases items.len() - i,
            {
                proof {
                    let t = items@.take(i + 1);
                    assert(t.drop_last() =~= items@.take(i as int));
                    assert(t.last() == items@[i as int]);
                    assert(decreases_to!(items@ => items@[i as int]));
                    assert(decreases_to!(*j => (*j)->Arr_0));
                    assert(decreases_to!(*items => items@));
                    assert(decreases_to!(*j => items@[i as int]));
                }
                let ghost prev = out@;
                walk_script(check, taint, off, &items[i], sc, out);
                proof {
                    lemma_script_flows_extend(check, *taint, off as int, old(out)@, prev, out@);
                }
                i = i + 1;
            }
            assert(items@.take(items.len() as int) =~= items@);
        },
        _ => {
            assert(finding_spans(out@) =~= finding_spans(old(out)@) + json_hits(check, *taint, off as int, *j, sc));
        },
    }
}

/// Run script rule `check` over the file's script.
pub fn check_script(check: ScriptCheck, ctx: &ScanContext) -> (r: Vec<Finding>)
    ensures
        finding_spans(r@) == script_hits(check, *ctx),
        // Every finding carries its node's flow.
        script_flows_ok(check, ctx.taint, ctx.script_offset as int, r@, 0),
{
    let mut out: Vec<Finding> = Vec::new();
    assert(finding_spans(out@) =~= Seq::<Span>::empty());
    match &ctx.script_ast {
        Some(tree) => {
            if check == ScriptCheck::Watch && ctx.script_setup {
                return out;
            }
            walk_script(check, &ctx.taint, ctx.script_offset, tree, Scope { in_owner: false, in_loop: false }, &mut out);
        },
        None => {},
    }
    out
}

} // verus!
