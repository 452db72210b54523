//! An `async setup()` in a component whose template has no `<Suspense>`.
//!
//! A heuristic of low severity: Vue 3 renders an async-setup component
//! only inside a `<Suspense>` boundary of its parent. The parent's template
//! is not visible here, so the component's own template stands for it: an
//! object member `setup` that is an `async` function or arrow function is
//! reported unless the file's template holds a `<Suspense>` element (in
//! any ASCII case). A component always mounted under a router-level
//! `Suspense` silences it with a suppression comment.

use vstd::prelude::*;

use crate::context::ScanContext;
use crate::parser::estree::{get, get_field, Json};
use crate::parser::script::{get_prop_key_name, prop_key_name};
use crate::parser::template::{Span, TemplateNode};
use crate::rules::no_side_effect_in_computed::{async_flag, getter_fn, is_async, is_getter_fn};
use crate::rules::{finding_spans, Category, Finding, Rule, RuleInfo, RuleKind};
use crate::severity::Severity;
use crate::text::{ascii_lower, chars_of, spec_ascii_lower, spec_ascii_lower_seq, str_is};
use crate::visitor::script::{check_script, script_hits, ScriptCheck};

verus! {

pub struct NoAsyncSetupWithoutErrorBoundary;

/// An object member `setup` whose value is an `async` function.
pub open spec fn hit(n: Json) -> bool {
    prop_key_name(n) == Some("setup"@) && match get(n, "value"@) {
        Some(v) => is_getter_fn(v) && is_async(v),
        None => false,
    }
}

/// The element name is `suspense` in some ASCII case.
pub open spec fn is_suspense(name: Seq<char>) -> bool {
    spec_ascii_lower_seq(name) == "suspense"@
}

/// Some element among `nodes` or below them is a `<Suspense>`.
pub open spec fn has_suspense(nodes: Seq<TemplateNode>) -> bool
    decreases nodes,
{
    if nodes.len() == 0 {
        false
    } else {
        has_suspense(nodes.drop_last()) || node_has_suspense(nodes.last())
    }
}

pub open spec fn node_has_suspense(n: TemplateNode) -> bool
    decreases n,
{
    match n {
        TemplateNode::Element(el) => is_suspense(el.name@) || has_suspense(el.children@),
        _ => false,
    }
}

/// The file's template holds a `<Suspense>` boundary.
pub open spec fn template_has_suspense(ctx: ScanContext) -> bool {
    match ctx.template_ast {
        Some(root) => has_suspense(root.children@),
        None => false,
    }
}

/// The findings of the rule on a file.
pub open spec fn async_setup_hits(ctx: ScanContext) -> Seq<Span> {
    if template_has_suspense(ctx) {
        seq![]
    } else {
        script_hits(ScriptCheck::AsyncSetup, ctx)
    }
}

pub fn is_hit(n: &Json) -> (r: bool)
    ensures
        r == hit(*n),
{
    match get_prop_key_name(n) {
        Some(k) => {
            if !str_is(k, "setup") {
                return false;
            }
        },
        None => {
            return false;
        },
    }
    match get_field(n, "value") {
        Some(v) => getter_fn(v) && async_flag(v),
        None => false,
    }
}

fn suspense_name(name: &String) -> (r: bool)
    ensures
        r == is_suspense(name@),
{
    let cs = chars_of(name.as_str());
    let target = chars_of("suspense");
    proof {
        reveal_strlit("suspense");
    }
    if cs.len() != target.len() {
        proof {
            if is_suspense(name@) {
                assert(spec_ascii_lower_seq(name@).len() == cs.len());
            }
        }
        return false;
    }
    let mut k: usize = 0;
    while k < cs.len()
        invariant
            cs@ == name@,
            target@ == "suspense"@,
            cs.len() == target.len(),
            k <= cs.len(),
            forall|m: int| 0 <= m < k ==> spec_ascii_lower(#[trigger] cs@[m]) == target@[m],
        decreases cs.len() - k,
    {
        if ascii_lower(cs[k]) != target[k] {
            proof {
                assert(spec_ascii_lower_seq(name@)[k as int] != "suspense"@[k as int]);
            }
            return false;
        }
        k = k + 1;
    }
    assert(spec_ascii_lower_seq(name@) =~= "suspense"@);
    true
}

/// Whether some element among `nodes` or below them is a `<Suspense>`.
pub fn find_suspense(nodes: &Vec<TemplateNode>) -> (r: bool)
    ensures
        r == has_suspense(nodes@),
    decreases nodes@,
{
    let mut found = false;
    let mut i: usize = 0;
    assert(nodes@.take(0) =~= Seq::<TemplateNode>::empty());
    while i < nodes.len()
        invariant
            i <= nodes.len(),
            found == has_suspense(nodes@.take(i as int)),
        decreases nodes.len() - i,
    {
        proof {
            assert(nodes@.take(i + 1).drop_last() =~= nodes@.take(i as int));
            assert(nodes@.take(i + 1).last() == nodes@[i as int]);
        }
        if !found {
            match &nodes[i] {
                TemplateNode::Element(el) => {
                    proof {
                        assert(decreases_to!(nodes@ => nodes@[i as int]));
                    }
                    found = suspense_name(&el.name) || find_suspense(&el.children);
                },
                _ => {},
            }
        }
        assert(has_suspense(nodes@.take(i + 1)) == (has_suspense(nodes@.take(i as int)) || node_has_suspense(
            nodes@[i as int],
        )));
        i = i + 1;
    }
    assert(nodes@.take(nodes.len() as int) =~= nodes@);
    found
}

impl Rule for NoAsyncSetupWithoutErrorBoundary {
    fn info(&self) -> (r: RuleInfo)
        ensures
            r.id@ == "vue/architecture/no-async-setup-without-error-boundary"@,
            r.name@ == "no-async-setup-without-error-boundary"@,
            r.severity == Severity::Low,
            r.category == Category::Architecture,
    {
        RuleInfo {
            id: "vue/architecture/no-async-setup-without-error-boundary",
            name: "no-async-setup-without-error-boundary",
            description: "Heuristic: `async setup()` without a `<Suspense>` boundary",
            severity: Severity::Low,
            category: Category::Architecture,
            kind: RuleKind::Syntactic,
            message: "`async setup()` has no `<Suspense>` boundary",
            label: "async setup here",
            help: "Vue 3 requires an `async setup()` component to be wrapped in `<Suspense>` (at the parent) to render a fallback while the promise resolves. If this component is always mounted inside a router-level `Suspense`, silence with `vuer-ignore[no-async-setup-without-error-boundary]`.",
        }
    }

    fn check(&self, ctx: &ScanContext) -> (r: Vec<Finding>)
        ensures
            finding_spans(r@) == async_setup_hits(*ctx),
    {
        let suspense = match &ctx.template_ast {
            Some(root) => find_suspense(&root.children),
            None => false,
        };
        if suspense {
            let none: Vec<Finding> = Vec::new();
            assert(finding_spans(none@) =~= Seq::<Span>::empty());
            return none;
        }
        check_script(ScriptCheck::AsyncSetup, ctx)
    }
}

} // verus!
