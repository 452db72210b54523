//! Depth-first walk over a template, running one template rule on every
//! element in document order (an element before its children).

use vstd::prelude::*;

use crate::context::ScanContext;
use crate::parser::template::{Attribute, Element, Span, TemplateNode};
use crate::rules::no_form_without_label::{collect_label_targets, label_targets};
use crate::rules::no_large_list_without_virtualization::{is_virtual_scroll_wrapper, spec_is_virtual};
use crate::rules::{
    finding_spans, lemma_finding_spans_push, no_button_without_type, no_click_without_role_keyboard,
    no_dangerous_url, no_dynamic_bind, no_form_without_label, no_img_without_alt, no_inline_styles,
    no_large_list_without_virtualization, no_unsafe_iframe, no_v_html, no_v_if_with_v_for,
    v_for_missing_key, Finding,
};
use crate::taint::{FlowPath, TaintResult};
use crate::text::str_is;

pub mod script;

verus! {

/// The template rules.
#[derive(Debug, Clone, Copy, PartialEq, Eq, Structural)]
pub enum TemplateCheck {
    VHtml,
    DynamicBindSrc,
    DangerousUrl,
    InlineStyle,
    UnsafeIframe,
    VForMissingKey,
    ImgWithoutAlt,
    ButtonWithoutType,
    ClickWithoutRoleKeyboard,
    VIfWithVFor,
    FormWithoutLabel,
    LargeList,
}

pub open spec fn opt_seq(o: Option<Span>) -> Seq<Span> {
    match o {
        Some(s) => seq![s],
        None => seq![],
    }
}

/// The finding of a per-attribute rule on one attribute.
pub open spec fn attr_hit(check: TemplateCheck, taint: TaintResult, a: Attribute) -> Option<Span> {
    match check {
        TemplateCheck::VHtml => no_v_html::hit(taint, a),
        TemplateCheck::DynamicBindSrc => no_dynamic_bind::hit(taint, a),
        TemplateCheck::DangerousUrl => no_dangerous_url::hit(a),
        TemplateCheck::InlineStyle => no_inline_styles::hit(a),
        _ => None,
    }
}

pub open spec fn is_attr_check(check: TemplateCheck) -> bool {
    check == TemplateCheck::VHtml || check == TemplateCheck::DynamicBindSrc || check
        == TemplateCheck::DangerousUrl || check == TemplateCheck::InlineStyle
}

/// Findings of a per-attribute rule over the attributes, in order.
pub open spec fn attrs_hits(check: TemplateCheck, taint: TaintResult, attrs: Seq<Attribute>) -> Seq<Span>
    decreases attrs.len(),
{
    if attrs.len() == 0 {
        seq![]
    } else {
        attrs_hits(check, taint, attrs.drop_last()) + opt_seq(attr_hit(check, taint, attrs.last()))
    }
}

/// The findings of `check` on one element (not its children).
pub open spec fn element_hits(
    check: TemplateCheck,
    taint: TaintResult,
    labelled: Seq<String>,
    el: Element,
    in_label: bool,
    in_virtual: bool,
) -> Seq<Span> {
    if is_attr_check(check) {
        attrs_hits(check, taint, el.attributes@)
    } else {
        opt_seq(
            match check {
                TemplateCheck::UnsafeIframe => no_unsafe_iframe::hit(el),
                TemplateCheck::VForMissingKey => v_for_missing_key::hit(el),
                TemplateCheck::ImgWithoutAlt => no_img_without_alt::hit(el),
                TemplateCheck::ButtonWithoutType => no_button_without_type::hit(el),
                TemplateCheck::ClickWithoutRoleKeyboard => no_click_without_role_keyboard::hit(el),
                TemplateCheck::VIfWithVFor => no_v_if_with_v_for::hit(el),
                TemplateCheck::FormWithoutLabel => no_form_without_label::hit(el, labelled, in_label),
                TemplateCheck::LargeList => no_large_list_without_virtualization::hit(el, in_virtual),
                _ => None,
            },
        )
    }
}

/// The findings of `check` over `nodes` and everything below them, in
/// document order. `in_label` / `in_virtual` say whether an ancestor is a
/// `<label>` / a virtual-scroll wrapper.
pub open spec fn walk_hits(
    check: TemplateCheck,
    taint: TaintResult,
    labelled: Seq<String>,
    nodes: Seq<TemplateNode>,
    in_label: bool,
    in_virtual: bool,
) -> Seq<Span>
    decreases nodes,
{
    if nodes.len() == 0 {
        seq![]
    } else {
        walk_hits(check, taint, labelled, nodes.drop_last(), in_label, in_virtual) + node_hits(
            check,
            taint,
            labelled,
            nodes.last(),
            in_label,
            in_virtual,
        )
    }
}

pub open spec fn node_hits(
    check: TemplateCheck,
    taint: TaintResult,
    labelled: Seq<String>,
    n: TemplateNode,
    in_label: bool,
    in_virtual: bool,
) -> Seq<Span>
    decreases n,
{
    match n {
        TemplateNode::Element(el) => element_hits(check, taint, labelled, el, in_label, in_virtual)
            + walk_hits(
            check,
            taint,
            labelled,
            el.children@,
            in_label || el.name@ == "label"@,
            in_virtual || spec_is_virtual(el),
        ),
        _ => seq![],
    }
}

/// All findings of template rule `check` on the file.
pub open spec fn template_hits(check: TemplateCheck, ctx: ScanContext) -> Seq<Span> {
    match ctx.template_ast {
        Some(root) => walk_hits(
            check,
            ctx.taint,
            if check == TemplateCheck::FormWithoutLabel {
                label_targets(root.children@)
            } else {
                seq![]
            },
            root.children@,
            false,
            false,
        ),
        None => seq![],
    }
}

/// The flows a finding of a per-attribute rule on `a` carries: for the
/// taint rules, the flow of the bound expression's fact.
pub open spec fn attr_flow(check: TemplateCheck, taint: TaintResult, a: Attribute, fl: Option<Vec<FlowPath>>) -> bool {
    match check {
        TemplateCheck::VHtml => no_v_html::flow_of(taint, a, fl),
        TemplateCheck::DynamicBindSrc => no_dynamic_bind::flow_of(taint, a, fl),
        _ => true,
    }
}

/// Each finding from index `from` on is the finding of some attribute,
/// with that attribute's flow.
pub open spec fn flows_ok(check: TemplateCheck, taint: TaintResult, fs: Seq<Finding>, from: int) -> bool {
    forall|k: int|
        from <= k < fs.len() ==> exists|a: Attribute|
            attr_hit(check, taint, a) == Some((#[trigger] fs[k]).span) && attr_flow(check, taint, a, fs[k].flow)
}

/// The findings before `old.len()` are kept.
pub open spec fn kept(old: Seq<Finding>, new: Seq<Finding>) -> bool {
    &&& old.len() <= new.len()
    &&& forall|k: int| 0 <= k < old.len() ==> #[trigger] new[k] == old[k]
}

proof fn lemma_flows_extend(check: TemplateCheck, taint: TaintResult, f0: Seq<Finding>, f1: Seq<Finding>, f2: Seq<Finding>)
    requires
        kept(f0, f1),
        kept(f1, f2),
        flows_ok(check, taint, f1, f0.len() as int),
        flows_ok(check, taint, f2, f1.len() as int),
    ensures
        kept(f0, f2),
        flows_ok(check, taint, f2, f0.len() as int),
{
    assert forall|k: int| f0.len() <= k < f2.len() implies exists|a: Attribute|
        attr_hit(check, taint, a) == Some((#[trigger] f2[k]).span) && attr_flow(check, taint, a, f2[k].flow) by {
        if k < f1.len() {
            assert(f2[k] == f1[k]);
            assert(exists|a: Attribute| attr_hit(check, taint, a) == Some((#[trigger] f1[k]).span) && attr_flow(check, taint, a, f1[k].flow));
        }
    }
}

fn attr_finding(check: TemplateCheck, taint: &TaintResult, a: &Attribute) -> (r: Option<Finding>)
    ensures
        match r {
            Some(f) => attr_hit(check, *taint, *a) == Some(f.span),
            None => attr_hit(check, *taint, *a) is None,
        },
        r matches Some(f) ==> attr_flow(check, *taint, *a, f.flow),
{
    match check {
        TemplateCheck::VHtml => no_v_html::hit_finding(taint, a),
        TemplateCheck::DynamicBindSrc => no_dynamic_bind::hit_finding(taint, a),
        TemplateCheck::DangerousUrl => no_dangerous_url::hit_finding(a),
        TemplateCheck::InlineStyle => no_inline_styles::hit_finding(a),
        _ => None,
    }
}

fn push_opt(out: &mut Vec<Finding>, f: Option<Finding>)
    ensures
        finding_spans(final(out)@) == finding_spans(old(out)@) + opt_seq(
            match f {
                Some(x) => Some(x.span),
                None => None,
            },
        ),
        kept(old(out)@, final(out)@),
        f matches Some(x) ==> final(out)@ == old(out)@.push(x),
        f is None ==> final(out)@ == old(out)@,
{
    match f {
        Some(x) => {
            proof {
                lemma_finding_spans_push(out@, x);
            }
            out.push(x);
        },
        None => {
            assert(finding_spans(out@) + opt_seq(None) =~= finding_spans(out@));
        },
    }
}

fn element_findings(
    check: TemplateCheck,
    taint: &TaintResult,
    labelled: &Vec<String>,
    el: &Element,
    in_label: bool,
    in_virtual: bool,
    out: &mut Vec<Finding>,
)
    ensures
        finding_spans(final(out)@) == finding_spans(old(out)@) + element_hits(
            check,
            *taint,
            labelled@,
            *el,
            in_label,
            in_virtual,
        ),
        kept(old(out)@, final(out)@),
        is_attr_check(check) ==> flows_ok(check, *taint, final(out)@, old(out)@.len() as int),
{
    if check == TemplateCheck::VHtml || check == TemplateCheck::DynamicBindSrc || check
        == TemplateCheck::DangerousUrl || check == TemplateCheck::InlineStyle {
        let mut i: usize = 0;
        assert(el.attributes@.take(0) =~= Seq::<Attribute>::empty());
        while i < el.attributes.len()
            invariant
                i <= el.attributes.len(),
                finding_spans(out@) == finding_spans(old(out)@) + attrs_hits(
                    check,
                    *taint,
                    el.attributes@.take(i as int),
                ),
                kept(old(out)@, out@),
                flows_ok(check, *taint, out@, old(out)@.len() as int),
            decreases el.attributes.len() - i,
        {
            let ghost before = finding_spans(out@);
            let ghost prev = out@;
            let f = attr_finding(check, taint, &el.attributes[i]);
            push_opt(out, f);
            proof {
                assert forall|k: int| old(out)@.len() <= k < out@.len() implies exists|a: Attribute|
                    attr_hit(check, *taint, a) == Some((#[trigger] out@[k]).span) && attr_flow(check, *taint, a, out@[k].flow) by {
                    if k < prev.len() {
                        assert(out@[k] == prev[k]);
                        assert(exists|a: Attribute| attr_hit(check, *taint, a) == Some((#[trigger] prev[k]).span) && attr_flow(check, *taint, a, prev[k].flow));
                    } else {
                        assert(attr_hit(check, *taint, el.attributes@[i as int]) == Some(out@[k].span));
                    }
                }
            }
            proof {
                let t = el.attributes@.take(i + 1);
                assert(t.drop_last() =~= el.attributes@.take(i as int));
                assert(t.last() == el.attributes@[i as int]);
                assert(finding_spans(out@) =~= finding_spans(old(out)@) + attrs_hits(check, *taint, t));
            }
            i = i + 1;
        }
        assert(el.attributes@.take(el.attributes.len() as int) =~= el.attributes@);
    } else {
        let f = match check {
            TemplateCheck::UnsafeIframe => no_unsafe_iframe::hit_finding(el),
            TemplateCheck::VForMissingKey => v_for_missing_key::hit_finding(el),
            TemplateCheck::ImgWithoutAlt => no_img_without_alt::hit_finding(el),
            TemplateCheck::ButtonWithoutType => no_button_without_type::hit_finding(el),
            TemplateCheck::ClickWithoutRoleKeyboard => no_click_without_role_keyboard::hit_finding(el),
            TemplateCheck::VIfWithVFor => no_v_if_with_v_for::hit_finding(el),
            TemplateCheck::FormWithoutLabel => no_form_without_label::hit_finding(el, labelled, in_label),
            TemplateCheck::LargeList => no_large_list_without_virtualization::hit_finding(el, in_virtual),
            _ => None,
        };
        push_opt(out, f);
    }
}

/// Run `check` over `nodes` and their descendants, appending findings.
pub fn walk(
    check: TemplateCheck,
    taint: &TaintResult,
    labelled: &Vec<String>,
    nodes: &Vec<TemplateNode>,
    in_label: bool,
    in_virtual: bool,
    out: &mut Vec<Finding>,
)
    ensures
        finding_spans(final(out)@) == finding_spans(old(out)@) + walk_hits(
            check,
            *taint,
            labelled@,
            nodes@,
            in_label,
            in_virtual,
        ),
        kept(old(out)@, final(out)@),
        is_attr_check(check) ==> flows_ok(check, *taint, final(out)@, old(out)@.len() as int),
    decreases nodes@,
{
    let mut i: usize = 0;
    assert(nodes@.take(0) =~= Seq::<TemplateNode>::empty());
    while i < nodes.len()
        invariant
            i <= nodes.len(),
            finding_spans(out@) == finding_spans(old(out)@) + walk_hits(
                check,
                *taint,
                labelled@,
                nodes@.take(i as int),
                in_label,
                in_virtual,
            ),
            kept(old(out)@, out@),
            is_attr_check(check) ==> flows_ok(check, *taint, out@, old(out)@.len() as int),
        decreases nodes.len() - i,
    {
        let ghost before = finding_spans(out@);
        let ghost start = out@;
        proof {
            let t = nodes@.take(i + 1);
            assert(t.drop_last() =~= nodes@.take(i as int));
            assert(t.last() == nodes@[i as int]);
        }
        match &nodes[i] {
            TemplateNode::Element(el) => {
                element_findings(check, taint, labelled, el, in_label, in_virtual, out);
                let ghost mid = out@;
                let child_label = in_label || str_is(&el.name, "label");
                let child_virtual = in_virtual || is_virtual_scroll_wrapper(el);
                proof {
                    assert(decreases_to!(nodes@ => nodes@[i as int]));
                }
                walk(check, taint, labelled, &el.children, child_label, child_virtual, out);
                proof {
                    if is_attr_check(check) {
                        lemma_flows_extend(check, *taint, start, mid, out@);
                        lemma_flows_extend(check, *taint, old(out)@, start, out@);
                    }
                    assert(kept(old(out)@, out@));
                }
                proof {
                    assert(finding_spans(out@) =~= before + node_hits(check, *taint, labelled@, nodes@[i as int], in_label, in_virtual));
                }
            },
            _ => {
                assert(finding_spans(out@) =~= before + node_hits(check, *taint, labelled@, nodes@[i as int], in_label, in_virtual));
            },
        }
        proof {
            assert(finding_spans(out@) =~= finding_spans(old(out)@) + walk_hits(
                check,
                *taint,
                labelled@,
                nodes@.take(i + 1),
                in_label,
                in_virtual,
            ));
        }
        i = i + 1;
    }
    assert(nodes@.take(nodes.len() as int) =~= nodes@);
}

/// Run template rule `check` over the file's template.
pub fn check_template(check: TemplateCheck, ctx: &ScanContext) -> (r: Vec<Finding>)
    ensures
        finding_spans(r@) == template_hits(check, *ctx),
        // Every finding of a per-attribute rule carries its attribute's
        // flow.
        is_attr_check(check) ==> flows_ok(check, ctx.taint, r@, 0),
{
    let mut out: Vec<Finding> = Vec::new();
    assert(finding_spans(out@) =~= Seq::<Span>::empty());
    match &ctx.template_ast {
        Some(root) => {
            let mut labelled: Vec<String> = Vec::new();
            if check == TemplateCheck::FormWithoutLabel {
                collect_label_targets(&root.children, &mut labelled);
                assert(labelled@ =~= label_targets(root.children@));
            } else {
                assert(labelled@ =~= Seq::<String>::empty());
            }
            walk(check, &ctx.taint, &labelled, &root.children, false, false, &mut out);
            assert(finding_spans(out@) =~= template_hits(check, *ctx));
        },
        None => {},
    }
    out
}

} // verus!
