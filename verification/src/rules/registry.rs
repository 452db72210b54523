//! The registered rules, in their fixed order, and their selection by id
//! or name.

use vstd::prelude::*;

use crate::context::ScanContext;
use crate::parser::template::Span;
use crate::rules::{
    finding_spans, no_button_without_type, no_click_without_role_keyboard, no_dangerous_url,
    no_deep_watch_without_handler, no_document_write, no_dynamic_bind, no_eval,
    no_fetch_without_timeout, no_form_without_label, no_img_without_alt, no_inline_styles,
    no_inner_html, no_large_list_without_virtualization, no_open_redirect, no_postmessage_wildcard,
    no_async_setup_without_error_boundary, no_mutation_of_props, no_side_effect_in_computed,
    no_reactive_in_v_for, no_unsafe_iframe, no_unsafe_localstorage, no_v_html, no_v_if_with_v_for,
    no_watch_with_callback, no_window_open_blank_noopener, v_for_missing_key, Category, Finding, Rule,
    RuleInfo,
};
use crate::severity::Severity;
use crate::text::str_eq;
use crate::visitor::script::{script_hits, ScriptCheck};
use crate::visitor::{template_hits, TemplateCheck};

verus! {

/// A registered rule.
#[derive(Debug, Clone, Copy, PartialEq, Eq, Structural)]
pub enum RegisteredRule {
    NoVHtml,
    NoInnerHtml,
    NoDocumentWrite,
    NoEval,
    NoDangerousUrl,
    NoOpenRedirect,
    NoUnsafeLocalStorage,
    NoUnsafeIframe,
    NoDynamicBindSrc,
    NoPostmessageWildcard,
    NoWindowOpenBlankNoopener,
    NoFetchWithoutTimeout,
    NoInlineStyle,
    NoWatchWithCallback,
    VForMissingKey,
    NoVIfWithVFor,
    NoDeepWatchWithoutHandler,
    NoReactiveInVFor,
    NoLargeListWithoutVirtualization,
    NoImgWithoutAlt,
    NoClickWithoutRoleKeyboard,
    NoFormWithoutLabel,
    NoButtonWithoutType,
    NoSideEffectInComputed,
    NoMutationOfProps,
    NoAsyncSetupWithoutErrorBoundary,
}

/// Every rule, in registration order: security, best practice,
/// performance, accessibility, architecture.
pub open spec fn all_rules() -> Seq<RegisteredRule> {
    seq![
        RegisteredRule::NoVHtml,
        RegisteredRule::NoInnerHtml,
        RegisteredRule::NoDocumentWrite,
        RegisteredRule::NoEval,
        RegisteredRule::NoDangerousUrl,
        RegisteredRule::NoOpenRedirect,
        RegisteredRule::NoUnsafeLocalStorage,
        RegisteredRule::NoUnsafeIframe,
        RegisteredRule::NoDynamicBindSrc,
        RegisteredRule::NoPostmessageWildcard,
        RegisteredRule::NoWindowOpenBlankNoopener,
        RegisteredRule::NoFetchWithoutTimeout,
        RegisteredRule::NoInlineStyle,
        RegisteredRule::NoWatchWithCallback,
        RegisteredRule::VForMissingKey,
        RegisteredRule::NoVIfWithVFor,
        RegisteredRule::NoDeepWatchWithoutHandler,
        RegisteredRule::NoReactiveInVFor,
        RegisteredRule::NoLargeListWithoutVirtualization,
        RegisteredRule::NoImgWithoutAlt,
        RegisteredRule::NoClickWithoutRoleKeyboard,
        RegisteredRule::NoFormWithoutLabel,
        RegisteredRule::NoButtonWithoutType,
        RegisteredRule::NoSideEffectInComputed,
        RegisteredRule::NoMutationOfProps,
        RegisteredRule::NoAsyncSetupWithoutErrorBoundary,
    ]
}

impl RegisteredRule {
    /// The rule's stable id.
    pub open spec fn spec_id(self) -> Seq<char> {
        match self {
            RegisteredRule::NoVHtml => "vue/security/no-v-html"@,
            RegisteredRule::NoInnerHtml => "vue/security/no-inner-html"@,
            RegisteredRule::NoDocumentWrite => "vue/security/no-document-write"@,
            RegisteredRule::NoEval => "vue/security/no-eval"@,
            RegisteredRule::NoDangerousUrl => "vue/security/no-dangerous-url"@,
            RegisteredRule::NoOpenRedirect => "vue/security/no-open-redirect"@,
            RegisteredRule::NoUnsafeLocalStorage => "vue/security/no-unsafe-localstorage"@,
            RegisteredRule::NoUnsafeIframe => "vue/security/no-unsafe-iframe"@,
            RegisteredRule::NoDynamicBindSrc => "vue/security/no-dynamic-bind-src"@,
            RegisteredRule::NoPostmessageWildcard => "vue/security/no-postmessage-wildcard"@,
            RegisteredRule::NoWindowOpenBlankNoopener => "vue/security/no-window-open-blank-noopener"@,
            RegisteredRule::NoFetchWithoutTimeout => "vue/security/no-fetch-without-timeout"@,
            RegisteredRule::NoInlineStyle => "vue/best-practice/no-inline-style"@,
            RegisteredRule::NoWatchWithCallback => "vue/best-practice/no-watch-with-callback"@,
            RegisteredRule::VForMissingKey => "vue/best-practice/v-for-missing-key"@,
            RegisteredRule::NoVIfWithVFor => "vue/performance/no-v-if-with-v-for"@,
            RegisteredRule::NoDeepWatchWithoutHandler => "vue/performance/no-deep-watch-without-handler"@,
            RegisteredRule::NoReactiveInVFor => "vue/performance/no-reactive-in-v-for"@,
            RegisteredRule::NoLargeListWithoutVirtualization => "vue/performance/no-large-list-without-virtualization"@,
            RegisteredRule::NoImgWithoutAlt => "vue/accessibility/no-img-without-alt"@,
            RegisteredRule::NoClickWithoutRoleKeyboard => "vue/accessibility/no-click-without-role-keyboard"@,
            RegisteredRule::NoFormWithoutLabel => "vue/accessibility/no-form-without-label"@,
            RegisteredRule::NoButtonWithoutType => "vue/accessibility/no-button-without-type"@,
            RegisteredRule::NoSideEffectInComputed => "vue/architecture/no-side-effect-in-computed"@,
            RegisteredRule::NoMutationOfProps => "vue/architecture/no-mutation-of-props"@,
            RegisteredRule::NoAsyncSetupWithoutErrorBoundary => "vue/architecture/no-async-setup-without-error-boundary"@,
        }
    }

    /// The rule's short name.
    pub open spec fn spec_name(self) -> Seq<char> {
        match self {
            RegisteredRule::NoVHtml => "no-v-html"@,
            RegisteredRule::NoInnerHtml => "no-inner-html"@,
            RegisteredRule::NoDocumentWrite => "no-document-write"@,
            RegisteredRule::NoEval => "no-eval"@,
            RegisteredRule::NoDangerousUrl => "no-dangerous-url"@,
            RegisteredRule::NoOpenRedirect => "no-open-redirect"@,
            RegisteredRule::NoUnsafeLocalStorage => "no-unsafe-localstorage"@,
            RegisteredRule::NoUnsafeIframe => "no-unsafe-iframe"@,
            RegisteredRule::NoDynamicBindSrc => "no-dynamic-bind-src"@,
            RegisteredRule::NoPostmessageWildcard => "no-postmessage-wildcard"@,
            RegisteredRule::NoWindowOpenBlankNoopener => "no-window-open-blank-noopener"@,
            RegisteredRule::NoFetchWithoutTimeout => "no-fetch-without-timeout"@,
            RegisteredRule::NoInlineStyle => "no-inline-style"@,
            RegisteredRule::NoWatchWithCallback => "no-watch-with-callback"@,
            RegisteredRule::VForMissingKey => "v-for-missing-key"@,
            RegisteredRule::NoVIfWithVFor => "no-v-if-with-v-for"@,
            RegisteredRule::NoDeepWatchWithoutHandler => "no-deep-watch-without-handler"@,
            RegisteredRule::NoReactiveInVFor => "no-reactive-in-v-for"@,
            RegisteredRule::NoLargeListWithoutVirtualization => "no-large-list-without-virtualization"@,
            RegisteredRule::NoImgWithoutAlt => "no-img-without-alt"@,
            RegisteredRule::NoClickWithoutRoleKeyboard => "no-click-without-role-keyboard"@,
            RegisteredRule::NoFormWithoutLabel => "no-form-without-label"@,
            RegisteredRule::NoButtonWithoutType => "no-button-without-type"@,
            RegisteredRule::NoSideEffectInComputed => "no-side-effect-in-computed"@,
            RegisteredRule::NoMutationOfProps => "no-mutation-of-props"@,
            RegisteredRule::NoAsyncSetupWithoutErrorBoundary => "no-async-setup-without-error-boundary"@,
        }
    }

    pub open spec fn spec_severity(self) -> Severity {
        match self {
            RegisteredRule::NoVHtml | RegisteredRule::NoInnerHtml | RegisteredRule::NoEval
            | RegisteredRule::NoDangerousUrl => Severity::Critical,
            RegisteredRule::NoDocumentWrite | RegisteredRule::NoOpenRedirect
            | RegisteredRule::NoUnsafeLocalStorage | RegisteredRule::NoDynamicBindSrc
            | RegisteredRule::NoPostmessageWildcard | RegisteredRule::NoWindowOpenBlankNoopener
            | RegisteredRule::NoFetchWithoutTimeout => Severity::High,
            RegisteredRule::NoUnsafeIframe | RegisteredRule::VForMissingKey | RegisteredRule::NoVIfWithVFor
            | RegisteredRule::NoImgWithoutAlt | RegisteredRule::NoClickWithoutRoleKeyboard
            | RegisteredRule::NoFormWithoutLabel | RegisteredRule::NoSideEffectInComputed
            | RegisteredRule::NoMutationOfProps => Severity::Medium,
            RegisteredRule::NoInlineStyle | RegisteredRule::NoWatchWithCallback
            | RegisteredRule::NoDeepWatchWithoutHandler | RegisteredRule::NoReactiveInVFor
            | RegisteredRule::NoLargeListWithoutVirtualization | RegisteredRule::NoButtonWithoutType
            | RegisteredRule::NoAsyncSetupWithoutErrorBoundary => Severity::Low,
        }
    }

    pub open spec fn spec_category(self) -> Category {
        match self {
            RegisteredRule::NoInlineStyle | RegisteredRule::NoWatchWithCallback
            | RegisteredRule::VForMissingKey => Category::BestPractice,
            RegisteredRule::NoVIfWithVFor | RegisteredRule::NoDeepWatchWithoutHandler
            | RegisteredRule::NoReactiveInVFor | RegisteredRule::NoLargeListWithoutVirtualization => Category::Performance,
            RegisteredRule::NoImgWithoutAlt | RegisteredRule::NoClickWithoutRoleKeyboard
            | RegisteredRule::NoFormWithoutLabel | RegisteredRule::NoButtonWithoutType => Category::Accessibility,
            RegisteredRule::NoSideEffectInComputed | RegisteredRule::NoMutationOfProps
            | RegisteredRule::NoAsyncSetupWithoutErrorBoundary => Category::Architecture,
            _ => Category::Security,
        }
    }

    /// The spans of the rule's findings on a file.
    pub open spec fn hits(self, ctx: ScanContext) -> Seq<Span> {
        match self {
            RegisteredRule::NoVHtml => template_hits(TemplateCheck::VHtml, ctx),
            RegisteredRule::NoInnerHtml => script_hits(ScriptCheck::InnerHtml, ctx),
            RegisteredRule::NoDocumentWrite => script_hits(ScriptCheck::DocumentWrite, ctx),
            RegisteredRule::NoEval => script_hits(ScriptCheck::EvalCall, ctx) + script_hits(ScriptCheck::NewFunction, ctx),
            RegisteredRule::NoDangerousUrl => template_hits(TemplateCheck::DangerousUrl, ctx),
            RegisteredRule::NoOpenRedirect => script_hits(ScriptCheck::OpenRedirect, ctx),
            RegisteredRule::NoUnsafeLocalStorage => script_hits(ScriptCheck::LocalStorage, ctx),
            RegisteredRule::NoUnsafeIframe => template_hits(TemplateCheck::UnsafeIframe, ctx),
            RegisteredRule::NoDynamicBindSrc => template_hits(TemplateCheck::DynamicBindSrc, ctx),
            RegisteredRule::NoPostmessageWildcard => script_hits(ScriptCheck::PostMessage, ctx),
            RegisteredRule::NoWindowOpenBlankNoopener => script_hits(ScriptCheck::WindowOpen, ctx),
            RegisteredRule::NoFetchWithoutTimeout => script_hits(ScriptCheck::Fetch, ctx),
            RegisteredRule::NoInlineStyle => template_hits(TemplateCheck::InlineStyle, ctx),
            RegisteredRule::NoWatchWithCallback => script_hits(ScriptCheck::Watch, ctx),
            RegisteredRule::VForMissingKey => template_hits(TemplateCheck::VForMissingKey, ctx),
            RegisteredRule::NoVIfWithVFor => template_hits(TemplateCheck::VIfWithVFor, ctx),
            RegisteredRule::NoDeepWatchWithoutHandler => script_hits(ScriptCheck::DeepWatch, ctx),
            RegisteredRule::NoReactiveInVFor => script_hits(ScriptCheck::ReactiveInLoop, ctx),
            RegisteredRule::NoLargeListWithoutVirtualization => template_hits(TemplateCheck::LargeList, ctx),
            RegisteredRule::NoImgWithoutAlt => template_hits(TemplateCheck::ImgWithoutAlt, ctx),
            RegisteredRule::NoClickWithoutRoleKeyboard => template_hits(TemplateCheck::ClickWithoutRoleKeyboard, ctx),
            RegisteredRule::NoFormWithoutLabel => template_hits(TemplateCheck::FormWithoutLabel, ctx),
            RegisteredRule::NoButtonWithoutType => template_hits(TemplateCheck::ButtonWithoutType, ctx),
            RegisteredRule::NoSideEffectInComputed => script_hits(ScriptCheck::SideEffectComputed, ctx),
            RegisteredRule::NoMutationOfProps => no_mutation_of_props::props_hits(ctx),
            RegisteredRule::NoAsyncSetupWithoutErrorBoundary => no_async_setup_without_error_boundary::async_setup_hits(ctx),
        }
    }

    /// The rule's fixed description.
    pub fn info(self) -> (r: RuleInfo)
        ensures
            r.id@ == self.spec_id(),
            r.name@ == self.spec_name(),
            r.severity == self.spec_severity(),
            r.category == self.spec_category(),
    {
        match self {
            RegisteredRule::NoVHtml => no_v_html::NoVHtml.info(),
            RegisteredRule::NoInnerHtml => no_inner_html::NoInnerHtml.info(),
            RegisteredRule::NoDocumentWrite => no_document_write::NoDocumentWrite.info(),
            RegisteredRule::NoEval => no_eval::NoEval.info(),
            RegisteredRule::NoDangerousUrl => no_dangerous_url::NoDangerousUrl.info(),
            RegisteredRule::NoOpenRedirect => no_open_redirect::NoOpenRedirect.info(),
            RegisteredRule::NoUnsafeLocalStorage => no_unsafe_localstorage::NoUnsafeLocalStorage.info(),
            RegisteredRule::NoUnsafeIframe => no_unsafe_iframe::NoUnsafeIframe.info(),
            RegisteredRule::NoDynamicBindSrc => no_dynamic_bind::NoDynamicBindSrc.info(),
            RegisteredRule::NoPostmessageWildcard => no_postmessage_wildcard::NoPostmessageWildcard.info(),
            RegisteredRule::NoWindowOpenBlankNoopener => no_window_open_blank_noopener::NoWindowOpenBlankNoopener.info(),
            RegisteredRule::NoFetchWithoutTimeout => no_fetch_without_timeout::NoFetchWithoutTimeout.info(),
            RegisteredRule::NoInlineStyle => no_inline_styles::NoInlineStyle.info(),
            RegisteredRule::NoWatchWithCallback => no_watch_with_callback::NoWatchWithCallback.info(),
            RegisteredRule::VForMissingKey => v_for_missing_key::VForMissingKey.info(),
            RegisteredRule::NoVIfWithVFor => no_v_if_with_v_for::NoVIfWithVFor.info(),
            RegisteredRule::NoDeepWatchWithoutHandler => no_deep_watch_without_handler::NoDeepWatchWithoutHandler.info(),
            RegisteredRule::NoReactiveInVFor => no_reactive_in_v_for::NoReactiveInVFor.info(),
            RegisteredRule::NoLargeListWithoutVirtualization => no_large_list_without_virtualization::NoLargeListWithoutVirtualization.info(),
            RegisteredRule::NoImgWithoutAlt => no_img_without_alt::NoImgWithoutAlt.info(),
            RegisteredRule::NoClickWithoutRoleKeyboard => no_click_without_role_keyboard::NoClickWithoutRoleKeyboard.info(),
            RegisteredRule::NoFormWithoutLabel => no_form_without_label::NoFormWithoutLabel.info(),
            RegisteredRule::NoButtonWithoutType => no_button_without_type::NoButtonWithoutType.info(),
            RegisteredRule::NoSideEffectInComputed => no_side_effect_in_computed::NoSideEffectInComputed.info(),
            RegisteredRule::NoMutationOfProps => no_mutation_of_props::NoMutationOfProps.info(),
            RegisteredRule::NoAsyncSetupWithoutErrorBoundary => no_async_setup_without_error_boundary::NoAsyncSetupWithoutErrorBoundary.info(),
        }
    }

    /// Run the rule over one file.
    pub fn check(self, ctx: &ScanContext) -> (r: Vec<Finding>)
        ensures
            finding_spans(r@) == self.hits(*ctx),
    {
        match self {
            RegisteredRule::NoVHtml => no_v_html::NoVHtml.check(ctx),
            RegisteredRule::NoInnerHtml => no_inner_html::NoInnerHtml.check(ctx),
            RegisteredRule::NoDocumentWrite => no_document_write::NoDocumentWrite.check(ctx),
            RegisteredRule::NoEval => no_eval::NoEval.check(ctx),
            RegisteredRule::NoDangerousUrl => no_dangerous_url::NoDangerousUrl.check(ctx),
            RegisteredRule::NoOpenRedirect => no_open_redirect::NoOpenRedirect.check(ctx),
            RegisteredRule::NoUnsafeLocalStorage => no_unsafe_localstorage::NoUnsafeLocalStorage.check(ctx),
            RegisteredRule::NoUnsafeIframe => no_unsafe_iframe::NoUnsafeIframe.check(ctx),
            RegisteredRule::NoDynamicBindSrc => no_dynamic_bind::NoDynamicBindSrc.check(ctx),
            RegisteredRule::NoPostmessageWildcard => no_postmessage_wildcard::NoPostmessageWildcard.check(ctx),
            RegisteredRule::NoWindowOpenBlankNoopener => no_window_open_blank_noopener::NoWindowOpenBlankNoopener.check(ctx),
            RegisteredRule::NoFetchWithoutTimeout => no_fetch_without_timeout::NoFetchWithoutTimeout.check(ctx),
            RegisteredRule::NoInlineStyle => no_inline_styles::NoInlineStyle.check(ctx),
            RegisteredRule::NoWatchWithCallback => no_watch_with_callback::NoWatchWithCallback.check(ctx),
            RegisteredRule::VForMissingKey => v_for_missing_key::VForMissingKey.check(ctx),
            RegisteredRule::NoVIfWithVFor => no_v_if_with_v_for::NoVIfWithVFor.check(ctx),
            RegisteredRule::NoDeepWatchWithoutHandler => no_deep_watch_without_handler::NoDeepWatchWithoutHandler.check(ctx),
            RegisteredRule::NoReactiveInVFor => no_reactive_in_v_for::NoReactiveInVFor.check(ctx),
            RegisteredRule::NoLargeListWithoutVirtualization => no_large_list_without_virtualization::NoLargeListWithoutVirtualization.check(ctx),
            RegisteredRule::NoImgWithoutAlt => no_img_without_alt::NoImgWithoutAlt.check(ctx),
            RegisteredRule::NoClickWithoutRoleKeyboard => no_click_without_role_keyboard::NoClickWithoutRoleKeyboard.check(ctx),
            RegisteredRule::NoFormWithoutLabel => no_form_without_label::NoFormWithoutLabel.check(ctx),
            RegisteredRule::NoButtonWithoutType => no_button_without_type::NoButtonWithoutType.check(ctx),
            RegisteredRule::NoSideEffectInComputed => no_side_effect_in_computed::NoSideEffectInComputed.check(ctx),
            RegisteredRule::NoMutationOfProps => no_mutation_of_props::NoMutationOfProps.check(ctx),
            RegisteredRule::NoAsyncSetupWithoutErrorBoundary => no_async_setup_without_error_boundary::NoAsyncSetupWithoutErrorBoundary.check(ctx),
        }
    }
}

/// `e` names rule `r`, by short name or by id.
pub open spec fn names_rule(e: Seq<char>, r: RegisteredRule) -> bool {
    e == r.spec_name() || e == r.spec_id()
}

/// Some entry of the list names rule `r`.
pub open spec fn selected(enabled: Seq<String>, r: RegisteredRule) -> bool {
    exists|k: int| 0 <= k < enabled.len() && names_rule(#[trigger] enabled[k]@, r)
}

/// The rules of `rules` that `enabled` names, in order.
pub open spec fn selected_rules(rules: Seq<RegisteredRule>, enabled: Seq<String>) -> Seq<RegisteredRule>
    decreases rules.len(),
{
    if rules.len() == 0 {
        seq![]
    } else {
        selected_rules(rules.drop_last(), enabled) + if selected(enabled, rules.last()) {
            seq![rules.last()]
        } else {
            seq![]
        }
    }
}

/// The first rule of `rules` whose id is `id`.
pub open spec fn first_with_id(rules: Seq<RegisteredRule>, id: Seq<char>) -> Option<RegisteredRule>
    decreases rules.len(),
{
    if rules.len() == 0 {
        None
    } else if rules[0].spec_id() == id {
        Some(rules[0])
    } else {
        first_with_id(rules.drop_first(), id)
    }
}

/// The first rule of `rules` whose short name is `name`.
pub open spec fn first_with_name(rules: Seq<RegisteredRule>, name: Seq<char>) -> Option<RegisteredRule>
    decreases rules.len(),
{
    if rules.len() == 0 {
        None
    } else if rules[0].spec_name() == name {
        Some(rules[0])
    } else {
        first_with_name(rules.drop_first(), name)
    }
}

/// A rule's position in the registration order.
pub open spec fn rank(r: RegisteredRule) -> int {
    match r {
        RegisteredRule::NoVHtml => 0,
        RegisteredRule::NoInnerHtml => 1,
        RegisteredRule::NoDocumentWrite => 2,
        RegisteredRule::NoEval => 3,
        RegisteredRule::NoDangerousUrl => 4,
        RegisteredRule::NoOpenRedirect => 5,
        RegisteredRule::NoUnsafeLocalStorage => 6,
        RegisteredRule::NoUnsafeIframe => 7,
        RegisteredRule::NoDynamicBindSrc => 8,
        RegisteredRule::NoPostmessageWildcard => 9,
        RegisteredRule::NoWindowOpenBlankNoopener => 10,
        RegisteredRule::NoFetchWithoutTimeout => 11,
        RegisteredRule::NoInlineStyle => 12,
        RegisteredRule::NoWatchWithCallback => 13,
        RegisteredRule::VForMissingKey => 14,
        RegisteredRule::NoVIfWithVFor => 15,
        RegisteredRule::NoDeepWatchWithoutHandler => 16,
        RegisteredRule::NoReactiveInVFor => 17,
        RegisteredRule::NoLargeListWithoutVirtualization => 18,
        RegisteredRule::NoImgWithoutAlt => 19,
        RegisteredRule::NoClickWithoutRoleKeyboard => 20,
        RegisteredRule::NoFormWithoutLabel => 21,
        RegisteredRule::NoButtonWithoutType => 22,
        RegisteredRule::NoSideEffectInComputed => 23,
        RegisteredRule::NoMutationOfProps => 24,
        RegisteredRule::NoAsyncSetupWithoutErrorBoundary => 25,
    }
}

proof fn lemma_all_rules_rank()
    ensures
        all_rules().len() == 26,
        forall|r: RegisteredRule| all_rules()[#[trigger] rank(r)] == r,
        forall|i: int| 0 <= i < 26 ==> rank(#[trigger] all_rules()[i]) == i,
{
    assert(all_rules()[0] == RegisteredRule::NoVHtml);
    assert(all_rules()[1] == RegisteredRule::NoInnerHtml);
    assert(all_rules()[2] == RegisteredRule::NoDocumentWrite);
    assert(all_rules()[3] == RegisteredRule::NoEval);
    assert(all_rules()[4] == RegisteredRule::NoDangerousUrl);
    assert(all_rules()[5] == RegisteredRule::NoOpenRedirect);
    assert(all_rules()[6] == RegisteredRule::NoUnsafeLocalStorage);
    assert(all_rules()[7] == RegisteredRule::NoUnsafeIframe);
    assert(all_rules()[8] == RegisteredRule::NoDynamicBindSrc);
    assert(all_rules()[9] == RegisteredRule::NoPostmessageWildcard);
    assert(all_rules()[10] == RegisteredRule::NoWindowOpenBlankNoopener);
    assert(all_rules()[11] == RegisteredRule::NoFetchWithoutTimeout);
    assert(all_rules()[12] == RegisteredRule::NoInlineStyle);
    assert(all_rules()[13] == RegisteredRule::NoWatchWithCallback);
    assert(all_rules()[14] == RegisteredRule::VForMissingKey);
    assert(all_rules()[15] == RegisteredRule::NoVIfWithVFor);
    assert(all_rules()[16] == RegisteredRule::NoDeepWatchWithoutHandler);
    assert(all_rules()[17] == RegisteredRule::NoReactiveInVFor);
    assert(all_rules()[18] == RegisteredRule::NoLargeListWithoutVirtualization);
    assert(all_rules()[19] == RegisteredRule::NoImgWithoutAlt);
    assert(all_rules()[20] == RegisteredRule::NoClickWithoutRoleKeyboard);
    assert(all_rules()[21] == RegisteredRule::NoFormWithoutLabel);
    assert(all_rules()[22] == RegisteredRule::NoButtonWithoutType);
    assert(all_rules()[23] == RegisteredRule::NoSideEffectInComputed);
    assert(all_rules()[24] == RegisteredRule::NoMutationOfProps);
    assert(all_rules()[25] == RegisteredRule::NoAsyncSetupWithoutErrorBoundary);
}

/// No two registered rules share a stable id or a short name, and no
/// short name is a stable id.
pub proof fn lemma_rule_names_distinct(a: RegisteredRule, b: RegisteredRule)
    ensures
        a != b ==> a.spec_id() != b.spec_id(),
        a != b ==> a.spec_name() != b.spec_name(),
        a.spec_name() != b.spec_id(),
{
    reveal_strlit("vue/security/no-v-html");
    reveal_strlit("vue/security/no-inner-html");
    reveal_strlit("vue/security/no-document-write");
    reveal_strlit("vue/security/no-eval");
    reveal_strlit("vue/security/no-dangerous-url");
    reveal_strlit("vue/security/no-open-redirect");
    reveal_strlit("vue/security/no-unsafe-localstorage");
    reveal_strlit("vue/security/no-unsafe-iframe");
    reveal_strlit("vue/security/no-dynamic-bind-src");
    reveal_strlit("vue/security/no-postmessage-wildcard");
    reveal_strlit("vue/security/no-window-open-blank-noopener");
    reveal_strlit("vue/security/no-fetch-without-timeout");
    reveal_strlit("vue/best-practice/no-inline-style");
    reveal_strlit("vue/best-practice/no-watch-with-callback");
    reveal_strlit("vue/best-practice/v-for-missing-key");
    reveal_strlit("vue/performance/no-v-if-with-v-for");
    reveal_strlit("vue/performance/no-deep-watch-without-handler");
    reveal_strlit("vue/performance/no-reactive-in-v-for");
    reveal_strlit("vue/performance/no-large-list-without-virtualization");
    reveal_strlit("vue/accessibility/no-img-without-alt");
    reveal_strlit("vue/accessibility/no-click-without-role-keyboard");
    reveal_strlit("vue/accessibility/no-form-without-label");
    reveal_strlit("vue/accessibility/no-button-without-type");
    reveal_strlit("vue/architecture/no-side-effect-in-computed");
    reveal_strlit("vue/architecture/no-mutation-of-props");
    reveal_strlit("vue/architecture/no-async-setup-without-error-boundary");
    reveal_strlit("no-v-html");
    reveal_strlit("no-inner-html");
    reveal_strlit("no-document-write");
    reveal_strlit("no-eval");
    reveal_strlit("no-dangerous-url");
    reveal_strlit("no-open-redirect");
    reveal_strlit("no-unsafe-localstorage");
    reveal_strlit("no-unsafe-iframe");
    reveal_strlit("no-dynamic-bind-src");
    reveal_strlit("no-postmessage-wildcard");
    reveal_strlit("no-window-open-blank-noopener");
    reveal_strlit("no-fetch-without-timeout");
    reveal_strlit("no-inline-style");
    reveal_strlit("no-watch-with-callback");
    reveal_strlit("v-for-missing-key");
    reveal_strlit("no-v-if-with-v-for");
    reveal_strlit("no-deep-watch-without-handler");
    reveal_strlit("no-reactive-in-v-for");
    reveal_strlit("no-large-list-without-virtualization");
    reveal_strlit("no-img-without-alt");
    reveal_strlit("no-click-without-role-keyboard");
    reveal_strlit("no-form-without-label");
    reveal_strlit("no-button-without-type");
    reveal_strlit("no-side-effect-in-computed");
    reveal_strlit("no-mutation-of-props");
    reveal_strlit("no-async-setup-without-error-boundary");
    if a != b && a.spec_id() == b.spec_id() {
        assert(a.spec_id().len() == b.spec_id().len());
        assert(a.spec_id()[16] == b.spec_id()[16]);
    }
    if a != b && a.spec_name() == b.spec_name() {
        assert(a.spec_name().len() == b.spec_name().len());
        assert(a.spec_name()[3] == b.spec_name()[3]);
    }
    if a.spec_name() == b.spec_id() {
        assert(a.spec_name()[0] == b.spec_id()[0]);
        assert(a.spec_name()[1] == b.spec_id()[1]);
    }
}

proof fn lemma_first_with_id_at(rules: Seq<RegisteredRule>, k: int, id: Seq<char>)
    requires
        0 <= k < rules.len(),
        rules[k].spec_id() == id,
        forall|j: int| 0 <= j < k ==> (#[trigger] rules[j]).spec_id() != id,
    ensures
        first_with_id(rules, id) == Some(rules[k]),
    decreases k,
{
    if k > 0 {
        assert(rules[0].spec_id() != id);
        let rest = rules.drop_first();
        assert forall|j: int| 0 <= j < k - 1 implies (#[trigger] rest[j]).spec_id() != id by {
            assert(rest[j] == rules[j + 1]);
        }
        lemma_first_with_id_at(rest, k - 1, id);
    }
}

proof fn lemma_first_with_name_at(rules: Seq<RegisteredRule>, k: int, name: Seq<char>)
    requires
        0 <= k < rules.len(),
        rules[k].spec_name() == name,
        forall|j: int| 0 <= j < k ==> (#[trigger] rules[j]).spec_name() != name,
    ensures
        first_with_name(rules, name) == Some(rules[k]),
    decreases k,
{
    if k > 0 {
        assert(rules[0].spec_name() != name);
        let rest = rules.drop_first();
        assert forall|j: int| 0 <= j < k - 1 implies (#[trigger] rest[j]).spec_name() != name by {
            assert(rest[j] == rules[j + 1]);
        }
        lemma_first_with_name_at(rest, k - 1, name);
    }
}

/// Every registered rule is found by its stable id and by its short name.
pub proof fn lemma_lookup_finds_each_rule(r: RegisteredRule)
    ensures
        first_with_id(all_rules(), r.spec_id()) == Some(r),
        first_with_name(all_rules(), r.spec_name()) == Some(r),
{
    lemma_all_rules_rank();
    let k = rank(r);
    assert forall|j: int| 0 <= j < k implies (#[trigger] all_rules()[j]).spec_id() != r.spec_id()
        && all_rules()[j].spec_name() != r.spec_name() by {
        assert(rank(all_rules()[j]) == j);
        lemma_rule_names_distinct(all_rules()[j], r);
    }
    lemma_first_with_id_at(all_rules(), k, r.spec_id());
    lemma_first_with_name_at(all_rules(), k, r.spec_name());
}

/// Naming one rule, by its short name or its stable id, runs exactly that
/// rule.
pub proof fn lemma_select_one(enabled: Seq<String>, r: RegisteredRule)
    requires
        enabled.len() == 1,
        names_rule(enabled[0]@, r),
    ensures
        selected_rules(all_rules(), enabled) == seq![r],
{
    lemma_all_rules_rank();
    assert forall|q: RegisteredRule| #[trigger] selected(enabled, q) <==> q == r by {
        lemma_rule_names_distinct(q, r);
        lemma_rule_names_distinct(r, q);
        if q == r {
            assert(names_rule(enabled[0]@, q));
        }
    }
    lemma_select_prefix(enabled, r, 26);
    assert(all_rules().take(26) =~= all_rules());
}

proof fn lemma_select_prefix(enabled: Seq<String>, r: RegisteredRule, i: int)
    requires
        0 <= i <= 26,
        forall|q: RegisteredRule| #[trigger] selected(enabled, q) <==> q == r,
    ensures
        selected_rules(all_rules().take(i), enabled) == if rank(r) < i {
            seq![r]
        } else {
            Seq::empty()
        },
    decreases i,
{
    lemma_all_rules_rank();
    let all = all_rules();
    if i == 0 {
        assert(all.take(0) =~= Seq::<RegisteredRule>::empty());
    } else {
        lemma_select_prefix(enabled, r, i - 1);
        let t = all.take(i);
        assert(t.drop_last() =~= all.take(i - 1));
        assert(t.last() == all[i - 1]);
        assert(rank(all[i - 1]) == i - 1);
        if rank(r) == i - 1 {
            assert(all[i - 1] == r);
        }
        if rank(r) < i - 1 {
            assert(all[i - 1] != r);
        }
    }
}

fn entry_names(e: &str, rule: RegisteredRule) -> (r: bool)
    ensures
        r == names_rule(e@, rule),
{
    let info = rule.info();
    str_eq(e, info.name) || str_eq(e, info.id)
}

fn listed(enabled: &[String], rule: RegisteredRule) -> (r: bool)
    ensures
        r == selected(enabled@, rule),
{
    let mut k: usize = 0;
    while k < enabled.len()
        invariant
            k <= enabled.len(),
            forall|m: int| 0 <= m < k ==> !names_rule(#[trigger] enabled@[m]@, rule),
        decreases enabled.len() - k,
    {
        if entry_names(enabled[k].as_str(), rule) {
            return true;
        }
        k = k + 1;
    }
    false
}

/// The rule set, in registration order.
pub struct RuleRegistry {
    rules: Vec<RegisteredRule>,
}

impl View for RuleRegistry {
    type V = Seq<RegisteredRule>;

    closed spec fn view(&self) -> Seq<RegisteredRule> {
        self.rules@
    }
}

impl RuleRegistry {
    /// The registry holding every rule.
    pub fn new() -> (r: RuleRegistry)
        ensures
            r@ == all_rules(),
    {
        let rules = vec![
            RegisteredRule::NoVHtml,
            RegisteredRule::NoInnerHtml,
            RegisteredRule::NoDocumentWrite,
            RegisteredRule::NoEval,
            RegisteredRule::NoDangerousUrl,
            RegisteredRule::NoOpenRedirect,
            RegisteredRule::NoUnsafeLocalStorage,
            RegisteredRule::NoUnsafeIframe,
            RegisteredRule::NoDynamicBindSrc,
            RegisteredRule::NoPostmessageWildcard,
            RegisteredRule::NoWindowOpenBlankNoopener,
            RegisteredRule::NoFetchWithoutTimeout,
            RegisteredRule::NoInlineStyle,
            RegisteredRule::NoWatchWithCallback,
            RegisteredRule::VForMissingKey,
            RegisteredRule::NoVIfWithVFor,
            RegisteredRule::NoDeepWatchWithoutHandler,
            RegisteredRule::NoReactiveInVFor,
            RegisteredRule::NoLargeListWithoutVirtualization,
            RegisteredRule::NoImgWithoutAlt,
            RegisteredRule::NoClickWithoutRoleKeyboard,
            RegisteredRule::NoFormWithoutLabel,
            RegisteredRule::NoButtonWithoutType,
            RegisteredRule::NoSideEffectInComputed,
            RegisteredRule::NoMutationOfProps,
            RegisteredRule::NoAsyncSetupWithoutErrorBoundary,
        ];
        let r = RuleRegistry { rules };
        assert(r@ =~= all_rules());
        r
    }

    /// Every rule, in registration order.
    pub fn get_all(&self) -> (r: &[RegisteredRule])
        ensures
            r@ == self@,
    {
        self.rules.as_slice()
    }

    /// The first rule whose id is `id`.
    pub fn get_by_id(&self, id: &str) -> (r: Option<RegisteredRule>)
        ensures
            r == first_with_id(self@, id@),
    {
        let mut i: usize = 0;
        assert(self@.skip(0) =~= self@);
        while i < self.rules.len()
            invariant
                i <= self.rules.len(),
                self@ == self.rules@,
                first_with_id(self@, id@) == first_with_id(self@.skip(i as int), id@),
            decreases self.rules.len() - i,
        {
            let rule = self.rules[i];
            proof {
                let rest = self@.skip(i as int);
                assert(rest.drop_first() =~= self@.skip(i + 1));
                assert(rest[0] == rule);
            }
            if str_eq(rule.info().id, id) {
                return Some(rule);
            }
            i = i + 1;
        }
        assert(self@.skip(i as int) =~= Seq::<RegisteredRule>::empty());
        None
    }

    /// The first rule whose short name is `name`.
    pub fn get_by_name(&self, name: &str) -> (r: Option<RegisteredRule>)
        ensures
            r == first_with_name(self@, name@),
    {
        let mut i: usize = 0;
        assert(self@.skip(0) =~= self@);
        while i < self.rules.len()
            invariant
                i <= self.rules.len(),
                self@ == self.rules@,
                first_with_name(self@, name@) == first_with_name(self@.skip(i as int), name@),
            decreases self.rules.len() - i,
        {
            let rule = self.rules[i];
            proof {
                let rest = self@.skip(i as int);
                assert(rest.drop_first() =~= self@.skip(i + 1));
                assert(rest[0] == rule);
            }
            if str_eq(rule.info().name, name) {
                return Some(rule);
            }
            i = i + 1;
        }
        assert(self@.skip(i as int) =~= Seq::<RegisteredRule>::empty());
        None
    }

    /// The rules that `enabled` names (by short name or id), in
    /// registration order; every rule when `enabled` is empty.
    pub fn get_enabled(&self, enabled: &[String]) -> (r: Vec<RegisteredRule>)
        ensures
            r@ == if enabled@.len() == 0 {
                self@
            } else {
                selected_rules(self@, enabled@)
            },
    {
        if enabled.len() == 0 {
            let mut all: Vec<RegisteredRule> = Vec::new();
            let mut i: usize = 0;
            while i < self.rules.len()
                invariant
                    i <= self.rules.len(),
                    all@ == self@.take(i as int),
                decreases self.rules.len() - i,
            {
                all.push(self.rules[i]);
                i = i + 1;
                assert(all@ =~= self@.take(i as int));
            }
            assert(self@.take(self@.len() as int) =~= self@);
            return all;
        }
        let mut out: Vec<RegisteredRule> = Vec::new();
        let mut i: usize = 0;
        assert(self@.take(0) =~= Seq::<RegisteredRule>::empty());
        while i < self.rules.len()
            invariant
                i <= self.rules.len(),
                out@ == selected_rules(self@.take(i as int), enabled@),
            decreases self.rules.len() - i,
        {
            let rule = self.rules[i];
            let hit = listed(enabled, rule);
            proof {
                let t = self@.take(i + 1);
                assert(t.drop_last() =~= self@.take(i as int));
                assert(t.last() == rule);
            }
            if hit {
                out.push(rule);
            }
            i = i + 1;
            assert(out@ =~= selected_rules(self@.take(i as int), enabled@));
        }
        assert(self@.take(self@.len() as int) =~= self@);
        out
    }
}

} // verus!
