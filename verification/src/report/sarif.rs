//! SARIF 2.1.0 (Static Analysis Results Interchange Format) records.
//!
//! One run holds the results and a rules table; the rules table lists every
//! rule that a result names, then every rule with known metadata, so that
//! it is stable on a clean run. Ignored findings carry an `external`
//! suppression. The records are plain data; serialising them is the
//! caller's business.

use vstd::prelude::*;

use crate::rule_id::RuleId;
use crate::scanner::Violation;
use crate::severity::Severity;
use crate::suppression::{char_at_byte, char_index_of_byte, line_start};
use crate::text::{chars_of, index_text, push_str, str_eq, string_from_chars, to_owned_string};

verus! {

#[derive(Debug)]
pub struct SarifLog {
    pub schema: &'static str,
    pub version: &'static str,
    pub runs: Vec<SarifRun>,
}

#[derive(Debug)]
pub struct SarifRun {
    pub tool: SarifTool,
    pub results: Vec<SarifResult>,
}

#[derive(Debug)]
pub struct SarifTool {
    pub driver: SarifDriver,
}

#[derive(Debug)]
pub struct SarifDriver {
    pub name: &'static str,
    pub information_uri: &'static str,
    pub version: String,
    pub rules: Vec<SarifRule>,
}

#[derive(Debug)]
pub struct SarifRule {
    pub id: String,
    pub name: String,
    pub short_description: SarifMessage,
    pub full_description: SarifMessage,
    pub help: SarifMessage,
    pub default_configuration: SarifConfiguration,
    pub properties: SarifRuleProperties,
}

#[derive(Debug)]
pub struct SarifMessage {
    pub text: String,
}

#[derive(Debug)]
pub struct SarifConfiguration {
    pub level: &'static str,
}

#[derive(Debug)]
pub struct SarifRuleProperties {
    pub category: &'static str,
    pub security_severity: &'static str,
}

#[derive(Debug)]
pub struct SarifResult {
    pub rule_id: String,
    pub rule_index: usize,
    pub level: &'static str,
    pub message: SarifMessage,
    pub locations: Vec<SarifLocation>,
    /// One `external` suppression when the finding is ignored.
    pub suppressions: Vec<SarifSuppression>,
}

#[derive(Debug)]
pub struct SarifSuppression {
    pub kind: &'static str,
}

#[derive(Debug)]
pub struct SarifLocation {
    pub physical_location: SarifPhysicalLocation,
}

#[derive(Debug)]
pub struct SarifPhysicalLocation {
    pub artifact_location: SarifArtifactLocation,
    pub region: SarifRegion,
}

#[derive(Debug)]
pub struct SarifArtifactLocation {
    pub uri: String,
    pub uri_base_id: Option<&'static str>,
}

#[derive(Debug)]
pub struct SarifRegion {
    pub start_line: u32,
    pub start_column: Option<u32>,
    pub end_line: Option<u32>,
    pub end_column: Option<u32>,
    pub byte_offset: Option<usize>,
    pub byte_length: Option<usize>,
}

/// The metadata of a rule for the rules table.
struct RuleMeta {
    short: &'static str,
    full: &'static str,
    help: &'static str,
    severity: Severity,
    category: &'static str,
}

/// The SARIF metadata of a rule id: short and full description, help,
/// severity and category. Ids without metadata get a generic entry.
pub open spec fn spec_meta(id: Seq<char>) -> (Seq<char>, Seq<char>, Seq<char>, Severity, Seq<char>) {
    if id == "vue/security/no-v-html"@ {
        ("Disallow `v-html` directive"@, "Rendering untrusted HTML can execute arbitrary JavaScript."@, "Sanitise with DOMPurify or use `v-text` / interpolation."@, Severity::Critical, "security"@)
    } else if id == "vue/security/no-inner-html"@ {
        ("Disallow `el.innerHTML = ...`"@, "Writing to `.innerHTML` lets attackers inject script tags."@, "Use `textContent` for plain text or sanitise with DOMPurify."@, Severity::Critical, "security"@)
    } else if id == "vue/security/no-document-write"@ {
        ("Disallow `document.write`"@, "`document.write` is a known XSS sink."@, "Use `appendChild` or update via Vue reactivity instead."@, Severity::High, "security"@)
    } else if id == "vue/security/no-eval"@ {
        ("Disallow `eval` / `new Function`"@, "Evaluating strings as code is RCE if any input is attacker-controlled."@, "Refactor to a static expression or a lookup table."@, Severity::Critical, "security"@)
    } else if id == "vue/security/no-dangerous-url"@ {
        ("Disallow dangerous URL schemes"@, "`javascript:`, `data:text/html`, and `vbscript:` URLs execute code."@, "Use `https?://` URLs or a router."@, Severity::Critical, "security"@)
    } else if id == "vue/security/no-open-redirect"@ {
        ("Disallow open redirect sinks"@, "Forwarding user-controlled data to `location.*` enables open-redirect attacks."@, "Validate the URL against an allow-list of hostnames."@, Severity::High, "security"@)
    } else if id == "vue/security/no-unsafe-localstorage"@ {
        ("Disallow auth tokens in `localStorage`"@, "Tokens in `localStorage` are reachable by any injected script."@, "Prefer an `HttpOnly; Secure` cookie set by the server."@, Severity::High, "security"@)
    } else if id == "vue/security/no-unsafe-iframe"@ {
        ("Disallow `<iframe>` without `sandbox`"@, "An `iframe` without `sandbox` inherits the embedding origin's capabilities."@, "Add `sandbox=\"\"` (or an explicit allow-list)."@, Severity::Medium, "security"@)
    } else if id == "vue/security/no-dynamic-bind-src"@ {
        ("Disallow dynamic `src` binding"@, "A dynamic `src` can load attacker-controlled resources."@, "Validate and sanitise the URL against an allow-list."@, Severity::High, "security"@)
    } else if id == "vue/best-practice/no-inline-style"@ {
        ("Disallow inline `style`"@, "Inline styles bypass the cascade and are hard to maintain."@, "Use a CSS class instead."@, Severity::Low, "best-practice"@)
    } else if id == "vue/best-practice/no-watch-with-callback"@ {
        ("Disallow `watch` with callback (memory leak risk)"@, "`watch(source, cb)` returns a stop handle that is easy to forget to call."@, "Prefer `watchEffect` or stop the handle in `onScopeDispose`."@, Severity::Low, "best-practice"@)
    } else if id == "vue/best-practice/v-for-missing-key"@ {
        ("Require `:key` on `v-for`"@, "Without a stable `:key`, Vue falls back to index-based reconciliation."@, "Add `:key=\"item.id\"`."@, Severity::Medium, "best-practice"@)
    } else if id == "vue/security/no-postmessage-wildcard"@ {
        ("Disallow `postMessage(..., '*')`"@, "A `'*'` target origin delivers the message to whichever window is there, including one an attacker navigated."@, "Pin the receiver's exact origin, and check `event.origin` on the receiving side."@, Severity::High, "security"@)
    } else if id == "vue/security/no-window-open-blank-noopener"@ {
        ("Disallow `window.open(url, '_blank')` without `noopener`"@, "The opened tab can set `window.opener.location` and phish the originating page (reverse tabnabbing)."@, "Add `noopener` (or `noreferrer`) to the `windowFeatures` string."@, Severity::High, "security"@)
    } else if id == "vue/security/no-fetch-without-timeout"@ {
        ("Disallow `fetch` without an `AbortSignal`"@, "A `fetch` that is never aborted can hang indefinitely on a slow or unreachable host."@, "Pass `signal: controller.signal` and abort from a `setTimeout` or a lifecycle hook."@, Severity::High, "security"@)
    } else if id == "vue/performance/no-v-if-with-v-for"@ {
        ("Disallow `v-if` together with `v-for` on the same element"@, "Disallow `v-if` together with `v-for` on the same element"@, "Vue 3 evaluates `v-if` before `v-for`, so the list is built and then discarded when the condition is false — and the pair is a well-known source of priority bugs. Filter the list with a computed property instead, and keep `v-if` on a wrapper element."@, Severity::Medium, "performance"@)
    } else if id == "vue/performance/no-deep-watch-without-handler"@ {
        ("Warn about `watch(source, callback, { deep: true })` watchers that traverse the whole object on every change"@, "Warn about `watch(source, callback, { deep: true })` watchers that traverse the whole object on every change"@, "Deep watchers re-compare every nested property on each mutation, which degrades as the object grows. Prefer watching an explicit path (`() => obj.field`), splitting the watcher per field, or `{ once: true }` when only the first notification is needed."@, Severity::Low, "performance"@)
    } else if id == "vue/performance/no-reactive-in-v-for"@ {
        ("Disallow reactive object creation inside loop bodies"@, "Disallow reactive object creation inside loop bodies"@, "Each iteration allocates a fresh reactive wrapper and effect that is never released when the collection changes. Hoist the wrapper out of the loop, or keep plain per-item values — the render already derives them on demand."@, Severity::Low, "performance"@)
    } else if id == "vue/performance/no-large-list-without-virtualization"@ {
        ("Heuristic: `v-for` over a large-looking collection without a virtual-scroll wrapper"@, "Heuristic: `v-for` over a large-looking collection without a virtual-scroll wrapper"@, "Rendering every row of a large collection at once freezes the main thread. Wrap the list in a virtual-scroll component (RecycleScroller, el-virtual-list, vue-virtual-scroller, ...) or paginate. Heuristic: if this collection is provably small, silence with `vuer-ignore[no-large-list-without-virtualization]`."@, Severity::Low, "performance"@)
    } else if id == "vue/accessibility/no-img-without-alt"@ {
        ("Require an `alt` attribute on every `<img>`"@, "Require an `alt` attribute on every `<img>`"@, "Screen readers announce the `alt` text in place of the image. Add `alt=\"description\"`, or `alt=\"\"` for purely decorative images. Dynamic images can bind `:alt=\"item.label\"`."@, Severity::Medium, "accessibility"@)
    } else if id == "vue/accessibility/no-click-without-role-keyboard"@ {
        ("Require `role` and a keyboard handler on `@click` of non-interactive elements"@, "Require `role` and a keyboard handler on `@click` of non-interactive elements"@, "An element that reacts to clicks but cannot receive keyboard focus is unreachable for keyboard-only users. Use a real interactive element (`<button>` / `<a href>`), or add `role=\"button\"` plus a matching `@keydown.enter` handler and `tabindex=\"0\"`."@, Severity::Medium, "accessibility"@)
    } else if id == "vue/accessibility/no-form-without-label"@ {
        ("Require an associated `<label>` or `aria-label` on form fields"@, "Require an associated `<label>` or `aria-label` on form fields"@, "Associate a `<label for=\"field-id\">` with the field, wrap it in a `<label>`, or add `aria-label=\"...\"`. Screen readers announce a field by its label; an unlabelled input is announced only as its type."@, Severity::Medium, "accessibility"@)
    } else if id == "vue/accessibility/no-button-without-type"@ {
        ("Require an explicit `type` on every `<button>`"@, "Require an explicit `type` on every `<button>`"@, "A `<button>` without `type` defaults to `type=\"submit\"`, so a click inside a form submits and navigates. Set `type=\"button\"` for in-page actions, or `type=\"submit\"` explicitly when submitting."@, Severity::Low, "accessibility"@)
    } else if id == "vue/architecture/no-side-effect-in-computed"@ {
        ("Disallow side effects inside `computed(...)` getters"@, "Disallow side effects inside `computed(...)` getters"@, "A computed getter must be pure: Vue re-evaluates it lazily and unpredictably, so mutations, writes, `fetch`, `watch`, `console`, and `emit` inside it fire an unknown number of times. Move the side effect to a `watch`/event handler, or use a plain `function`. An `async` getter returns a Promise, which Vue cannot react to."@, Severity::Medium, "architecture"@)
    } else if id == "vue/architecture/no-mutation-of-props"@ {
        ("Disallow writes to props declared with `defineProps`"@, "Disallow writes to props declared with `defineProps`"@, "Props are owned by the parent; writing `props.x = ...` (or to a destructured prop) diverges the child from the parent and the change is lost on the next re-render. `emit` an event and let the parent update its own state."@, Severity::Medium, "architecture"@)
    } else if id == "vue/architecture/no-async-setup-without-error-boundary"@ {
        ("Heuristic: `async setup()` without a `<Suspense>` boundary"@, "Heuristic: `async setup()` without a `<Suspense>` boundary"@, "Vue 3 requires an `async setup()` component to be wrapped in `<Suspense>` (at the parent) to render a fallback while the promise resolves. If this component is always mounted inside a router-level `Suspense`, silence with `vuer-ignore[no-async-setup-without-error-boundary]`."@, Severity::Low, "architecture"@)
    } else {
        ("Vuer rule"@, "No description available."@, "Run `vuer --list` for details."@, Severity::Info, "best-practice"@)
    }
}

/// The SARIF metadata of a rule id (see [`spec_meta`]).
fn rule_meta(id: &RuleId) -> (r: RuleMeta)
    ensures
        (r.short@, r.full@, r.help@, r.severity, r.category@) == spec_meta(id@),
{
    let s = id.as_str();
    if str_eq(s, "vue/security/no-v-html") {
        RuleMeta { short: "Disallow `v-html` directive", full: "Rendering untrusted HTML can execute arbitrary JavaScript.", help: "Sanitise with DOMPurify or use `v-text` / interpolation.", severity: Severity::Critical, category: "security" }
    } else if str_eq(s, "vue/security/no-inner-html") {
        RuleMeta { short: "Disallow `el.innerHTML = ...`", full: "Writing to `.innerHTML` lets attackers inject script tags.", help: "Use `textContent` for plain text or sanitise with DOMPurify.", severity: Severity::Critical, category: "security" }
    } else if str_eq(s, "vue/security/no-document-write") {
        RuleMeta { short: "Disallow `document.write`", full: "`document.write` is a known XSS sink.", help: "Use `appendChild` or update via Vue reactivity instead.", severity: Severity::High, category: "security" }
    } else if str_eq(s, "vue/security/no-eval") {
        RuleMeta { short: "Disallow `eval` / `new Function`", full: "Evaluating strings as code is RCE if any input is attacker-controlled.", help: "Refactor to a static expression or a lookup table.", severity: Severity::Critical, category: "security" }
    } else if str_eq(s, "vue/security/no-dangerous-url") {
        RuleMeta { short: "Disallow dangerous URL schemes", full: "`javascript:`, `data:text/html`, and `vbscript:` URLs execute code.", help: "Use `https?://` URLs or a router.", severity: Severity::Critical, category: "security" }
    } else if str_eq(s, "vue/security/no-open-redirect") {
        RuleMeta { short: "Disallow open redirect sinks", full: "Forwarding user-controlled data to `location.*` enables open-redirect attacks.", help: "Validate the URL against an allow-list of hostnames.", severity: Severity::High, category: "security" }
    } else if str_eq(s, "vue/security/no-unsafe-localstorage") {
        RuleMeta { short: "Disallow auth tokens in `localStorage`", full: "Tokens in `localStorage` are reachable by any injected script.", help: "Prefer an `HttpOnly; Secure` cookie set by the server.", severity: Severity::High, category: "security" }
    } else if str_eq(s, "vue/security/no-unsafe-iframe") {
        RuleMeta { short: "Disallow `<iframe>` without `sandbox`", full: "An `iframe` without `sandbox` inherits the embedding origin's capabilities.", help: "Add `sandbox=\"\"` (or an explicit allow-list).", severity: Severity::Medium, category: "security" }
    } else if str_eq(s, "vue/security/no-dynamic-bind-src") {
        RuleMeta { short: "Disallow dynamic `src` binding", full: "A dynamic `src` can load attacker-controlled resources.", help: "Validate and sanitise the URL against an allow-list.", severity: Severity::High, category: "security" }
    } else if str_eq(s, "vue/best-practice/no-inline-style") {
        RuleMeta { short: "Disallow inline `style`", full: "Inline styles bypass the cascade and are hard to maintain.", help: "Use a CSS class instead.", severity: Severity::Low, category: "best-practice" }
    } else if str_eq(s, "vue/best-practice/no-watch-with-callback") {
        RuleMeta { short: "Disallow `watch` with callback (memory leak risk)", full: "`watch(source, cb)` returns a stop handle that is easy to forget to call.", help: "Prefer `watchEffect` or stop the handle in `onScopeDispose`.", severity: Severity::Low, category: "best-practice" }
    } else if str_eq(s, "vue/best-practice/v-for-missing-key") {
        RuleMeta { short: "Require `:key` on `v-for`", full: "Without a stable `:key`, Vue falls back to index-based reconciliation.", help: "Add `:key=\"item.id\"`.", severity: Severity::Medium, category: "best-practice" }
    } else if str_eq(s, "vue/security/no-postmessage-wildcard") {
        RuleMeta { short: "Disallow `postMessage(..., '*')`", full: "A `'*'` target origin delivers the message to whichever window is there, including one an attacker navigated.", help: "Pin the receiver's exact origin, and check `event.origin` on the receiving side.", severity: Severity::High, category: "security" }
    } else if str_eq(s, "vue/security/no-window-open-blank-noopener") {
        RuleMeta { short: "Disallow `window.open(url, '_blank')` without `noopener`", full: "The opened tab can set `window.opener.location` and phish the originating page (reverse tabnabbing).", help: "Add `noopener` (or `noreferrer`) to the `windowFeatures` string.", severity: Severity::High, category: "security" }
    } else if str_eq(s, "vue/security/no-fetch-without-timeout") {
        RuleMeta { short: "Disallow `fetch` without an `AbortSignal`", full: "A `fetch` that is never aborted can hang indefinitely on a slow or unreachable host.", help: "Pass `signal: controller.signal` and abort from a `setTimeout` or a lifecycle hook.", severity: Severity::High, category: "security" }
    } else if str_eq(s, "vue/performance/no-v-if-with-v-for") {
        RuleMeta { short: "Disallow `v-if` together with `v-for` on the same element", full: "Disallow `v-if` together with `v-for` on the same element", help: "Vue 3 evaluates `v-if` before `v-for`, so the list is built and then discarded when the condition is false — and the pair is a well-known source of priority bugs. Filter the list with a computed property instead, and keep `v-if` on a wrapper element.", severity: Severity::Medium, category: "performance" }
    } else if str_eq(s, "vue/performance/no-deep-watch-without-handler") {
        RuleMeta { short: "Warn about `watch(source, callback, { deep: true })` watchers that traverse the whole object on every change", full: "Warn about `watch(source, callback, { deep: true })` watchers that traverse the whole object on every change", help: "Deep watchers re-compare every nested property on each mutation, which degrades as the object grows. Prefer watching an explicit path (`() => obj.field`), splitting the watcher per field, or `{ once: true }` when only the first notification is needed.", severity: Severity::Low, category: "performance" }
    } else if str_eq(s, "vue/performance/no-reactive-in-v-for") {
        RuleMeta { short: "Disallow reactive object creation inside loop bodies", full: "Disallow reactive object creation inside loop bodies", help: "Each iteration allocates a fresh reactive wrapper and effect that is never released when the collection changes. Hoist the wrapper out of the loop, or keep plain per-item values — the render already derives them on demand.", severity: Severity::Low, category: "performance" }
    } else if str_eq(s, "vue/performance/no-large-list-without-virtualization") {
        RuleMeta { short: "Heuristic: `v-for` over a large-looking collection without a virtual-scroll wrapper", full: "Heuristic: `v-for` over a large-looking collection without a virtual-scroll wrapper", help: "Rendering every row of a large collection at once freezes the main thread. Wrap the list in a virtual-scroll component (RecycleScroller, el-virtual-list, vue-virtual-scroller, ...) or paginate. Heuristic: if this collection is provably small, silence with `vuer-ignore[no-large-list-without-virtualization]`.", severity: Severity::Low, category: "performance" }
    } else if str_eq(s, "vue/accessibility/no-img-without-alt") {
        RuleMeta { short: "Require an `alt` attribute on every `<img>`", full: "Require an `alt` attribute on every `<img>`", help: "Screen readers announce the `alt` text in place of the image. Add `alt=\"description\"`, or `alt=\"\"` for purely decorative images. Dynamic images can bind `:alt=\"item.label\"`.", severity: Severity::Medium, category: "accessibility" }
    } else if str_eq(s, "vue/accessibility/no-click-without-role-keyboard") {
        RuleMeta { short: "Require `role` and a keyboard handler on `@click` of non-interactive elements", full: "Require `role` and a keyboard handler on `@click` of non-interactive elements", help: "An element that reacts to clicks but cannot receive keyboard focus is unreachable for keyboard-only users. Use a real interactive element (`<button>` / `<a href>`), or add `role=\"button\"` plus a matching `@keydown.enter` handler and `tabindex=\"0\"`.", severity: Severity::Medium, category: "accessibility" }
    } else if str_eq(s, "vue/accessibility/no-form-without-label") {
        RuleMeta { short: "Require an associated `<label>` or `aria-label` on form fields", full: "Require an associated `<label>` or `aria-label` on form fields", help: "Associate a `<label for=\"field-id\">` with the field, wrap it in a `<label>`, or add `aria-label=\"...\"`. Screen readers announce a field by its label; an unlabelled input is announced only as its type.", severity: Severity::Medium, category: "accessibility" }
    } else if str_eq(s, "vue/accessibility/no-button-without-type") {
        RuleMeta { short: "Require an explicit `type` on every `<button>`", full: "Require an explicit `type` on every `<button>`", help: "A `<button>` without `type` defaults to `type=\"submit\"`, so a click inside a form submits and navigates. Set `type=\"button\"` for in-page actions, or `type=\"submit\"` explicitly when submitting.", severity: Severity::Low, category: "accessibility" }
    } else if str_eq(s, "vue/architecture/no-side-effect-in-computed") {
        RuleMeta { short: "Disallow side effects inside `computed(...)` getters", full: "Disallow side effects inside `computed(...)` getters", help: "A computed getter must be pure: Vue re-evaluates it lazily and unpredictably, so mutations, writes, `fetch`, `watch`, `console`, and `emit` inside it fire an unknown number of times. Move the side effect to a `watch`/event handler, or use a plain `function`. An `async` getter returns a Promise, which Vue cannot react to.", severity: Severity::Medium, category: "architecture" }
    } else if str_eq(s, "vue/architecture/no-mutation-of-props") {
        RuleMeta { short: "Disallow writes to props declared with `defineProps`", full: "Disallow writes to props declared with `defineProps`", help: "Props are owned by the parent; writing `props.x = ...` (or to a destructured prop) diverges the child from the parent and the change is lost on the next re-render. `emit` an event and let the parent update its own state.", severity: Severity::Medium, category: "architecture" }
    } else if str_eq(s, "vue/architecture/no-async-setup-without-error-boundary") {
        RuleMeta { short: "Heuristic: `async setup()` without a `<Suspense>` boundary", full: "Heuristic: `async setup()` without a `<Suspense>` boundary", help: "Vue 3 requires an `async setup()` component to be wrapped in `<Suspense>` (at the parent) to render a fallback while the promise resolves. If this component is always mounted inside a router-level `Suspense`, silence with `vuer-ignore[no-async-setup-without-error-boundary]`.", severity: Severity::Low, category: "architecture" }
    } else {
        RuleMeta { short: "Vuer rule", full: "No description available.", help: "Run `vuer --list` for details.", severity: Severity::Info, category: "best-practice" }
    }
}

/// The rule ids whose metadata is known, in table order.
pub open spec fn spec_known_rule_ids() -> Seq<Seq<char>> {
    seq![
        "vue/security/no-v-html"@,
        "vue/security/no-inner-html"@,
        "vue/security/no-document-write"@,
        "vue/security/no-eval"@,
        "vue/security/no-dangerous-url"@,
        "vue/security/no-open-redirect"@,
        "vue/security/no-unsafe-localstorage"@,
        "vue/security/no-unsafe-iframe"@,
        "vue/security/no-dynamic-bind-src"@,
        "vue/best-practice/no-inline-style"@,
        "vue/best-practice/no-watch-with-callback"@,
        "vue/best-practice/v-for-missing-key"@
    ]
}

/// The rule ids whose metadata is known, in table order.
fn known_rule_ids() -> (r: Vec<RuleId>)
    ensures
        r@.map_values(|x: RuleId| x@) == spec_known_rule_ids(),
{
    let mut v: Vec<RuleId> = Vec::new();
    v.push(RuleId::new(to_owned_string("vue/security/no-v-html")));
    v.push(RuleId::new(to_owned_string("vue/security/no-inner-html")));
    v.push(RuleId::new(to_owned_string("vue/security/no-document-write")));
    v.push(RuleId::new(to_owned_string("vue/security/no-eval")));
    v.push(RuleId::new(to_owned_string("vue/security/no-dangerous-url")));
    v.push(RuleId::new(to_owned_string("vue/security/no-open-redirect")));
    v.push(RuleId::new(to_owned_string("vue/security/no-unsafe-localstorage")));
    v.push(RuleId::new(to_owned_string("vue/security/no-unsafe-iframe")));
    v.push(RuleId::new(to_owned_string("vue/security/no-dynamic-bind-src")));
    v.push(RuleId::new(to_owned_string("vue/best-practice/no-inline-style")));
    v.push(RuleId::new(to_owned_string("vue/best-practice/no-watch-with-callback")));
    v.push(RuleId::new(to_owned_string("vue/best-practice/v-for-missing-key")));
    assert(v@.map_values(|x: RuleId| x@) =~= spec_known_rule_ids());
    v
}

/// Number of newlines among the first `k` characters.
pub open spec fn newline_count(cs: Seq<char>, k: int) -> int
    decreases k,
{
    if k <= 0 || k > cs.len() {
        0
    } else {
        newline_count(cs, k - 1) + if cs[k - 1] == '\n' {
            1int
        } else {
            0int
        }
    }
}

/// Line and column, both counted from 1, of character index `k`.
pub open spec fn line_col(cs: Seq<char>, k: int) -> (int, int) {
    (1 + newline_count(cs, k), k - line_start(cs, k) + 1)
}

fn line_col_exec(cs: &Vec<char>, k: usize) -> (r: (u32, u32))
    requires
        k <= cs.len(),
        cs.len() < u32::MAX,
    ensures
        r.0 as int == line_col(cs@, k as int).0,
        r.1 as int == line_col(cs@, k as int).1,
{
    let mut line: u32 = 1;
    let mut col: u32 = 1;
    let mut m: usize = 0;
    while m < k
        invariant
            m <= k <= cs.len() < u32::MAX,
            line as int == 1 + newline_count(cs@, m as int),
            col as int == m - line_start(cs@, m as int) + 1,
            1 + newline_count(cs@, m as int) <= m + 1,
            line_start(cs@, m as int) >= 0,
        decreases k - m,
    {
        proof {
            assert(line_start(cs@, m + 1) == if cs@[m as int] == '\n' {
                m + 1
            } else {
                line_start(cs@, m as int)
            });
        }
        if cs[m] == '\n' {
            line = line + 1;
            col = 1;
        } else {
            col = col + 1;
        }
        m = m + 1;
    }
    (line, col)
}

/// Line and column of a byte range's start and end in `source`, as SARIF
/// regions give them. An empty source gives line 1 and nothing else;
/// offsets past the end are clamped to it.
pub open spec fn spec_line_col_region(source: Seq<char>, offset: int, length: int) -> (int, Option<int>, Option<int>, Option<int>) {
    if source.len() == 0 {
        (1, None, None, None)
    } else {
        let n = vstd::utf8::encode_utf8(source).len() as int;
        let o = if offset < n { offset } else { n };
        let e = if o + length < n { o + length } else { n };
        let k0 = char_at_byte(source, o);
        let k1 = char_at_byte(source, e);
        (line_col(source, k0).0, Some(line_col(source, k0).1), Some(line_col(source, k1).0), Some(line_col(source, k1).1))
    }
}

/// Line and column (from 1) of the start and end of the byte range
/// `offset .. offset + length` of `source`.
pub fn byte_offset_to_line_col(source: &str, offset: usize, length: usize) -> (r: (u32, Option<u32>, Option<u32>, Option<u32>))
    requires
        vstd::utf8::encode_utf8(source@).len() < u32::MAX,
    ensures
        r.0 as int == spec_line_col_region(source@, offset as int, length as int).0,
        r.1 matches Some(c) ==> spec_line_col_region(source@, offset as int, length as int).1 == Some(c as int),
        r.1 is None ==> spec_line_col_region(source@, offset as int, length as int).1 is None,
        r.2 matches Some(c) ==> spec_line_col_region(source@, offset as int, length as int).2 == Some(c as int),
        r.2 is None ==> spec_line_col_region(source@, offset as int, length as int).2 is None,
        r.3 matches Some(c) ==> spec_line_col_region(source@, offset as int, length as int).3 == Some(c as int),
        r.3 is None ==> spec_line_col_region(source@, offset as int, length as int).3 is None,
{
    if source.is_empty() {
        return (1, None, None, None);
    }
    let text = index_text(source);
    proof {
        crate::text::lemma_chars_le_bytes(source@, source@.len() as int);
        assert(source@.take(source@.len() as int) =~= source@);
    }
    let n = text.offs[text.chars.len()];
    let o = if offset < n { offset } else { n };
    let e = if length < n - o { o + length } else { n };
    let k0 = char_index_of_byte(&text, o);
    let k1 = char_index_of_byte(&text, e);
    let (l0, c0) = line_col_exec(&text.chars, k0);
    let (l1, c1) = line_col_exec(&text.chars, k1);
    (l0, Some(c0), Some(l1), Some(c1))
}

/// The URI of a path: `file://` before an absolute Unix path, backslashes
/// turned into slashes otherwise.
pub open spec fn spec_path_to_uri(path: Seq<char>) -> Seq<char> {
    if path.len() > 0 && path[0] == '/' {
        "file://"@ + path
    } else {
        path.map_values(|c: char| if c == '\\' { '/' } else { c })
    }
}

/// The URI of a path (see [`spec_path_to_uri`]).
pub fn path_to_uri(path: &str) -> (r: String)
    ensures
        r@ == spec_path_to_uri(path@),
{
    let cs = chars_of(path);
    if cs.len() > 0 && cs[0] == '/' {
        let mut s = to_owned_string("file://");
        push_str(&mut s, path);
        return s;
    }
    let mut out: Vec<char> = Vec::new();
    let mut i: usize = 0;
    while i < cs.len()
        invariant
            i <= cs.len(),
            cs@ == path@,
            out@ == cs@.take(i as int).map_values(|c: char| if c == '\\' { '/' } else { c }),
        decreases cs.len() - i,
    {
        let c = cs[i];
        out.push(if c == '\\' { '/' } else { c });
        i = i + 1;
        assert(out@ =~= cs@.take(i as int).map_values(|c: char| if c == '\\' { '/' } else { c }));
    }
    assert(cs@.take(cs@.len() as int) =~= cs@);
    string_from_chars(out.as_slice())
}

/// The rules-table entry of a rule id.
fn build_rule(id: &RuleId) -> (r: SarifRule)
    ensures
        r.id@ == id@,
        r.name@ == id@,
        r.default_configuration.level@ == spec_meta(id@).3.spec_sarif_level(),
        r.properties.security_severity@ == spec_meta(id@).3.spec_name(),
        r.properties.category@ == spec_meta(id@).4,
        r.short_description.text@ == spec_meta(id@).0,
        r.full_description.text@ == spec_meta(id@).1,
        r.help.text@ == spec_meta(id@).2,
{
    let meta = rule_meta(id);
    SarifRule {
        id: to_owned_string(id.as_str()),
        name: to_owned_string(id.as_str()),
        short_description: SarifMessage { text: to_owned_string(meta.short) },
        full_description: SarifMessage { text: to_owned_string(meta.full) },
        help: SarifMessage { text: to_owned_string(meta.help) },
        default_configuration: SarifConfiguration { level: meta.severity.to_sarif_level() },
        properties: SarifRuleProperties { category: meta.category, security_severity: meta.severity.as_str() },
    }
}

/// `s` with every item after its first occurrence left out, in order.
pub open spec fn first_occurrences(s: Seq<Seq<char>>) -> Seq<Seq<char>>
    decreases s.len(),
{
    if s.len() == 0 {
        Seq::empty()
    } else {
        let d = first_occurrences(s.drop_last());
        if d.contains(s.last()) {
            d
        } else {
            d.push(s.last())
        }
    }
}

/// The rule ids of the violations, in order.
pub open spec fn violation_rule_ids(violations: Seq<Violation>) -> Seq<Seq<char>> {
    violations.map_values(|v: Violation| v.rule_id@)
}

proof fn lemma_first_occurrences_contains(s: Seq<Seq<char>>)
    ensures
        forall|x: Seq<char>| first_occurrences(s).contains(x) <==> s.contains(x),
    decreases s.len(),
{
    if s.len() > 0 {
        lemma_first_occurrences_contains(s.drop_last());
        assert forall|x: Seq<char>| first_occurrences(s).contains(x) <==> s.contains(x) by {
            if s.contains(x) {
                let k = choose|k: int| 0 <= k < s.len() && s[k] == x;
                if k < s.len() - 1 {
                    assert(s.drop_last()[k] == x);
                }
            }
            if s.drop_last().contains(x) {
                let k = choose|k: int| 0 <= k < s.drop_last().len() && s.drop_last()[k] == x;
                assert(s[k] == x);
            }
            if first_occurrences(s.drop_last()).contains(x) {
                let d = first_occurrences(s.drop_last());
                let k = choose|k: int| 0 <= k < d.len() && d[k] == x;
                assert(d.push(s.last())[k] == x);
            }
            assert(s[s.len() - 1] == s.last());
            assert(first_occurrences(s.drop_last()).push(s.last()).last() == s.last());
        }
    }
}

/// One more item `x` after `s`: the first occurrences grow by `x` exactly
/// when it is new.
proof fn lemma_first_occurrences_push(s: Seq<Seq<char>>, x: Seq<char>)
    ensures
        first_occurrences(s.push(x)) == if s.contains(x) {
            first_occurrences(s)
        } else {
            first_occurrences(s).push(x)
        },
{
    assert(s.push(x).drop_last() =~= s);
    lemma_first_occurrences_contains(s);
}

/// The views of a list of rule ids, in order.
pub open spec fn id_views(ids: Seq<RuleId>) -> Seq<Seq<char>> {
    ids.map_values(|x: RuleId| x@)
}

/// The ids of a rules table, in order.
pub open spec fn table_ids(rules: Seq<SarifRule>) -> Seq<Seq<char>> {
    rules.map_values(|r: SarifRule| r.id@)
}

/// Some rule of the table has id `x`.
pub open spec fn has_rule(rules: Seq<SarifRule>, x: Seq<char>) -> bool {
    exists|m: int| 0 <= m < rules.len() && rules[m].id@ == x
}

/// Some id of `ids` is `x`.
pub open spec fn has_id(ids: Seq<RuleId>, x: Seq<char>) -> bool {
    exists|k: int| 0 <= k < ids.len() && ids[k]@ == x
}

proof fn lemma_has_id_push(ids: Seq<RuleId>, y: RuleId, x: Seq<char>)
    requires
        has_id(ids, x),
    ensures
        has_id(ids.push(y), x),
{
    let k = choose|k: int| 0 <= k < ids.len() && ids[k]@ == x;
    assert(ids.push(y)[k]@ == x);
}

fn position(ids: &Vec<RuleId>, id: &str) -> (r: Option<usize>)
    ensures
        match r {
            Some(k) => k < ids.len() && ids@[k as int]@ == id@,
            None => forall|k: int| 0 <= k < ids.len() ==> ids@[k]@ != id@,
        },
{
    let mut k: usize = 0;
    while k < ids.len()
        invariant
            k <= ids.len(),
            forall|m: int| 0 <= m < k ==> ids@[m]@ != id@,
        decreases ids.len() - k,
    {
        if str_eq(ids[k].as_str(), id) {
            return Some(k);
        }
        k = k + 1;
    }
    None
}

/// The source text for a file, the first entry with its path; empty when
/// there is none.
fn source_for<'s>(sources: &'s [(String, String)], file: &str) -> (r: &'s str)
    ensures
        r@.len() == 0 || exists|k: int| 0 <= k < sources@.len() && sources@[k].1@ == r@,
{
    proof {
        reveal_strlit("");
    }
    let mut k: usize = 0;
    while k < sources.len()
        decreases sources.len() - k,
    {
        if str_eq(sources[k].0.as_str(), file) {
            return sources[k].1.as_str();
        }
        k = k + 1;
    }
    ""
}

/// The result record of a violation, whose rule sits at `rule_index` of
/// the rules table.
fn build_result(v: &Violation, rule_index: usize, source: &str) -> (r: SarifResult)
    requires
        vstd::utf8::encode_utf8(source@).len() < u32::MAX,
    ensures
        r.rule_id@ == v.rule_id@,
        r.rule_index == rule_index,
        r.level@ == v.severity.spec_sarif_level(),
        r.message.text@ == v.message@,
        r.suppressions@.len() == if v.ignored { 1int } else { 0int },
        forall|k: int| 0 <= k < r.suppressions@.len() ==> #[trigger] r.suppressions@[k].kind@ == "external"@,
        r.locations@.len() == 1,
{
    let (start_line, start_column, end_line, end_column) = byte_offset_to_line_col(
        source,
        v.span_offset,
        v.span_length,
    );
    let mut locations: Vec<SarifLocation> = Vec::new();
    locations.push(
        SarifLocation {
            physical_location: SarifPhysicalLocation {
                artifact_location: SarifArtifactLocation {
                    uri: path_to_uri(v.file.as_str()),
                    uri_base_id: Some("%SRCROOT%"),
                },
                region: SarifRegion {
                    start_line,
                    start_column,
                    end_line,
                    end_column,
                    byte_offset: Some(v.span_offset),
                    byte_length: Some(v.span_length),
                },
            },
        },
    );
    let mut suppressions: Vec<SarifSuppression> = Vec::new();
    if v.ignored {
        suppressions.push(SarifSuppression { kind: "external" });
    }
    assert(forall|k: int| 0 <= k < suppressions@.len() ==> #[trigger] suppressions@[k].kind@ == "external"@);
    SarifResult {
        rule_id: v.rule_id.clone(),
        rule_index,
        level: v.severity.to_sarif_level(),
        message: SarifMessage { text: v.message.clone() },
        locations,
        suppressions,
    }
}

/// Build a SARIF log from violations. `sources` pairs each file path with
/// its source text, for lines and columns; `tool_version` is the version
/// the driver reports.
pub fn build_sarif(violations: &[Violation], sources: &[(String, String)], tool_version: &str) -> (r: SarifLog)
    requires
        forall|k: int| 0 <= k < sources@.len() ==> vstd::utf8::encode_utf8(#[trigger] sources@[k].1@).len() < u32::MAX,
    ensures
        r.version@ == "2.1.0"@,
        r.runs@.len() == 1,
        r.runs@[0].tool.driver.name@ == "vuer"@,
        // The rules table: the rules of the violations, then the known
        // rules, each once, in the order they first come.
        table_ids(r.runs@[0].tool.driver.rules@) == first_occurrences(
            violation_rule_ids(violations@) + spec_known_rule_ids(),
        ),
        r.runs@[0].results@.len() == violations@.len(),
        // Every result names a rule of the rules table, which holds each
        // rule once, and the known rules too.
        forall|i: int|
            #![trigger r.runs@[0].results@[i]]
            0 <= i < violations@.len() ==> {
                let res = r.runs@[0].results@[i];
                &&& res.rule_id@ == violations@[i].rule_id@
                &&& res.rule_index < r.runs@[0].tool.driver.rules@.len()
                &&& r.runs@[0].tool.driver.rules@[res.rule_index as int].id@ == res.rule_id@
                &&& res.level@ == violations@[i].severity.spec_sarif_level()
                &&& res.message.text@ == violations@[i].message@
                &&& res.suppressions@.len() == if violations@[i].ignored { 1int } else { 0int }
                &&& forall|k: int| 0 <= k < res.suppressions@.len() ==> #[trigger] res.suppressions@[k].kind@ == "external"@
            },
        forall|a: int, b: int|
            0 <= a < b < r.runs@[0].tool.driver.rules@.len() ==> r.runs@[0].tool.driver.rules@[a].id@
                != r.runs@[0].tool.driver.rules@[b].id@,
        forall|k: int|
            0 <= k < spec_known_rule_ids().len() ==> has_rule(
                r.runs@[0].tool.driver.rules@,
                #[trigger] spec_known_rule_ids()[k],
            ),
{
    let mut ids: Vec<RuleId> = Vec::new();
    let mut i: usize = 0;
    while i < violations.len()
        invariant
            i <= violations.len(),
            forall|a: int, b: int| 0 <= a < b < ids.len() ==> ids@[a]@ != ids@[b]@,
            forall|m: int| 0 <= m < i ==> has_id(ids@, #[trigger] violations@[m].rule_id@),
            id_views(ids@) == first_occurrences(violation_rule_ids(violations@).take(i as int)),
        decreases violations.len() - i,
    {
        let ghost before = ids@;
        let ghost x = violations@[i as int].rule_id@;
        proof {
            let vr = violation_rule_ids(violations@);
            assert(vr.take(i + 1) =~= vr.take(i as int).push(x));
            lemma_first_occurrences_push(vr.take(i as int), x);
            lemma_first_occurrences_contains(vr.take(i as int));
        }
        match position(&ids, violations[i].rule_id.as_str()) {
            Some(p) => {
                assert(has_id(ids@, violations@[i as int].rule_id@)) by {
                    assert(ids@[p as int]@ == violations@[i as int].rule_id@);
                }
                assert(id_views(ids@)[p as int] == x);
            },
            None => {
                let id = RuleId::new(violations[i].rule_id.clone());
                ids.push(id);
                proof {
                    assert(ids@ == before.push(id));
                    assert forall|m: int| 0 <= m < i implies has_id(ids@, #[trigger] violations@[m].rule_id@) by {
                        lemma_has_id_push(before, id, violations@[m].rule_id@);
                    }
                    assert(ids@[ids.len() - 1]@ == violations@[i as int].rule_id@);
                    assert(!id_views(before).contains(x));
                    assert(id_views(ids@) =~= id_views(before).push(x));
                }
            },
        }
        i = i + 1;
    }
    assert(violation_rule_ids(violations@).take(violations.len() as int) =~= violation_rule_ids(violations@));
    let known = known_rule_ids();
    let mut k: usize = 0;
    while k < known.len()
        invariant
            k <= known.len(),
            known@.map_values(|x: RuleId| x@) == spec_known_rule_ids(),
            forall|a: int, b: int| 0 <= a < b < ids.len() ==> ids@[a]@ != ids@[b]@,
            forall|m: int| 0 <= m < violations@.len() ==> has_id(ids@, #[trigger] violations@[m].rule_id@),
            forall|m: int| 0 <= m < k ==> has_id(ids@, #[trigger] known@[m]@),
            id_views(ids@) == first_occurrences(violation_rule_ids(violations@) + spec_known_rule_ids().take(k as int)),
        decreases known.len() - k,
    {
        let ghost before = ids@;
        let ghost x = known@[k as int]@;
        proof {
            let pre = violation_rule_ids(violations@) + spec_known_rule_ids().take(k as int);
            assert(known@.map_values(|y: RuleId| y@)[k as int] == x);
            assert(violation_rule_ids(violations@) + spec_known_rule_ids().take(k + 1) =~= pre.push(x));
            lemma_first_occurrences_push(pre, x);
            lemma_first_occurrences_contains(pre);
        }
        match position(&ids, known[k].as_str()) {
            Some(p) => {
                assert(has_id(ids@, known@[k as int]@)) by {
                    assert(ids@[p as int]@ == known@[k as int]@);
                }
                assert(id_views(ids@)[p as int] == x);
            },
            None => {
                let id = RuleId::new(known[k].0.clone());
                ids.push(id);
                proof {
                    assert(ids@ == before.push(id));
                    assert forall|m: int| 0 <= m < violations@.len() implies has_id(ids@, #[trigger] violations@[m].rule_id@) by {
                        lemma_has_id_push(before, id, violations@[m].rule_id@);
                    }
                    assert forall|m: int| 0 <= m < k implies has_id(ids@, #[trigger] known@[m]@) by {
                        lemma_has_id_push(before, id, known@[m]@);
                    }
                    assert(ids@[ids.len() - 1]@ == known@[k as int]@);
                    assert(!id_views(before).contains(x));
                    assert(id_views(ids@) =~= id_views(before).push(x));
                }
            },
        }
        k = k + 1;
    }
    assert(spec_known_rule_ids().take(known.len() as int) =~= spec_known_rule_ids());
    assert forall|m: int| 0 <= m < spec_known_rule_ids().len() implies has_id(ids@, #[trigger] spec_known_rule_ids()[m]) by {
        assert(known@.map_values(|x: RuleId| x@)[m] == known@[m]@);
        assert(has_id(ids@, known@[m]@));
    }
    let mut rules: Vec<SarifRule> = Vec::new();
    let mut j: usize = 0;
    while j < ids.len()
        invariant
            j <= ids.len(),
            rules.len() == j,
            forall|m: int| 0 <= m < j ==> #[trigger] rules@[m].id@ == ids@[m]@,
            id_views(ids@) == first_occurrences(violation_rule_ids(violations@) + spec_known_rule_ids()),
        decreases ids.len() - j,
    {
        rules.push(build_rule(&ids[j]));
        j = j + 1;
    }
    assert(table_ids(rules@) =~= id_views(ids@));
    let mut results: Vec<SarifResult> = Vec::new();
    let mut i: usize = 0;
    while i < violations.len()
        invariant
            i <= violations.len(),
            rules.len() == ids.len(),
            forall|m: int| 0 <= m < ids.len() ==> #[trigger] rules@[m].id@ == ids@[m]@,
            table_ids(rules@) == first_occurrences(violation_rule_ids(violations@) + spec_known_rule_ids()),
            forall|m: int| 0 <= m < violations@.len() ==> has_id(ids@, #[trigger] violations@[m].rule_id@),
            forall|k: int| 0 <= k < sources@.len() ==> vstd::utf8::encode_utf8(#[trigger] sources@[k].1@).len() < u32::MAX,
            results.len() == i,
            forall|m: int|
                #![trigger results@[m]]
                0 <= m < i ==> {
                    let res = results@[m];
                    &&& res.rule_id@ == violations@[m].rule_id@
                    &&& res.rule_index < rules@.len()
                    &&& rules@[res.rule_index as int].id@ == res.rule_id@
                    &&& res.level@ == violations@[m].severity.spec_sarif_level()
                    &&& res.message.text@ == violations@[m].message@
                    &&& res.suppressions@.len() == if violations@[m].ignored { 1int } else { 0int }
                    &&& forall|k: int| 0 <= k < res.suppressions@.len() ==> #[trigger] res.suppressions@[k].kind@ == "external"@
                },
        decreases violations.len() - i,
    {
        let v = &violations[i];
        let idx = match position(&ids, v.rule_id.as_str()) {
            Some(p) => p,
            None => {
                proof {
                    assert(has_id(ids@, violations@[i as int].rule_id@));
                    let w = choose|k: int| 0 <= k < ids@.len() && ids@[k]@ == violations@[i as int].rule_id@;
                    assert(ids@[w]@ != v.rule_id@);
                }
                0
            },
        };
        let source = source_for(sources, v.file.as_str());
        results.push(build_result(v, idx, source));
        i = i + 1;
    }
    assert forall|m: int| 0 <= m < spec_known_rule_ids().len() implies has_rule(rules@, #[trigger] spec_known_rule_ids()[m]) by {
        assert(has_id(ids@, spec_known_rule_ids()[m]));
        let w = choose|k: int| 0 <= k < ids@.len() && ids@[k]@ == spec_known_rule_ids()[m];
        assert(rules@[w].id@ == ids@[w]@);
    }
    let mut runs: Vec<SarifRun> = Vec::new();
    runs.push(
        SarifRun {
            tool: SarifTool {
                driver: SarifDriver {
                    name: "vuer",
                    information_uri: "https://github.com/suradet-ps/vuer",
                    version: to_owned_string(tool_version),
                    rules,
                },
            },
            results,
        },
    );
    SarifLog {
        schema: "https://raw.githubusercontent.com/oasis-tcs/sarif-spec/main/sarif-2.1/schema/sarif-schema-2.1.0.json",
        version: "2.1.0",
        runs,
    }
}

} // verus!
