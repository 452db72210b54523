//! Per-rule regression tests: each rule fires on a focused fixture and
//! stays silent on a clean one.

use vuer::cli::{actionable_count, effective_categories, effective_min_severity, exit_code, filter_violations};
use vuer::config::{parse_severity, Config};
use vuer::report::sarif::build_sarif;
use vuer::report::pretty::render_pretty;
use vuer::report::text::{render_minimal, render_rule_list, render_summary, rule_infos};
use vuer::scanner::{ScanOptions, Scanner, Violation};
use vuer::severity::Severity;

const CLEAN: &str = r#"<template>
  <main class="page">
    <h1>{{ title }}</h1>
    <ul>
      <li v-for="item in items" :key="item.id">{{ item.name }}</li>
    </ul>
    <img src="/logo.png" alt="Company logo">
    <a href="https://example.com/docs">Docs</a>
    <button type="button" @click="refresh">Refresh</button>
  </main>
</template>

<script setup>
import { ref } from 'vue'

const title = ref('Dashboard')
const items = ref([{ id: 1, name: 'First' }])

function refresh() {
  items.value = [...items.value]
}
</script>

<style scoped>
.page { padding: 1rem; }
</style>
"#;

const VULNERABLE: &str = r#"<template>
  <div class="profile">
    <div v-html="bio"></div>
    <img :src="avatarUrl" alt="avatar">
    <p style="color: red">Hello</p>
  </div>
</template>

<script>
import { watch } from 'vue'

const bio = localStorage.getItem('bio')
const avatarUrl = new URLSearchParams(location.search).get('avatar')

watch(bio, () => {
  console.log('bio changed')
})

export default {
  name: 'Profile',
}
</script>
"#;

const VULNERABLE_FULL: &str = r#"<template>
  <div class="dashboard">
    <div v-html="message"></div>
    <img :src="avatarUrl" alt="avatar">
    <iframe src="https://example.com/embed"></iframe>
    <ul>
      <li v-for="row in rows">{{ row.label }}</li>
    </ul>
  </div>
</template>

<script>
import { watch } from 'vue'
import { useRoute } from 'vue-router'

const route = useRoute()
const message = localStorage.getItem('message')
const avatarUrl = new URLSearchParams(location.search).get('avatar')
const redirectTarget = route.query.next
const nextUrl = new URLSearchParams(window.location.search).get('open')

const target = document.getElementById('out')
target.innerHTML = message
document.write('<p>legacy banner</p>')
eval('console.log(1)')
localStorage.setItem('authToken', message)
window.parent.postMessage({ kind: 'ready' }, '*')
fetch('/api/data')
window.open(nextUrl, '_blank')
location.href = redirectTarget

watch(message, () => {
  console.log('message changed')
})

export default {
  name: 'Dashboard',
}
</script>
"#;

const WITH_IGNORES: &str = r#"<template>
  <div v-html="trusted">silenced</div> <!-- vuer-ignore[no-v-html] -->
  <!-- vuer-ignore[no-v-html] -->
  <div v-html="trusted">silenced by previous-line comment</div>
  <div v-html="other">still reported</div>
</template>

<script setup>
const trusted = localStorage.getItem('trusted')
const other = localStorage.getItem('other')
const userInput = localStorage.getItem('input')
const el = document.getElementById('out')
el.innerHTML = userInput  // vuer-ignore[no-inner-html]
</script>
"#;

fn scan(name: &str, src: &str) -> Vec<Violation> {
    Scanner::new()
        .scan_source(name.to_string(), src.to_string(), &[], &ScanOptions::default())
        .violations
}

fn fixture(name: &str) -> &'static str {
    match name {
        "clean.vue" => CLEAN,
        "vulnerable.vue" => VULNERABLE,
        "vulnerable_full.vue" => VULNERABLE_FULL,
        "with_ignores.vue" => WITH_IGNORES,
        _ => panic!("unknown fixture {name}"),
    }
}

fn rule_id_count(violations: &[Violation], id: &str) -> usize {
    violations.iter().filter(|v| v.rule_id == id).count()
}

fn assert_rule_fires(rule_id: &str, vulnerable_fixture: &str) {
    let violations = scan(vulnerable_fixture, fixture(vulnerable_fixture));
    let count = rule_id_count(&violations, rule_id);
    assert!(
        count >= 1,
        "expected {rule_id} to fire on {vulnerable_fixture}, got {count} hits: {violations:#?}"
    );
}

fn assert_rule_silent(rule_id: &str, clean_fixture: &str) {
    let violations = scan(clean_fixture, fixture(clean_fixture));
    let count = rule_id_count(&violations, rule_id);
    assert_eq!(
        count, 0,
        "expected {rule_id} to stay silent on {clean_fixture}, got {count} hits: {violations:#?}"
    );
}

#[test]
fn audit_clean_fixture_produces_no_violations() {
    let violations = scan("clean.vue", CLEAN);
    assert!(violations.is_empty(), "expected no violations in clean.vue, got: {violations:#?}");
}

#[test]
fn audit_vulnerable_fixture_flags_all_known_categories() {
    let violations = scan("vulnerable.vue", VULNERABLE);
    let ids: Vec<&str> = violations.iter().map(|v| v.rule_id.as_str()).collect();
    for e in [
        "vue/security/no-dynamic-bind-src",
        "vue/security/no-v-html",
        "vue/best-practice/no-inline-style",
        "vue/best-practice/no-watch-with-callback",
    ] {
        assert!(ids.contains(&e), "missing {e} in {ids:?}");
    }
}

#[test]
fn audit_vulnerable_full_fixture_flags_expected_set() {
    let violations = scan("vulnerable_full.vue", VULNERABLE_FULL);
    let ids: Vec<&str> = violations.iter().map(|v| v.rule_id.as_str()).collect();
    for expected in [
        "vue/security/no-v-html",
        "vue/security/no-open-redirect",
        "vue/security/no-unsafe-iframe",
        "vue/security/no-dynamic-bind-src",
        "vue/security/no-inner-html",
        "vue/security/no-document-write",
        "vue/security/no-eval",
        "vue/security/no-unsafe-localstorage",
        "vue/security/no-postmessage-wildcard",
        "vue/security/no-window-open-blank-noopener",
        "vue/security/no-fetch-without-timeout",
        "vue/best-practice/v-for-missing-key",
        "vue/best-practice/no-watch-with-callback",
    ] {
        assert!(ids.contains(&expected), "missing {expected} in {ids:?}");
    }
}

#[test]
fn audit_violations_have_positive_span_offsets() {
    for v in scan("vulnerable.vue", VULNERABLE) {
        assert!(v.span_offset() > 0 || v.span_len() > 0, "violation for {} has zero span", v.rule_id);
    }
}

#[test]
fn audit_violations_carry_rule_metadata() {
    for v in scan("vulnerable_full.vue", VULNERABLE_FULL) {
        assert!(!v.rule_id.is_empty());
        assert!(!v.rule_name.is_empty());
    }
}

#[test]
fn rule_v_html_fires() {
    assert_rule_fires("vue/security/no-v-html", "vulnerable.vue");
    assert_rule_silent("vue/security/no-v-html", "clean.vue");
}

#[test]
fn rule_inner_html_fires() {
    assert_rule_fires("vue/security/no-inner-html", "vulnerable_full.vue");
}

#[test]
fn rule_document_write_fires() {
    assert_rule_fires("vue/security/no-document-write", "vulnerable_full.vue");
}

#[test]
fn rule_eval_fires() {
    assert_rule_fires("vue/security/no-eval", "vulnerable_full.vue");
}

#[test]
fn rule_dangerous_url_fires() {
    assert_rule_silent("vue/security/no-dangerous-url", "clean.vue");
}

#[test]
fn rule_open_redirect_fires() {
    assert_rule_fires("vue/security/no-open-redirect", "vulnerable_full.vue");
}

#[test]
fn rule_unsafe_localstorage_fires() {
    assert_rule_fires("vue/security/no-unsafe-localstorage", "vulnerable_full.vue");
}

#[test]
fn rule_unsafe_iframe_fires() {
    assert_rule_fires("vue/security/no-unsafe-iframe", "vulnerable_full.vue");
}

#[test]
fn rule_dynamic_bind_src_fires() {
    assert_rule_fires("vue/security/no-dynamic-bind-src", "vulnerable.vue");
}

#[test]
fn rule_postmessage_wildcard_fires() {
    assert_rule_fires("vue/security/no-postmessage-wildcard", "vulnerable_full.vue");
}

#[test]
fn rule_window_open_blank_noopener_fires() {
    assert_rule_fires("vue/security/no-window-open-blank-noopener", "vulnerable_full.vue");
}

#[test]
fn rule_fetch_without_timeout_fires() {
    assert_rule_fires("vue/security/no-fetch-without-timeout", "vulnerable_full.vue");
}

#[test]
fn rule_inline_style_fires() {
    assert_rule_fires("vue/best-practice/no-inline-style", "vulnerable.vue");
}

#[test]
fn rule_watch_with_callback_fires() {
    assert_rule_fires("vue/best-practice/no-watch-with-callback", "vulnerable.vue");
}

#[test]
fn rule_v_for_missing_key_fires() {
    assert_rule_fires("vue/best-practice/v-for-missing-key", "vulnerable_full.vue");
}

// ---------------------------------------------------------------------
// Command-line output: the listing, the minimal and pretty forms, and the
// exit code, as the command computes them.
// ---------------------------------------------------------------------

#[test]
fn binary_list_lists_every_rule() {
    let scanner = Scanner::new();
    let out = render_rule_list(&rule_infos(scanner.registry()));
    assert!(!out.is_empty(), "vuer --list produced no output");
    for rule in [
        "vue/security/no-v-html",
        "vue/security/no-postmessage-wildcard",
        "vue/best-practice/v-for-missing-key",
    ] {
        assert!(out.contains(rule), "--list should mention {rule}, got: {}", out);
    }
}

#[test]
fn binary_minimal_output_is_line_per_finding() {
    let violations = scan("vulnerable_full.vue", fixture("vulnerable_full.vue"));
    let combined = render_minimal(&violations);
    let finding_lines: Vec<&str> = combined
        .lines()
        .filter(|l| l.contains("vulnerable_full.vue"))
        .collect();
    assert!(finding_lines.len() >= 10, "expected many findings, got {finding_lines:#?}");
    for line in &finding_lines {
        assert!(line.contains("vulnerable_full.vue"), "minimal line should reference the file: {line}");
    }
}

#[test]
fn binary_deny_warnings_exits_nonzero() {
    let violations = scan("vulnerable.vue", fixture("vulnerable.vue"));
    let code = exit_code(true, actionable_count(&violations), false);
    assert!(code != 0, "--deny-warnings should produce non-zero exit");
    assert_eq!(code, 1);
}

#[test]
fn pretty_output_with_color_codes() {
    let src = fixture("vulnerable.vue");
    let violations = scan("vulnerable.vue", src);
    let sources = vec![("vulnerable.vue".to_string(), src.to_string())];
    let stdout = render_pretty(&violations, &sources);
    let stderr = render_summary(violations.len());
    assert!(!stdout.is_empty() || !stderr.is_empty(), "should produce some output");
    let raw = format!("{}{}", stdout, stderr);
    assert!(raw.contains('\x1b'), "with_color should emit ANSI escape codes, got: {raw}");
}

// ---------------------------------------------------------------------
// Suppression comments, configuration and filters, SARIF.
// ---------------------------------------------------------------------

fn scan_with_options(name: &str, options: &ScanOptions) -> Vec<Violation> {
    Scanner::new()
        .scan_source(name.to_string(), fixture(name).to_string(), &[], options)
        .violations
}

#[test]
fn no_ignores_flag_clears_suppression_marks() {
    let defaults = ScanOptions::default();
    let strict = ScanOptions { no_ignores: true };
    let with_ignores = scan_with_options("with_ignores.vue", &defaults);
    let strict_scan = scan_with_options("with_ignores.vue", &strict);
    assert_eq!(with_ignores.len(), strict_scan.len());
    assert!(with_ignores.iter().any(|v| v.ignored));
    assert!(strict_scan.iter().all(|v| !v.ignored));
}

#[test]
fn suppression_comments_silence_exactly_the_marked_lines() {
    let violations = scan("with_ignores.vue", fixture("with_ignores.vue"));
    let v_html: Vec<&Violation> =
        violations.iter().filter(|v| v.rule_id == "vue/security/no-v-html").collect();
    assert_eq!(v_html.len(), 3, "{violations:#?}");
    assert_eq!(v_html.iter().filter(|v| v.ignored).count(), 2);
    assert!(v_html.iter().any(|v| !v.ignored));
    let inner: Vec<&Violation> =
        violations.iter().filter(|v| v.rule_id == "vue/security/no-inner-html").collect();
    assert!(!inner.is_empty());
    assert!(inner.iter().all(|v| v.ignored));
}

#[test]
fn suppressed_findings_do_not_fail_deny_warnings() {
    let src = r#"<template>
  <!-- vuer-ignore[no-v-html] -->
  <div v-html="trusted"></div>
</template>
"#;
    let violations = scan("quiet.vue", src);
    assert_eq!(violations.len(), 1);
    assert!(violations[0].ignored);
    assert_eq!(actionable_count(&violations), 0);
    assert_eq!(exit_code(true, actionable_count(&violations), false), 0);
    assert_eq!(exit_code(false, 3, false), 0);
    assert_eq!(exit_code(false, 0, true), 1);
}

#[test]
fn ignored_violations_carry_sarif_suppression() {
    let violations = scan("with_ignores.vue", fixture("with_ignores.vue"));
    assert!(violations.iter().any(|v| v.ignored));
    let sources = vec![("with_ignores.vue".to_string(), fixture("with_ignores.vue").to_string())];
    let log = build_sarif(&violations, &sources, "0.1.0");
    let results = &log.runs[0].results;
    assert_eq!(results.len(), violations.len());
    for (r, v) in results.iter().zip(violations.iter()) {
        if v.ignored {
            assert_eq!(r.suppressions.len(), 1);
            assert_eq!(r.suppressions[0].kind, "external");
        } else {
            assert!(r.suppressions.is_empty());
        }
    }
}

#[test]
fn sarif_round_trip_includes_results_and_rules() {
    let violations = scan("vulnerable.vue", fixture("vulnerable.vue"));
    let sources = vec![("vulnerable.vue".to_string(), fixture("vulnerable.vue").to_string())];
    let log = build_sarif(&violations, &sources, "0.1.0");
    assert_eq!(log.version, "2.1.0");
    assert_eq!(log.runs.len(), 1);
    let run = &log.runs[0];
    assert_eq!(run.tool.driver.name, "vuer");
    assert!(run.tool.driver.rules.iter().any(|r| r.id == "vue/security/no-v-html"));
    assert!(!run.results.is_empty());
    for res in &run.results {
        assert_eq!(run.tool.driver.rules[res.rule_index].id, res.rule_id);
        let region = &res.locations[0].physical_location.region;
        assert!(region.start_line >= 1);
        assert_eq!(res.locations[0].physical_location.artifact_location.uri, "vulnerable.vue");
    }
}

#[test]
fn config_disables_named_rule() {
    let config = Config { disable: vec!["no-inline-style".to_string()], ..Config::default() };
    let violations = scan("vulnerable_full.vue", fixture("vulnerable_full.vue"));
    let arr = filter_violations(violations, &None, None, &config);
    for v in &arr {
        assert_ne!(v.rule_id, "vue/best-practice/no-inline-style", "no-inline-style should be disabled by the config");
    }
    assert!(!arr.is_empty(), "other rules should still fire");
}

#[test]
fn config_min_severity_filters_output() {
    let config = Config { min_severity: Some("critical".to_string()), ..Config::default() };
    let min = effective_min_severity(config.min_severity.as_deref().and_then(parse_severity), None);
    let violations = scan("vulnerable_full.vue", fixture("vulnerable_full.vue"));
    let arr = filter_violations(violations, &None, min, &config);
    for v in &arr {
        assert_eq!(v.severity.as_str(), "critical", "only critical should pass with min-severity=critical, got: {v:?}");
    }
}

#[test]
fn config_category_filters_output() {
    let config = Config { category: Some(vec!["security".to_string()]), ..Config::default() };
    let cats = effective_categories(config.category.clone(), None);
    let violations = scan("vulnerable_full.vue", fixture("vulnerable_full.vue"));
    let arr = filter_violations(violations, &cats, None, &config);
    assert!(!arr.is_empty());
    for v in &arr {
        assert_eq!(v.category.as_str(), "security");
    }
}

#[test]
fn config_cli_overrides_config() {
    let config = Config { min_severity: Some("medium".to_string()), ..Config::default() };
    let min = effective_min_severity(
        config.min_severity.as_deref().and_then(parse_severity),
        Some(Severity::Critical),
    );
    assert_eq!(min, Some(Severity::Critical));
    let violations = scan("vulnerable_full.vue", fixture("vulnerable_full.vue"));
    let arr = filter_violations(violations, &None, min, &config);
    for v in &arr {
        assert_eq!(v.severity.as_str(), "critical");
    }
    // The higher of the two wins whichever side states it.
    assert_eq!(effective_min_severity(Some(Severity::High), Some(Severity::Low)), Some(Severity::High));
    assert_eq!(effective_min_severity(None, Some(Severity::Low)), Some(Severity::Low));
    assert_eq!(effective_min_severity(None, None), None);
}

#[test]
fn cli_categories_replace_config_categories() {
    let from_config = Some(vec!["security".to_string()]);
    let from_cli = Some(vec!["performance".to_string()]);
    assert_eq!(effective_categories(from_config.clone(), from_cli.clone()), from_cli);
    assert_eq!(effective_categories(from_config.clone(), None), from_config);
    assert_eq!(effective_categories(None, None), None);
}

#[test]
fn filtering_keeps_order_and_is_idempotent() {
    let config = Config::default();
    let violations = scan("vulnerable_full.vue", fixture("vulnerable_full.vue"));
    let once = filter_violations(violations.clone(), &None, Some(Severity::High), &config);
    let twice = filter_violations(once.clone(), &None, Some(Severity::High), &config);
    assert_eq!(once.len(), twice.len());
    for (a, b) in once.iter().zip(twice.iter()) {
        assert_eq!(a.rule_id, b.rule_id);
        assert_eq!(a.span_offset, b.span_offset);
    }
    let mut j = 0;
    for v in &violations {
        if j < once.len() && v.rule_id == once[j].rule_id && v.span_offset == once[j].span_offset {
            j += 1;
        }
    }
    assert_eq!(j, once.len(), "filtered findings keep their order");
    let none = filter_violations(violations.clone(), &None, None, &config);
    assert_eq!(none.len(), violations.len());
}

// ---------------------------------------------------------------------
// The same checks over the library API that the command line uses.
// ---------------------------------------------------------------------

#[test]
fn integration_clean_fixture_produces_no_violations() {
    let violations = scan("clean.vue", fixture("clean.vue"));
    assert!(violations.is_empty(), "clean fixture should have no violations, got: {violations:#?}");
}

#[test]
fn integration_vulnerable_fixture_flags_all_known_categories() {
    let violations = scan("vulnerable.vue", fixture("vulnerable.vue"));
    let ids: Vec<&str> = violations.iter().map(|v| v.rule_id.as_str()).collect();
    for expected in ["vue/security/no-v-html", "vue/best-practice/no-inline-style"] {
        assert!(ids.contains(&expected), "missing {expected} in {ids:?}");
    }
}

#[test]
fn integration_vulnerable_full_fixture_flags_expected_set() {
    let violations = scan("vulnerable_full.vue", fixture("vulnerable_full.vue"));
    assert!(violations.len() >= 10, "expected many findings, got {violations:#?}");
}

#[test]
fn integration_violations_have_positive_span_offsets() {
    let violations = scan("vulnerable.vue", fixture("vulnerable.vue"));
    for v in &violations {
        assert!(v.span_offset() > 0 || v.span_len() > 0, "violation for {} has zero span", v.rule_id);
    }
}

#[test]
fn integration_violations_carry_rule_metadata() {
    let violations = scan("vulnerable_full.vue", fixture("vulnerable_full.vue"));
    for v in &violations {
        assert!(!v.rule_id.is_empty());
        assert!(!v.rule_name.is_empty());
    }
}

#[test]
fn inline_ignore_suppresses_violation() {
    let violations = scan("with_ignores.vue", fixture("with_ignores.vue"));
    assert!(violations.iter().any(|v| !v.ignored), "expected at least one un-ignored violation, got: {violations:#?}");
    assert!(violations.iter().any(|v| v.ignored), "expected at least one ignored violation, got: {violations:#?}");
}

#[test]
fn binary_min_severity_filters() {
    let all = scan("vulnerable_full.vue", fixture("vulnerable_full.vue"));
    let all_len = all.len();
    let filtered = filter_violations(all, &None, Some(Severity::Critical), &Config::default());
    assert!(
        filtered.len() < all_len,
        "min-severity=critical should reduce the result count: all={all_len} filtered={}",
        filtered.len()
    );
    for v in &filtered {
        assert_eq!(v.severity.as_str(), "critical");
    }
}

#[test]
fn binary_rules_flag_narrows_to_subset() {
    let enabled = vec!["no-v-html".to_string(), "no-inner-html".to_string()];
    let arr = Scanner::new()
        .scan_source(
            "vulnerable_full.vue".to_string(),
            fixture("vulnerable_full.vue").to_string(),
            &enabled,
            &ScanOptions::default(),
        )
        .violations;
    assert!(!arr.is_empty(), "expected some findings for the selected rules");
    for v in &arr {
        assert!(
            v.rule_id == "vue/security/no-v-html" || v.rule_id == "vue/security/no-inner-html",
            "--rules should narrow output: {v:?}"
        );
    }
}

#[test]
fn rules_flag_accepts_stable_ids() {
    let enabled = vec!["vue/security/no-v-html".to_string()];
    let arr = Scanner::new()
        .scan_source(
            "vulnerable_full.vue".to_string(),
            fixture("vulnerable_full.vue").to_string(),
            &enabled,
            &ScanOptions::default(),
        )
        .violations;
    assert!(!arr.is_empty());
    assert!(arr.iter().all(|v| v.rule_id == "vue/security/no-v-html"));
}

#[test]
fn binary_category_flag_narrows_to_subset() {
    let cats = Some(vec!["security".to_string()]);
    let arr = filter_violations(scan("vulnerable_full.vue", fixture("vulnerable_full.vue")), &cats, None, &Config::default());
    for v in &arr {
        assert_eq!(v.category.as_str(), "security", "--category should narrow to security: {v:?}");
    }
}

#[test]
fn binary_no_ignores_keeps_ignored_violations_visible() {
    let with_ignores = scan_with_options("with_ignores.vue", &ScanOptions::default());
    let strict = scan_with_options("with_ignores.vue", &ScanOptions { no_ignores: true });
    let with_ignored = with_ignores.iter().filter(|v| v.ignored).count();
    let strict_ignored = strict.iter().filter(|v| v.ignored).count();
    assert!(with_ignored > 0, "default run should mark some as ignored");
    assert_eq!(strict_ignored, 0, "with --no-ignores, nothing should be marked as ignored");
}

fn scan_all_fixtures() -> Vec<Violation> {
    let mut out = Vec::new();
    for name in ["clean.vue", "vulnerable.vue", "vulnerable_full.vue", "with_ignores.vue"] {
        out.extend(scan(name, fixture(name)));
    }
    out
}

#[test]
fn repeated_scans_produce_byte_identical_json() {
    let first = format!("{:?}", scan_all_fixtures());
    assert!(!first.is_empty());
    for i in 1..5 {
        let again = format!("{:?}", scan_all_fixtures());
        assert_eq!(first, again, "findings changed between run 1 and run {}", i + 1);
    }
}

#[test]
fn repeated_scans_produce_byte_identical_sarif() {
    let sources: Vec<(String, String)> = ["clean.vue", "vulnerable.vue", "vulnerable_full.vue", "with_ignores.vue"]
        .iter()
        .map(|n| (n.to_string(), fixture(n).to_string()))
        .collect();
    let render = || format!("{:?}", build_sarif(&scan_all_fixtures(), &sources, "0.1.0"));
    let first = render();
    for i in 1..3 {
        assert_eq!(first, render(), "SARIF changed between run 1 and run {}", i + 1);
    }
}

#[test]
fn repeated_deny_warnings_runs_agree() {
    let codes: Vec<i32> = (0..3).map(|_| exit_code(true, actionable_count(&scan_all_fixtures()), false)).collect();
    for code in &codes[1..] {
        assert_eq!(&codes[0], code, "exit codes differ across runs");
    }
    assert_eq!(codes[0], 1);
}

#[test]
fn postmessage_rule_is_a_high_security_rule_in_sarif() {
    let violations = scan("vulnerable_full.vue", fixture("vulnerable_full.vue"));
    let sources = vec![("vulnerable_full.vue".to_string(), fixture("vulnerable_full.vue").to_string())];
    let log = build_sarif(&violations, &sources, "0.1.0");
    let rule = log.runs[0]
        .tool
        .driver
        .rules
        .iter()
        .find(|r| r.id == "vue/security/no-postmessage-wildcard")
        .expect("postMessage rule in the table");
    assert_eq!(rule.default_configuration.level, "error");
    assert_eq!(rule.properties.category, "security");
    assert_eq!(rule.properties.security_severity, "high");
}
