//! Configuration matching and the SARIF log of an empty run.

use vuer::config::Config;
use vuer::report::sarif::build_sarif;

#[test]
fn is_disabled_matches_short_and_full_id() {
    let cfg = Config { disable: vec!["no-v-html".to_string()], ..Config::default() };
    assert!(cfg.is_disabled("no-v-html", "vue/security/no-v-html"));
    assert!(!cfg.is_disabled("no-eval", "vue/security/no-eval"));
}

#[test]
fn is_disabled_accepts_the_stable_id() {
    let cfg = Config { disable: vec!["vue/security/no-eval".to_string()], ..Config::default() };
    assert!(cfg.is_disabled("no-eval", "vue/security/no-eval"));
    assert!(!cfg.is_disabled("no-v-html", "vue/security/no-v-html"));
    assert!(!Config::default().is_disabled("no-eval", "vue/security/no-eval"));
}

#[test]
fn builds_empty_log() {
    let log = build_sarif(&[], &[], "0.1.0");
    assert_eq!(log.version, "2.1.0");
    assert_eq!(log.runs.len(), 1);
    assert_eq!(log.runs[0].tool.driver.name, "vuer");
    assert!(log.runs[0].results.is_empty());
    assert_eq!(log.runs[0].tool.driver.version, "0.1.0");
}

#[test]
fn empty_log_lists_the_known_rules_in_order() {
  let log = build_sarif(&[], &[], "0.1.0");
  let ids: Vec<&str> = log.runs[0].tool.driver.rules.iter().map(|r| r.id.as_str()).collect();
  assert_eq!(
    ids,
    vec![
      "vue/security/no-v-html",
      "vue/security/no-inner-html",
      "vue/security/no-document-write",
      "vue/security/no-eval",
      "vue/security/no-dangerous-url",
      "vue/security/no-open-redirect",
      "vue/security/no-unsafe-localstorage",
      "vue/security/no-unsafe-iframe",
      "vue/security/no-dynamic-bind-src",
      "vue/best-practice/no-inline-style",
      "vue/best-practice/no-watch-with-callback",
      "vue/best-practice/v-for-missing-key",
    ]
  );
}
