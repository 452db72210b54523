//! Behaviour of the `no_window_open_blank_noopener` rule on small files.

use vuer::context::ScanContext;
use vuer::parser::parse_sfc;
use vuer::rules::no_window_open_blank_noopener::NoWindowOpenBlankNoopener;
use vuer::rules::{Finding, Rule};

/// Scan a `<script setup>` block for the rule.
fn scan(script: &str) -> Vec<Finding> {
  let source = format!("<script setup>\n{script}\n</script>");
  let mut ctx = ScanContext::new("test.vue".into(), source);
  parse_sfc(&mut ctx);
  NoWindowOpenBlankNoopener.check(&ctx)
}

/// Scan a `<script setup lang="ts">` block for the rule.
fn scan_ts(script: &str) -> Vec<Finding> {
  let source = format!("<script setup lang=\"ts\">\n{script}\n</script>");
  let mut ctx = ScanContext::new("test.vue".into(), source);
  parse_sfc(&mut ctx);
  NoWindowOpenBlankNoopener.check(&ctx)
}

#[test]
fn literal_url_is_clean_and_not_reported() {
  // The false-positive cut: a hardcoded URL opens a page the developer
  // chose, so there is no reverse-tabnabbing surface.
  assert!(scan("window.open('https://example.com', '_blank')").is_empty());
}

#[test]
fn literal_url_with_other_features_is_not_reported() {
  assert!(
    scan("window.open('https://example.com', '_blank', 'width=400,height=300')").is_empty()
  );
}

#[test]
fn flags_tainted_url() {
  let v = scan("const url = localStorage.getItem('redirect')\nwindow.open(url, '_blank')");
  assert_eq!(v.len(), 1);
  let flow = v[0].flow.as_ref().expect("tainted finding carries flow");
  assert_eq!(flow[0].sink, "`window.open` URL");
  assert!(flow[0].source.contains("localStorage"));
}

#[test]
fn flags_tainted_url_via_route_query() {
  let v = scan_ts("const route = useRoute()\nwindow.open(route.query.url as string, '_blank')");
  assert_eq!(v.len(), 1);
}

#[test]
fn flags_tainted_url_via_local_function() {
  // Inter-procedural: the taint flows through `build` into the sink.
  let v = scan_ts(
    "function build(u: string) { return u }\n\
     const url = localStorage.getItem('u')\n\
     window.open(build(url), '_blank')",
  );
  assert_eq!(v.len(), 1);
  let flow = v[0].flow.as_ref().expect("flow");
  assert!(flow[0].via.iter().any(|id| id == "build"));
}

#[test]
fn sanitized_url_is_clean() {
  assert!(
    scan("const url = DOMPurify.sanitize(localStorage.getItem('u'))\nwindow.open(url, '_blank')")
      .is_empty()
  );
}

#[test]
fn allows_tainted_blank_with_noopener() {
  // The features check runs first: `noopener` in the feature string is
  // safe regardless of the URL's taint.
  let v = scan("const url = localStorage.getItem('u')\nwindow.open(url, '_blank', 'noopener')");
  assert!(v.is_empty());
}

#[test]
fn allows_tainted_blank_with_noreferrer() {
  let v = scan("const url = localStorage.getItem('u')\nwindow.open(url, '_blank', 'noreferrer')");
  assert!(v.is_empty());
}

#[test]
fn allows_non_blank_target() {
  let v = scan("const url = localStorage.getItem('u')\nwindow.open(url, '_self')");
  assert!(v.is_empty());
}

#[test]
fn allows_named_target() {
  let v = scan("const url = localStorage.getItem('u')\nwindow.open(url, 'docsTab')");
  assert!(v.is_empty());
}

#[test]
fn ignores_open_on_other_receivers() {
  let v = scan("const url = localStorage.getItem('u')\npopup.open(url, '_blank')");
  assert!(v.is_empty());
}

#[test]
fn no_window_open_blank_noopener_no_script_no_violation() {
  assert!(scan("").is_empty());
}
