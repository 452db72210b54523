//! Behaviour of the `no_open_redirect` rule on small files.

use vuer::context::ScanContext;
use vuer::parser::parse_sfc;
use vuer::rules::no_open_redirect::NoOpenRedirect;
use vuer::rules::{Finding, Rule};

fn scan(source: &str) -> Vec<Finding> {
  let mut ctx = ScanContext::new("test.vue".into(), source.to_string());
  parse_sfc(&mut ctx);
  NoOpenRedirect.check(&ctx)
}

#[test]
fn flags_location_href_with_tainted_value() {
  let src = r#"<script setup>
const next = localStorage.getItem('next')
location.href = next
</script>"#;
  let v = scan(src);
  assert_eq!(v.len(), 1);
  let flow = v[0].flow.as_ref().expect("flow");
  assert_eq!(flow[0].sink, "navigation assignment");
}

#[test]
fn flags_window_location_with_variable() {
  let src = r#"<script setup>
const redirect = localStorage.getItem('r')
window.location = redirect
</script>"#;
  assert_eq!(scan(src).len(), 1);
}

#[test]
fn flags_location_assign_call() {
  let src = r#"<script setup>
const redirect = localStorage.getItem('r')
location.assign(redirect)
</script>"#;
  assert_eq!(scan(src).len(), 1);
}

#[test]
fn flags_location_replace_call() {
  let src = r#"<script setup>
const redirect = localStorage.getItem('r')
location.replace(redirect)
</script>"#;
  assert_eq!(scan(src).len(), 1);
}

#[test]
fn allows_string_literal() {
  let src = r#"<script setup>
location.href = '/dashboard'
</script>"#;
  assert!(scan(src).is_empty());
}

#[test]
fn stays_silent_for_clean_values() {
  // The false-positive cut: a constant redirect (router config style)
  // is not an open redirect.
  let src = r#"<script setup>
const dest = '/dashboard'
location.href = dest
</script>"#;
  assert!(scan(src).is_empty());
}
