//! Behaviour of the `no_fetch_without_timeout` rule on small files.

use vuer::context::ScanContext;
use vuer::parser::parse_sfc;
use vuer::rules::no_fetch_without_timeout::NoFetchWithoutTimeout;
use vuer::rules::{Finding, Rule};

fn scan(source: &str) -> Vec<Finding> {
  let mut ctx = ScanContext::new("test.vue".into(), source.to_string());
  parse_sfc(&mut ctx);
  NoFetchWithoutTimeout.check(&ctx)
}

#[test]
fn flags_bare_fetch() {
  let src = r#"<script setup>
fetch('/api/users')
</script>"#;
  assert_eq!(scan(src).len(), 1);
}

#[test]
fn flags_fetch_with_options_no_signal() {
  let src = r#"<script setup>
fetch('/api/users', { method: 'POST', headers: { 'Content-Type': 'application/json' } })
</script>"#;
  assert_eq!(scan(src).len(), 1);
}

#[test]
fn flags_window_fetch() {
  let src = r#"<script setup>
window.fetch('/api/users')
</script>"#;
  assert_eq!(scan(src).len(), 1);
}

#[test]
fn allows_fetch_with_signal() {
  let src = r#"<script setup>
const ctrl = new AbortController()
fetch('/api/users', { signal: ctrl.signal })
</script>"#;
  assert!(scan(src).is_empty());
}

#[test]
fn allows_fetch_with_signal_and_other_options() {
  let src = r#"<script setup>
fetch('/api/users', { method: 'POST', signal: ctrl.signal, headers: {} })
</script>"#;
  assert!(scan(src).is_empty());
}

#[test]
fn allows_fetch_with_variable_options() {
  // We can't tell if the variable already has a signal; conservative skip.
  let src = r#"<script setup>
const opts = { signal: ctrl.signal }
fetch('/api/users', opts)
</script>"#;
  assert!(scan(src).is_empty());
}

#[test]
fn allows_fetch_with_request_instance() {
  // Passing a `Request` constructed elsewhere is a valid pattern; the
  // signal may be attached to the Request.
  let src = r#"<script setup>
const req = new Request('/api/users')
fetch(req)
</script>"#;
  assert!(scan(src).is_empty());
}

#[test]
fn ignores_unrelated_call_named_fetch() {
  // Bare identifier `fetch` may shadow the global; the rule still applies,
  // but a method on a different object named `fetch` should not.
  let src = r#"<script setup>
api.fetch('/users')
</script>"#;
  assert!(scan(src).is_empty());
}

#[test]
fn no_fetch_without_timeout_no_script_no_violation() {
  assert!(scan("").is_empty());
}
