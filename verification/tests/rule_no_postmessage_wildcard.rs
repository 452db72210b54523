//! Behaviour of the `no_postmessage_wildcard` rule on small files.

use vuer::context::ScanContext;
use vuer::parser::parse_sfc;
use vuer::rules::no_postmessage_wildcard::NoPostmessageWildcard;
use vuer::rules::{Finding, Rule};

fn scan(source: &str) -> Vec<Finding> {
  let mut ctx = ScanContext::new("test.vue".into(), source.to_string());
  parse_sfc(&mut ctx);
  NoPostmessageWildcard.check(&ctx)
}

#[test]
fn flags_single_quoted_wildcard() {
  let src = r#"<script setup>
iframe.contentWindow.postMessage({type: 'ping'}, '*')
</script>"#;
  assert_eq!(scan(src).len(), 1);
}

#[test]
fn flags_double_quoted_wildcard() {
  let src = r#"<script setup>
window.postMessage(msg, "*")
</script>"#;
  assert_eq!(scan(src).len(), 1);
}

#[test]
fn flags_window_postmessage() {
  let src = r#"<script setup>
window.postMessage('hi', '*')
</script>"#;
  assert_eq!(scan(src).len(), 1);
}

#[test]
fn flags_options_object_form() {
  let src = r#"<script setup>
popup.postMessage(payload, { targetOrigin: '*' })
</script>"#;
  assert_eq!(scan(src).len(), 1);
}

#[test]
fn allows_specific_origin() {
  let src = r#"<script setup>
iframe.contentWindow.postMessage({type: 'ping'}, 'https://app.example.com')
</script>"#;
  assert!(scan(src).is_empty());
}

#[test]
fn allows_same_origin_slash() {
  let src = r#"<script setup>
window.postMessage(msg, '/')
</script>"#;
  assert!(scan(src).is_empty());
}

#[test]
fn allows_options_object_with_specific_origin() {
  let src = r#"<script setup>
popup.postMessage(payload, { targetOrigin: 'https://app.example.com' })
</script>"#;
  assert!(scan(src).is_empty());
}

#[test]
fn allows_options_object_without_target_origin() {
  // The options form without targetOrigin falls back to '/', which is
  // same-origin and safe.
  let src = r#"<script setup>
popup.postMessage(payload, { transfer: [channel] })
</script>"#;
  assert!(scan(src).is_empty());
}

#[test]
fn ignores_non_postmessage_calls() {
  let src = r#"<script setup>
worker.postMessage('*')
notAPostMessage('*')
</script>"#;
  assert!(scan(src).is_empty());
}

#[test]
fn no_postmessage_wildcard_no_script_no_violation() {
  assert!(scan("").is_empty());
}
