//! Behaviour of the `no_unsafe_localstorage` rule on small files.

use vuer::context::ScanContext;
use vuer::parser::parse_sfc;
use vuer::rules::no_unsafe_localstorage::NoUnsafeLocalStorage;
use vuer::rules::{Finding, Rule};

fn scan(source: &str) -> Vec<Finding> {
  let mut ctx = ScanContext::new("test.vue".into(), source.to_string());
  parse_sfc(&mut ctx);
  NoUnsafeLocalStorage.check(&ctx)
}

#[test]
fn flags_setItem_with_token() {
  let src = r#"<script setup>
localStorage.setItem('auth_token', jwt)
</script>"#;
  assert_eq!(scan(src).len(), 1);
}

#[test]
fn flags_variable_named_jwt() {
  let src = r#"<script setup>
localStorage.setItem('session', userJwt)
</script>"#;
  assert_eq!(scan(src).len(), 1);
}

#[test]
fn ignores_unrelated_key() {
  let src = r#"<script setup>
localStorage.setItem('theme', 'dark')
</script>"#;
  assert!(scan(src).is_empty());
}

#[test]
fn ignores_sessionStorage() {
  let src = r#"<script setup>
sessionStorage.setItem('auth_token', value)
</script>"#;
  assert!(scan(src).is_empty());
}

#[test]
fn ignores_getItem() {
  let src = r#"<script setup>
const v = localStorage.getItem('auth_token')
</script>"#;
  assert!(scan(src).is_empty());
}
