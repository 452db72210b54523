//! Behaviour of the `no_eval` rule on small files.

use vuer::context::ScanContext;
use vuer::parser::parse_sfc;
use vuer::rules::no_eval::NoEval;
use vuer::rules::{Finding, Rule};

fn scan(source: &str) -> Vec<Finding> {
  let mut ctx = ScanContext::new("test.vue".into(), source.to_string());
  parse_sfc(&mut ctx);
  NoEval.check(&ctx)
}

#[test]
fn flags_eval() {
  let src = r#"<script setup>
const x = eval(input)
</script>"#;
  assert_eq!(scan(src).len(), 1);
}

#[test]
fn flags_new_function() {
  let src = r#"<script setup>
const f = new Function('a', 'return a + 1')
</script>"#;
  assert_eq!(scan(src).len(), 1);
}

#[test]
fn flags_set_timeout_with_string() {
  let src = r#"<script setup>
setTimeout('alert(1)', 100)
</script>"#;
  assert_eq!(scan(src).len(), 1);
}

#[test]
fn ignores_set_timeout_with_function() {
  let src = r#"<script setup>
setTimeout(() => console.log('hi'), 100)
</script>"#;
  assert!(scan(src).is_empty());
}

#[test]
fn no_eval_no_script_no_violation() {
  assert!(scan("").is_empty());
}
