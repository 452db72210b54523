//! Behaviour of the `no_inner_html` rule on small files.

use vuer::context::ScanContext;
use vuer::parser::parse_sfc;
use vuer::rules::no_inner_html::NoInnerHtml;
use vuer::rules::{Finding, Rule};

fn scan(source: &str) -> Vec<Finding> {
  let mut ctx = ScanContext::new("test.vue".into(), source.to_string());
  parse_sfc(&mut ctx);
  NoInnerHtml.check(&ctx)
}

#[test]
fn flags_inner_html_assignment() {
  let src = r#"<script setup>
const el = document.getElementById('x')
el.innerHTML = userInput
</script>"#;
  assert_eq!(scan(src).len(), 1);
}

#[test]
fn flags_chained_inner_html() {
  let src = r#"<script setup>
root.shadowRoot.innerHTML = x
</script>"#;
  assert_eq!(scan(src).len(), 1);
}

#[test]
fn ignores_text_content() {
  let src = r#"<script setup>
el.textContent = userInput
</script>"#;
  assert!(scan(src).is_empty());
}

#[test]
fn ignores_assignment_of_inner_html_to_variable() {
  // The dangerous direction is writing TO innerHTML. Reading from it is fine.
  let src = r#"<script setup>
const html = el.innerHTML
</script>"#;
  assert!(scan(src).is_empty());
}

#[test]
fn no_inner_html_no_script_no_violation() {
  assert!(scan("").is_empty());
}
