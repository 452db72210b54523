//! Behaviour of the `no_unsafe_iframe` rule on small files.

use vuer::context::ScanContext;
use vuer::parser::parse_sfc;
use vuer::rules::no_unsafe_iframe::NoUnsafeIframe;
use vuer::rules::{Finding, Rule};

fn scan(template: &str) -> Vec<Finding> {
  let source = format!("<template>\n{template}\n</template>");
  let mut ctx = ScanContext::new("test.vue".into(), source);
  parse_sfc(&mut ctx);
  NoUnsafeIframe.check(&ctx)
}

#[test]
fn flags_iframe_without_sandbox() {
  assert_eq!(scan(r#"<iframe src="https://example.com"></iframe>"#).len(), 1);
}

#[test]
fn ignores_iframe_with_empty_sandbox() {
  assert!(scan(r#"<iframe src="x" sandbox=""></iframe>"#).is_empty());
}

#[test]
fn ignores_iframe_with_explicit_sandbox_flags() {
  assert!(scan(r#"<iframe src="x" sandbox="allow-scripts"></iframe>"#).is_empty());
}

#[test]
fn ignores_other_elements() {
  assert!(scan(r#"<div>x</div>"#).is_empty());
}
