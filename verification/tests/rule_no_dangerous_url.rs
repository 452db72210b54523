//! Behaviour of the `no_dangerous_url` rule on small files.

use vuer::context::ScanContext;
use vuer::parser::parse_sfc;
use vuer::rules::no_dangerous_url::NoDangerousUrl;
use vuer::rules::{Finding, Rule};

fn scan(template: &str) -> Vec<Finding> {
  let source = format!("<template>\n{template}\n</template>");
  let mut ctx = ScanContext::new("test.vue".into(), source);
  parse_sfc(&mut ctx);
  NoDangerousUrl.check(&ctx)
}

#[test]
fn flags_javascript_href() {
  assert_eq!(scan(r#"<a href="javascript:alert(1)">x</a>"#).len(), 1);
}

#[test]
fn flags_data_url() {
  assert_eq!(
    scan(r#"<a href="data:text/html,<script>alert(1)</script>">x</a>"#).len(),
    1
  );
}

#[test]
fn flags_dynamic_javascript_href() {
  assert_eq!(
    scan(r#"<a :href="jsUrl">x</a>"#).len(),
    0,
    "dynamic values without literals are not flagged"
  );
}

#[test]
fn ignores_https() {
  assert!(scan(r#"<a href="https://example.com">x</a>"#).is_empty());
}

#[test]
fn ignores_relative_path() {
  assert!(scan(r#"<a href="/about">x</a>"#).is_empty());
}
