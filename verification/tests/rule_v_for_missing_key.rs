//! Behaviour of the `v_for_missing_key` rule on small files.

use vuer::context::ScanContext;
use vuer::parser::parse_sfc;
use vuer::rules::v_for_missing_key::VForMissingKey;
use vuer::rules::{Finding, Rule};

fn scan(template: &str) -> Vec<Finding> {
  let source = format!("<template>\n{template}\n</template>");
  let mut ctx = ScanContext::new("test.vue".into(), source);
  parse_sfc(&mut ctx);
  VForMissingKey.check(&ctx)
}

#[test]
fn flags_v_for_without_key() {
  let v = scan(r#"<li v-for="x in items">{{ x }}</li>"#);
  assert_eq!(v.len(), 1);
}

#[test]
fn ignores_v_for_with_key() {
  assert!(scan(r#"<li v-for="x in items" :key="x.id">{{ x }}</li>"#).is_empty());
}

#[test]
fn ignores_non_v_for() {
  assert!(scan(r#"<li>x</li>"#).is_empty());
}

#[test]
fn flags_nested_v_for_without_key() {
  let v = scan(
    r#"<ul><li v-for="x in xs"><span v-for="y in x.ys">{{ y }}</span></li></ul>"#,
  );
  assert_eq!(v.len(), 2);
}
