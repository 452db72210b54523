//! Behaviour of the `no_v_if_with_v_for` rule on small files.

use vuer::context::ScanContext;
use vuer::parser::parse_sfc;
use vuer::rules::no_v_if_with_v_for::NoVIfWithVFor;
use vuer::rules::{Finding, Rule};

fn scan(template: &str) -> Vec<Finding> {
  let source = format!("<template>\n{template}\n</template>");
  let mut ctx = ScanContext::new("test.vue".into(), source);
  parse_sfc(&mut ctx);
  NoVIfWithVFor.check(&ctx)
}

#[test]
fn flags_v_if_with_v_for_on_same_element() {
  let v = scan(r#"<li v-for="item in items" v-if="item.visible">{{ item }}</li>"#);
  assert_eq!(v.len(), 1);
}

#[test]
fn flags_v_for_with_v_else_if() {
  let v = scan(r#"<li v-for="item in items" v-else-if="item.kind === 'x'">{{ item }}</li>"#);
  assert_eq!(v.len(), 1);
}

#[test]
fn flags_v_for_with_v_else() {
  let v = scan(r#"<li v-for="item in items" v-else>{{ item }}</li>"#);
  assert_eq!(v.len(), 1);
}

#[test]
fn ignores_v_if_without_v_for() {
  assert!(scan(r#"<li v-if="show">x</li>"#).is_empty());
}

#[test]
fn ignores_v_for_without_v_if() {
  assert!(scan(r#"<li v-for="item in items" :key="item.id">{{ item }}</li>"#).is_empty());
}

#[test]
fn ignores_separate_elements() {
  // The recommended pattern: filter in a computed, keep v-if on a wrapper.
  let v = scan(r#"<ul v-if="filtered.length"><li v-for="item in filtered">{{ item }}</li></ul>"#);
  assert!(v.is_empty());
}

#[test]
fn flags_nested_pairs_independently() {
  let v = scan(
    r#"<ul><li v-for="a in as" v-if="a.on"><span v-for="b in a.bs" v-if="b.on">{{ b }}</span></li></ul>"#,
  );
  assert_eq!(v.len(), 2);
}
