//! Behaviour of the `no_form_without_label` rule on small files.

use vuer::context::ScanContext;
use vuer::parser::parse_sfc;
use vuer::rules::no_form_without_label::NoFormWithoutLabel;
use vuer::rules::{Finding, Rule};

fn scan(template: &str) -> Vec<Finding> {
  let source = format!("<template>\n{template}\n</template>");
  let mut ctx = ScanContext::new("test.vue".into(), source);
  parse_sfc(&mut ctx);
  NoFormWithoutLabel.check(&ctx)
}

#[test]
fn flags_input_without_label() {
  let v = scan(r#"<input type="text" v-model="name">"#);
  assert_eq!(v.len(), 1);
}

#[test]
fn flags_select_and_textarea_without_label() {
  let v =
    scan(r#"<select v-model="s"><option>a</option></select><textarea v-model="t"></textarea>"#);
  assert_eq!(v.len(), 2);
}

#[test]
fn accepts_label_for_association() {
  assert!(scan(r#"<label for="name">Name</label><input id="name" type="text">"#).is_empty());
}

#[test]
fn accepts_wrapping_label() {
  assert!(scan(r#"<label>Name <input type="text"></label>"#).is_empty());
}

#[test]
fn accepts_nested_wrapping_label() {
  assert!(scan(r#"<form><div><label>Name <input type="text"></label></div></form>"#).is_empty());
}

#[test]
fn accepts_aria_label() {
  assert!(scan(r#"<input type="text" aria-label="Name">"#).is_empty());
  assert!(scan(r#"<input type="text" :aria-label="msg">"#).is_empty());
}

#[test]
fn accepts_aria_labelledby() {
  assert!(scan(r#"<input type="text" aria-labelledby="name-label">"#).is_empty());
}

#[test]
fn skips_hidden_input() {
  assert!(scan(r#"<input type="hidden" name="csrf" value="1">"#).is_empty());
}

#[test]
fn no_form_without_label_accepts_bind_spread() {
  assert!(scan(r#"<input v-bind="attrs">"#).is_empty());
}

#[test]
fn label_for_matches_bound_id() {
  // id must be static for the association to be provable.
  let v = scan(r#"<label for="f">F</label><input :id="fieldId">"#);
  assert_eq!(v.len(), 1);
}

#[test]
fn no_form_without_label_no_template_no_violation() {
  let mut ctx = ScanContext::new("test.vue".into(), "".into());
  parse_sfc(&mut ctx);
  assert!(NoFormWithoutLabel.check(&ctx).is_empty());
}
