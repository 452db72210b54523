//! Behaviour of the `no_button_without_type` rule on small files.

use vuer::context::ScanContext;
use vuer::parser::parse_sfc;
use vuer::rules::no_button_without_type::NoButtonWithoutType;
use vuer::rules::{Finding, Rule};

fn scan(template: &str) -> Vec<Finding> {
  let source = format!("<template>\n{template}\n</template>");
  let mut ctx = ScanContext::new("test.vue".into(), source);
  parse_sfc(&mut ctx);
  NoButtonWithoutType.check(&ctx)
}

#[test]
fn flags_button_without_type() {
  let v = scan(r#"<button @click="count++">+</button>"#);
  assert_eq!(v.len(), 1);
}

#[test]
fn flags_button_in_form() {
  let v = scan(r#"<form @submit.prevent="save()"><button>Save</button></form>"#);
  assert_eq!(v.len(), 1);
}

#[test]
fn accepts_button_with_type_button() {
  assert!(scan(r#"<button type="button" @click="open()">Open</button>"#).is_empty());
}

#[test]
fn accepts_button_with_type_submit() {
  assert!(scan(r#"<button type="submit">Save</button>"#).is_empty());
}

#[test]
fn accepts_button_with_type_reset() {
  assert!(scan(r#"<button type="reset">Reset</button>"#).is_empty());
}

#[test]
fn accepts_bound_type() {
  assert!(scan(r#"<button :type="btnType">x</button>"#).is_empty());
  assert!(scan(r#"<button v-bind:type="'button'">x</button>"#).is_empty());
}

#[test]
fn no_button_without_type_accepts_bind_spread() {
  assert!(scan(r#"<button v-bind="attrs">x</button>"#).is_empty());
}

#[test]
fn ignores_non_button_elements() {
  assert!(scan(r#"<div type="text">x</div>"#).is_empty());
  assert!(scan(r#"<input type="submit">"#).is_empty());
}

#[test]
fn no_button_without_type_no_template_no_violation() {
  let mut ctx = ScanContext::new("test.vue".into(), "".into());
  parse_sfc(&mut ctx);
  assert!(NoButtonWithoutType.check(&ctx).is_empty());
}
