//! Behaviour of the `no_inline_styles` rule on small files.

use vuer::context::ScanContext;
use vuer::parser::parse_sfc;
use vuer::rules::no_inline_styles::NoInlineStyle;
use vuer::rules::{Finding, Rule};

fn scan(template: &str) -> Vec<Finding> {
  let source = format!("<template>\n{template}\n</template>");
  let mut ctx = ScanContext::new("test.vue".into(), source);
  parse_sfc(&mut ctx);
  NoInlineStyle.check(&ctx)
}

#[test]
fn clean_no_styles() {
  assert!(scan(r#"<div class="box">hi</div>"#).is_empty());
}

#[test]
fn flags_static_style() {
  assert_eq!(scan(r#"<div style="color: red">x</div>"#).len(), 1);
}

#[test]
fn flags_dynamic_style_binding() {
  assert_eq!(scan(r#"<div :style="styles">x</div>"#).len(), 1);
}

#[test]
fn flags_v_bind_style() {
  assert_eq!(scan(r#"<div v-bind:style="styles">x</div>"#).len(), 1);
}

#[test]
fn ignores_unrelated_attribute() {
  assert!(scan(r#"<div :class="cls">x</div>"#).is_empty());
}
