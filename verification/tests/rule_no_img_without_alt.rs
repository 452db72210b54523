//! Behaviour of the `no_img_without_alt` rule on small files.

use vuer::context::ScanContext;
use vuer::parser::parse_sfc;
use vuer::rules::no_img_without_alt::NoImgWithoutAlt;
use vuer::rules::{Finding, Rule};

fn scan(template: &str) -> Vec<Finding> {
  let source = format!("<template>\n{template}\n</template>");
  let mut ctx = ScanContext::new("test.vue".into(), source);
  parse_sfc(&mut ctx);
  NoImgWithoutAlt.check(&ctx)
}

#[test]
fn flags_img_without_alt() {
  let v = scan(r#"<img src="logo.png">"#);
  assert_eq!(v.len(), 1);
}

#[test]
fn flags_img_without_alt_nested() {
  let v = scan(r#"<div><p><img src="photo.jpg"></p></div>"#);
  assert_eq!(v.len(), 1);
}

#[test]
fn accepts_img_with_static_alt() {
  assert!(scan(r#"<img src="logo.png" alt="Vuer logo">"#).is_empty());
}

#[test]
fn accepts_empty_alt_for_decorative_images() {
  assert!(scan(r#"<img src="divider.png" alt="">"#).is_empty());
}

#[test]
fn accepts_boolean_alt_attribute() {
  assert!(scan(r#"<img src="x.png" alt>"#).is_empty());
}

#[test]
fn accepts_bound_alt() {
  assert!(scan(r#"<img :src="url" :alt="item.label">"#).is_empty());
  assert!(scan(r#"<img :src="url" v-bind:alt="item.label">"#).is_empty());
}

#[test]
fn accepts_bind_spread_and_dynamic_argument() {
  // Cannot prove `alt` is absent: keep the false-positive rate low.
  assert!(scan(r#"<img v-bind="attrs">"#).is_empty());
  assert!(scan(r#"<img :[key]="value">"#).is_empty());
}

#[test]
fn ignores_non_img_elements() {
  assert!(scan(r#"<div><span>text</span></div>"#).is_empty());
}

#[test]
fn no_img_without_alt_no_template_no_violation() {
  let mut ctx = ScanContext::new("test.vue".into(), "".into());
  parse_sfc(&mut ctx);
  assert!(NoImgWithoutAlt.check(&ctx).is_empty());
}
