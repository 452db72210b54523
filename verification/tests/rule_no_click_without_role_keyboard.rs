//! Behaviour of the `no_click_without_role_keyboard` rule on small files.

use vuer::context::ScanContext;
use vuer::parser::parse_sfc;
use vuer::rules::no_click_without_role_keyboard::NoClickWithoutRoleKeyboard;
use vuer::rules::{Finding, Rule};

fn scan(template: &str) -> Vec<Finding> {
  let source = format!("<template>\n{template}\n</template>");
  let mut ctx = ScanContext::new("test.vue".into(), source);
  parse_sfc(&mut ctx);
  NoClickWithoutRoleKeyboard.check(&ctx)
}

#[test]
fn flags_click_on_div() {
  let v = scan(r#"<div @click="open()">Open</div>"#);
  assert_eq!(v.len(), 1);
}

#[test]
fn flags_click_on_span_and_section() {
  let v = scan(r#"<span @click="go()">x</span><section @click="go()">y</section>"#);
  assert_eq!(v.len(), 2);
}

#[test]
fn flags_v_on_click_on_li() {
  let v = scan(r#"<li v-on:click="select()">item</li>"#);
  assert_eq!(v.len(), 1);
}

#[test]
fn ignores_click_on_button() {
  assert!(scan(r#"<button @click="count++">+</button>"#).is_empty());
}

#[test]
fn ignores_click_on_link() {
  assert!(scan(r#"<a href="/x" @click="track()">link</a>"#).is_empty());
}

#[test]
fn ignores_click_on_input() {
  assert!(scan(r#"<input type="text" @click="focus()">"#).is_empty());
}

#[test]
fn ignores_with_role() {
  assert!(scan(r#"<div role="button" @click="open()">Open</div>"#).is_empty());
  assert!(scan(r#"<div :role="'button'" @click="open()">Open</div>"#).is_empty());
}

#[test]
fn ignores_with_keyboard_handler() {
  assert!(scan(r#"<div @click="open()" @keydown.enter="open()">Open</div>"#).is_empty());
  assert!(scan(r#"<div @click="open()" @keyup="open()">Open</div>"#).is_empty());
}

#[test]
fn ignores_click_on_label() {
  assert!(scan(r#"<label @click="toggle()">x</label>"#).is_empty());
}

#[test]
fn ignores_no_click() {
  assert!(scan(r#"<div>static</div>"#).is_empty());
}

#[test]
fn ignores_dynamic_event_argument() {
  // `@[ev]` could be any event; cannot prove it is a click.
  assert!(scan(r#"<div @[ev]="doIt()">x</div>"#).is_empty());
}

#[test]
fn no_click_without_role_keyboard_no_template_no_violation() {
  let mut ctx = ScanContext::new("test.vue".into(), "".into());
  parse_sfc(&mut ctx);
  assert!(NoClickWithoutRoleKeyboard.check(&ctx).is_empty());
}
