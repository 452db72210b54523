//! Behaviour of the `no_document_write` rule on small files.

use vuer::context::ScanContext;
use vuer::parser::parse_sfc;
use vuer::rules::no_document_write::NoDocumentWrite;
use vuer::rules::{Finding, Rule};

fn scan(source: &str) -> Vec<Finding> {
  let mut ctx = ScanContext::new("test.vue".into(), source.to_string());
  parse_sfc(&mut ctx);
  NoDocumentWrite.check(&ctx)
}

#[test]
fn flags_document_write() {
  let src = r#"<script setup>
document.write('<h1>' + name + '</h1>')
</script>"#;
  assert_eq!(scan(src).len(), 1);
}

#[test]
fn flags_document_writeln() {
  let src = r#"<script setup>
document.writeln(line)
</script>"#;
  assert_eq!(scan(src).len(), 1);
}

#[test]
fn ignores_unrelated_document_calls() {
  let src = r#"<script setup>
document.title = 'Hello'
</script>"#;
  assert!(scan(src).is_empty());
}

#[test]
fn ignores_writeln_on_other_objects() {
  // `process.stdout.writeln` is not the same sink.
  let src = r#"<script setup>
process.stdout.writeln('x')
</script>"#;
  assert!(scan(src).is_empty());
}
