//! Everything the rules see about one `.vue` file.

use vstd::prelude::*;

use crate::parser::estree::Json;
use crate::parser::template::{TemplateError, TemplateRoot};
use crate::taint::TaintResult;

verus! {

/// The language of the `<script>` block.
#[derive(Debug, Clone, Copy, PartialEq, Eq, Structural)]
pub enum ScriptLang {
    JavaScript,
    TypeScript,
    Unknown,
}

/// One file under analysis: its source and the blocks extracted from it.
#[derive(Debug)]
pub struct ScanContext {
    pub file_path: String,
    pub source: String,
    /// The trimmed content of the first `<template>` block.
    pub template: Option<String>,
    /// The trimmed content of the first `<script>` block.
    pub script: Option<String>,
    pub lang: ScriptLang,
    /// The script block is `<script setup>`.
    pub script_setup: bool,
    /// The script block's syntax tree (ESTree form, offsets relative to
    /// the script content).
    pub script_ast: Option<Json>,
    /// Byte offset of the template content in `source`.
    pub template_offset: usize,
    /// Byte offset of the script content in `source`.
    pub script_offset: usize,
    /// The parsed template, when a `<template>` block exists.
    pub template_ast: Option<TemplateRoot>,
    /// Non-fatal errors met while parsing the template.
    pub template_errors: Vec<TemplateError>,
    /// The trimmed content of every `<style>` block, in source order.
    pub style_blocks: Vec<String>,
    /// Taint facts for the expressions of the file.
    pub taint: TaintResult,
}

impl ScanContext {
    /// A context holding only the file's path and source; nothing is
    /// extracted yet.
    /// A context for `path` and `source` with nothing extracted yet.
    pub open spec fn is_fresh(self, path: Seq<char>, source: Seq<char>) -> bool {
        &&& self.file_path@ == path
        &&& self.source@ == source
        &&& self.template is None
        &&& self.script is None
        &&& self.lang == ScriptLang::Unknown
        &&& !self.script_setup
        &&& self.script_ast is None
        &&& self.template_offset == 0
        &&& self.script_offset == 0
        &&& self.template_ast is None
        &&& self.template_errors@.len() == 0
        &&& self.style_blocks@.len() == 0
        &&& self.taint.records().len() == 0
    }

    pub fn new(file_path: String, source: String) -> (r: ScanContext)
        ensures
            r.file_path@ == file_path@,
            r.source@ == source@,
            r.template is None,
            r.script is None,
            r.lang == ScriptLang::Unknown,
            !r.script_setup,
            r.script_ast is None,
            r.template_offset == 0,
            r.script_offset == 0,
            r.template_ast is None,
            r.template_errors@.len() == 0,
            r.style_blocks@.len() == 0,
            r.taint.records().len() == 0,
            r.is_fresh(file_path@, source@),
    {
        ScanContext {
            file_path,
            source,
            template: None,
            script: None,
            lang: ScriptLang::Unknown,
            script_setup: false,
            script_ast: None,
            template_offset: 0,
            script_offset: 0,
            template_ast: None,
            template_errors: Vec::new(),
            style_blocks: Vec::new(),
            taint: TaintResult::new(),
        }
    }
}

} // verus!
