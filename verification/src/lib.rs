//! Vuer: a security-focused static analyser for Vue single-file components.
//!
//! The library splits a `.vue` source into its blocks, parses the template
//! with a native recursive-descent parser, runs the rule set over the
//! result, and turns findings into report records (JSON, SARIF).

pub mod severity;
pub mod rule_id;
pub mod text;
pub mod parser;
pub mod taint;
pub mod context;
pub mod rules;
pub mod visitor;
pub mod suppression;
pub mod scanner;
pub mod report;
pub mod config;
pub mod cli;
