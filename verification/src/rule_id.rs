//! Stable identifier for a rule.
//!
//! The id is what users type on the CLI (`--rules vue/security/no-v-html`),
//! what shows up in SARIF `ruleId`, and what silences a rule in suppression
//! comments. Renaming a rule id is a breaking change.

use vstd::prelude::*;

verus! {

/// A rule's stable id, e.g. `vue/security/no-v-html`.
#[derive(Debug, Clone)]
pub struct RuleId(pub String);

impl View for RuleId {
    type V = Seq<char>;

    open spec fn view(&self) -> Seq<char> {
        self.0@
    }
}

impl RuleId {
    /// Wrap a string as a rule id.
    pub fn new(s: String) -> (r: RuleId)
        ensures
            r@ == s@,
    {
        RuleId(s)
    }

    /// The id as text.
    pub fn as_str(&self) -> (r: &str)
        ensures
            r@ == self@,
    {
        self.0.as_str()
    }
}

} // verus!
