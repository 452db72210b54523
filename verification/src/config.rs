//! Project-level configuration (`.vuerc.yml` / `vuer.yml`).
//!
//! Every field is optional. The command-line flags are layered on top:
//!
//! * `disable` (config) -> rules whose findings are dropped
//! * `--rules` (CLI)    -> enable-list, narrows what runs at all
//! * `min-severity`     -> the higher of config and CLI wins
//! * `category`         -> the config sets a default, the CLI replaces it
//!
//! A missing file gives the default configuration; a broken one is
//! reported once and the run goes on with the default, so a typo never
//! breaks a build.

use vstd::prelude::*;

use crate::rules::Category;
use crate::severity::Severity;
use crate::text::str_eq;

verus! {

/// The configuration file's content.
#[derive(Debug)]
pub struct Config {
    /// Rules (short name or full id) whose findings are dropped.
    pub disable: Vec<String>,
    /// Only findings at this severity or higher (`info` ... `critical`).
    pub min_severity: Option<String>,
    /// Only findings whose category is listed.
    pub category: Option<Vec<String>>,
}

impl Default for Config {
    fn default() -> (r: Config)
        ensures
            r.disable@.len() == 0,
            r.min_severity is None,
            r.category is None,
    {
        Config { disable: Vec::new(), min_severity: None, category: None }
    }
}

/// The outcome of looking for and reading the configuration.
#[derive(Debug)]
pub struct LoadOutcome {
    pub config: Config,
    /// The file the configuration came from, if any.
    pub source: Option<String>,
    /// A non-fatal problem to report (unreadable or invalid file).
    pub warning: Option<String>,
}

/// Some entry of `disable` names the rule by short name or id.
pub open spec fn disables(disable: Seq<String>, name: Seq<char>, id: Seq<char>) -> bool {
    exists|k: int| 0 <= k < disable.len() && (#[trigger] disable[k]@ == name || disable[k]@ == id)
}

impl Config {
    /// True when the rule (short name or full id) is disabled.
    pub fn is_disabled(&self, rule_name: &str, rule_id: &str) -> (r: bool)
        ensures
            r == disables(self.disable@, rule_name@, rule_id@),
    {
        let mut k: usize = 0;
        while k < self.disable.len()
            invariant
                k <= self.disable.len(),
                forall|m: int| 0 <= m < k ==> !(#[trigger] self.disable@[m]@ == rule_name@ || self.disable@[m]@ == rule_id@),
            decreases self.disable.len() - k,
        {
            if str_eq(self.disable[k].as_str(), rule_name) || str_eq(self.disable[k].as_str(), rule_id) {
                return true;
            }
            k = k + 1;
        }
        false
    }
}

/// The severity named `s` (`info`, `low`, `medium`, `high`, `critical`).
pub open spec fn spec_parse_severity(s: Seq<char>) -> Option<Severity> {
    if s == "info"@ {
        Some(Severity::Info)
    } else if s == "low"@ {
        Some(Severity::Low)
    } else if s == "medium"@ {
        Some(Severity::Medium)
    } else if s == "high"@ {
        Some(Severity::High)
    } else if s == "critical"@ {
        Some(Severity::Critical)
    } else {
        None
    }
}

/// The severity a configuration value names; `None` for anything else.
pub fn parse_severity(s: &str) -> (r: Option<Severity>)
    ensures
        r == spec_parse_severity(s@),
{
    if str_eq(s, "info") {
        Some(Severity::Info)
    } else if str_eq(s, "low") {
        Some(Severity::Low)
    } else if str_eq(s, "medium") {
        Some(Severity::Medium)
    } else if str_eq(s, "high") {
        Some(Severity::High)
    } else if str_eq(s, "critical") {
        Some(Severity::Critical)
    } else {
        None
    }
}

/// The category a configuration value names.
pub open spec fn spec_parse_category(s: Seq<char>) -> Option<Category> {
    if s == "security"@ {
        Some(Category::Security)
    } else if s == "best-practice"@ {
        Some(Category::BestPractice)
    } else if s == "performance"@ {
        Some(Category::Performance)
    } else if s == "accessibility"@ {
        Some(Category::Accessibility)
    } else if s == "architecture"@ {
        Some(Category::Architecture)
    } else {
        None
    }
}

/// The category a configuration value names; `None` for anything else.
pub fn parse_category(s: &str) -> (r: Option<Category>)
    ensures
        r == spec_parse_category(s@),
{
    if str_eq(s, "security") {
        Some(Category::Security)
    } else if str_eq(s, "best-practice") {
        Some(Category::BestPractice)
    } else if str_eq(s, "performance") {
        Some(Category::Performance)
    } else if str_eq(s, "accessibility") {
        Some(Category::Accessibility)
    } else if str_eq(s, "architecture") {
        Some(Category::Architecture)
    } else {
        None
    }
}

} // verus!
