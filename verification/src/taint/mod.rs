//! Lightweight intra-file taint facts.
//!
//! The engine computes, for every analysed expression of a `.vue` file,
//! whether its value may carry *untrusted data*. Rules stay syntactic sink
//! detectors and ask the facts for the "this pattern carries untrusted
//! data" half:
//!
//! * [`TaintResult::status_at`] — the taint state of an expression span;
//! * [`TaintResult::flow_at`] — the source-to-sink flow for a reported sink.

use vstd::prelude::*;

pub mod analyzer;

verus! {

/// Taint state of an expression's value.
#[derive(Debug, Clone, Copy, PartialEq, Eq, Structural)]
pub enum TaintStatus {
    /// Definitely not carrying untrusted data.
    Clean,
    /// May carry untrusted data from a recognised source.
    Tainted,
    /// Could not be analysed (e.g. an unparseable template binding); sink
    /// rules report these conservatively.
    Unknown,
}

/// One untrusted-data flow, from a source to a sink.
#[derive(Debug, Clone)]
pub struct FlowPath {
    /// The sink label the reporting rule attaches (e.g. "`v-html` binding").
    pub sink: String,
    /// Where the taint entered, e.g. `localStorage.getItem (line 12)`.
    pub source: String,
    /// Identifiers / member chains the taint passed through.
    pub via: Vec<String>,
    /// When a value was sanitized and later re-tainted, a note naming the
    /// sanitizer.
    pub sanitizer_note: Option<String>,
}

/// What is known about one expression.
#[derive(Debug, Clone)]
pub struct TaintInfo {
    pub status: TaintStatus,
    /// Description of the originating source (only for `Tainted`).
    pub source: Option<String>,
    /// Identifiers / chains the taint flowed through.
    pub via: Vec<String>,
    /// Set when the value was sanitized earlier and is tainted again.
    pub sanitizer_note: Option<String>,
    /// Set on a sanitizer call's result: (sanitizer name, absolute offset).
    pub sanitized_by: Option<(String, u32)>,
}

impl TaintInfo {
    pub fn clean() -> (r: TaintInfo)
        ensures
            r.status == TaintStatus::Clean,
            r.source is None,
            r.via@.len() == 0,
            r.sanitizer_note is None,
            r.sanitized_by is None,
    {
        TaintInfo {
            status: TaintStatus::Clean,
            source: None,
            via: Vec::new(),
            sanitizer_note: None,
            sanitized_by: None,
        }
    }

    pub fn tainted(source: String, via: Vec<String>) -> (r: TaintInfo)
        ensures
            r.status == TaintStatus::Tainted,
            r.source == Some(source),
            r.via == via,
            r.sanitizer_note is None,
            r.sanitized_by is None,
    {
        TaintInfo {
            status: TaintStatus::Tainted,
            source: Some(source),
            via,
            sanitizer_note: None,
            sanitized_by: None,
        }
    }

    pub fn unknown() -> (r: TaintInfo)
        ensures
            r.status == TaintStatus::Unknown,
            r.source is None,
            r.via@.len() == 0,
            r.sanitizer_note is None,
            r.sanitized_by is None,
    {
        TaintInfo {
            status: TaintStatus::Unknown,
            source: None,
            via: Vec::new(),
            sanitizer_note: None,
            sanitized_by: None,
        }
    }

    /// A copy with the same status, source, path and note.
    pub fn duplicate(&self) -> (r: TaintInfo)
        ensures
            r.status == self.status,
            r.source == self.source,
            r.via@ == self.via@,
            r.sanitizer_note == self.sanitizer_note,
            r.sanitized_by == self.sanitized_by,
    {
        let via = self.via.clone();
        assert(via@ =~= self.via@);
        let sanitized_by = match &self.sanitized_by {
            Some((s, at)) => Some((s.clone(), *at)),
            None => None,
        };
        TaintInfo {
            status: self.status,
            source: self.source.clone(),
            via,
            sanitizer_note: self.sanitizer_note.clone(),
            sanitized_by,
        }
    }
}

/// Of two facts, the tainted one wins (left first); otherwise clean.
pub open spec fn spec_combine(a: TaintStatus, b: TaintStatus) -> TaintStatus {
    if a == TaintStatus::Tainted || b == TaintStatus::Tainted {
        TaintStatus::Tainted
    } else {
        TaintStatus::Clean
    }
}

/// Combine the facts of two operands: the result carries the first
/// tainted operand's fact, and is clean when neither is tainted.
pub fn combine_taint(a: TaintInfo, b: TaintInfo) -> (r: TaintInfo)
    ensures
        r.status == spec_combine(a.status, b.status),
        a.status == TaintStatus::Tainted ==> r == a,
        a.status != TaintStatus::Tainted && b.status == TaintStatus::Tainted ==> r == b,
        a.status != TaintStatus::Tainted && b.status != TaintStatus::Tainted ==> {
            &&& r.source is None
            &&& r.via@.len() == 0
            &&& r.sanitizer_note is None
            &&& r.sanitized_by is None
        },
{
    if a.status == TaintStatus::Tainted {
        a
    } else if b.status == TaintStatus::Tainted {
        b
    } else {
        TaintInfo::clean()
    }
}

/// The fact recorded last for `at` among `entries` (later records win).
pub open spec fn lookup(entries: Seq<(u32, TaintInfo)>, at: u32) -> Option<TaintInfo>
    decreases entries.len(),
{
    if entries.len() == 0 {
        None
    } else if entries.last().0 == at {
        Some(entries.last().1)
    } else {
        lookup(entries.drop_last(), at)
    }
}

/// The per-expression facts computed for one file, keyed by the absolute
/// start offset of each analysed expression.
#[derive(Debug)]
pub struct TaintResult {
    entries: Vec<(u32, TaintInfo)>,
}

impl TaintResult {
    /// The recorded facts, in recording order.
    pub closed spec fn records(&self) -> Seq<(u32, TaintInfo)> {
        self.entries@
    }

    /// The fact for the expression starting at `at`, if one was recorded.
    pub open spec fn fact(&self, at: u32) -> Option<TaintInfo> {
        lookup(self.records(), at)
    }

    /// The status rules see for `at`: expressions never analysed count as
    /// clean.
    pub open spec fn spec_status_at(&self, at: u32) -> TaintStatus {
        match self.fact(at) {
            Some(info) => info.status,
            None => TaintStatus::Clean,
        }
    }

    /// No facts at all.
    pub fn new() -> (r: TaintResult)
        ensures
            r.records().len() == 0,
    {
        TaintResult { entries: Vec::new() }
    }

    /// Record the fact for the expression starting at `at`, replacing any
    /// earlier one.
    pub fn record(&mut self, at: u32, info: TaintInfo)
        ensures
            final(self).records() == old(self).records().push((at, info)),
    {
        self.entries.push((at, info));
    }

    /// The number of facts recorded.
    pub fn len(&self) -> (r: usize)
        ensures
            r == self.records().len(),
    {
        self.entries.len()
    }

    fn find(&self, at: u32) -> (r: Option<&TaintInfo>)
        ensures
            match r {
                Some(info) => self.fact(at) == Some(*info),
                None => self.fact(at) is None,
            },
    {
        let mut i = self.entries.len();
        assert(self.entries@.take(i as int) =~= self.entries@);
        while i > 0
            invariant
                i <= self.entries.len(),
                lookup(self.entries@, at) == lookup(self.entries@.take(i as int), at),
            decreases i,
        {
            let ghost prefix = self.entries@.take(i as int);
            assert(prefix.drop_last() =~= self.entries@.take(i - 1));
            if self.entries[i - 1].0 == at {
                return Some(&self.entries[i - 1].1);
            }
            i = i - 1;
        }
        None
    }

    /// Taint state of the expression starting at absolute byte `at`.
    /// Expressions the analysis never visited are reported as clean.
    pub fn status_at(&self, at: u32) -> (r: TaintStatus)
        ensures
            r == self.spec_status_at(at),
    {
        match self.find(at) {
            Some(info) => info.status,
            None => TaintStatus::Clean,
        }
    }

    /// The flow path reported for a sink labelled `sink` whose expression
    /// starts at `at`: present exactly when that expression's fact is
    /// tainted, naming the fact's source (or an unknown one), its path and
    /// its sanitizer note.
    pub open spec fn flow_matches(&self, at: u32, sink: Seq<char>, r: Option<FlowPath>) -> bool {
        &&& r is Some <==> (self.fact(at) matches Some(info) && info.status == TaintStatus::Tainted)
        &&& r matches Some(flow) ==> {
            let info = self.fact(at).unwrap();
            &&& flow.sink@ == sink
            &&& flow.source@ == match info.source {
                Some(s) => s@,
                None => "unknown source"@,
            }
            &&& flow.via@ == info.via@
            &&& flow.sanitizer_note == info.sanitizer_note
        }
    }

    /// The flow path for a sink reported at `at`, labelled `sink`: present
    /// exactly when the expression there is tainted.
    pub fn flow_at(&self, at: u32, sink: &str) -> (r: Option<FlowPath>)
        ensures
            self.flow_matches(at, sink@, r),
            r is Some <==> (self.fact(at) matches Some(info) && info.status == TaintStatus::Tainted),
            r matches Some(flow) ==> {
                let info = self.fact(at).unwrap();
                &&& flow.sink@ == sink@
                &&& flow.source@ == match info.source {
                    Some(s) => s@,
                    None => "unknown source"@,
                }
                &&& flow.via@ == info.via@
                &&& flow.sanitizer_note == info.sanitizer_note
            },
    {
        let info = match self.find(at) {
            Some(info) => info,
            None => {
                return None;
            },
        };
        if info.status != TaintStatus::Tainted {
            return None;
        }
        let source = match &info.source {
            Some(s) => s.clone(),
            None => "unknown source".to_string(),
        };
        let via = info.via.clone();
        assert(via@ =~= info.via@);
        Some(
            FlowPath {
                sink: crate::text::to_owned_string(sink),
                source,
                via,
                sanitizer_note: info.sanitizer_note.clone(),
            },
        )
    }
}

} // verus!
