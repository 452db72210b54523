//! The coloured "pretty" form: the findings grouped by file, each with its
//! rule, message and line, the source line with a caret under the column,
//! and the help.

use vstd::prelude::*;

use crate::scanner::Violation;
use crate::severity::Severity;
use crate::taint::analyzer::{decimal, spec_decimal};
use crate::text::{
    chars_of, lemma_line_start_le, line_start_of, nl_count, push_str, str_eq, string_of_range, string_push,
    to_owned_string,
};

verus! {

// ---------------------------------------------------------------------
// Ordering of file names.
// ---------------------------------------------------------------------

/// Character order for paths: the separator `/` before every other
/// character, so that paths compare component by component.
pub open spec fn path_char_lt(x: char, y: char) -> bool {
    x != y && (x == '/' || (y != '/' && x < y))
}

/// `a` sorts strictly before `b` as a path: character by character with
/// `/` first (a proper prefix sorts first).
pub open spec fn text_lt(a: Seq<char>, b: Seq<char>) -> bool
    decreases a.len(),
{
    if a.len() == 0 {
        b.len() > 0
    } else if b.len() == 0 {
        false
    } else if a[0] != b[0] {
        path_char_lt(a[0], b[0])
    } else {
        text_lt(a.drop_first(), b.drop_first())
    }
}

/// The order of file names is a strict total order: irreflexive,
/// transitive, and any two different names are ordered one way or the
/// other.
pub proof fn lemma_text_lt_strict_total(a: Seq<char>, b: Seq<char>, c: Seq<char>)
    ensures
        !text_lt(a, a),
        text_lt(a, b) && text_lt(b, c) ==> text_lt(a, c),
        a != b ==> text_lt(a, b) || text_lt(b, a),
    decreases a.len(),
{
    if a.len() == 0 {
        if b.len() == 0 {
            assert(a =~= b);
        }
    } else {
        let b1 = if b.len() > 0 {
            b.drop_first()
        } else {
            b
        };
        let c1 = if c.len() > 0 {
            c.drop_first()
        } else {
            c
        };
        lemma_text_lt_strict_total(a.drop_first(), b1, c1);
        lemma_text_lt_strict_total(a.drop_first(), a.drop_first(), a.drop_first());
        if b.len() > 0 && a != b && a[0] == b[0] {
            assert(a.drop_first() != b.drop_first()) by {
                if a.drop_first() == b.drop_first() {
                    assert(a =~= seq![a[0]] + a.drop_first());
                    assert(b =~= seq![b[0]] + b.drop_first());
                }
            }
        }
    }
}

fn str_lt(a: &str, b: &str) -> (r: bool)
    ensures
        r == text_lt(a@, b@),
{
    let x = chars_of(a);
    let y = chars_of(b);
    let mut i: usize = 0;
    assert(x@.skip(0) =~= x@);
    assert(y@.skip(0) =~= y@);
    while i < x.len() && i < y.len() && x[i] == y[i]
        invariant
            i <= x.len(),
            i <= y.len(),
            x@ == a@,
            y@ == b@,
            text_lt(a@, b@) == text_lt(x@.skip(i as int), y@.skip(i as int)),
        decreases x.len() - i,
    {
        proof {
            assert(x@.skip(i as int).drop_first() =~= x@.skip(i + 1));
            assert(y@.skip(i as int).drop_first() =~= y@.skip(i + 1));
        }
        i = i + 1;
    }
    if i == x.len() {
        i < y.len()
    } else if i == y.len() {
        false
    } else {
        x[i] == '/' || (y[i] != '/' && x[i] < y[i])
    }
}

/// The texts of a list of strings.
pub open spec fn names(v: Seq<String>) -> Seq<Seq<char>> {
    v.map_values(|s: String| s@)
}

/// `fs` lists the files of the violations, each once, in path order.
pub open spec fn lists_files_in_order(fs: Seq<Seq<char>>, vs: Seq<Violation>) -> bool {
    &&& forall|i: int, j: int| 0 <= i < j < fs.len() ==> text_lt(#[trigger] fs[i], #[trigger] fs[j])
    &&& forall|i: int| 0 <= i < fs.len() ==> exists|k: int| 0 <= k < vs.len() && (#[trigger] vs[k]).file@ == #[trigger] fs[i]
    &&& forall|k: int| 0 <= k < vs.len() ==> fs.contains((#[trigger] vs[k]).file@)
}

/// The distinct files of the violations, in path order.
pub fn sorted_files(violations: &[Violation]) -> (r: Vec<String>)
    ensures
        lists_files_in_order(names(r@), violations@),
{
    let mut files: Vec<String> = Vec::new();
    let mut i: usize = 0;
    while i < violations.len()
        invariant
            i <= violations.len(),
            lists_files_in_order(names(files@), violations@.take(i as int)),
        decreases violations.len() - i,
    {
        let f = violations[i].file.as_str();
        let ghost fv = f@;
        let ghost fs = names(files@);
        let mut present = false;
        let mut pos: usize = 0;
        let mut m: usize = 0;
        while m < files.len()
            invariant
                pos <= m <= files.len(),
                fs == names(files@),
                fv == f@,
                forall|a: int, b: int| 0 <= a < b < fs.len() ==> text_lt(#[trigger] fs[a], #[trigger] fs[b]),
                present == exists|k: int| 0 <= k < m && #[trigger] fs[k] == fv,
                forall|k: int| 0 <= k < pos ==> text_lt(#[trigger] fs[k], fv),
                forall|k: int| pos <= k < m ==> !text_lt(#[trigger] fs[k], fv),
            decreases files.len() - m,
        {
            assert(fs[m as int] == files@[m as int]@);
            let same = str_eq(files[m].as_str(), f);
            if same {
                present = true;
                assert(fs[m as int] == fv);
            } else {
                assert(fs[m as int] != fv);
            }
            if str_lt(files[m].as_str(), f) {
                proof {
                    assert forall|k: int| 0 <= k < m implies text_lt(#[trigger] fs[k], fv) by {
                        assert(text_lt(fs[k], fs[m as int]));
                        lemma_text_lt_strict_total(fs[k], fs[m as int], fv);
                    }
                }
                pos = m + 1;
            }
            m = m + 1;
        }
        let ghost vs_next = violations@.take(i + 1);
        proof {
            assert(violations@.take(i as int) =~= vs_next.drop_last());
            assert(vs_next[i as int] == violations@[i as int]);
        }
        if !present {
            files.insert(pos, to_owned_string(f));
            proof {
                let nf = names(files@);
                assert(nf =~= fs.insert(pos as int, fv));
                assert forall|k: int| pos <= k < fs.len() implies text_lt(fv, #[trigger] fs[k]) by {
                    lemma_text_lt_strict_total(fs[k], fv, fv);
                    lemma_text_lt_strict_total(fv, fs[k], fv);
                    assert(fs[k] != fv);
                }
                assert forall|a: int, b: int| 0 <= a < b < nf.len() implies text_lt(#[trigger] nf[a], #[trigger] nf[b]) by {
                    if b < pos {
                        assert(nf[a] == fs[a] && nf[b] == fs[b]);
                    } else if b == pos {
                        assert(nf[a] == fs[a] && nf[b] == fv);
                    } else if a < pos {
                        assert(nf[a] == fs[a] && nf[b] == fs[b - 1]);
                        lemma_text_lt_strict_total(fs[a], fv, fs[b - 1]);
                    } else if a == pos {
                        assert(nf[a] == fv && nf[b] == fs[b - 1]);
                    } else {
                        assert(nf[a] == fs[a - 1] && nf[b] == fs[b - 1]);
                    }
                }
                assert forall|q: int| 0 <= q < nf.len() implies exists|k: int|
                    0 <= k < vs_next.len() && (#[trigger] vs_next[k]).file@ == #[trigger] nf[q] by {
                    if q == pos {
                        assert(vs_next[i as int].file@ == nf[q]);
                    } else {
                        let p = if q < pos { q } else { q - 1 };
                        assert(nf[q] == fs[p]);
                        let k = choose|k: int| 0 <= k < i && (#[trigger] violations@.take(i as int)[k]).file@ == fs[p];
                        assert(vs_next[k] == violations@.take(i as int)[k]);
                    }
                }
                assert forall|k: int| 0 <= k < vs_next.len() implies nf.contains((#[trigger] vs_next[k]).file@) by {
                    if k == i {
                        assert(nf[pos as int] == fv);
                    } else {
                        assert(vs_next[k] == violations@.take(i as int)[k]);
                        let q = choose|q: int| 0 <= q < fs.len() && fs[q] == vs_next[k].file@;
                        if q < pos {
                            assert(nf[q] == fs[q]);
                        } else {
                            assert(nf[q + 1] == fs[q]);
                        }
                    }
                }
            }
        } else {
            proof {
                assert forall|q: int| 0 <= q < fs.len() implies exists|k: int|
                    0 <= k < vs_next.len() && (#[trigger] vs_next[k]).file@ == #[trigger] fs[q] by {
                    let k = choose|k: int| 0 <= k < i && (#[trigger] violations@.take(i as int)[k]).file@ == fs[q];
                    assert(vs_next[k] == violations@.take(i as int)[k]);
                }
                assert forall|k: int| 0 <= k < vs_next.len() implies fs.contains((#[trigger] vs_next[k]).file@) by {
                    if k < i {
                        assert(vs_next[k] == violations@.take(i as int)[k]);
                    } else {
                        let q = choose|q: int| 0 <= q < m && #[trigger] fs[q] == fv;
                        assert(fs[q] == vs_next[k].file@);
                    }
                }
            }
        }
        i = i + 1;
    }
    assert(violations@.take(violations.len() as int) =~= violations@);
    files
}

// ---------------------------------------------------------------------
// Line and column of a finding, and the source line.
// ---------------------------------------------------------------------

/// Line (from 1) and byte column (from 1) of a finding at byte `offset`
/// of a file with bytes `bs`: the line breaks before the offset (clamped
/// to the file) plus one, and the offset's distance from the start of its
/// line plus one; (0, 0) for a finding with an empty span at offset 0.
pub open spec fn line_col_of(bs: Seq<u8>, offset: int, length: int) -> (int, int) {
    if offset == 0 && length == 0 {
        (0, 0)
    } else {
        let end = if offset < bs.len() {
            offset
        } else {
            bs.len() as int
        };
        (nl_count(bs.take(end)) + 1int, offset - line_start_of(bs.take(end)) + 1)
    }
}

fn line_and_column(content: &str, offset: usize, length: usize) -> (r: (usize, usize))
    requires
        vstd::utf8::encode_utf8(content@).len() < usize::MAX,
        offset < usize::MAX,
    ensures
        r.0 as int == line_col_of(vstd::utf8::encode_utf8(content@), offset as int, length as int).0,
        r.1 as int == line_col_of(vstd::utf8::encode_utf8(content@), offset as int, length as int).1,
{
    if offset == 0 && length == 0 {
        return (0, 0);
    }
    let bytes = content.as_bytes();
    let ghost bs = vstd::utf8::encode_utf8(content@);
    let end = if offset < bytes.len() {
        offset
    } else {
        bytes.len()
    };
    let mut newlines: usize = 0;
    let mut line_start: usize = 0;
    let mut i: usize = 0;
    assert(bs.take(0) =~= Seq::<u8>::empty());
    while i < end
        invariant
            i <= end <= bytes.len(),
            bytes@ == bs,
            bs.len() < usize::MAX,
            newlines as int == nl_count(bs.take(i as int)),
            line_start as int == line_start_of(bs.take(i as int)),
        decreases end - i,
    {
        proof {
            assert(bs.take(i + 1).drop_last() =~= bs.take(i as int));
            lemma_line_start_le(bs.take(i as int));
        }
        if bytes[i] == 10u8 {
            newlines = newlines + 1;
            line_start = i + 1;
        }
        i = i + 1;
    }
    proof {
        lemma_line_start_le(bs.take(end as int));
    }
    (newlines + 1, offset - line_start + 1)
}

/// The first line break at or after `from`; the text's length when none.
pub open spec fn next_break(cs: Seq<char>, from: int) -> int
    decreases cs.len() - from,
{
    if from < 0 || from >= cs.len() {
        cs.len() as int
    } else if cs[from] == '\n' {
        from
    } else {
        next_break(cs, from + 1)
    }
}

proof fn lemma_next_break(cs: Seq<char>, from: int, p: int)
    requires
        0 <= from <= p <= cs.len(),
        forall|k: int| from <= k < p ==> cs[k] != '\n',
        p == cs.len() || cs[p] == '\n',
    ensures
        next_break(cs, from) == p,
    decreases p - from,
{
    if from < p {
        lemma_next_break(cs, from + 1, p);
    }
}

/// A line without the `\r` of a `\r\n` break.
pub open spec fn strip_cr(t: Seq<char>, broken: bool) -> Seq<char> {
    if broken && t.len() > 0 && t.last() == '\r' {
        t.drop_last()
    } else {
        t
    }
}

/// Line `ln` (from 1) of the text from `from` on, as `str::lines` gives
/// it: without its line break (and the `\r` of a `\r\n`); `None` past the
/// last line.
pub open spec fn line_from(cs: Seq<char>, from: int, ln: int) -> Option<Seq<char>>
    decreases cs.len() - from,
{
    if ln < 1 || from < 0 || from >= cs.len() {
        None
    } else {
        let e = next_break(cs, from);
        if ln == 1 {
            Some(strip_cr(cs.subrange(from, e), e < cs.len()))
        } else if e >= cs.len() {
            None
        } else {
            proof {
                lemma_next_break_ge(cs, from);
            }
            line_from(cs, e + 1, ln - 1)
        }
    }
}

/// A line break, when there is one, lies at or after where the search starts.
pub proof fn lemma_next_break_ge(cs: Seq<char>, from: int)
    requires
        0 <= from < cs.len(),
    ensures
        from <= next_break(cs, from) <= cs.len(),
    decreases cs.len() - from,
{
    if cs[from] != '\n' {
        if from + 1 < cs.len() {
            lemma_next_break_ge(cs, from + 1);
        } else {
            assert(next_break(cs, from + 1) == cs.len());
        }
    }
}

/// A line of the text is a slice of it.
proof fn lemma_line_within(cs: Seq<char>, from: int, ln: int)
    requires
        0 <= from,
    ensures
        line_from(cs, from, ln) matches Some(t) ==> exists|a: int, b: int|
            0 <= a <= b <= cs.len() && t == #[trigger] cs.subrange(a, b),
    decreases cs.len() - from,
{
    if ln >= 1 && from < cs.len() {
        lemma_next_break_ge(cs, from);
        let e = next_break(cs, from);
        if ln == 1 {
            let t = cs.subrange(from, e);
            if e < cs.len() && t.len() > 0 && t.last() == '\r' {
                assert(t.drop_last() =~= cs.subrange(from, e - 1));
            } else {
                assert(t == cs.subrange(from, e));
            }
        } else if e < cs.len() {
            lemma_line_within(cs, e + 1, ln - 1);
        }
    }
}

/// A slice of a text has no more UTF-8 bytes than the text.
proof fn lemma_encode_slice(cs: Seq<char>, a: int, b: int)
    requires
        0 <= a <= b <= cs.len(),
    ensures
        vstd::utf8::encode_utf8(cs.subrange(a, b)).len() <= vstd::utf8::encode_utf8(cs).len(),
{
    assert(cs =~= cs.take(a) + (cs.subrange(a, b) + cs.skip(b)));
    crate::text::lemma_encode_concat(cs.take(a), cs.subrange(a, b) + cs.skip(b));
    crate::text::lemma_encode_concat(cs.subrange(a, b), cs.skip(b));
}

/// Line `ln` (from 1) of the text.
fn nth_line(cs: &Vec<char>, ln: usize) -> (r: Option<String>)
    ensures
        match r {
            Some(t) => line_from(cs@, 0, ln as int) == Some(t@),
            None => line_from(cs@, 0, ln as int) is None,
        },
{
    let n = cs.len();
    if ln < 1 {
        return None;
    }
    let mut from: usize = 0;
    let mut k: usize = ln;
    while k > 1
        invariant
            1 <= k <= ln,
            from <= n == cs.len(),
            line_from(cs@, 0, ln as int) == line_from(cs@, from as int, k as int),
        decreases k,
    {
        if from >= n {
            return None;
        }
        match find_break(cs, from) {
            Some(e) => {
                proof {
                    lemma_next_break(cs@, from as int, e as int);
                }
                from = e + 1;
                k = k - 1;
            },
            None => {
                proof {
                    lemma_next_break(cs@, from as int, n as int);
                }
                return None;
            },
        }
    }
    if from >= n {
        return None;
    }
    let e = match find_break(cs, from) {
        Some(e) => e,
        None => n,
    };
    proof {
        lemma_next_break(cs@, from as int, e as int);
    }
    let stop = if e < n && e > from && cs[e - 1] == '\r' {
        e - 1
    } else {
        e
    };
    let t = string_of_range(cs, from, stop);
    proof {
        if stop < e {
            assert(cs@.subrange(from as int, e as int).drop_last() =~= cs@.subrange(from as int, stop as int));
        }
    }
    Some(t)
}

/// The first `\n` at or after `from`.
fn find_break(cs: &Vec<char>, from: usize) -> (r: Option<usize>)
    ensures
        match r {
            Some(p) => from <= p < cs.len() && cs@[p as int] == '\n' && forall|k: int| from <= k < p ==> cs@[k] != '\n',
            None => forall|k: int| from <= k < cs.len() ==> cs@[k] != '\n',
        },
{
    let mut p = from;
    while p < cs.len()
        invariant
            from <= p,
            forall|k: int| from <= k < p ==> cs@[k] != '\n',
        decreases cs.len() - p,
    {
        if cs[p] == '\n' {
            return Some(p);
        }
        p = p + 1;
    }
    None
}

// ---------------------------------------------------------------------
// The blocks of the pretty form.
// ---------------------------------------------------------------------

/// The coloured severity label.
pub open spec fn severity_text(s: Severity) -> Seq<char> {
    match s {
        Severity::Critical => "\u{1b}[1;35mcritical\u{1b}[0m"@,
        Severity::High => "\u{1b}[1;31mhigh\u{1b}[0m"@,
        Severity::Medium => "\u{1b}[1;33mmedium\u{1b}[0m"@,
        Severity::Low => "\u{1b}[1;34mlow\u{1b}[0m"@,
        Severity::Info => "\u{1b}[1;32minfo\u{1b}[0m"@,
    }
}

fn severity_label(s: Severity) -> (r: &'static str)
    ensures
        r@ == severity_text(s),
{
    match s {
        Severity::Critical => "\u{1b}[1;35mcritical\u{1b}[0m",
        Severity::High => "\u{1b}[1;31mhigh\u{1b}[0m",
        Severity::Medium => "\u{1b}[1;33mmedium\u{1b}[0m",
        Severity::Low => "\u{1b}[1;34mlow\u{1b}[0m",
        Severity::Info => "\u{1b}[1;32minfo\u{1b}[0m",
    }
}

/// `n` spaces.
pub open spec fn spaces(n: int) -> Seq<char> {
    Seq::new(if n < 0 { 0 } else { n as nat }, |i: int| ' ')
}

/// The source-line part of a finding at line `ln`, column `col`: the
/// line, and a caret under the column when the column lies on it.
#[verifier::opaque]
pub open spec fn snippet(content: Seq<char>, ln: int, col: int) -> Seq<char> {
    if ln > 0 {
        match line_from(content, 0, ln) {
            Some(t) => "  \u{1b}[90m"@ + spec_decimal(ln as nat) + " |\u{1b}[0m "@ + t + "\n"@ + if col > 0 && col
                <= vstd::utf8::encode_utf8(t).len() {
                "  \u{1b}[90m"@ + spec_decimal(ln as nat) + " |\u{1b}[0m "@ + spaces(col - 1) + "^\n"@
            } else {
                seq![]
            },
            None => seq![],
        }
    } else {
        seq![]
    }
}

/// One finding: severity, rule id, message and line; the source line with
/// a caret; the help.
pub open spec fn finding_block(v: Violation, content: Seq<char>) -> Seq<char> {
    let lc = line_col_of(vstd::utf8::encode_utf8(content), v.span_offset as int, v.span_length as int);
    "  "@ + severity_text(v.severity) + " ["@ + v.rule_id@ + "] "@ + v.message@ + (if lc.0 > 0 {
        ":"@ + spec_decimal(lc.0 as nat)
    } else {
        seq![]
    }) + "\n"@ + snippet(content, lc.0, lc.1) + "    \u{1b}[90mhelp: "@ + v.help@ + "\u{1b}[0m\n"@
}

/// The findings of file `f`, in order.
pub open spec fn file_findings(vs: Seq<Violation>, f: Seq<char>, content: Seq<char>) -> Seq<char>
    decreases vs.len(),
{
    if vs.len() == 0 {
        seq![]
    } else {
        file_findings(vs.drop_last(), f, content) + if vs.last().file@ == f {
            finding_block(vs.last(), content)
        } else {
            seq![]
        }
    }
}

/// The first source given for file `f`.
pub open spec fn source_of(sources: Seq<(String, String)>, f: Seq<char>) -> Option<Seq<char>>
    decreases sources.len(),
{
    if sources.len() == 0 {
        None
    } else if sources[0].0@ == f {
        Some(sources[0].1@)
    } else {
        source_of(sources.drop_first(), f)
    }
}

/// The block of one file: its name, then its findings when its source is
/// known.
pub open spec fn file_block(f: Seq<char>, vs: Seq<Violation>, sources: Seq<(String, String)>) -> Seq<char> {
    "\n\u{1b}[1;36m"@ + f + "\u{1b}[0m\n"@ + match source_of(sources, f) {
        Some(c) => file_findings(vs, f, c),
        None => seq![],
    }
}

/// The blocks of the files `fs`, in order.
pub open spec fn pretty_text(fs: Seq<Seq<char>>, vs: Seq<Violation>, sources: Seq<(String, String)>) -> Seq<char>
    decreases fs.len(),
{
    if fs.len() == 0 {
        seq![]
    } else {
        pretty_text(fs.drop_last(), vs, sources) + file_block(fs.last(), vs, sources)
    }
}

/// Append the source-line part of a finding at line `ln`, column `col`.
fn push_snippet(out: &mut String, content: &str, ln: usize, col: usize)
    requires
        vstd::utf8::encode_utf8(content@).len() < usize::MAX,
    ensures
        final(out)@ == old(out)@ + snippet(content@, ln as int, col as int),
{
    reveal(snippet);
    if ln == 0 {
        assert(old(out)@ =~= old(out)@ + snippet(content@, ln as int, col as int));
        return;
    }
    let cs = chars_of(content);
    match nth_line(&cs, ln) {
        Some(line_text) => {
            let ghost start = out@;
            let n = decimal(ln);
            push_str(out, "  \u{1b}[90m");
            push_str(out, n.as_str());
            push_str(out, " |\u{1b}[0m ");
            push_str(out, line_text.as_str());
            push_str(out, "\n");
            let ghost mid = out@;
            assert(line_from(content@, 0, ln as int) == Some(line_text@));
            proof {
                lemma_line_within(content@, 0, ln as int);
                let (a, b) = choose|a: int, b: int|
                    0 <= a <= b <= content@.len() && line_text@ == #[trigger] content@.subrange(a, b);
                lemma_encode_slice(content@, a, b);
            }
            let fits = col > 0 && col <= line_text.as_str().len();
            assert(fits == (col > 0 && col <= vstd::utf8::encode_utf8(line_text@).len()));
            if fits {
                push_str(out, "  \u{1b}[90m");
                push_str(out, n.as_str());
                push_str(out, " |\u{1b}[0m ");
                let ghost before_pad = out@;
                let mut p: usize = 1;
                assert(spaces(0) =~= Seq::<char>::empty());
                assert(out@ =~= before_pad + spaces(p - 1));
                while p < col
                    invariant
                        1 <= p <= col,
                        out@ == before_pad + spaces(p - 1),
                    decreases col - p,
                {
                    string_push(out, ' ');
                    p = p + 1;
                    assert(out@ =~= before_pad + spaces(p - 1));
                }
                push_str(out, "^\n");
                assert(out@ =~= mid + "  \u{1b}[90m"@ + spec_decimal(ln as nat) + " |\u{1b}[0m "@ + spaces(col - 1) + "^\n"@);
            } else {
                assert(out@ =~= mid + Seq::<char>::empty());
            }
            assert(mid =~= start + "  \u{1b}[90m"@ + spec_decimal(ln as nat) + " |\u{1b}[0m "@ + line_text@ + "\n"@);
            assert(out@ =~= start + snippet(content@, ln as int, col as int));
        },
        None => {
            assert(out@ =~= out@ + snippet(content@, ln as int, col as int));
        },
    }
}

/// Append the block of one finding.
#[verifier::spinoff_prover]
#[verifier::rlimit(40)]
fn push_finding(out: &mut String, v: &Violation, content: &str)
    requires
        vstd::utf8::encode_utf8(content@).len() < usize::MAX,
        v.span_offset < usize::MAX,
    ensures
        final(out)@ == old(out)@ + finding_block(*v, content@),
{
    let (ln, col) = line_and_column(content, v.span_offset, v.span_length);
    let ghost lc = line_col_of(vstd::utf8::encode_utf8(content@), v.span_offset as int, v.span_length as int);
    let ghost start = out@;
    push_str(out, "  ");
    push_str(out, severity_label(v.severity));
    push_str(out, " [");
    push_str(out, v.rule_id.as_str());
    push_str(out, "] ");
    push_str(out, v.message.as_str());
    let ghost before_loc = out@;
    assert(before_loc =~= start + "  "@ + severity_text(v.severity) + " ["@ + v.rule_id@ + "] "@ + v.message@);
    let ghost loc = if ln > 0 {
        ":"@ + spec_decimal(ln as nat)
    } else {
        Seq::<char>::empty()
    };
    if ln > 0 {
        push_str(out, ":");
        let n = decimal(ln);
        push_str(out, n.as_str());
    }
    assert(out@ =~= before_loc + loc);
    push_str(out, "\n");
    let ghost head = out@;
    push_snippet(out, content, ln, col);
    let ghost after = out@;
    assert(after == head + snippet(content@, lc.0, lc.1));
    push_str(out, "    \u{1b}[90mhelp: ");
    push_str(out, v.help);
    push_str(out, "\u{1b}[0m\n");
    assert(out@ =~= after + "    \u{1b}[90mhelp: "@ + v.help@ + "\u{1b}[0m\n"@);
    assert(finding_block(*v, content@) == "  "@ + severity_text(v.severity) + " ["@ + v.rule_id@ + "] "@
        + v.message@ + loc + "\n"@ + snippet(content@, lc.0, lc.1) + "    \u{1b}[90mhelp: "@ + v.help@
        + "\u{1b}[0m\n"@);
    assert(out@ =~= start + finding_block(*v, content@));
}

/// The pretty form: for each file (in path order), its name,
/// then, when its source is among `sources` (the first one given for
/// it), each of its findings with the coloured severity, rule id, message
/// and line, the source line with a caret under the column, and the help.
pub fn render_pretty(violations: &[Violation], sources: &[(String, String)]) -> (r: String)
    requires
        forall|k: int|
            0 <= k < sources@.len() ==> vstd::utf8::encode_utf8(#[trigger] sources@[k].1@).len() < usize::MAX,
        forall|k: int| 0 <= k < violations@.len() ==> (#[trigger] violations@[k]).span_offset < usize::MAX,
    ensures
        exists|fs: Seq<Seq<char>>| lists_files_in_order(fs, violations@) && r@ == pretty_text(fs, violations@, sources@),
{
    let mut out = String::new();
    let files = sorted_files(violations);
    let ghost fs = names(files@);
    let mut fi: usize = 0;
    assert(fs.take(0) =~= Seq::<Seq<char>>::empty());
    while fi < files.len()
        invariant
            fi <= files.len(),
            fs == names(files@),
            lists_files_in_order(fs, violations@),
            out@ == pretty_text(fs.take(fi as int), violations@, sources@),
            forall|k: int|
                0 <= k < sources@.len() ==> vstd::utf8::encode_utf8(#[trigger] sources@[k].1@).len() < usize::MAX,
            forall|k: int| 0 <= k < violations@.len() ==> (#[trigger] violations@[k]).span_offset < usize::MAX,
        decreases files.len() - fi,
    {
        let file = files[fi].as_str();
        let ghost f = file@;
        let ghost before = out@;
        proof {
            assert(fs.take(fi + 1).drop_last() =~= fs.take(fi as int));
            assert(fs.take(fi + 1).last() == f);
        }
        push_str(&mut out, "\n\u{1b}[1;36m");
        push_str(&mut out, file);
        push_str(&mut out, "\u{1b}[0m\n");
        let mut found: Option<usize> = None;
        let mut s: usize = 0;
        assert(sources@.skip(0) =~= sources@);
        while s < sources.len()
            invariant
                s <= sources.len(),
                f == file@,
                found is None ==> source_of(sources@, f) == source_of(sources@.skip(s as int), f),
                found matches Some(k) ==> k < sources.len() && source_of(sources@, f) == Some(sources@[k as int].1@),
            decreases sources.len() - s,
        {
            proof {
                let rest = sources@.skip(s as int);
                assert(rest.len() > 0);
                assert(rest.drop_first() =~= sources@.skip(s + 1));
                assert(rest[0] == sources@[s as int]);
            }
            if found.is_none() && str_eq(sources[s].0.as_str(), file) {
                found = Some(s);
            }
            s = s + 1;
        }
        let ghost head = out@;
        match found {
            Some(k) => {
                let c = sources[k].1.as_str();
                assert(vstd::utf8::encode_utf8(c@).len() < usize::MAX);
                let mut i: usize = 0;
                assert(violations@.take(0) =~= Seq::<Violation>::empty());
                while i < violations.len()
                    invariant
                        i <= violations.len(),
                        f == file@,
                        vstd::utf8::encode_utf8(c@).len() < usize::MAX,
                        out@ == head + file_findings(violations@.take(i as int), f, c@),
                        forall|k: int| 0 <= k < violations@.len() ==> (#[trigger] violations@[k]).span_offset < usize::MAX,
                    decreases violations.len() - i,
                {
                    let v = &violations[i];
                    proof {
                        assert(violations@.take(i + 1).drop_last() =~= violations@.take(i as int));
                        assert(violations@.take(i + 1).last() == *v);
                    }
                    let ghost prev = out@;
                    if str_eq(v.file.as_str(), file) {
                        push_finding(&mut out, v, c);
                    }
                    assert(out@ =~= prev + if v.file@ == f {
                        finding_block(*v, c@)
                    } else {
                        Seq::<char>::empty()
                    });
                    i = i + 1;
                }
                assert(violations@.take(violations.len() as int) =~= violations@);
            },
            None => {
                assert(sources@.skip(sources.len() as int) =~= Seq::<(String, String)>::empty());
            },
        }
        assert(out@ =~= before + file_block(f, violations@, sources@));
        fi = fi + 1;
    }
    assert(fs.take(files.len() as int) =~= fs);
    out
}

} // verus!
