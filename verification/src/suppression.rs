//! Inline suppression comments.
//!
//! A finding is ignored when its line, or the line just above it, holds a
//! marker `vuer-ignore[<list>]` (or the colon form `vuer: ignore[<list>]`)
//! whose comma-separated list names the rule, by short name or by full id.
//! Items are trimmed of surrounding whitespace. The marker may sit in any
//! comment (`// ...`, `<!-- ... -->`): only the text is read.

use vstd::prelude::*;

use crate::rules::no_dangerous_url::{strip_back, strip_back_exec, strip_front, strip_front_exec};
use crate::text::{
    byte_pos, chars_eq, chars_of, copy_range, find_index, first_index, index_text, spec_starts_with_at,
    starts_with_at, IndexedText,
};

verus! {

/// Index of the first character that starts at or after byte `o` (the
/// length when there is none).
pub open spec fn char_at_byte(cs: Seq<char>, o: int) -> int {
    if exists|k: int| 0 <= k <= cs.len() && byte_pos(cs, k) >= o && forall|m: int| 0 <= m < k ==> byte_pos(cs, m) < o {
        choose|k: int| 0 <= k <= cs.len() && byte_pos(cs, k) >= o && forall|m: int| 0 <= m < k ==> byte_pos(cs, m) < o
    } else {
        cs.len() as int
    }
}

/// Index where the line holding position `k` starts: just after the last
/// newline before `k`.
pub open spec fn line_start(cs: Seq<char>, k: int) -> int
    decreases k,
{
    if k <= 0 || k > cs.len() {
        0
    } else if cs[k - 1] == '\n' {
        k
    } else {
        line_start(cs, k - 1)
    }
}

/// The comma-separated items of `c`, from `from` on: some item, trimmed,
/// is `x`.
pub open spec fn items_from(c: Seq<char>, from: int, x: Seq<char>) -> bool
    decreases c.len() - from,
{
    if from < 0 || from > c.len() {
        false
    } else {
        let p = first_index(c, from, ',');
        strip_back(strip_front(c.subrange(from, p), true), true) == x || (from <= p < c.len() && items_from(
            c,
            p + 1,
            x,
        ))
    }
}

/// Length of the marker that starts at `p`, or 0.
pub open spec fn marker_len(l: Seq<char>, p: int) -> int {
    if spec_starts_with_at(l, p, "vuer-ignore["@) {
        12
    } else if spec_starts_with_at(l, p, "vuer: ignore["@) {
        13
    } else {
        0
    }
}

/// The list of the marker that starts at `p`: the text up to the first
/// `]`. `None` when no marker starts there or its list is not closed.
pub open spec fn list_at(l: Seq<char>, p: int) -> Option<Seq<char>> {
    let m = marker_len(l, p);
    if m == 0 {
        None
    } else {
        let q = first_index(l, p + m, ']');
        if q < l.len() {
            Some(l.subrange(p + m, q))
        } else {
            None
        }
    }
}

/// Some marker on line `l` lists `name` or `id`.
pub open spec fn line_suppresses(l: Seq<char>, name: Seq<char>, id: Seq<char>) -> bool {
    exists|p: int| 0 <= p < l.len() && (#[trigger] list_at(l, p) matches Some(c) && (items_from(c, 0, name) || items_from(c, 0, id)))
}

/// The finding at byte `offset` of `source` is ignored for the rule with
/// short name `name` and id `id`.
pub open spec fn spec_ignored(source: Seq<char>, offset: int, name: Seq<char>, id: Seq<char>) -> bool {
    let k = char_at_byte(source, offset);
    let s = line_start(source, k);
    let e = first_index(source, s, '\n');
    line_suppresses(source.subrange(s, e), name, id) || (s > 0 && line_suppresses(
        source.subrange(line_start(source, s - 1), s - 1),
        name,
        id,
    ))
}

proof fn lemma_first_index_bounds(s: Seq<char>, from: int, c: char)
    requires
        0 <= from <= s.len(),
    ensures
        from <= first_index(s, from, c) <= s.len(),
{
}

proof fn lemma_line_start_bounds(cs: Seq<char>, k: int)
    ensures
        0 <= line_start(cs, k),
        0 <= k <= cs.len() ==> line_start(cs, k) <= k,
    decreases k,
{
    if k > 0 && k <= cs.len() && cs[k - 1] != '\n' {
        lemma_line_start_bounds(cs, k - 1);
    }
}

proof fn lemma_items_step(c: Seq<char>, from: int, x: Seq<char>)
    requires
        0 <= from <= c.len(),
    ensures
        from <= first_index(c, from, ',') <= c.len(),
        items_from(c, from, x) == (strip_back(
            strip_front(c.subrange(from, first_index(c, from, ',')), true),
            true,
        ) == x || (first_index(c, from, ',') < c.len() && items_from(c, first_index(c, from, ',') + 1, x))),
{
}

fn trimmed(c: &Vec<char>, from: usize, p: usize) -> (r: Vec<char>)
    requires
        from <= p <= c.len(),
    ensures
        r@ == strip_back(strip_front(c@.subrange(from as int, p as int), true), true),
{
    let a = strip_front_exec(c, from, p, true);
    let b = strip_back_exec(c, a, p, true);
    proof {
        assert(c@.subrange(from as int, p as int).subrange((a - from) as int, (p - from) as int) =~= c@.subrange(a as int, p as int));
    }
    copy_range(c, a, b)
}

/// Some item of the list `c` is `x`.
fn list_has(c: &Vec<char>, x: &Vec<char>) -> (r: bool)
    ensures
        r == items_from(c@, 0, x@),
{
    let mut from: usize = 0;
    loop
        invariant
            from <= c.len(),
            items_from(c@, 0, x@) == items_from(c@, from as int, x@),
        decreases c.len() - from,
    {
        proof {
            lemma_items_step(c@, from as int, x@);
        }
        let p = find_index(c, from, ',');
        let item = trimmed(c, from, p);
        if chars_eq(&item, x) {
            return true;
        }
        if p >= c.len() {
            return false;
        }
        from = p + 1;
    }
}

fn list_at_exec(l: &Vec<char>, p: usize) -> (r: Option<Vec<char>>)
    requires
        p < l.len(),
    ensures
        match r {
            Some(c) => list_at(l@, p as int) == Some(c@),
            None => list_at(l@, p as int) is None,
        },
{
    proof {
        reveal_strlit("vuer-ignore[");
        reveal_strlit("vuer: ignore[");
    }
    let m: usize = if starts_with_at(l, p, &chars_of("vuer-ignore[")) {
        12
    } else if starts_with_at(l, p, &chars_of("vuer: ignore[")) {
        13
    } else {
        return None;
    };
    let q = find_index(l, p + m, ']');
    if q < l.len() {
        Some(copy_range(l, p + m, q))
    } else {
        None
    }
}

/// Some marker on the line lists the rule.
fn line_ignores(l: &Vec<char>, name: &Vec<char>, id: &Vec<char>) -> (r: bool)
    ensures
        r == line_suppresses(l@, name@, id@),
{
    let mut p: usize = 0;
    while p < l.len()
        invariant
            p <= l.len(),
            forall|k: int| 0 <= k < p ==> !(#[trigger] list_at(l@, k) matches Some(c) && (items_from(c, 0, name@)
                || items_from(c, 0, id@))),
        decreases l.len() - p,
    {
        match list_at_exec(l, p) {
            Some(c) => {
                if list_has(&c, name) || list_has(&c, id) {
                    return true;
                }
            },
            None => {},
        }
        p = p + 1;
    }
    false
}

fn line_start_exec(cs: &Vec<char>, k: usize) -> (r: usize)
    requires
        k <= cs.len(),
    ensures
        r == line_start(cs@, k as int),
        r <= k,
{
    let mut i = k;
    while i > 0
        invariant
            i <= k <= cs.len(),
            line_start(cs@, k as int) == line_start(cs@, i as int),
        decreases i,
    {
        if cs[i - 1] == '\n' {
            return i;
        }
        i = i - 1;
    }
    0
}

/// Index of the first character of `text` that starts at or after byte
/// `o` (see [`char_at_byte`]).
pub fn char_index_of_byte(text: &IndexedText, o: usize) -> (k: usize)
    requires
        text.wf(),
    ensures
        k == char_at_byte(text.chars@, o as int),
        k <= text.chars.len(),
{
    let ghost cs = text.chars@;
    let n = text.chars.len();
    let mut k: usize = 0;
    while k < n && text.offs[k] < o
        invariant
            text.wf(),
            cs == text.chars@,
            n == text.chars.len(),
            k <= n,
            forall|m: int| 0 <= m < k ==> byte_pos(cs, m) < o,
        decreases n - k,
    {
        k = k + 1;
    }
    proof {
        let c = char_at_byte(cs, o as int);
        if k < n || byte_pos(cs, k as int) >= o {
            assert(byte_pos(cs, k as int) >= o);
            assert(c == k) by {
                if c < k {
                    assert(byte_pos(cs, c) < o);
                } else if c > k {
                    assert(byte_pos(cs, k as int) >= o);
                }
            }
        } else {
            assert(k == n);
            assert(forall|m: int| 0 <= m <= n ==> byte_pos(cs, m) < o);
        }
    }
    k
}

/// True when the finding at byte `offset` of `source` sits under a
/// suppression comment naming the rule (see the module documentation).
pub fn violation_is_ignored(source: &str, offset: usize, rule_name: &str, rule_id: &str) -> (r: bool)
    requires
        vstd::utf8::encode_utf8(source@).len() <= usize::MAX,
    ensures
        r == spec_ignored(source@, offset as int, rule_name@, rule_id@),
{
    let text = index_text(source);
    let k = char_index_of_byte(&text, offset);
    let name = chars_of(rule_name);
    let id = chars_of(rule_id);
    let s = line_start_exec(&text.chars, k);
    let e = find_index(&text.chars, s, '\n');
    let line = copy_range(&text.chars, s, e);
    if line_ignores(&line, &name, &id) {
        return true;
    }
    if s == 0 {
        return false;
    }
    let ps = line_start_exec(&text.chars, s - 1);
    let prev = copy_range(&text.chars, ps, s - 1);
    line_ignores(&prev, &name, &id)
}

/// A marker on a line whose list holds the rule's full id suppresses the
/// rule there, whatever its short name; one holding the short name does
/// too, whatever its id.
pub proof fn lemma_marker_suppresses(l: Seq<char>, name: Seq<char>, id: Seq<char>, p: int)
    requires
        0 <= p < l.len(),
        list_at(l, p) matches Some(c) && (items_from(c, 0, id) || items_from(c, 0, name)),
    ensures
        line_suppresses(l, name, id),
{
}

/// The short name and the full id are accepted alike: swapping them never
/// changes whether a finding is ignored, and a line without a marker that
/// lists either suppresses nothing.
pub proof fn lemma_name_or_id(source: Seq<char>, offset: int, l: Seq<char>, name: Seq<char>, id: Seq<char>)
    ensures
        spec_ignored(source, offset, name, id) == spec_ignored(source, offset, id, name),
        line_suppresses(l, name, id) == line_suppresses(l, id, name),
        line_suppresses(l, name, id) == (exists|p: int|
            0 <= p < l.len() && (#[trigger] list_at(l, p) matches Some(c) && (items_from(c, 0, id) || items_from(
                c,
                0,
                name,
            )))),
{
    assert(line_suppresses(l, name, id) == line_suppresses(l, id, name));
}

} // verus!
