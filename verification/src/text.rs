//! Character classification and the few `std` string operations the
//! library needs, each with the contract its documentation gives.

use vstd::prelude::*;

verus! {

/// Unicode `White_Space` as `char::is_whitespace` documents it.
pub open spec fn spec_is_whitespace(c: char) -> bool {
    let u = c as u32;
    (0x9 <= u && u <= 0xD) || u == 0x20 || u == 0x85 || u == 0xA0 || u == 0x1680
        || (0x2000 <= u && u <= 0x200A) || u == 0x2028 || u == 0x2029 || u == 0x202F
        || u == 0x205F || u == 0x3000
}

pub open spec fn spec_is_ascii_alpha(c: char) -> bool {
    ('a' <= c && c <= 'z') || ('A' <= c && c <= 'Z')
}

pub open spec fn spec_is_ascii_digit(c: char) -> bool {
    '0' <= c && c <= '9'
}

pub open spec fn spec_is_ascii_alnum(c: char) -> bool {
    spec_is_ascii_alpha(c) || spec_is_ascii_digit(c)
}

/// A character that may continue a tag or attribute name: ASCII
/// alphanumeric, `-` or `_`.
pub open spec fn spec_is_name_char(c: char) -> bool {
    spec_is_ascii_alnum(c) || c == '-' || c == '_'
}

/// Number of bytes of the UTF-8 encoding of `c`.
pub open spec fn char_width(c: char) -> nat {
    let u = c as u32;
    if u < 0x80 {
        1
    } else if u < 0x800 {
        2
    } else if u < 0x10000 {
        3
    } else {
        4
    }
}

/// Number of bytes of the UTF-8 encoding of `s`.
pub open spec fn utf8_len(s: Seq<char>) -> nat
    decreases s.len(),
{
    if s.len() == 0 {
        0
    } else {
        utf8_len(s.drop_last()) + char_width(s.last())
    }
}

/// ASCII lower-casing of one character (non-ASCII letters are kept).
pub open spec fn spec_ascii_lower(c: char) -> char {
    if 'A' <= c && c <= 'Z' {
        ((c as u32) + 32) as char
    } else {
        c
    }
}

pub open spec fn spec_ascii_lower_seq(s: Seq<char>) -> Seq<char> {
    Seq::new(s.len(), |i: int| spec_ascii_lower(s[i]))
}

pub fn is_whitespace(c: char) -> (r: bool)
    ensures
        r == spec_is_whitespace(c),
{
    let u = c as u32;
    (0x9 <= u && u <= 0xD) || u == 0x20 || u == 0x85 || u == 0xA0 || u == 0x1680 || (0x2000
        <= u && u <= 0x200A) || u == 0x2028 || u == 0x2029 || u == 0x202F || u == 0x205F || u
        == 0x3000
}

pub fn is_ascii_alpha(c: char) -> (r: bool)
    ensures
        r == spec_is_ascii_alpha(c),
{
    ('a' <= c && c <= 'z') || ('A' <= c && c <= 'Z')
}

pub fn is_ascii_alnum(c: char) -> (r: bool)
    ensures
        r == spec_is_ascii_alnum(c),
{
    ('a' <= c && c <= 'z') || ('A' <= c && c <= 'Z') || ('0' <= c && c <= '9')
}

pub fn is_name_char(c: char) -> (r: bool)
    ensures
        r == spec_is_name_char(c),
{
    is_ascii_alnum(c) || c == '-' || c == '_'
}

pub fn ascii_lower(c: char) -> (r: char)
    ensures
        r == spec_ascii_lower(c),
{
    if 'A' <= c && c <= 'Z' {
        let u = (c as u32) + 32;
        assert(0x61 <= u <= 0x7a);
        char_from_ascii(u)
    } else {
        c
    }
}

/// The character with the given ASCII code.
fn char_from_ascii(u: u32) -> (r: char)
    requires
        u < 0x80,
    ensures
        r == u as char,
{
    let b = u as u8;
    b as char
}

pub fn width_of_char(c: char) -> (r: u32)
    ensures
        r as nat == char_width(c),
{
    let u = c as u32;
    if u < 0x80 {
        1
    } else if u < 0x800 {
        2
    } else if u < 0x10000 {
        3
    } else {
        4
    }
}

/// The characters of a string slice, in order.
pub fn chars_of(s: &str) -> (r: Vec<char>)
    ensures
        r@ == s@,
{
    let mut out: Vec<char> = Vec::new();
    proof {
        vstd::string::axiom_spec_iter(s);
    }
    for c in iter: s.chars()
        invariant
            iter.seq() == s@,
            out@ == iter.seq().take(iter.index()),
    {
        out.push(c);
    }
    out
}

/// A `String` holding exactly the given characters.
pub fn string_from_chars(cs: &[char]) -> (r: String)
    ensures
        r@ == cs@,
{
    let mut out = String::new();
    let mut i: usize = 0;
    while i < cs.len()
        invariant
            i <= cs.len(),
            out@ == cs@.take(i as int),
        decreases cs.len() - i,
    {
        string_push(&mut out, cs[i]);
        i = i + 1;
        assert(out@ =~= cs@.take(i as int));
    }
    assert(cs@.take(cs.len() as int) =~= cs@);
    out
}

/// The two slices hold the same characters: compared byte by byte, as
/// UTF-8 encodes distinct texts distinctly.
pub fn str_eq(a: &str, b: &str) -> (r: bool)
    ensures
        r == (a@ == b@),
{
    let x = a.as_bytes();
    let y = b.as_bytes();
    proof {
        vstd::utf8::encode_utf8_decode_utf8(a@);
        vstd::utf8::encode_utf8_decode_utf8(b@);
    }
    if x.len() != y.len() {
        return false;
    }
    let mut i: usize = 0;
    while i < x.len()
        invariant
            i <= x.len(),
            x.len() == y.len(),
            x@ == vstd::utf8::encode_utf8(a@),
            y@ == vstd::utf8::encode_utf8(b@),
            vstd::utf8::decode_utf8(vstd::utf8::encode_utf8(a@)) == a@,
            vstd::utf8::decode_utf8(vstd::utf8::encode_utf8(b@)) == b@,
            forall|k: int| 0 <= k < i ==> x@[k] == y@[k],
        decreases x.len() - i,
    {
        if x[i] != y[i] {
            return false;
        }
        i = i + 1;
    }
    assert(x@ =~= y@);
    true
}

/// Append `b` to `a`.
pub fn push_str(a: &mut String, b: &str)
    ensures
        final(a)@ == old(a)@ + b@,
{
    a.append(b);
}

/// `str::to_string`: an owned copy.
pub fn to_owned_string(s: &str) -> (r: String)
    ensures
        r@ == s@,
{
    s.to_owned()
}

/// Sequence equality of two character vectors, element by element.
pub fn chars_eq(a: &[char], b: &[char]) -> (r: bool)
    ensures
        r == (a@ == b@),
{
    if a.len() != b.len() {
        return false;
    }
    let mut i: usize = 0;
    while i < a.len()
        invariant
            a.len() == b.len(),
            i <= a.len(),
            forall|k: int| 0 <= k < i ==> a@[k] == b@[k],
        decreases a.len() - i,
    {
        if a[i] != b[i] {
            return false;
        }
        i = i + 1;
    }
    assert(a@ =~= b@);
    true
}

/// True when `s` equals the literal `lit`.
pub fn str_is(s: &String, lit: &str) -> (r: bool)
    ensures
        r == (s@ == lit@),
{
    str_eq(s.as_str(), lit)
}


/// `String::push`: append one character.
#[verifier::external_body]
pub fn string_push(s: &mut String, c: char)
    ensures
        final(s)@ == old(s)@.push(c),
{
    s.push(c)
}

/// The characters `cs[from..to]` as a `String`.
pub fn string_of_range(cs: &Vec<char>, from: usize, to: usize) -> (r: String)
    requires
        from <= to <= cs.len(),
    ensures
        r@ == cs@.subrange(from as int, to as int),
{
    let mut out = String::new();
    let mut i = from;
    while i < to
        invariant
            from <= i <= to <= cs.len(),
            out@ == cs@.subrange(from as int, i as int),
        decreases to - i,
    {
        string_push(&mut out, cs[i]);
        assert(cs@.subrange(from as int, i + 1) =~= cs@.subrange(from as int, i as int).push(cs@[i as int]));
        i = i + 1;
    }
    out
}

/// `encode_utf8` distributes over concatenation.
pub proof fn lemma_encode_concat(a: Seq<char>, b: Seq<char>)
    ensures
        vstd::utf8::encode_utf8(a + b) == vstd::utf8::encode_utf8(a) + vstd::utf8::encode_utf8(b),
    decreases a.len(),
{
    if a.len() == 0 {
        assert(a + b =~= b);
        assert(vstd::utf8::encode_utf8(a) =~= Seq::<u8>::empty());
        assert(Seq::<u8>::empty() + vstd::utf8::encode_utf8(b) =~= vstd::utf8::encode_utf8(b));
    } else {
        lemma_encode_concat(a.drop_first(), b);
        assert((a + b).drop_first() =~= a.drop_first() + b);
        assert((a + b)[0] == a[0]);
        let e0 = vstd::utf8::encode_scalar(a[0] as u32);
        assert(vstd::utf8::encode_utf8(a + b) == e0 + vstd::utf8::encode_utf8((a + b).drop_first()));
        assert(vstd::utf8::encode_utf8(a) == e0 + vstd::utf8::encode_utf8(a.drop_first()));
        assert(e0 + (vstd::utf8::encode_utf8(a.drop_first()) + vstd::utf8::encode_utf8(b))
            =~= (e0 + vstd::utf8::encode_utf8(a.drop_first())) + vstd::utf8::encode_utf8(b));
    }
}

/// The encoded length of one character is its width.
pub proof fn lemma_encode_one(c: char)
    ensures
        vstd::utf8::encode_utf8(seq![c]).len() == char_width(c),
{
    broadcast use vstd::utf8::char_is_scalar;
    let s = seq![c];
    assert(s.drop_first() =~= Seq::<char>::empty());
    assert(vstd::utf8::encode_utf8(s.drop_first()) =~= Seq::<u8>::empty());
    assert(s[0] == c);
    assert(vstd::utf8::is_scalar(c as u32));
}

/// Encoded length of a prefix grows by the width of the next character.
pub proof fn lemma_encode_prefix_step(s: Seq<char>, i: int)
    requires
        0 <= i < s.len(),
    ensures
        vstd::utf8::encode_utf8(s.take(i + 1)).len() == vstd::utf8::encode_utf8(s.take(i)).len()
            + char_width(s[i]),
{
    assert(s.take(i + 1) =~= s.take(i) + seq![s[i]]);
    lemma_encode_concat(s.take(i), seq![s[i]]);
    lemma_encode_one(s[i]);
}

/// Encoded length of prefixes is monotone.
pub proof fn lemma_encode_prefix_mono(s: Seq<char>, i: int, j: int)
    requires
        0 <= i <= j <= s.len(),
    ensures
        vstd::utf8::encode_utf8(s.take(i)).len() <= vstd::utf8::encode_utf8(s.take(j)).len(),
    decreases j - i,
{
    if i < j {
        lemma_encode_prefix_step(s, j - 1);
        lemma_encode_prefix_mono(s, i, j - 1);
    }
}


/// A string has at least as many UTF-8 bytes as characters.
pub proof fn lemma_chars_le_bytes(s: Seq<char>, i: int)
    requires
        0 <= i <= s.len(),
    ensures
        i <= vstd::utf8::encode_utf8(s.take(i)).len(),
    decreases i,
{
    if i > 0 {
        lemma_chars_le_bytes(s, i - 1);
        lemma_encode_prefix_step(s, i - 1);
    } else {
        assert(s.take(0) =~= Seq::<char>::empty());
    }
}


/// Byte offset of character index `i` in the UTF-8 encoding of `s`.
pub open spec fn byte_pos(s: Seq<char>, i: int) -> int {
    vstd::utf8::encode_utf8(s.take(i)).len() as int
}

/// A string's characters together with the byte offset of each of them.
pub struct IndexedText {
    pub chars: Vec<char>,
    /// `offs[i]` is the byte offset of `chars[i]`; one extra entry for the end.
    pub offs: Vec<usize>,
}

impl IndexedText {
    pub open spec fn wf(&self) -> bool {
        &&& self.offs.len() == self.chars.len() + 1
        &&& forall|i: int| 0 <= i <= self.chars.len() ==> #[trigger] self.offs@[i] as int == byte_pos(self.chars@, i)
    }
}

/// Index the characters of `s` with their byte offsets.
pub fn index_text(s: &str) -> (r: IndexedText)
    requires
        vstd::utf8::encode_utf8(s@).len() <= usize::MAX,
    ensures
        r.wf(),
        r.chars@ == s@,
{
    let chars = chars_of(s);
    let ghost t = chars@;
    let mut offs: Vec<usize> = Vec::new();
    let mut acc: usize = 0;
    let mut i: usize = 0;
    proof {
        assert(t.take(0) =~= Seq::<char>::empty());
        assert(vstd::utf8::encode_utf8(t.take(0)) =~= Seq::<u8>::empty());
        assert(t.take(t.len() as int) =~= t);
    }
    while i < chars.len()
        invariant
            t == chars@,
            t == s@,
            vstd::utf8::encode_utf8(t).len() <= usize::MAX,
            i <= chars.len(),
            offs.len() == i,
            acc as int == byte_pos(t, i as int),
            forall|k: int| 0 <= k < i ==> #[trigger] offs@[k] as int == byte_pos(t, k),
        decreases chars.len() - i,
    {
        offs.push(acc);
        let w = width_of_char(chars[i]);
        proof {
            lemma_encode_prefix_step(t, i as int);
            lemma_encode_prefix_mono(t, i + 1, t.len() as int);
            assert(t.take(t.len() as int) =~= t);
        }
        acc = acc + w as usize;
        i = i + 1;
    }
    offs.push(acc);
    IndexedText { chars, offs }
}

/// `s` starts with `pat` at index `i`.
pub open spec fn spec_starts_with_at(s: Seq<char>, i: int, pat: Seq<char>) -> bool {
    0 <= i && i + pat.len() <= s.len() && s.subrange(i, i + pat.len()) == pat
}

pub fn starts_with_at(s: &Vec<char>, i: usize, pat: &Vec<char>) -> (r: bool)
    ensures
        r == spec_starts_with_at(s@, i as int, pat@),
{
    if i > s.len() || pat.len() > s.len() - i {
        return false;
    }
    let mut k: usize = 0;
    while k < pat.len()
        invariant
            i + pat.len() <= s.len(),
            k <= pat.len(),
            forall|m: int| 0 <= m < k ==> s@[i + m] == pat@[m],
        decreases pat.len() - k,
    {
        if s[i + k] != pat[k] {
            assert(s@.subrange(i as int, i + pat.len())[k as int] != pat@[k as int]);
            return false;
        }
        k = k + 1;
    }
    assert(s@.subrange(i as int, i + pat.len()) =~= pat@);
    true
}

/// First index at or after `from` holding `c`; the text's length when
/// there is none.
pub open spec fn next_index(cs: Seq<char>, from: int, c: char) -> int
    decreases cs.len() - from,
{
    if from < 0 || from >= cs.len() {
        cs.len() as int
    } else if cs[from] == c {
        from
    } else {
        next_index(cs, from + 1, c)
    }
}

/// `next_index` is the first index holding `c`.
pub proof fn lemma_next_index(cs: Seq<char>, from: int, c: char, p: int)
    requires
        0 <= from <= p <= cs.len(),
        forall|k: int| from <= k < p ==> cs[k] != c,
        p == cs.len() || cs[p] == c,
    ensures
        next_index(cs, from, c) == p,
    decreases p - from,
{
    if from < p {
        lemma_next_index(cs, from + 1, c, p);
    }
}

/// First index at or after `from` holding `c`.
pub fn find_char(s: &Vec<char>, from: usize, c: char) -> (r: Option<usize>)
    ensures
        match r {
            Some(p) => from <= p < s.len() && s@[p as int] == c && forall|k: int|
                from <= k < p ==> s@[k] != c,
            None => forall|k: int| from <= k < s.len() ==> s@[k] != c,
        },
        match r {
            Some(p) => next_index(s@, from as int, c) == p,
            None => next_index(s@, from as int, c) == s.len(),
        },
{
    let mut p = from;
    while p < s.len()
        invariant
            from <= p,
            forall|k: int| from <= k < p ==> s@[k] != c,
        decreases s.len() - p,
    {
        if s[p] == c {
            proof {
                lemma_next_index(s@, from as int, c, p as int);
            }
            return Some(p);
        }
        p = p + 1;
    }
    proof {
        if from <= s.len() {
            lemma_next_index(s@, from as int, c, s.len() as int);
        }
    }
    None
}

/// First index at or after `from` where `pat` starts; the text's length
/// when there is none.
pub open spec fn next_seq(cs: Seq<char>, from: int, pat: Seq<char>) -> int
    decreases cs.len() - from,
{
    if from < 0 || from > cs.len() {
        cs.len() as int
    } else if spec_starts_with_at(cs, from, pat) {
        from
    } else if from == cs.len() {
        cs.len() as int
    } else {
        next_seq(cs, from + 1, pat)
    }
}

/// `next_seq` is the first index where `pat` starts.
pub proof fn lemma_next_seq(cs: Seq<char>, from: int, pat: Seq<char>, p: int)
    requires
        0 <= from <= p <= cs.len(),
        forall|k: int| from <= k < p ==> !spec_starts_with_at(cs, k, pat),
        p == cs.len() || spec_starts_with_at(cs, p, pat),
    ensures
        next_seq(cs, from, pat) == p,
    decreases p - from,
{
    if from < p {
        lemma_next_seq(cs, from + 1, pat, p);
    }
}

/// First index at or after `from` where `pat` starts.
pub fn find_seq(s: &Vec<char>, from: usize, pat: &Vec<char>) -> (r: Option<usize>)
    ensures
        match r {
            Some(p) => from <= p && spec_starts_with_at(s@, p as int, pat@) && forall|k: int|
                from <= k < p ==> !spec_starts_with_at(s@, k, pat@),
            None => forall|k: int| from <= k ==> !spec_starts_with_at(s@, k, pat@),
        },
        match r {
            Some(p) => next_seq(s@, from as int, pat@) == p,
            None => next_seq(s@, from as int, pat@) == s.len(),
        },
{
    let mut p = from;
    loop
        invariant
            forall|k: int| from <= k < p ==> !spec_starts_with_at(s@, k, pat@),
            from <= p,
        decreases s.len() + 1 - p,
    {
        if starts_with_at(s, p, pat) {
            proof {
                lemma_next_seq(s@, from as int, pat@, p as int);
            }
            return Some(p);
        }
        if p >= s.len() {
            assert forall|k: int| from <= k implies !spec_starts_with_at(s@, k, pat@) by {
                if k > p {
                }
            }
            proof {
                if from <= s.len() {
                    lemma_next_seq(s@, from as int, pat@, s.len() as int);
                }
            }
            return None;
        }
        p = p + 1;
    }
}

/// `s[from..to]` contains `pat`.
pub open spec fn spec_contains_in(s: Seq<char>, from: int, to: int, pat: Seq<char>) -> bool {
    exists|k: int| from <= k && k + pat.len() <= to && #[trigger] spec_starts_with_at(s, k, pat)
}

pub fn contains_in(s: &Vec<char>, from: usize, to: usize, pat: &Vec<char>) -> (r: bool)
    requires
        from <= to <= s.len(),
    ensures
        r == spec_contains_in(s@, from as int, to as int, pat@),
{
    if pat.len() > to - from {
        return false;
    }
    let last = to - pat.len();
    let mut p = from;
    while p <= last
        invariant
            from <= p,
            last + pat.len() == to,
            to <= s.len(),
            forall|k: int| from <= k < p ==> !spec_starts_with_at(s@, k, pat@),
        decreases last + 1 - p,
    {
        if starts_with_at(s, p, pat) {
            return true;
        }
        if p == last {
            return false;
        }
        p = p + 1;
    }
    false
}


/// Index of the first occurrence of `pat` in `s` at or after `from`.
pub open spec fn first_occ(s: Seq<char>, pat: Seq<char>, from: int) -> Option<int> {
    if exists|k: int| #![trigger spec_starts_with_at(s, k, pat)] from <= k && spec_starts_with_at(s, k, pat) && forall|m: int|
        from <= m < k ==> !spec_starts_with_at(s, m, pat) {
        Some(
            choose|k: int| #![trigger spec_starts_with_at(s, k, pat)] from <= k && spec_starts_with_at(s, k, pat) && forall|m: int|
                from <= m < k ==> !spec_starts_with_at(s, m, pat),
        )
    } else {
        None
    }
}

pub fn find_first(s: &Vec<char>, from: usize, pat: &Vec<char>) -> (r: Option<usize>)
    ensures
        match r {
            Some(p) => first_occ(s@, pat@, from as int) == Some(p as int) && from <= p
                && spec_starts_with_at(s@, p as int, pat@),
            None => first_occ(s@, pat@, from as int) is None,
        },
{
    let r = find_seq(s, from, pat);
    match r {
        Some(p) => {
            proof {
                let pi = p as int;
                assert(from <= pi && spec_starts_with_at(s@, pi, pat@) && forall|m: int|
                    from <= m < pi ==> !spec_starts_with_at(s@, m, pat@));
                let k = choose|k: int| #![trigger spec_starts_with_at(s@, k, pat@)] from <= k && spec_starts_with_at(s@, k, pat@) && forall|m: int|
                    from <= m < k ==> !spec_starts_with_at(s@, m, pat@);
                if k < pi {
                    assert(!spec_starts_with_at(s@, k, pat@));
                }
                if k > pi {
                    assert(!spec_starts_with_at(s@, pi, pat@));
                }
            }
            Some(p)
        },
        None => None,
    }
}


/// ASCII lower-casing of `cs[from..to]`.
pub fn lower_range(cs: &Vec<char>, from: usize, to: usize) -> (r: Vec<char>)
    requires
        from <= to <= cs.len(),
    ensures
        r@ == spec_ascii_lower_seq(cs@.subrange(from as int, to as int)),
{
    let mut out: Vec<char> = Vec::new();
    let mut i = from;
    while i < to
        invariant
            from <= i <= to <= cs.len(),
            out@ == spec_ascii_lower_seq(cs@.subrange(from as int, i as int)),
        decreases to - i,
    {
        out.push(ascii_lower(cs[i]));
        i = i + 1;
        assert(out@ =~= spec_ascii_lower_seq(cs@.subrange(from as int, i as int)));
    }
    out
}


/// Index of the first `c` at or after `from`; the length when there is
/// none.
pub open spec fn first_index(s: Seq<char>, from: int, c: char) -> int {
    if exists|k: int| from <= k < s.len() && s[k] == c && forall|m: int| from <= m < k ==> s[m] != c {
        choose|k: int| from <= k < s.len() && s[k] == c && forall|m: int| from <= m < k ==> s[m] != c
    } else {
        s.len() as int
    }
}

/// Index of the first `c` at or after `from` (see [`first_index`]).
pub fn find_index(s: &Vec<char>, from: usize, c: char) -> (r: usize)
    requires
        from <= s.len(),
    ensures
        r == first_index(s@, from as int, c),
        from <= r <= s.len(),
{
    match find_char(s, from, c) {
        Some(p) => {
            assert(from <= p < s@.len() && s@[p as int] == c && forall|m: int| from <= m < p ==> s@[m] != c);
            let ghost k = first_index(s@, from as int, c);
            assert(s@[k] == c && forall|m: int| from <= m < k ==> s@[m] != c);
            assert(k == p as int) by {
                if k < p {
                    assert(s@[k] != c);
                } else if k > p {
                    assert(s@[p as int] != c);
                }
            }
            p
        },
        None => s.len(),
    }
}

/// A copy of `cs[from..to]`.
pub fn copy_range(cs: &Vec<char>, from: usize, to: usize) -> (r: Vec<char>)
    requires
        from <= to <= cs.len(),
    ensures
        r@ == cs@.subrange(from as int, to as int),
{
    let mut out: Vec<char> = Vec::new();
    let mut i = from;
    while i < to
        invariant
            from <= i <= to <= cs.len(),
            out@ == cs@.subrange(from as int, i as int),
        decreases to - i,
    {
        out.push(cs[i]);
        i = i + 1;
        assert(out@ =~= cs@.subrange(from as int, i as int));
    }
    out
}

/// Number of line-feed bytes.
pub open spec fn nl_count(bs: Seq<u8>) -> nat
    decreases bs.len(),
{
    if bs.len() == 0 {
        0
    } else {
        nl_count(bs.drop_last()) + if bs.last() == 10u8 {
            1nat
        } else {
            0nat
        }
    }
}

/// Byte index where the last line of `bs` starts.
pub open spec fn line_start_of(bs: Seq<u8>) -> int
    decreases bs.len(),
{
    if bs.len() == 0 {
        0
    } else if bs.last() == 10u8 {
        bs.len() as int
    } else {
        line_start_of(bs.drop_last())
    }
}

/// A line starts within its text, and a text has no more line breaks
/// than bytes.
pub proof fn lemma_line_start_le(bs: Seq<u8>)
    ensures
        0 <= line_start_of(bs) <= bs.len(),
        nl_count(bs) <= bs.len(),
    decreases bs.len(),
{
    if bs.len() > 0 {
        lemma_line_start_le(bs.drop_last());
    }
}

} // verus!
