//! Text helpers on the characters of a string: trimming, splitting, decimal
//! numbers, substring search and the lexicographic order of strings.

use vstd::prelude::*;
use vstd::string::*;

verus! {

// ── characters and whole strings ─────────────────────────────────────────────

/// `String::push` appends the character at the end of the string.
pub assume_specification[ String::push ](s: &mut String, c: char)
    ensures
        final(s)@ == old(s)@.push(c),
;

/// What `str::to_lowercase` makes of a text.
pub uninterp spec fn lowercased(s: Seq<char>) -> Seq<char>;

/// Whether every character of a text is an ASCII character.
pub open spec fn all_ascii(s: Seq<char>) -> bool {
    forall|i: int| 0 <= i < s.len() ==> (#[trigger] s[i] as int) < 128
}

/// An ASCII character in lower case.
pub open spec fn ascii_lower(c: char) -> char {
    if 'A' <= c <= 'Z' {
        (c as int + 32) as char
    } else {
        c
    }
}

/// An ASCII text in lower case.
pub open spec fn ascii_lowered(s: Seq<char>) -> Seq<char> {
    s.map_values(|c: char| ascii_lower(c))
}

/// Calls `str::to_lowercase`; the result is a function of the text alone and
/// goes by the name [`lowercased`]. Every character becomes one or more, so only
/// the empty text becomes empty. Of a text of ASCII characters the result is that
/// text with `A` to `Z` replaced by `a` to `z`.
#[verifier::external_body]
pub(crate) fn to_lowercase(s: &str) -> (r: String)
    ensures
        r@ == lowercased(s@),
        r@.len() == 0 <==> s@.len() == 0,
        all_ascii(s@) ==> r@ == ascii_lowered(s@),
{
    s.to_lowercase()
}

/// What the `{:?}` rendering of a text is: the text in double quotes, escaped.
pub uninterp spec fn debug_quoted(s: Seq<char>) -> Seq<char>;

/// Renders `s` with the `Debug` impl of `str` through `format!`; the result is
/// a function of the text alone and goes by the name [`debug_quoted`].
#[verifier::external_body]
pub(crate) fn quote_debug(s: &str) -> (r: String)
    ensures
        r@ == debug_quoted(s@),
{
    format!("{:?}", s)
}

/// The characters of `s`, in order.
pub fn chars_of(s: &str) -> (v: Vec<char>)
    ensures
        v@ == s@,
{
    let mut v: Vec<char> = Vec::new();
    for c in it: s.chars()
        invariant
            v@ == it.seq().take(it.index() as int),
            it.seq() == s@,
    {
        proof {
            assert(it.seq().take(it.index() + 1) =~= it.seq().take(it.index() as int).push(c));
        }
        v.push(c);
    }
    proof {
        assert(v@ =~= s@);
    }
    v
}

/// The characters `from..to` of `v` as a string.
pub fn string_of(v: &Vec<char>, from: usize, to: usize) -> (r: String)
    requires
        from <= to <= v@.len(),
    ensures
        r@ == v@.subrange(from as int, to as int),
{
    let mut r = String::new();
    let mut i: usize = from;
    while i < to
        invariant
            from <= i <= to <= v@.len(),
            r@ == v@.subrange(from as int, i as int),
        decreases to - i,
    {
        r.push(v[i]);
        i += 1;
        proof {
            assert(r@ =~= v@.subrange(from as int, i as int));
        }
    }
    r
}

/// Whether the two texts are the same.
pub fn str_eq(a: &str, b: &str) -> (r: bool)
    ensures
        r == (a@ == b@),
{
    let x: String = a.to_owned();
    let y: String = b.to_owned();
    x == y
}

/// `a` followed by `b`.
pub fn joined(a: &str, b: &str) -> (r: String)
    ensures
        r@ == a@ + b@,
{
    let mut r: String = a.to_owned();
    r.append(b);
    r
}

/// Whether `t` is one of the strings of `v`.
pub open spec fn has_text(v: Seq<String>, t: Seq<char>) -> bool {
    exists|i: int| 0 <= i < v.len() && (#[trigger] v[i])@ == t
}

/// Whether `t` is one of the strings of `v`.
pub fn contains_text(v: &Vec<String>, t: &str) -> (r: bool)
    ensures
        r == has_text(v@, t@),
{
    let mut i: usize = 0;
    while i < v.len()
        invariant
            i <= v@.len(),
            forall|j: int| 0 <= j < i ==> (#[trigger] v@[j])@ != t@,
        decreases v@.len() - i,
    {
        if str_eq(v[i].as_str(), t) {
            return true;
        }
        i += 1;
    }
    false
}

/// The characters of each string.
pub open spec fn texts(v: Seq<String>) -> Seq<Seq<char>> {
    v.map_values(|s: String| s@)
}

/// The parts one after the other, with `sep` between them.
pub open spec fn join_texts(parts: Seq<Seq<char>>, sep: Seq<char>) -> Seq<char>
    decreases parts.len(),
{
    if parts.len() == 0 {
        Seq::empty()
    } else if parts.len() == 1 {
        parts[0]
    } else {
        join_texts(parts.drop_last(), sep) + sep + parts.last()
    }
}

/// The parts one after the other, with `sep` between them.
pub fn join(parts: &Vec<String>, sep: &str) -> (r: String)
    ensures
        r@ == join_texts(texts(parts@), sep@),
{
    let mut r = String::new();
    let ghost all = texts(parts@);
    let mut i: usize = 0;
    while i < parts.len()
        invariant
            i <= parts@.len(),
            all == texts(parts@),
            r@ == join_texts(all.take(i as int), sep@),
        decreases parts@.len() - i,
    {
        proof {
            assert(all.take(i + 1).drop_last() =~= all.take(i as int));
            assert(all.take(i + 1).last() == parts@[i as int]@);
        }
        if i > 0 {
            r.append(sep);
        } else {
            assert(r@ + parts@[0]@ =~= parts@[0]@);
        }
        r.append(parts[i].as_str());
        i += 1;
    }
    proof {
        assert(all.take(all.len() as int) =~= all);
    }
    r
}

// ── trimming ─────────────────────────────────────────────────────────────────

/// The Unicode `White_Space` characters.
pub open spec fn is_white_space(c: char) -> bool {
    ||| '\u{9}' <= c <= '\u{d}'
    ||| c == '\u{20}'
    ||| c == '\u{85}'
    ||| c == '\u{a0}'
    ||| c == '\u{1680}'
    ||| '\u{2000}' <= c <= '\u{200a}'
    ||| c == '\u{2028}'
    ||| c == '\u{2029}'
    ||| c == '\u{202f}'
    ||| c == '\u{205f}'
    ||| c == '\u{3000}'
}

/// What [`trim`] takes off both ends of a text.
#[derive(Clone, Copy, PartialEq, Eq, Structural, Debug)]
pub enum Fringe {
    Space,
    Slash,
}

impl Fringe {
    pub open spec fn has(self, c: char) -> bool {
        match self {
            Fringe::Space => is_white_space(c),
            Fringe::Slash => c == '/',
        }
    }

    pub fn covers(self, c: char) -> (r: bool)
        ensures
            r == self.has(c),
    {
        match self {
            Fringe::Space => {
                ('\u{9}' <= c && c <= '\u{d}') || c == '\u{20}' || c == '\u{85}' || c == '\u{a0}'
                    || c == '\u{1680}' || ('\u{2000}' <= c && c <= '\u{200a}') || c == '\u{2028}'
                    || c == '\u{2029}' || c == '\u{202f}' || c == '\u{205f}' || c == '\u{3000}'
            },
            Fringe::Slash => c == '/',
        }
    }
}

/// `s` without its leading characters of the fringe.
pub open spec fn trim_left(s: Seq<char>, f: Fringe) -> Seq<char>
    decreases s.len(),
{
    if s.len() > 0 && f.has(s[0]) {
        trim_left(s.drop_first(), f)
    } else {
        s
    }
}

/// `s` without its trailing characters of the fringe.
pub open spec fn trim_right(s: Seq<char>, f: Fringe) -> Seq<char>
    decreases s.len(),
{
    if s.len() > 0 && f.has(s.last()) {
        trim_right(s.drop_last(), f)
    } else {
        s
    }
}

/// `s` without the characters of the fringe at either end.
pub open spec fn trimmed(s: Seq<char>, f: Fringe) -> Seq<char> {
    trim_right(trim_left(s, f), f)
}

/// What is trimmed does not depend on the fringe characters at either end.
pub proof fn lemma_trim_padded(left: Seq<char>, s: Seq<char>, right: Seq<char>, f: Fringe)
    requires
        forall|i: int| 0 <= i < left.len() ==> f.has(#[trigger] left[i]),
        forall|i: int| 0 <= i < right.len() ==> f.has(#[trigger] right[i]),
        s.len() > 0 && !f.has(s[0]) && !f.has(s.last()),
    ensures
        trimmed(left + s + right, f) == s,
    decreases left.len() + right.len(),
{
    let t = left + s + right;
    if left.len() > 0 {
        assert(t.drop_first() =~= left.drop_first() + s + right);
        assert(t[0] == left[0]);
        lemma_trim_padded(left.drop_first(), s, right, f);
    } else if right.len() > 0 {
        lemma_trim_padded(left, s, right.drop_last(), f);
        assert(t =~= s + right);
        assert(left + s + right.drop_last() =~= s + right.drop_last());
        assert(t.drop_last() =~= s + right.drop_last());
        assert(t[0] == s[0]);
        assert((s + right.drop_last())[0] == s[0]);
        assert(t.last() == right.last());
    } else {
        assert(t =~= s);
    }
}

/// What is left after trimming is a stretch of the text.
pub proof fn lemma_trimmed_within(s: Seq<char>, f: Fringe)
    ensures
        exists|a: int, b: int|
            0 <= a <= b <= s.len() && #[trigger] s.subrange(a, b) == trimmed(s, f),
    decreases s.len(),
{
    if s.len() > 0 && f.has(s[0]) {
        let d = s.drop_first();
        lemma_trimmed_within(d, f);
        let (a, b) = choose|a: int, b: int|
            0 <= a <= b <= d.len() && #[trigger] d.subrange(a, b) == trimmed(d, f);
        assert(s.subrange(a + 1, b + 1) =~= d.subrange(a, b));
    } else if s.len() > 0 && f.has(s.last()) {
        let d = s.drop_last();
        lemma_trimmed_within(d, f);
        let (a, b) = choose|a: int, b: int|
            0 <= a <= b <= d.len() && #[trigger] d.subrange(a, b) == trimmed(d, f);
        assert(trim_left(d, f) == d) by {
            if d.len() > 0 {
                assert(d[0] == s[0]);
            }
        }
        assert(s.subrange(a, b) =~= d.subrange(a, b));
    } else {
        assert(s.subrange(0, s.len() as int) =~= s);
    }
}

/// `s` without the characters of the fringe at either end.
pub fn trim(s: &str, f: Fringe) -> (r: String)
    ensures
        r@ == trimmed(s@, f),
{
    let v = chars_of(s);
    let n: usize = v.len();
    let mut lo: usize = 0;
    proof {
        assert(v@.subrange(0, n as int) =~= v@);
    }
    while lo < n && f.covers(v[lo])
        invariant
            lo <= n == v@.len(),
            trim_left(v@.subrange(lo as int, n as int), f) == trim_left(v@, f),
        decreases n - lo,
    {
        proof {
            let t = v@.subrange(lo as int, n as int);
            assert(t.drop_first() =~= v@.subrange(lo + 1, n as int));
        }
        lo += 1;
    }
    let ghost mid = v@.subrange(lo as int, n as int);
    let mut hi: usize = n;
    while hi > lo && f.covers(v[hi - 1])
        invariant
            lo <= hi <= n == v@.len(),
            mid == trim_left(v@, f),
            trim_right(v@.subrange(lo as int, hi as int), f) == trim_right(mid, f),
        decreases hi,
    {
        proof {
            let t = v@.subrange(lo as int, hi as int);
            assert(t.drop_last() =~= v@.subrange(lo as int, hi - 1));
        }
        hi -= 1;
    }
    string_of(&v, lo, hi)
}

// ── prefixes and substrings ──────────────────────────────────────────────────

/// Whether `needle` stands in `hay` at position `i`.
pub open spec fn occurs_at(hay: Seq<char>, needle: Seq<char>, i: int) -> bool {
    &&& 0 <= i
    &&& i + needle.len() <= hay.len()
    &&& hay.subrange(i, i + needle.len()) == needle
}

/// Whether `needle` is a substring of `hay`.
pub open spec fn has_substring(hay: Seq<char>, needle: Seq<char>) -> bool {
    exists|i: int| #[trigger] occurs_at(hay, needle, i)
}

/// Whether `hay` starts with `prefix`.
pub open spec fn starts_with(hay: Seq<char>, prefix: Seq<char>) -> bool {
    occurs_at(hay, prefix, 0)
}

/// Whether `needle` stands in `hay` at position `at`.
pub fn stands_at(hay: &Vec<char>, needle: &Vec<char>, at: usize) -> (r: bool)
    ensures
        r == occurs_at(hay@, needle@, at as int),
{
    let n: usize = hay.len();
    if needle.len() > n || at > n - needle.len() {
        return false;
    }
    let mut j: usize = 0;
    while j < needle.len()
        invariant
            j <= needle@.len(),
            at + needle@.len() <= hay@.len() <= usize::MAX,
            forall|k: int| 0 <= k < j ==> hay@[at + k] == #[trigger] needle@[k],
        decreases needle@.len() - j,
    {
        if hay[at + j] != needle[j] {
            proof {
                assert(hay@.subrange(at as int, at + needle@.len())[j as int] != needle@[j as int]);
            }
            return false;
        }
        j += 1;
    }
    proof {
        assert(hay@.subrange(at as int, at + needle@.len()) =~= needle@);
    }
    true
}

/// The first position from `from` on at which `needle` stands in `hay`.
pub fn find_from(hay: &Vec<char>, needle: &Vec<char>, from: usize) -> (r: Option<usize>)
    requires
        from <= hay@.len(),
    ensures
        match r {
            Some(i) => {
                &&& from <= i
                &&& occurs_at(hay@, needle@, i as int)
                &&& forall|j: int| from <= j < i ==> !#[trigger] occurs_at(hay@, needle@, j)
            },
            None => forall|j: int| from <= j ==> !#[trigger] occurs_at(hay@, needle@, j),
        },
{
    let mut i: usize = from;
    while i < hay.len()
        invariant
            from <= i <= hay@.len(),
            forall|j: int| from <= j < i ==> !#[trigger] occurs_at(hay@, needle@, j),
        decreases hay@.len() - i,
    {
        if stands_at(hay, needle, i) {
            return Some(i);
        }
        i += 1;
    }
    if needle.len() == 0 {
        proof {
            assert(hay@.subrange(i as int, i as int) =~= needle@);
        }
        return Some(i);
    }
    None
}

/// Whether `needle` is a substring of `hay`.
pub fn contains(hay: &str, needle: &str) -> (r: bool)
    ensures
        r == has_substring(hay@, needle@),
{
    let h = chars_of(hay);
    let n = chars_of(needle);
    match find_from(&h, &n, 0) {
        Some(i) => {
            proof {
                assert(occurs_at(hay@, needle@, i as int));
            }
            true
        },
        None => false,
    }
}

/// Whether `hay` starts with `prefix`.
pub fn has_prefix(hay: &str, prefix: &str) -> (r: bool)
    ensures
        r == starts_with(hay@, prefix@),
{
    let h = chars_of(hay);
    let p = chars_of(prefix);
    stands_at(&h, &p, 0)
}

/// The position of the first `sep` in `s`, or `None`.
pub open spec fn is_first(s: Seq<char>, sep: Seq<char>, at: int) -> bool {
    &&& occurs_at(s, sep, at)
    &&& forall|j: int| 0 <= j < at ==> !#[trigger] occurs_at(s, sep, j)
}

/// What follows the first `sep` in `s`, or `otherwise` where there is none.
pub open spec fn after_first(s: Seq<char>, sep: Seq<char>, otherwise: Seq<char>) -> Seq<char> {
    if has_substring(s, sep) {
        let at = choose|at: int| is_first(s, sep, at);
        s.subrange(at + sep.len(), s.len() as int)
    } else {
        otherwise
    }
}

/// What stands before the first `sep` in `s`, or all of it where there is none.
pub open spec fn before_first(s: Seq<char>, sep: Seq<char>) -> Seq<char> {
    if has_substring(s, sep) {
        let at = choose|at: int| is_first(s, sep, at);
        s.subrange(0, at)
    } else {
        s
    }
}

proof fn lemma_first_unique(s: Seq<char>, sep: Seq<char>, a: int, b: int)
    requires
        is_first(s, sep, a),
        is_first(s, sep, b),
    ensures
        a == b,
{
    if a < b {
        assert(!occurs_at(s, sep, a));
    }
    if b < a {
        assert(!occurs_at(s, sep, b));
    }
}

/// What stands before and after the first `sep`, where its place is known.
pub proof fn lemma_first_at(s: Seq<char>, sep: Seq<char>, at: int, otherwise: Seq<char>)
    requires
        is_first(s, sep, at),
    ensures
        after_first(s, sep, otherwise) == s.subrange(at + sep.len(), s.len() as int),
        before_first(s, sep) == s.subrange(0, at),
{
    let first = choose|first: int| is_first(s, sep, first);
    lemma_first_unique(s, sep, at, first);
}

/// What follows the first `sep` in `s`, or `None` where there is none.
pub fn split_after(s: &str, sep: &str) -> (r: Option<String>)
    ensures
        r is Some <==> has_substring(s@, sep@),
        r is Some ==> forall|o: Seq<char>| r->0@ == #[trigger] after_first(s@, sep@, o),
{
    let v = chars_of(s);
    let p = chars_of(sep);
    match find_from(&v, &p, 0) {
        Some(i) => {
            proof {
                assert(is_first(s@, sep@, i as int));
                let at = choose|at: int| is_first(s@, sep@, at);
                lemma_first_unique(s@, sep@, i as int, at);
            }
            let n: usize = v.len();
            assert(i + p@.len() <= n);
            Some(string_of(&v, i + p.len(), n))
        },
        None => None,
    }
}

/// What stands before the first `sep` in `s`, or all of it where there is none.
pub fn split_before(s: &str, sep: &str) -> (r: String)
    ensures
        r@ == before_first(s@, sep@),
{
    let v = chars_of(s);
    let p = chars_of(sep);
    match find_from(&v, &p, 0) {
        Some(i) => {
            proof {
                assert(is_first(s@, sep@, i as int));
                let at = choose|at: int| is_first(s@, sep@, at);
                lemma_first_unique(s@, sep@, i as int, at);
            }
            string_of(&v, 0, i)
        },
        None => s.to_owned(),
    }
}

/// What follows the last `/` of `s`, or all of it where there is none.
pub open spec fn last_segment(s: Seq<char>) -> Seq<char>
    decreases s.len(),
{
    if s.len() == 0 || s.last() == '/' {
        Seq::empty()
    } else {
        last_segment(s.drop_last()).push(s.last())
    }
}

/// What follows the last `/` of `s`, or all of it where there is none.
pub fn last_path_segment(s: &str) -> (r: Vec<char>)
    ensures
        r@ == last_segment(s@),
{
    let v = chars_of(s);
    let mut r: Vec<char> = Vec::new();
    let mut i: usize = 0;
    while i < v.len()
        invariant
            i <= v@.len(),
            r@ == last_segment(v@.take(i as int)),
        decreases v@.len() - i,
    {
        proof {
            assert(v@.take(i + 1).drop_last() =~= v@.take(i as int));
        }
        if v[i] == '/' {
            r = Vec::new();
        } else {
            r.push(v[i]);
        }
        i += 1;
    }
    proof {
        assert(v@.take(v@.len() as int) =~= v@);
    }
    r
}

// ── decimal numbers ──────────────────────────────────────────────────────────

/// The decimal digit of `d`.
pub open spec fn digit(d: nat) -> char {
    (48 + d) as char
}

/// The decimal representation of `n`, without leading zeros.
pub open spec fn decimal(n: nat) -> Seq<char>
    decreases n,
{
    if n < 10 {
        seq![digit(n)]
    } else {
        decimal(n / 10).push(digit(n % 10))
    }
}

/// The decimal representation of `i`, with a leading `-` below zero.
pub open spec fn int_text(i: int) -> Seq<char> {
    if i < 0 {
        seq!['-'] + decimal((-i) as nat)
    } else {
        decimal(i as nat)
    }
}

pub open spec fn is_digit(c: char) -> bool {
    '0' <= c <= '9'
}

pub open spec fn all_digits(s: Seq<char>) -> bool {
    forall|i: int| 0 <= i < s.len() ==> is_digit(#[trigger] s[i])
}

/// The number that the digits of `s` write.
pub open spec fn digits_value(s: Seq<char>) -> nat
    decreases s.len(),
{
    if s.len() == 0 {
        0
    } else {
        digits_value(s.drop_last()) * 10 + ((s.last() as int) - 48) as nat
    }
}

/// Reading back the decimal representation of a number gives the number.
pub proof fn law_decimal_reads_back(n: nat)
    ensures
        decimal(n).len() > 0,
        all_digits(decimal(n)),
        digits_value(decimal(n)) == n,
    decreases n,
{
    if n < 10 {
        assert(decimal(n).drop_last() =~= Seq::<char>::empty());
        assert(digits_value(decimal(n).drop_last()) == 0);
    } else {
        law_decimal_reads_back(n / 10);
        let d = decimal(n / 10);
        assert(decimal(n) == d.push(digit(n % 10)));
        assert(d.push(digit(n % 10)).drop_last() =~= d);
        assert(digits_value(decimal(n)) == digits_value(d) * 10 + n % 10);
    }
}

fn digit_char(d: u64) -> (c: char)
    requires
        d < 10,
    ensures
        c == digit(d as nat),
{
    match d {
        0 => '0',
        1 => '1',
        2 => '2',
        3 => '3',
        4 => '4',
        5 => '5',
        6 => '6',
        7 => '7',
        8 => '8',
        _ => '9',
    }
}

/// Appends the decimal representation of `n` to `out`.
pub fn push_u64(out: &mut String, n: u64)
    ensures
        final(out)@ == old(out)@ + decimal(n as nat),
    decreases n,
{
    let ghost before = out@;
    if n < 10 {
        out.push(digit_char(n));
        proof {
            assert(out@ =~= before + decimal(n as nat));
        }
    } else {
        push_u64(out, n / 10);
        out.push(digit_char(n % 10));
        proof {
            assert(out@ =~= before + decimal(n as nat));
        }
    }
}

/// The decimal representation of `n`.
pub fn u64_text(n: u64) -> (r: String)
    ensures
        r@ == decimal(n as nat),
{
    let mut r = String::new();
    push_u64(&mut r, n);
    proof {
        assert(r@ =~= decimal(n as nat));
    }
    r
}

/// The decimal representation of `i`.
pub fn i64_text(i: i64) -> (r: String)
    ensures
        r@ == int_text(i as int),
{
    if i < 0 {
        let mut r = String::new();
        r.push('-');
        let m: u64 = if i == i64::MIN {
            9223372036854775808u64
        } else {
            (-i) as u64
        };
        push_u64(&mut r, m);
        proof {
            assert(m == -i);
            assert(r@ =~= int_text(i as int));
        }
        r
    } else {
        u64_text(i as u64)
    }
}

/// The number that the characters from `from` on write in decimal, or `None`
/// where there are none, one is no digit, or the number exceeds `max`.
pub fn read_digits(v: &Vec<char>, from: usize, max: u64) -> (r: Option<u64>)
    requires
        from <= v@.len(),
    ensures
        ({
            let s = v@.subrange(from as int, v@.len() as int);
            if s.len() > 0 && all_digits(s) && digits_value(s) <= max {
                r == Some(digits_value(s) as u64)
            } else {
                r is None
            }
        }),
{
    let ghost s = v@.subrange(from as int, v@.len() as int);
    if from == v.len() {
        return None;
    }
    let mut n: u64 = 0;
    let mut i: usize = from;
    while i < v.len()
        invariant
            from <= i <= v@.len(),
            s == v@.subrange(from as int, v@.len() as int),
            all_digits(s.take(i - from)),
            n == digits_value(s.take(i - from)),
            n <= max,
        decreases v@.len() - i,
    {
        let c = v[i];
        proof {
            let t = s.take(i - from + 1);
            assert(s[i - from] == c);
            assert(t.drop_last() =~= s.take(i - from));
            assert(t.last() == c);
        }
        if !('0' <= c && c <= '9') {
            return None;
        }
        let d: u64 = (c as u32 - 48) as u64;
        let ghost t = s.take(i - from + 1);
        assert(digits_value(t) == n * 10 + d);
        let fits: bool = n < max / 10 || (n == max / 10 && d <= max % 10);
        if !fits {
            proof {
                assert(n * 10 + d > max);
                if all_digits(s) {
                    lemma_value_grows(s, i - from + 1);
                }
            }
            return None;
        }
        n = n * 10 + d;
        i += 1;
        proof {
            assert forall|k: int| 0 <= k < t.len() implies is_digit(#[trigger] t[k]) by {
                if k < t.len() - 1 {
                    assert(s.take(t.len() - 1)[k] == t[k]);
                }
            }
        }
    }
    proof {
        assert(s.take(s.len() as int) =~= s);
    }
    Some(n)
}

proof fn lemma_value_grows(s: Seq<char>, k: int)
    requires
        0 <= k <= s.len(),
        all_digits(s),
    ensures
        digits_value(s.take(k)) <= digits_value(s),
    decreases s.len() - k,
{
    if k == s.len() {
        assert(s.take(k) =~= s);
    } else {
        lemma_value_grows(s, k + 1);
        let t = s.take(k + 1);
        assert(t.drop_last() =~= s.take(k));
        assert(t.last() == s[k]);
        assert(is_digit(s[k]));
    }
}

/// The number that `s` writes with an optional leading `+`, up to `max`.
pub open spec fn unsigned_in(s: Seq<char>, max: nat) -> Option<nat> {
    let t = if s.len() > 0 && s[0] == '+' {
        s.skip(1)
    } else {
        s
    };
    if t.len() > 0 && all_digits(t) && digits_value(t) <= max {
        Some(digits_value(t))
    } else {
        None
    }
}

/// The number that `s` writes with an optional leading sign.
pub open spec fn signed_in(s: Seq<char>) -> Option<int> {
    if s.len() > 0 && s[0] == '-' {
        let t = s.skip(1);
        if t.len() > 0 && all_digits(t) && digits_value(t) <= 9223372036854775808 {
            Some(-(digits_value(t) as int))
        } else {
            None
        }
    } else {
        match unsigned_in(s, i64::MAX as nat) {
            Some(n) => Some(n as int),
            None => None,
        }
    }
}

/// The number that `v` writes with an optional leading `+`.
pub fn read_u64(v: &Vec<char>) -> (r: Option<u64>)
    ensures
        match r {
            Some(n) => unsigned_in(v@, u64::MAX as nat) == Some(n as nat),
            None => unsigned_in(v@, u64::MAX as nat) is None,
        },
{
    let plus: bool = v.len() > 0 && v[0] == '+';
    let from: usize = if plus {
        1
    } else {
        0
    };
    proof {
        assert(v@.subrange(0, v@.len() as int) =~= v@);
        if plus {
            assert(v@.subrange(1, v@.len() as int) =~= v@.skip(1));
        }
    }
    read_digits(v, from, u64::MAX)
}

/// The number that `v` writes with an optional leading sign.
pub fn read_i64(v: &Vec<char>) -> (r: Option<i64>)
    ensures
        match r {
            Some(n) => signed_in(v@) == Some(n as int),
            None => signed_in(v@) is None,
        },
{
    proof {
        assert(v@.subrange(0, v@.len() as int) =~= v@);
        if v@.len() > 0 {
            assert(v@.subrange(1, v@.len() as int) =~= v@.skip(1));
        }
    }
    if v.len() > 0 && v[0] == '-' {
        match read_digits(v, 1, 9223372036854775808u64) {
            Some(m) => {
                if m == 9223372036854775808u64 {
                    Some(i64::MIN)
                } else {
                    Some(-(m as i64))
                }
            },
            None => None,
        }
    } else {
        let from: usize = if v.len() > 0 && v[0] == '+' {
            1
        } else {
            0
        };
        match read_digits(v, from, 9223372036854775807u64) {
            Some(m) => Some(m as i64),
            None => None,
        }
    }
}

// ── order ────────────────────────────────────────────────────────────────────

/// The lexicographic order of texts by code point: `a` comes strictly before `b`.
pub open spec fn text_before(a: Seq<char>, b: Seq<char>) -> bool
    decreases a.len(),
{
    if b.len() == 0 {
        false
    } else if a.len() == 0 {
        true
    } else if a[0] == b[0] {
        text_before(a.drop_first(), b.drop_first())
    } else {
        a[0] < b[0]
    }
}

/// Whether `a` comes strictly before `b` in the order of strings.
pub fn str_before(a: &str, b: &str) -> (r: bool)
    ensures
        r == text_before(a@, b@),
{
    let x = chars_of(a);
    let y = chars_of(b);
    let mut i: usize = 0;
    proof {
        assert(x@.skip(0) =~= x@);
        assert(y@.skip(0) =~= y@);
    }
    while i < x.len() && i < y.len()
        invariant
            i <= x@.len(),
            i <= y@.len(),
            x@ == a@,
            y@ == b@,
            text_before(a@, b@) == text_before(x@.skip(i as int), y@.skip(i as int)),
        decreases x@.len() - i,
    {
        proof {
            assert(x@.skip(i as int).drop_first() =~= x@.skip(i + 1));
            assert(y@.skip(i as int).drop_first() =~= y@.skip(i + 1));
        }
        if x[i] != y[i] {
            return x[i] < y[i];
        }
        i += 1;
    }
    i < y.len()
}

/// `text_before` is a strict total order on texts.
pub proof fn law_text_order(a: Seq<char>, b: Seq<char>, c: Seq<char>)
    ensures
        !text_before(a, a),
        text_before(a, b) && text_before(b, c) ==> text_before(a, c),
        text_before(a, b) || text_before(b, a) || a == b,
        !(text_before(a, b) && text_before(b, a)),
    decreases a.len() + b.len() + c.len(),
{
    if a.len() > 0 {
        let c1 = if c.len() > 0 { c.drop_first() } else { c };
        let b1 = if b.len() > 0 { b.drop_first() } else { b };
        law_text_order(a.drop_first(), b1, c1);
        if b.len() > 0 && a[0] == b[0] && a.drop_first() == b.drop_first() {
            assert(a =~= seq![a[0]] + a.drop_first());
            assert(b =~= seq![b[0]] + b.drop_first());
        }
    } else {
        if b.len() == 0 {
            assert(a =~= b);
        }
    }
}

/// Of texts neither of which comes before the next, the first does not come
/// before the last.
pub proof fn lemma_text_weak_order(a: Seq<char>, b: Seq<char>, c: Seq<char>)
    ensures
        !(text_before(a, b) && text_before(b, a)),
        !text_before(a, b) && !text_before(b, c) ==> !text_before(a, c),
{
    law_text_order(a, b, c);
    law_text_order(b, a, c);
    law_text_order(b, c, a);
    law_text_order(c, b, a);
    law_text_order(a, c, b);
}

/// Blanks, tabs and line ends are white space, and no printable ASCII character is.
pub proof fn law_white_space(c: char)
    ensures
        is_white_space(' '),
        is_white_space('\t'),
        is_white_space('\n'),
        is_white_space('\r'),
        '!' <= c <= '~' ==> !is_white_space(c),
{
}

proof fn lemma_trim_left_split(s: Seq<char>, f: Fringe) -> (left: Seq<char>)
    ensures
        s == left + trim_left(s, f),
        forall|i: int| 0 <= i < left.len() ==> f.has(#[trigger] left[i]),
        trim_left(s, f).len() > 0 ==> !f.has(trim_left(s, f)[0]),
    decreases s.len(),
{
    if s.len() > 0 && f.has(s[0]) {
        let rest = lemma_trim_left_split(s.drop_first(), f);
        let left = seq![s[0]] + rest;
        assert(s =~= left + trim_left(s, f)) by {
            assert(s =~= seq![s[0]] + s.drop_first());
        }
        left
    } else {
        assert(s =~= Seq::<char>::empty() + s);
        Seq::empty()
    }
}

proof fn lemma_trim_right_split(s: Seq<char>, f: Fringe) -> (right: Seq<char>)
    ensures
        s == trim_right(s, f) + right,
        forall|i: int| 0 <= i < right.len() ==> f.has(#[trigger] right[i]),
        trim_right(s, f).len() > 0 ==> !f.has(trim_right(s, f).last()),
        trim_right(s, f).len() > 0 ==> trim_right(s, f)[0] == s[0],
    decreases s.len(),
{
    if s.len() > 0 && f.has(s.last()) {
        let rest = lemma_trim_right_split(s.drop_last(), f);
        let right = rest.push(s.last());
        assert(s =~= trim_right(s, f) + right) by {
            assert(s =~= s.drop_last().push(s.last()));
        }
        right
    } else {
        assert(s =~= s + Seq::<char>::empty());
        Seq::empty()
    }
}

/// Trimming takes off both ends all that may be taken off, and nothing else.
pub proof fn law_trimming(s: Seq<char>, f: Fringe)
    ensures
        exists|left: Seq<char>, right: Seq<char>|
            s == #[trigger] (left + trimmed(s, f) + right) && (forall|i: int|
                0 <= i < left.len() ==> f.has(#[trigger] left[i])) && (forall|i: int|
                0 <= i < right.len() ==> f.has(#[trigger] right[i])),
        trimmed(s, f).len() > 0 ==> !f.has(trimmed(s, f)[0]) && !f.has(trimmed(s, f).last()),
{
    let t = trim_left(s, f);
    let left = lemma_trim_left_split(s, f);
    let right = lemma_trim_right_split(t, f);
    assert(left + trimmed(s, f) + right =~= s);
}

/// Numbers are written in base ten: the last digit is the remainder by ten, and
/// what stands before it is the rest.
pub proof fn law_decimal_is_base_ten(n: nat)
    ensures
        decimal(n).last() as int == '0' as int + n % 10,
        n >= 10 ==> decimal(n).drop_last() == decimal(n / 10),
        n < 10 ==> decimal(n).len() == 1,
{
    if n >= 10 {
        assert(decimal(n).drop_last() =~= decimal(n / 10));
    }
}

/// A number is read back from its decimal form, with a sign where it is below
/// zero, as long as it is in range.
pub proof fn law_numbers_read_back(n: nat, max: nat, i: int)
    ensures
        n <= max ==> unsigned_in(decimal(n), max) == Some(n),
        n > max ==> unsigned_in(decimal(n), max) is None,
        i64::MIN <= i <= i64::MAX ==> signed_in(int_text(i)) == Some(i),
        unsigned_in(Seq::empty(), max) is None,
        signed_in(Seq::empty()) is None,
{
    law_decimal_reads_back(n);
    assert(is_digit(decimal(n)[0]));
    if i < 0 {
        let m = (-i) as nat;
        law_decimal_reads_back(m);
        let s = int_text(i);
        assert(s.skip(1) =~= decimal(m));
    } else {
        law_decimal_reads_back(i as nat);
        assert(is_digit(decimal(i as nat)[0]));
    }
}

/// Texts are ordered by the first character in which they differ, and a text comes
/// before every longer one that starts with it.
pub proof fn law_text_order_is_lexicographic(
    prefix: Seq<char>,
    a: char,
    b: char,
    x: Seq<char>,
    y: Seq<char>,
)
    ensures
        a != b ==> (text_before(prefix + seq![a] + x, prefix + seq![b] + y) <==> a < b),
        x.len() > 0 ==> text_before(prefix, prefix + x),
        !text_before(prefix + x, prefix),
    decreases prefix.len(),
{
    if prefix.len() == 0 {
        assert((prefix + seq![a] + x)[0] == a);
        assert((prefix + seq![b] + y)[0] == b);
    } else {
        let rest = prefix.drop_first();
        law_text_order_is_lexicographic(rest, a, b, x, y);
        assert((prefix + seq![a] + x).drop_first() =~= rest + seq![a] + x);
        assert((prefix + seq![b] + y).drop_first() =~= rest + seq![b] + y);
        assert((prefix + x).drop_first() =~= rest + x);
    }
}

/// Parts are joined in order, with the separator between any two of them and
/// nowhere else.
pub proof fn law_joining(parts: Seq<Seq<char>>, last: Seq<char>, sep: Seq<char>)
    ensures
        join_texts(Seq::empty(), sep).len() == 0,
        join_texts(seq![last], sep) == last,
        parts.len() > 0 ==> join_texts(parts.push(last), sep) == join_texts(parts, sep) + sep + last,
{
    assert(parts.push(last).drop_last() =~= parts);
}

} // verus!
