//! Text as sequences of characters: the vocabulary in which the emitters and
//! parsers of this crate state what they produce and accept.

use vstd::prelude::*;
use vstd::string::*;

verus! {

/// `String::push` appends one character.
pub assume_specification[ std::string::String::push ](s: &mut std::string::String, c: char)
    ensures
        final(s)@ == old(s)@.push(c),
;

/// The text in quotes, with its special characters escaped.
pub uninterp spec fn debug_text(s: Seq<char>) -> Seq<char>;

/// The `Debug` form of `str`: the text in quotes, with its special characters
/// escaped. Which characters are escaped is not stated.
#[verifier::external_body]
pub(crate) fn debug_string(s: &str) -> (r: String)
    ensures
        r@ == debug_text(s@),
{
    format!("{:?}", s)
}

// ---- models ---------------------------------------------------------------

/// The contents of a list of strings.
pub open spec fn views(v: Seq<String>) -> Seq<Seq<char>> {
    Seq::new(v.len(), |i: int| v[i]@)
}

/// The content of an optional string.
pub open spec fn opt_view(o: Option<String>) -> Option<Seq<char>> {
    match o {
        Some(s) => Some(s@),
        None => None,
    }
}

/// Unicode `White_Space`.
pub open spec fn is_space(c: char) -> bool {
    let n = c as int;
    ||| 9 <= n <= 13
    ||| n == 0x20
    ||| n == 0x85
    ||| n == 0xa0
    ||| n == 0x1680
    ||| 0x2000 <= n <= 0x200a
    ||| n == 0x2028
    ||| n == 0x2029
    ||| n == 0x202f
    ||| n == 0x205f
    ||| n == 0x3000
}

/// `s` without its leading white space.
pub open spec fn trim_start(s: Seq<char>) -> Seq<char>
    decreases s.len(),
{
    if s.len() > 0 && is_space(s[0]) {
        trim_start(s.drop_first())
    } else {
        s
    }
}

/// `s` without its trailing white space.
pub open spec fn trim_end(s: Seq<char>) -> Seq<char>
    decreases s.len(),
{
    if s.len() > 0 && is_space(s.last()) {
        trim_end(s.drop_last())
    } else {
        s
    }
}

/// `s` without white space at either end.
pub open spec fn trim(s: Seq<char>) -> Seq<char> {
    trim_end(trim_start(s))
}

/// `s` without the run of `c` at its start.
pub open spec fn trim_start_char(s: Seq<char>, c: char) -> Seq<char>
    decreases s.len(),
{
    if s.len() > 0 && s[0] == c {
        trim_start_char(s.drop_first(), c)
    } else {
        s
    }
}

/// `s` without the run of `c` at its end.
pub open spec fn trim_end_char(s: Seq<char>, c: char) -> Seq<char>
    decreases s.len(),
{
    if s.len() > 0 && s.last() == c {
        trim_end_char(s.drop_last(), c)
    } else {
        s
    }
}

/// `p` stands in `s` at position `i`.
pub open spec fn matches_at(s: Seq<char>, p: Seq<char>, i: int) -> bool {
    0 <= i && i + p.len() <= s.len() && s.subrange(i, i + p.len()) == p
}

pub open spec fn starts_with(s: Seq<char>, p: Seq<char>) -> bool {
    matches_at(s, p, 0)
}

pub open spec fn ends_with(s: Seq<char>, p: Seq<char>) -> bool {
    matches_at(s, p, s.len() - p.len())
}

/// `p` stands somewhere in `s`.
pub open spec fn contains(s: Seq<char>, p: Seq<char>) -> bool {
    exists|i: int| matches_at(s, p, i)
}

/// The first position at or after `i` where `p` stands in `s`.
pub open spec fn find_from(s: Seq<char>, p: Seq<char>, i: int) -> Option<int>
    decreases s.len() + 1 - i,
{
    if i < 0 || i + p.len() > s.len() {
        None
    } else if matches_at(s, p, i) {
        Some(i)
    } else {
        find_from(s, p, i + 1)
    }
}

/// The last position at or before `i` where `p` stands in `s`.
pub open spec fn rfind_from(s: Seq<char>, p: Seq<char>, i: int) -> Option<int>
    decreases i + 1,
{
    if i < 0 {
        None
    } else if matches_at(s, p, i) {
        Some(i)
    } else {
        rfind_from(s, p, i - 1)
    }
}

/// What follows the last `p` in `s`, or all of `s`.
pub open spec fn after_last(s: Seq<char>, p: Seq<char>) -> Seq<char> {
    match rfind_from(s, p, s.len() as int) {
        Some(i) => s.subrange(i + p.len(), s.len() as int),
        None => s,
    }
}

/// `s` without the prefix `p`, where it has it.
pub open spec fn strip_prefix(s: Seq<char>, p: Seq<char>) -> Option<Seq<char>> {
    if starts_with(s, p) {
        Some(s.subrange(p.len() as int, s.len() as int))
    } else {
        None
    }
}

/// `s` with every leftmost, non-overlapping `from` replaced by `to`.
pub open spec fn replace(s: Seq<char>, from: Seq<char>, to: Seq<char>) -> Seq<char>
    decreases s.len(),
{
    if from.len() == 0 || s.len() < from.len() {
        s
    } else if starts_with(s, from) {
        to + replace(s.subrange(from.len() as int, s.len() as int), from, to)
    } else {
        seq![s[0]] + replace(s.drop_first(), from, to)
    }
}

/// The position of the first `c` in `s`; the length of `s` where there is none.
pub open spec fn index_of(s: Seq<char>, c: char) -> int
    decreases s.len(),
{
    if s.len() == 0 || s[0] == c {
        0
    } else {
        1 + index_of(s.drop_first(), c)
    }
}

/// The pieces of `s` between the `c`s.
pub open spec fn split_on(s: Seq<char>, c: char) -> Seq<Seq<char>>
    decreases s.len(),
{
    let i = index_of(s, c);
    if 0 <= i < s.len() {
        seq![s.subrange(0, i)] + split_on(s.subrange(i + 1, s.len() as int), c)
    } else {
        seq![s]
    }
}

/// `s` without one trailing carriage return.
pub open spec fn strip_cr(s: Seq<char>) -> Seq<char> {
    if s.len() > 0 && s.last() == '\r' {
        s.drop_last()
    } else {
        s
    }
}

/// The lines of `s`: each ends at a line feed or at the end of the text, and
/// an empty rest is no line.
pub open spec fn lines(s: Seq<char>) -> Seq<Seq<char>>
    decreases s.len(),
{
    let i = index_of(s, '\n');
    if s.len() == 0 {
        Seq::empty()
    } else if 0 <= i < s.len() {
        seq![strip_cr(s.subrange(0, i))] + lines(s.subrange(i + 1, s.len() as int))
    } else {
        seq![s]
    }
}

/// The length of the run without white space at the start of `s`.
pub open spec fn word_len(s: Seq<char>) -> int
    decreases s.len(),
{
    if s.len() == 0 || is_space(s[0]) {
        0
    } else {
        1 + word_len(s.drop_first())
    }
}

/// The maximal runs of `s` without white space, in order.
pub open spec fn words(s: Seq<char>) -> Seq<Seq<char>>
    decreases s.len(),
{
    let i = word_len(s);
    if s.len() == 0 {
        Seq::empty()
    } else if 0 < i <= s.len() {
        seq![s.subrange(0, i)] + words(s.subrange(i, s.len() as int))
    } else {
        words(s.drop_first())
    }
}

/// `parts` with `sep` between neighbours.
pub open spec fn join(parts: Seq<Seq<char>>, sep: Seq<char>) -> Seq<char>
    decreases parts.len(),
{
    if parts.len() == 0 {
        Seq::empty()
    } else if parts.len() == 1 {
        parts[0]
    } else {
        join(parts.drop_last(), sep) + sep + parts.last()
    }
}

/// The digit for `d` below ten.
pub open spec fn digit(d: int) -> char {
    (('0' as int) + d) as char
}

/// `n` in decimal.
pub open spec fn decimal(n: nat) -> Seq<char>
    decreases n,
{
    if n < 10 {
        seq![digit(n as int)]
    } else {
        decimal(n / 10).push(digit((n % 10) as int))
    }
}

/// `n` in decimal, with its sign where it is negative.
pub open spec fn signed_decimal(n: int) -> Seq<char> {
    if n < 0 {
        seq!['-'] + decimal((-n) as nat)
    } else {
        decimal(n as nat)
    }
}

/// The lower-case hexadecimal digit for `d` below sixteen.
pub open spec fn hex_digit(d: int) -> char {
    if d < 10 {
        digit(d)
    } else {
        (('a' as int) + d - 10) as char
    }
}

/// The last `width` hexadecimal digits of `n`, zero-padded.
pub open spec fn hex(n: nat, width: nat) -> Seq<char>
    decreases width,
{
    if width == 0 {
        Seq::empty()
    } else {
        hex(n / 16, (width - 1) as nat).push(hex_digit((n % 16) as int))
    }
}

pub open spec fn is_ascii_lower(c: char) -> bool {
    'a' <= c && c <= 'z'
}

pub open spec fn is_ascii_upper(c: char) -> bool {
    'A' <= c && c <= 'Z'
}

pub open spec fn is_ascii_digit(c: char) -> bool {
    '0' <= c && c <= '9'
}

/// `c` with an ASCII lower-case letter made upper case.
pub open spec fn ascii_upper(c: char) -> char {
    if is_ascii_lower(c) {
        ((c as int) - 32) as char
    } else {
        c
    }
}

/// `s` with its ASCII lower-case letters made upper case.
pub open spec fn to_ascii_upper(s: Seq<char>) -> Seq<char> {
    Seq::new(s.len(), |i: int| ascii_upper(s[i]))
}

// ---- facts ----------------------------------------------------------------

/// The first position is the one that holds `c` with no `c` before it.
pub proof fn lemma_index_of_unique(s: Seq<char>, c: char, i: int)
    requires
        0 <= i <= s.len(),
        i < s.len() ==> s[i] == c,
        forall|j: int| 0 <= j < i ==> s[j] != c,
    ensures
        index_of(s, c) == i,
    decreases s.len(),
{
    if i > 0 {
        let r = s.drop_first();
        assert forall|j: int| 0 <= j < i - 1 implies r[j] != c by {
            assert(r[j] == s[j + 1]);
        }
        assert(s[0] != c);
        lemma_index_of_unique(r, c, i - 1);
    }
}

pub proof fn lemma_word_len_unique(s: Seq<char>, i: int)
    requires
        0 <= i <= s.len(),
        i < s.len() ==> is_space(s[i]),
        forall|j: int| 0 <= j < i ==> !is_space(s[j]),
    ensures
        word_len(s) == i,
    decreases s.len(),
{
    if i > 0 {
        let r = s.drop_first();
        assert forall|j: int| 0 <= j < i - 1 implies !is_space(r[j]) by {
            assert(r[j] == s[j + 1]);
        }
        assert(!is_space(s[0]));
        lemma_word_len_unique(r, i - 1);
    }
}

/// A search from `i` finds nothing exactly where `p` stands nowhere from `i` on.
pub proof fn lemma_find_from(s: Seq<char>, p: Seq<char>, i: int)
    requires
        0 <= i,
    ensures
        match find_from(s, p, i) {
            Some(k) => i <= k && matches_at(s, p, k) && forall|j: int|
                i <= j < k ==> !matches_at(s, p, j),
            None => forall|j: int| i <= j ==> !matches_at(s, p, j),
        },
    decreases s.len() + 1 - i,
{
    if i + p.len() <= s.len() && !matches_at(s, p, i) {
        lemma_find_from(s, p, i + 1);
    }
}

/// `p` stands in `s` exactly where a search from the start finds it.
pub proof fn lemma_contains_find(s: Seq<char>, p: Seq<char>)
    ensures
        contains(s, p) <==> find_from(s, p, 0) is Some,
{
    lemma_find_from(s, p, 0);
}

pub proof fn lemma_views_push(v: Seq<String>, s: String)
    ensures
        views(v.push(s)) == views(v).push(s@),
{
    assert(views(v.push(s)) =~= views(v).push(s@));
}

// ---- executable counterparts ----------------------------------------------

/// The characters of `s`.
pub fn chars_of(s: &str) -> (r: Vec<char>)
    ensures
        r@ == s@,
{
    let mut v: Vec<char> = Vec::new();
    for c in it: s.chars()
        invariant
            it.seq() == s@,
            v@ == s@.take(it.index() as int),
    {
        v.push(c);
        assert(v@ =~= s@.take(it.index() + 1));
    }
    assert(v@ =~= s@);
    v
}

/// The characters from `a` up to `b` as a string.
pub fn string_of(v: &Vec<char>, a: usize, b: usize) -> (r: String)
    requires
        a <= b <= v@.len(),
    ensures
        r@ == v@.subrange(a as int, b as int),
{
    let mut s = String::new();
    let mut i: usize = a;
    while i < b
        invariant
            a <= i <= b <= v@.len(),
            s@ == v@.subrange(a as int, i as int),
        decreases b - i,
    {
        s.push(v[i]);
        i += 1;
        assert(s@ =~= v@.subrange(a as int, i as int));
    }
    s
}

/// Whether the two texts are equal.
pub fn same(a: &str, b: &str) -> (r: bool)
    ensures
        r == (a@ == b@),
{
    a.to_owned() == b.to_owned()
}

pub fn char_is_space(c: char) -> (b: bool)
    ensures
        b == is_space(c),
{
    let n: u32 = c as u32;
    (9 <= n && n <= 13) || n == 0x20 || n == 0x85 || n == 0xa0 || n == 0x1680 || (0x2000 <= n && n
        <= 0x200a) || n == 0x2028 || n == 0x2029 || n == 0x202f || n == 0x205f || n == 0x3000
}

/// `s` without white space at either end.
pub fn trimmed(s: &str) -> (r: String)
    ensures
        r@ == trim(s@),
{
    let v = chars_of(s);
    let n: usize = v.len();
    let mut a: usize = 0;
    assert(v@.subrange(0, n as int) =~= v@);
    while a < n && char_is_space(v[a])
        invariant
            a <= n,
            n == v@.len(),
            trim_start(v@) == trim_start(v@.subrange(a as int, n as int)),
        decreases n - a,
    {
        assert(v@.subrange(a as int, n as int).drop_first() =~= v@.subrange(a + 1, n as int));
        a += 1;
    }
    let ghost mid = v@.subrange(a as int, n as int);
    assert(trim_start(v@) == mid);
    let mut b: usize = n;
    while a < b && char_is_space(v[b - 1])
        invariant
            a <= b <= n,
            n == v@.len(),
            trim_end(mid) == trim_end(v@.subrange(a as int, b as int)),
        decreases b,
    {
        assert(v@.subrange(a as int, b as int).drop_last() =~= v@.subrange(a as int, b - 1));
        b -= 1;
    }
    string_of(&v, a, b)
}

/// `s` without the run of `c` at its start.
pub fn trimmed_start_char(s: &str, c: char) -> (r: String)
    ensures
        r@ == trim_start_char(s@, c),
{
    let v = chars_of(s);
    let n: usize = v.len();
    let mut a: usize = 0;
    assert(v@.subrange(0, n as int) =~= v@);
    while a < n && v[a] == c
        invariant
            a <= n,
            n == v@.len(),
            trim_start_char(v@, c) == trim_start_char(v@.subrange(a as int, n as int), c),
        decreases n - a,
    {
        assert(v@.subrange(a as int, n as int).drop_first() =~= v@.subrange(a + 1, n as int));
        a += 1;
    }
    string_of(&v, a, n)
}

/// `s` without the run of `c` at its end.
pub fn trimmed_end_char(s: &str, c: char) -> (r: String)
    ensures
        r@ == trim_end_char(s@, c),
{
    let v = chars_of(s);
    let n: usize = v.len();
    let mut b: usize = n;
    assert(v@.subrange(0, n as int) =~= v@);
    while 0 < b && v[b - 1] == c
        invariant
            b <= n,
            n == v@.len(),
            trim_end_char(v@, c) == trim_end_char(v@.subrange(0, b as int), c),
        decreases b,
    {
        assert(v@.subrange(0, b as int).drop_last() =~= v@.subrange(0, b - 1));
        b -= 1;
    }
    string_of(&v, 0, b)
}

/// Whether `p` stands in `v` at `i`.
pub fn chars_match_at(v: &Vec<char>, p: &Vec<char>, i: usize) -> (r: bool)
    requires
        i <= v@.len(),
    ensures
        r == matches_at(v@, p@, i as int),
{
    if p.len() > v.len() - i {
        return false;
    }
    let mut k: usize = 0;
    while k < p.len()
        invariant
            k <= p@.len(),
            i + p@.len() <= v.len(),
            forall|j: int| 0 <= j < k ==> v@[i + j] == p@[j],
        decreases p@.len() - k,
    {
        if v[i + k] != p[k] {
            proof {
                if matches_at(v@, p@, i as int) {
                    assert(v@.subrange(i as int, i + p@.len())[k as int] == p@[k as int]);
                }
            }
            return false;
        }
        k += 1;
    }
    assert(v@.subrange(i as int, i + p@.len()) =~= p@);
    true
}

/// The first position at or after `from` where `p` stands in `v`.
pub fn find_chars(v: &Vec<char>, p: &Vec<char>, from: usize) -> (r: Option<usize>)
    requires
        from <= v@.len(),
    ensures
        match r {
            Some(k) => find_from(v@, p@, from as int) == Some(k as int) && from <= k && k + p@.len()
                <= v@.len(),
            None => find_from(v@, p@, from as int) is None,
        },
{
    let mut i: usize = from;
    while p.len() <= v.len() - i
        invariant
            from <= i <= v.len(),
            find_from(v@, p@, from as int) == find_from(v@, p@, i as int),
        decreases v@.len() - i,
    {
        if chars_match_at(v, p, i) {
            return Some(i);
        }
        if i == v.len() {
            assert(find_from(v@, p@, i + 1) is None);
            return None;
        }
        i += 1;
    }
    None
}

/// The last position where `p` stands in `v`.
pub fn rfind_chars(v: &Vec<char>, p: &Vec<char>) -> (r: Option<usize>)
    ensures
        match r {
            Some(k) => rfind_from(v@, p@, v@.len() as int) == Some(k as int) && k + p@.len()
                <= v@.len(),
            None => rfind_from(v@, p@, v@.len() as int) is None,
        },
{
    let mut i: usize = v.len();
    loop
        invariant
            i <= v@.len(),
            rfind_from(v@, p@, v@.len() as int) == rfind_from(v@, p@, i as int),
        decreases i,
    {
        if chars_match_at(v, p, i) {
            return Some(i);
        }
        if i == 0 {
            assert(rfind_from(v@, p@, -1) is None);
            return None;
        }
        i -= 1;
    }
}

pub fn has_prefix(s: &str, p: &str) -> (r: bool)
    ensures
        r == starts_with(s@, p@),
{
    chars_match_at(&chars_of(s), &chars_of(p), 0)
}

pub fn has_suffix(s: &str, p: &str) -> (r: bool)
    ensures
        r == ends_with(s@, p@),
{
    let v = chars_of(s);
    let q = chars_of(p);
    if q.len() > v.len() {
        return false;
    }
    chars_match_at(&v, &q, v.len() - q.len())
}

pub fn has(s: &str, p: &str) -> (r: bool)
    ensures
        r == contains(s@, p@),
{
    proof {
        lemma_contains_find(s@, p@);
    }
    find_chars(&chars_of(s), &chars_of(p), 0).is_some()
}

/// Whether `c` occurs in `s`.
pub fn has_char(s: &str, c: char) -> (r: bool)
    ensures
        r == s@.contains(c),
{
    let v = chars_of(s);
    let mut i: usize = 0;
    while i < v.len()
        invariant
            i <= v@.len(),
            v@ == s@,
            forall|j: int| 0 <= j < i ==> v@[j] != c,
        decreases v@.len() - i,
    {
        if v[i] == c {
            assert(s@[i as int] == c);
            return true;
        }
        i += 1;
    }
    false
}

/// `s` without the prefix `p`, where it has it.
pub fn without_prefix(s: &str, p: &str) -> (r: Option<String>)
    ensures
        opt_view(r) == strip_prefix(s@, p@),
{
    let v = chars_of(s);
    let q = chars_of(p);
    if chars_match_at(&v, &q, 0) {
        Some(string_of(&v, q.len(), v.len()))
    } else {
        None
    }
}

/// What follows the last `p` in `s`, or all of `s`.
pub fn rest_after_last(s: &str, p: &str) -> (r: String)
    ensures
        r@ == after_last(s@, p@),
{
    let v = chars_of(s);
    let q = chars_of(p);
    match rfind_chars(&v, &q) {
        Some(k) => {
            let n: usize = v.len();
            string_of(&v, k + q.len(), n)
        },
        None => s.to_owned(),
    }
}

/// `s` with every leftmost, non-overlapping `from` replaced by `to`.
pub fn replaced(s: &str, from: &str, to: &str) -> (r: String)
    requires
        from@.len() > 0,
    ensures
        r@ == replace(s@, from@, to@),
{
    let v = chars_of(s);
    let q = chars_of(from);
    let n: usize = v.len();
    let mut out = String::new();
    let mut i: usize = 0;
    assert(v@.subrange(0, n as int) =~= v@);
    assert(out@ + replace(v@.subrange(0, n as int), q@, to@) =~= replace(v@, q@, to@));
    while q.len() <= n - i
        invariant
            i <= n,
            n == v@.len(),
            q@.len() > 0,
            out@ + replace(v@.subrange(i as int, n as int), q@, to@) == replace(v@, q@, to@),
        decreases n - i,
    {
        let ghost rest = v@.subrange(i as int, n as int);
        let ghost before = out@;
        if chars_match_at(&v, &q, i) {
            assert(rest.subrange(0, q@.len() as int) =~= v@.subrange(i as int, i + q@.len()));
            out.append(to);
            i += q.len();
            assert(rest.subrange(q@.len() as int, rest.len() as int) =~= v@.subrange(
                i as int,
                n as int,
            ));
            assert(out@ + replace(v@.subrange(i as int, n as int), q@, to@) =~= before + (to@
                + replace(v@.subrange(i as int, n as int), q@, to@)));
        } else {
            proof {
                if starts_with(rest, q@) {
                    assert(v@.subrange(i as int, i + q@.len()) =~= rest.subrange(
                        0,
                        q@.len() as int,
                    ));
                }
            }
            out.push(v[i]);
            i += 1;
            assert(rest.drop_first() =~= v@.subrange(i as int, n as int));
            assert(out@ + replace(v@.subrange(i as int, n as int), q@, to@) =~= before + (
            seq![rest[0]] + replace(v@.subrange(i as int, n as int), q@, to@)));
        }
    }
    let tail = string_of(&v, i, n);
    out.append(tail.as_str());
    out
}

/// The position of the first `c` at or after `from`; the length where there is none.
pub fn index_of_char(v: &Vec<char>, c: char, from: usize) -> (r: usize)
    requires
        from <= v@.len(),
    ensures
        from <= r <= v@.len(),
        r - from == index_of(v@.subrange(from as int, v@.len() as int), c),
{
    let n: usize = v.len();
    let mut i: usize = from;
    while i < n && v[i] != c
        invariant
            from <= i <= n,
            n == v@.len(),
            forall|j: int| from <= j < i ==> v@[j] != c,
        decreases n - i,
    {
        i += 1;
    }
    proof {
        let s = v@.subrange(from as int, n as int);
        assert forall|j: int| 0 <= j < i - from implies s[j] != c by {
            assert(s[j] == v@[from + j]);
        }
        lemma_index_of_unique(s, c, i - from);
    }
    i
}

/// The pieces of `s` between the `c`s.
pub fn pieces(s: &str, c: char) -> (r: Vec<String>)
    ensures
        views(r@) == split_on(s@, c),
{
    let v = chars_of(s);
    let n: usize = v.len();
    let mut out: Vec<String> = Vec::new();
    let mut i: usize = 0;
    assert(v@.subrange(0, n as int) =~= v@);
    assert(views(out@) + split_on(v@, c) =~= split_on(v@, c));
    loop
        invariant
            i <= n,
            n == v@.len(),
            v@ == s@,
            views(out@) + split_on(v@.subrange(i as int, n as int), c) == split_on(v@, c),
        decreases n - i,
    {
        let ghost rest = v@.subrange(i as int, n as int);
        let ghost before = out@;
        let k: usize = index_of_char(&v, c, i);
        let piece = string_of(&v, i, k);
        assert(piece@ =~= rest.subrange(0, k - i));
        proof {
            lemma_views_push(out@, piece);
        }
        out.push(piece);
        if k == n {
            assert(rest.subrange(0, k - i) =~= rest);
            assert(views(out@) =~= views(before) + split_on(rest, c));
            return out;
        }
        i = k + 1;
        assert(rest.subrange(k - (i - 1) + (k + 1 - i) + (rest.len() - (n - k)) + 1, rest.len() as int)
            =~= v@.subrange(i as int, n as int));
        assert(views(out@) + split_on(v@.subrange(i as int, n as int), c) =~= views(before)
            + split_on(rest, c));
    }
}

/// The lines of `s`.
pub fn text_lines(s: &str) -> (r: Vec<String>)
    ensures
        views(r@) == lines(s@),
{
    let v = chars_of(s);
    let n: usize = v.len();
    let mut out: Vec<String> = Vec::new();
    let mut i: usize = 0;
    assert(v@.subrange(0, n as int) =~= v@);
    assert(views(out@) + lines(v@) =~= lines(v@));
    while i < n
        invariant
            i <= n,
            n == v@.len(),
            views(out@) + lines(v@.subrange(i as int, n as int)) == lines(v@),
        decreases n - i,
    {
        let ghost rest = v@.subrange(i as int, n as int);
        let ghost before = out@;
        let k: usize = index_of_char(&v, '\n', i);
        if k == n {
            let piece = string_of(&v, i, k);
            proof {
                lemma_views_push(out@, piece);
            }
            out.push(piece);
            i = n;
            assert(views(out@) =~= views(before) + lines(rest));
            assert(lines(v@.subrange(i as int, n as int)) =~= Seq::<Seq<char>>::empty());
            assert(views(out@) + lines(v@.subrange(i as int, n as int)) =~= views(out@));
        } else {
            let e: usize = if k > i && v[k - 1] == '\r' {
                k - 1
            } else {
                k
            };
            let piece = string_of(&v, i, e);
            assert(piece@ =~= strip_cr(rest.subrange(0, k - i)));
            proof {
                lemma_views_push(out@, piece);
            }
            out.push(piece);
            assert(rest.subrange(k - i + 1, rest.len() as int) =~= v@.subrange(k + 1, n as int));
            i = k + 1;
            assert(views(out@) + lines(v@.subrange(i as int, n as int)) =~= views(before) + lines(
                rest,
            ));
        }
    }
    assert(views(out@) + lines(v@.subrange(i as int, n as int)) =~= views(out@));
    out
}

/// The words of `s`.
pub fn text_words(s: &str) -> (r: Vec<String>)
    ensures
        views(r@) == words(s@),
{
    let v = chars_of(s);
    let n: usize = v.len();
    let mut out: Vec<String> = Vec::new();
    let mut i: usize = 0;
    assert(v@.subrange(0, n as int) =~= v@);
    assert(views(out@) + words(v@) =~= words(v@));
    while i < n
        invariant
            i <= n,
            n == v@.len(),
            views(out@) + words(v@.subrange(i as int, n as int)) == words(v@),
        decreases n - i,
    {
        let ghost rest = v@.subrange(i as int, n as int);
        let ghost before = out@;
        if char_is_space(v[i]) {
            i += 1;
            assert(rest.drop_first() =~= v@.subrange(i as int, n as int));
            assert(word_len(rest) == 0);
        } else {
            let start: usize = i;
            while i < n && !char_is_space(v[i])
                invariant
                    start <= i <= n,
                    n == v@.len(),
                    forall|j: int| start <= j < i ==> !is_space(v@[j]),
                decreases n - i,
            {
                i += 1;
            }
            proof {
                assert forall|j: int| 0 <= j < i - start implies !is_space(rest[j]) by {
                    assert(rest[j] == v@[start + j]);
                }
                lemma_word_len_unique(rest, i - start);
                assert(!is_space(rest[0]));
            }
            assert(i > start);
            let piece = string_of(&v, start, i);
            assert(piece@ =~= rest.subrange(0, i - start));
            proof {
                lemma_views_push(out@, piece);
            }
            out.push(piece);
            assert(rest.subrange(i - start, rest.len() as int) =~= v@.subrange(i as int, n as int));
            assert(views(out@) + words(v@.subrange(i as int, n as int)) =~= views(before) + words(
                rest,
            ));
        }
    }
    assert(views(out@) + words(v@.subrange(i as int, n as int)) =~= views(out@));
    out
}

/// `parts` with `sep` between neighbours.
pub fn joined(parts: &Vec<String>, sep: &str) -> (r: String)
    ensures
        r@ == join(views(parts@), sep@),
{
    let mut out = String::new();
    let mut i: usize = 0;
    while i < parts.len()
        invariant
            i <= parts@.len(),
            out@ == join(views(parts@).take(i as int), sep@),
        decreases parts@.len() - i,
    {
        let ghost now = views(parts@).take(i + 1);
        assert(now.drop_last() =~= views(parts@).take(i as int));
        if i > 0 {
            out.append(sep);
        }
        out.append(parts[i].as_str());
        i += 1;
        assert(out@ =~= join(now, sep@));
    }
    assert(views(parts@).take(i as int) =~= views(parts@));
    out
}

/// Appends `n` in decimal.
pub fn append_decimal(out: &mut String, n: u64)
    ensures
        final(out)@ == old(out)@ + decimal(n as nat),
    decreases n,
{
    let ghost before = out@;
    if n >= 10 {
        append_decimal(out, n / 10);
    }
    let d: u8 = (n % 10) as u8;
    out.push((48 + d) as char);
    assert(out@ =~= before + decimal(n as nat));
}

/// `n` in decimal.
pub fn decimal_string(n: u64) -> (r: String)
    ensures
        r@ == decimal(n as nat),
{
    let mut out = String::new();
    append_decimal(&mut out, n);
    assert(out@ =~= decimal(n as nat));
    out
}

/// `n` in decimal, with its sign where it is negative.
pub fn signed_decimal_string(n: i64) -> (r: String)
    ensures
        r@ == signed_decimal(n as int),
{
    let mut out = String::new();
    if n < 0 {
        out.push('-');
        let m: u64 = if n == i64::MIN {
            0x8000_0000_0000_0000
        } else {
            (-n) as u64
        };
        append_decimal(&mut out, m);
    } else {
        append_decimal(&mut out, n as u64);
    }
    assert(out@ =~= signed_decimal(n as int));
    out
}

/// Appends the last `width` hexadecimal digits of `n`.
pub fn append_hex(out: &mut String, n: u64, width: u32)
    ensures
        final(out)@ == old(out)@ + hex(n as nat, width as nat),
    decreases width,
{
    let ghost before = out@;
    if width > 0 {
        append_hex(out, n / 16, width - 1);
        let d: u8 = (n % 16) as u8;
        let c: char = if d < 10 {
            (48 + d) as char
        } else {
            (97 + (d - 10)) as char
        };
        out.push(c);
    }
    assert(out@ =~= before + hex(n as nat, width as nat));
}

/// `s` with its ASCII lower-case letters made upper case.
pub fn ascii_uppercase(s: &str) -> (r: String)
    ensures
        r@ == to_ascii_upper(s@),
{
    let v = chars_of(s);
    let mut out = String::new();
    let mut i: usize = 0;
    while i < v.len()
        invariant
            i <= v@.len(),
            out@ == to_ascii_upper(v@).take(i as int),
        decreases v@.len() - i,
    {
        let c: char = v[i];
        if 'a' <= c && c <= 'z' {
            out.push(((c as u8) - 32) as char);
        } else {
            out.push(c);
        }
        i += 1;
        assert(out@ =~= to_ascii_upper(v@).take(i as int));
    }
    assert(out@ =~= to_ascii_upper(v@));
    out
}

// ---- lists of strings -------------------------------------------------------

/// `list` with `x` added at its end where it was missing.
pub open spec fn added(list: Seq<Seq<char>>, x: Seq<char>) -> Seq<Seq<char>> {
    if list.contains(x) {
        list
    } else {
        list.push(x)
    }
}

/// `list` with each of the first `n` of `xs` added where it was missing.
pub open spec fn all_added(list: Seq<Seq<char>>, xs: Seq<Seq<char>>, n: int) -> Seq<Seq<char>>
    decreases n,
{
    if n <= 0 {
        list
    } else {
        added(all_added(list, xs, n - 1), xs[n - 1])
    }
}

/// Whether `s` is in the list.
pub fn contains_string(v: &Vec<String>, s: &str) -> (r: bool)
    ensures
        r == views(v@).contains(s@),
{
    let mut i: usize = 0;
    while i < v.len()
        invariant
            i <= v@.len(),
            forall|j: int| 0 <= j < i ==> views(v@)[j] != s@,
        decreases v@.len() - i,
    {
        if same(v[i].as_str(), s) {
            assert(views(v@)[i as int] == s@);
            return true;
        }
        i += 1;
    }
    false
}

/// `list` with `x` added at its end where it was missing.
pub fn add_missing(list: Vec<String>, x: &str) -> (r: Vec<String>)
    ensures
        views(r@) == added(views(list@), x@),
{
    if contains_string(&list, x) {
        return list;
    }
    let mut out = list;
    let owned = x.to_owned();
    proof {
        lemma_views_push(out@, owned);
    }
    out.push(owned);
    out
}

/// `list` with each of `xs` added where it was missing.
pub fn add_all_missing(list: Vec<String>, xs: &Vec<String>) -> (r: Vec<String>)
    ensures
        views(r@) == all_added(views(list@), views(xs@), xs@.len() as int),
{
    let ghost start = views(list@);
    let mut out = list;
    let mut i: usize = 0;
    while i < xs.len()
        invariant
            i <= xs@.len(),
            views(out@) == all_added(start, views(xs@), i as int),
        decreases xs@.len() - i,
    {
        out = add_missing(out, xs[i].as_str());
        i += 1;
    }
    out
}

/// A list with the same strings.
pub fn copy_strings(v: &Vec<String>) -> (r: Vec<String>)
    ensures
        r@ == v@,
{
    let mut out: Vec<String> = Vec::new();
    let mut i: usize = 0;
    while i < v.len()
        invariant
            i <= v@.len(),
            out@ == v@.take(i as int),
        decreases v@.len() - i,
    {
        out.push(v[i].clone());
        i += 1;
        assert(out@ =~= v@.take(i as int));
    }
    assert(out@ =~= v@);
    out
}

/// Each of the strings between `pre` and `post`.
pub open spec fn wrapped(v: Seq<Seq<char>>, pre: Seq<char>, post: Seq<char>) -> Seq<Seq<char>> {
    Seq::new(v.len(), |i: int| pre + v[i] + post)
}

/// Each of the strings between `pre` and `post`.
pub fn wrap_each(v: &Vec<String>, pre: &str, post: &str) -> (r: Vec<String>)
    ensures
        views(r@) == wrapped(views(v@), pre@, post@),
{
    let mut out: Vec<String> = Vec::new();
    let mut i: usize = 0;
    while i < v.len()
        invariant
            i <= v@.len(),
            views(out@) == wrapped(views(v@), pre@, post@).take(i as int),
        decreases v@.len() - i,
    {
        let s = pre.to_owned().concat(v[i].as_str()).concat(post);
        proof {
            lemma_views_push(out@, s);
        }
        out.push(s);
        i += 1;
        assert(views(out@) =~= wrapped(views(v@), pre@, post@).take(i as int));
    }
    assert(views(out@) =~= wrapped(views(v@), pre@, post@));
    out
}

/// One list behind another.
pub fn chain(a: Vec<String>, b: Vec<String>) -> (r: Vec<String>)
    ensures
        views(r@) == views(a@) + views(b@),
{
    let mut out = a;
    let mut tail = b;
    out.append(&mut tail);
    assert(views(out@) =~= views(a@) + views(b@));
    out
}

/// `c` with an ASCII upper-case letter made lower case.
pub open spec fn ascii_lower(c: char) -> char {
    if is_ascii_upper(c) {
        ((c as int) + 32) as char
    } else {
        c
    }
}

/// `s` with its ASCII upper-case letters made lower case.
pub open spec fn to_ascii_lower(s: Seq<char>) -> Seq<char> {
    Seq::new(s.len(), |i: int| ascii_lower(s[i]))
}

/// `s` with its ASCII upper-case letters made lower case.
pub fn ascii_lowercase(s: &str) -> (r: String)
    ensures
        r@ == to_ascii_lower(s@),
{
    let v = chars_of(s);
    let mut out = String::new();
    let mut i: usize = 0;
    while i < v.len()
        invariant
            i <= v@.len(),
            out@ == to_ascii_lower(v@).take(i as int),
        decreases v@.len() - i,
    {
        let c: char = v[i];
        if 'A' <= c && c <= 'Z' {
            out.push(((c as u8) + 32) as char);
        } else {
            out.push(c);
        }
        i += 1;
        assert(out@ =~= to_ascii_lower(v@).take(i as int));
    }
    assert(out@ =~= to_ascii_lower(v@));
    out
}

} // verus!
