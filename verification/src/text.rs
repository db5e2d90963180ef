//! Text as sequences of characters: the splitting, trimming, searching and
//! number reading that the device probes need.

use vstd::prelude::*;
use vstd::slice::slice_subrange;

verus! {

/// `String::push` appends one character to the string.
pub assume_specification[ String::push ](s: &mut String, c: char)
    ensures
        final(s)@ == old(s)@.push(c),
;

// ---------------------------------------------------------------------------
// Conversions
// ---------------------------------------------------------------------------

/// The characters of a string.
pub fn chars_of(s: &str) -> (r: Vec<char>)
    ensures
        r@ == s@,
{
    let mut r: Vec<char> = Vec::new();
    for c in it: s.chars()
        invariant
            r@ == s@.take(it.index()),
            it.seq() == s@,
    {
        proof {
            assert(s@.take(it.index() + 1) =~= s@.take(it.index()).push(s@[it.index()]));
        }
        r.push(c);
    }
    assert(s@.take(s@.len() as int) =~= s@);
    r
}

/// The string made of the given characters.
pub fn string_of(s: &[char]) -> (r: String)
    ensures
        r@ == s@,
{
    let mut r = String::new();
    let n = s.len();
    let mut i: usize = 0;
    while i < n
        invariant
            i <= n,
            n == s@.len(),
            r@ == s@.take(i as int),
        decreases n - i,
    {
        r.push(s[i]);
        i += 1;
        assert(s@.take(i as int) =~= s@.take(i - 1).push(s@[i - 1]));
    }
    assert(s@.take(n as int) =~= s@);
    r
}

/// Whether two strings hold the same characters.
pub fn same(a: &str, b: &str) -> (r: bool)
    ensures
        r == (a@ == b@),
{
    let x: String = a.to_owned();
    let y: String = b.to_owned();
    x == y
}

/// Two strings joined.
pub fn joined(a: &str, b: &str) -> (r: String)
    ensures
        r@ == a@ + b@,
{
    let mut r: String = a.to_owned();
    r.append(b);
    r
}

// ---------------------------------------------------------------------------
// White space
// ---------------------------------------------------------------------------

/// The characters with Unicode's `White_Space` property.
pub open spec fn is_space(c: char) -> bool {
    let n = c as u32;
    ||| 0x09 <= n <= 0x0d
    ||| n == 0x20
    ||| n == 0x85
    ||| n == 0xa0
    ||| n == 0x1680
    ||| 0x2000 <= n <= 0x200a
    ||| n == 0x2028
    ||| n == 0x2029
    ||| n == 0x202f
    ||| n == 0x205f
    ||| n == 0x3000
}

/// `s` without its leading white space.
pub open spec fn trimmed_start(s: Seq<char>) -> Seq<char>
    decreases s.len(),
{
    if s.len() > 0 && is_space(s[0]) {
        trimmed_start(s.drop_first())
    } else {
        s
    }
}

/// `s` without its trailing white space.
pub open spec fn trimmed_end(s: Seq<char>) -> Seq<char>
    decreases s.len(),
{
    if s.len() > 0 && is_space(s.last()) {
        trimmed_end(s.drop_last())
    } else {
        s
    }
}

/// `s` without white space at either end.
pub open spec fn trimmed(s: Seq<char>) -> Seq<char> {
    trimmed_end(trimmed_start(s))
}

/// Whether a character is white space.
pub fn space(c: char) -> (r: bool)
    ensures
        r == is_space(c),
{
    let n: u32 = c as u32;
    (0x09 <= n && n <= 0x0d) || n == 0x20 || n == 0x85 || n == 0xa0 || n == 0x1680 || (0x2000 <= n
        && n <= 0x200a) || n == 0x2028 || n == 0x2029 || n == 0x202f || n == 0x205f || n == 0x3000
}

/// Drops leading white space.
pub fn trim_start(s: &[char]) -> (r: &[char])
    ensures
        r@ == trimmed_start(s@),
{
    let n = s.len();
    let mut i: usize = 0;
    assert(s@.skip(0) =~= s@);
    while i < n && space(s[i])
        invariant
            i <= n,
            n == s@.len(),
            trimmed_start(s@) == trimmed_start(s@.skip(i as int)),
        decreases n - i,
    {
        assert(s@.skip(i as int).drop_first() =~= s@.skip(i + 1));
        i += 1;
    }
    assert(s@.subrange(i as int, n as int) =~= s@.skip(i as int));
    slice_subrange(s, i, n)
}

/// Drops trailing white space.
pub fn trim_end(s: &[char]) -> (r: &[char])
    ensures
        r@ == trimmed_end(s@),
{
    let n = s.len();
    let mut i: usize = n;
    assert(s@.take(n as int) =~= s@);
    while i > 0 && space(s[i - 1])
        invariant
            i <= n,
            n == s@.len(),
            trimmed_end(s@) == trimmed_end(s@.take(i as int)),
        decreases i,
    {
        assert(s@.take(i as int).drop_last() =~= s@.take(i - 1));
        i -= 1;
    }
    assert(s@.subrange(0, i as int) =~= s@.take(i as int));
    slice_subrange(s, 0, i)
}

/// Drops white space at both ends.
pub fn trim(s: &[char]) -> (r: &[char])
    ensures
        r@ == trimmed(s@),
{
    trim_end(trim_start(s))
}

// ---------------------------------------------------------------------------
// Searching
// ---------------------------------------------------------------------------

/// Whether `p` occurs in `s` at position `i`.
pub open spec fn occurs_at(s: Seq<char>, p: Seq<char>, i: int) -> bool {
    0 <= i && i + p.len() <= s.len() && s.subrange(i, i + p.len()) == p
}

/// Whether `p` occurs somewhere in `s`.
pub open spec fn occurs(s: Seq<char>, p: Seq<char>) -> bool {
    exists|i: int| #[trigger] occurs_at(s, p, i)
}

/// Whether `s` begins with `p`.
pub open spec fn begins(s: Seq<char>, p: Seq<char>) -> bool {
    occurs_at(s, p, 0)
}

/// Whether `i` is the first position at which `p` occurs in `s`.
pub open spec fn first_at(s: Seq<char>, p: Seq<char>, i: int) -> bool {
    occurs_at(s, p, i) && forall|j: int| 0 <= j < i ==> !#[trigger] occurs_at(s, p, j)
}

/// Whether `p` occurs in `s` at position `i`.
pub fn matches_at(s: &[char], p: &[char], i: usize) -> (r: bool)
    requires
        i <= s@.len(),
    ensures
        r == occurs_at(s@, p@, i as int),
{
    let n = p.len();
    let m = s.len();
    if m - i < n {
        return false;
    }
    let mut k: usize = 0;
    while k < n
        invariant
            k <= n,
            n == p@.len(),
            i + n <= m,
            m == s@.len(),
            forall|j: int| 0 <= j < k ==> s@[i + j] == p@[j],
        decreases n - k,
    {
        if s[i + k] != p[k] {
            assert(s@.subrange(i as int, i + n)[k as int] != p@[k as int]);
            return false;
        }
        k += 1;
    }
    assert(s@.subrange(i as int, i + n) =~= p@);
    true
}

/// The first position at which `p` occurs in `s`.
pub fn find(s: &[char], p: &str) -> (r: Option<usize>)
    ensures
        match r {
            Some(i) => first_at(s@, p@, i as int),
            None => !occurs(s@, p@),
        },
{
    let pat = chars_of(p);
    let n = s.len();
    let mut i: usize = 0;
    while i < n
        invariant
            i <= n,
            n == s@.len(),
            pat@ == p@,
            forall|j: int| 0 <= j < i ==> !#[trigger] occurs_at(s@, p@, j),
        decreases n - i,
    {
        if matches_at(s, pat.as_slice(), i) {
            return Some(i);
        }
        i += 1;
    }
    if matches_at(s, pat.as_slice(), n) {
        Some(n)
    } else {
        None
    }
}

/// Whether `p` occurs somewhere in `s`.
pub fn contains(s: &[char], p: &str) -> (r: bool)
    ensures
        r == occurs(s@, p@),
{
    find(s, p).is_some()
}

/// Whether `s` begins with `p`.
pub fn starts_with(s: &[char], p: &str) -> (r: bool)
    ensures
        r == begins(s@, p@),
{
    let p = chars_of(p);
    matches_at(s, p.as_slice(), 0)
}

// ---------------------------------------------------------------------------
// Stripping repeated affixes
// ---------------------------------------------------------------------------

/// `s` without any number of leading copies of `p`.
pub open spec fn stripped_start(s: Seq<char>, p: Seq<char>) -> Seq<char>
    decreases s.len(),
{
    if p.len() > 0 && begins(s, p) {
        stripped_start(s.skip(p.len() as int), p)
    } else {
        s
    }
}

/// Whether `s` ends with `p`.
pub open spec fn ends(s: Seq<char>, p: Seq<char>) -> bool {
    occurs_at(s, p, s.len() - p.len())
}

/// `s` without any number of trailing copies of `p`.
pub open spec fn stripped_end(s: Seq<char>, p: Seq<char>) -> Seq<char>
    decreases s.len(),
{
    if p.len() > 0 && ends(s, p) {
        stripped_end(s.take(s.len() - p.len()), p)
    } else {
        s
    }
}

/// Drops every leading copy of `p`.
pub fn trim_start_matches<'a>(s: &'a [char], p: &str) -> (r: &'a [char])
    ensures
        r@ == stripped_start(s@, p@),
{
    let pat = chars_of(p);
    let k = pat.len();
    let n = s.len();
    let mut i: usize = 0;
    assert(s@.skip(0) =~= s@);
    while k > 0 && matches_at(s, pat.as_slice(), i)
        invariant
            i <= n,
            n == s@.len(),
            k == pat@.len(),
            pat@ == p@,
            stripped_start(s@, p@) == stripped_start(s@.skip(i as int), p@),
        decreases n - i,
    {
        assert(s@.skip(i as int).subrange(0, k as int) =~= s@.subrange(i as int, i + k));
        assert(s@.skip(i as int).skip(k as int) =~= s@.skip(i + k));
        i += k;
    }
    assert(k > 0 ==> !begins(s@.skip(i as int), p@)) by {
        if k > 0 && begins(s@.skip(i as int), p@) {
            assert(s@.skip(i as int).subrange(0, k as int) =~= s@.subrange(i as int, i + k));
        }
    }
    assert(s@.subrange(i as int, n as int) =~= s@.skip(i as int));
    slice_subrange(s, i, n)
}

/// Drops every trailing copy of `p`.
pub fn trim_end_matches<'a>(s: &'a [char], p: &str) -> (r: &'a [char])
    ensures
        r@ == stripped_end(s@, p@),
{
    let pat = chars_of(p);
    let k = pat.len();
    let n = s.len();
    let mut i: usize = n;
    assert(s@.take(n as int) =~= s@);
    while k > 0 && k <= i && matches_at(s, pat.as_slice(), i - k)
        invariant
            i <= n,
            n == s@.len(),
            k == pat@.len(),
            pat@ == p@,
            stripped_end(s@, p@) == stripped_end(s@.take(i as int), p@),
        decreases i,
    {
        assert(s@.take(i as int).subrange(i - k, i as int) =~= s@.subrange(i - k, i as int));
        assert(s@.take(i as int).take(i - k) =~= s@.take(i - k));
        i -= k;
    }
    assert(k > 0 ==> !ends(s@.take(i as int), p@)) by {
        if k > 0 && ends(s@.take(i as int), p@) {
            assert(s@.take(i as int).subrange(i - k, i as int) =~= s@.subrange(i - k, i as int));
        }
    }
    assert(s@.subrange(0, i as int) =~= s@.take(i as int));
    slice_subrange(s, 0, i)
}

// ---------------------------------------------------------------------------
// Splitting
// ---------------------------------------------------------------------------

/// How many characters stand in `s` before the first `c`: all of them where there is none.
pub open spec fn span(s: Seq<char>, c: char) -> nat
    decreases s.len(),
{
    if s.len() == 0 || s[0] == c {
        0
    } else {
        1 + span(s.drop_first(), c)
    }
}

/// What the first `c` splits `s` into: the text before it and the text after it.
pub open spec fn halves(s: Seq<char>, c: char) -> Option<(Seq<char>, Seq<char>)> {
    let n = span(s, c) as int;
    if n < s.len() {
        Some((s.take(n), s.skip(n + 1)))
    } else {
        None
    }
}

/// The pieces between the occurrences of `c`.
pub open spec fn pieces(s: Seq<char>, c: char) -> Seq<Seq<char>>
    decreases s.len(),
{
    match halves(s, c) {
        Some((before, after)) => seq![before] + pieces(after, c),
        None => seq![s],
    }
}

/// `s` without one carriage return at its end.
pub open spec fn without_cr(s: Seq<char>) -> Seq<char> {
    if s.len() > 0 && s.last() == '\r' {
        s.drop_last()
    } else {
        s
    }
}

/// The lines of `s`. A line ends at `\n` or `\r\n`; the last one needs no ending.
pub open spec fn lines_of(s: Seq<char>) -> Seq<Seq<char>>
    decreases s.len(),
{
    match halves(s, '\n') {
        Some((before, after)) => seq![without_cr(before)] + lines_of(after),
        None => if s.len() == 0 {
            seq![]
        } else {
            seq![s]
        },
    }
}

/// How many characters stand in `s` before the first white space.
pub open spec fn word_len(s: Seq<char>) -> nat
    decreases s.len(),
{
    if s.len() == 0 || is_space(s[0]) {
        0
    } else {
        1 + word_len(s.drop_first())
    }
}

/// The runs of characters between white space.
pub open spec fn words_of(s: Seq<char>) -> Seq<Seq<char>>
    decreases s.len(),
    via words_of_decreases
{
    let t = trimmed_start(s);
    if t.len() == 0 {
        seq![]
    } else {
        seq![t.take(word_len(t) as int)] + words_of(t.skip(word_len(t) as int))
    }
}

#[via_fn]
proof fn words_of_decreases(s: Seq<char>) {
    lemma_trimmed_start_len(s);
    let t = trimmed_start(s);
    lemma_word_len(t);
}

proof fn lemma_trimmed_start_len(s: Seq<char>)
    ensures
        trimmed_start(s).len() <= s.len(),
        trimmed_start(s).len() > 0 ==> !is_space(trimmed_start(s)[0]),
    decreases s.len(),
{
    if s.len() > 0 && is_space(s[0]) {
        lemma_trimmed_start_len(s.drop_first());
    }
}

proof fn lemma_word_len(s: Seq<char>)
    ensures
        word_len(s) <= s.len(),
        s.len() > 0 && !is_space(s[0]) ==> word_len(s) > 0,
    decreases s.len(),
{
    if s.len() > 0 && !is_space(s[0]) {
        lemma_word_len(s.drop_first());
    }
}

/// `span` stops at the first `c`, or at the end.
pub proof fn lemma_span(s: Seq<char>, c: char)
    ensures
        span(s, c) <= s.len(),
        span(s, c) < s.len() ==> s[span(s, c) as int] == c,
        forall|j: int| 0 <= j < span(s, c) ==> s[j] != c,
    decreases s.len(),
{
    if s.len() > 0 && s[0] != c {
        lemma_span(s.drop_first(), c);
        assert forall|j: int| 0 <= j < span(s, c) implies s[j] != c by {
            if j > 0 {
                assert(s[j] == s.drop_first()[j - 1]);
            }
        }
    }
}

/// A position with no `c` before it, at which `c` stands or the text ends, is `span`.
pub proof fn lemma_span_is(s: Seq<char>, c: char, n: int)
    requires
        0 <= n <= s.len(),
        n < s.len() ==> s[n] == c,
        forall|j: int| 0 <= j < n ==> s[j] != c,
    ensures
        span(s, c) == n,
{
    lemma_span(s, c);
    let k = span(s, c) as int;
    if k < n {
        assert(s[k] != c);
    }
    if n < k {
        assert(s[n] != c);
    }
}

/// The position of the first `c` in `s`, or its length.
pub fn span_to(s: &[char], c: char) -> (r: usize)
    ensures
        r == span(s@, c),
{
    let n = s.len();
    let mut i: usize = 0;
    while i < n && s[i] != c
        invariant
            i <= n,
            n == s@.len(),
            forall|j: int| 0 <= j < i ==> s@[j] != c,
        decreases n - i,
    {
        i += 1;
    }
    proof {
        lemma_span_is(s@, c, i as int);
    }
    i
}

/// Splits at the first `c`.
pub fn split_once(s: &[char], c: char) -> (r: Option<(&[char], &[char])>)
    ensures
        match r {
            Some((before, after)) => halves(s@, c) == Some((before@, after@)),
            None => halves(s@, c) is None,
        },
{
    let n = s.len();
    let i = span_to(s, c);
    if i < n {
        let before = slice_subrange(s, 0, i);
        let after = slice_subrange(s, i + 1, n);
        assert(before@ =~= s@.take(i as int));
        assert(after@ =~= s@.skip(i + 1));
        Some((before, after))
    } else {
        None
    }
}

/// The texts of a list of character slices.
pub open spec fn texts(v: Seq<&[char]>) -> Seq<Seq<char>> {
    v.map_values(|p: &[char]| p@)
}

/// Splits at every `c`.
pub fn split(s: &[char], c: char) -> (r: Vec<&[char]>)
    ensures
        texts(r@) == pieces(s@, c),
        r@.len() >= 1,
{
    let mut r: Vec<&[char]> = Vec::new();
    let mut rest: &[char] = s;
    assert(texts(r@) + pieces(rest@, c) =~= pieces(s@, c));
    loop
        invariant
            texts(r@) + pieces(rest@, c) == pieces(s@, c),
        decreases rest@.len(),
    {
        proof {
            lemma_span(rest@, c);
        }
        match split_once(rest, c) {
            Some((before, after)) => {
                let ghost done = r@;
                r.push(before);
                assert(texts(r@) =~= texts(done).push(before@));
                assert(texts(r@) + pieces(after@, c) =~= texts(done) + (seq![before@] + pieces(
                    after@,
                    c,
                )));
                rest = after;
            },
            None => {
                let ghost done = r@;
                r.push(rest);
                assert(texts(r@) =~= texts(done) + seq![rest@]);
                return r;
            },
        }
    }
}

/// Splits into lines.
pub fn lines(s: &[char]) -> (r: Vec<&[char]>)
    ensures
        texts(r@) == lines_of(s@),
{
    let mut r: Vec<&[char]> = Vec::new();
    let mut rest: &[char] = s;
    assert(texts(r@) + lines_of(rest@) =~= lines_of(s@));
    loop
        invariant
            texts(r@) + lines_of(rest@) == lines_of(s@),
        decreases rest@.len(),
    {
        proof {
            lemma_span(rest@, '\n');
        }
        let ghost done = r@;
        match split_once(rest, '\n') {
            Some((before, after)) => {
                let n = before.len();
                let line = if n > 0 && before[n - 1] == '\r' {
                    slice_subrange(before, 0, n - 1)
                } else {
                    before
                };
                assert(line@ =~= without_cr(before@));
                r.push(line);
                assert(texts(r@) =~= texts(done).push(line@));
                assert(texts(r@) + lines_of(after@) =~= texts(done) + (seq![line@] + lines_of(
                    after@,
                )));
                rest = after;
            },
            None => {
                if rest.len() > 0 {
                    r.push(rest);
                    assert(texts(r@) =~= texts(done) + seq![rest@]);
                } else {
                    assert(texts(r@) =~= texts(done) + Seq::<Seq<char>>::empty());
                }
                return r;
            },
        }
    }
}

/// Splits at white space.
pub fn words(s: &[char]) -> (r: Vec<&[char]>)
    ensures
        texts(r@) == words_of(s@),
{
    let mut r: Vec<&[char]> = Vec::new();
    let mut rest: &[char] = s;
    assert(texts(r@) + words_of(rest@) =~= words_of(s@));
    loop
        invariant
            texts(r@) + words_of(rest@) == words_of(s@),
        decreases rest@.len(),
    {
        let t = trim_start(rest);
        let n = t.len();
        let ghost done = r@;
        if n == 0 {
            assert(texts(r@) =~= texts(done) + Seq::<Seq<char>>::empty());
            return r;
        }
        proof {
            lemma_trimmed_start_len(rest@);
            lemma_word_len(t@);
        }
        let mut i: usize = 0;
        assert(t@.skip(0) =~= t@);
        while i < n && !space(t[i])
            invariant
                i <= n,
                n == t@.len(),
                word_len(t@) == i + word_len(t@.skip(i as int)),
            decreases n - i,
        {
            assert(t@.skip(i as int).drop_first() =~= t@.skip(i + 1));
            i += 1;
        }
        assert(word_len(t@) == i);
        let word = slice_subrange(t, 0, i);
        let after = slice_subrange(t, i, n);
        assert(word@ =~= t@.take(i as int));
        assert(after@ =~= t@.skip(i as int));
        r.push(word);
        assert(texts(r@) =~= texts(done).push(word@));
        assert(texts(r@) + words_of(after@) =~= texts(done) + (seq![word@] + words_of(after@)));
        rest = after;
    }
}

// ---------------------------------------------------------------------------
// Letters and numbers
// ---------------------------------------------------------------------------

/// The lower-case form of an ASCII letter; any other character as it is.
pub open spec fn lower(c: char) -> char {
    if 'A' <= c <= 'Z' {
        (c as u32 + 32) as char
    } else {
        c
    }
}

/// `s` with its ASCII letters in lower case.
pub open spec fn lowered(s: Seq<char>) -> Seq<char> {
    s.map_values(|c: char| lower(c))
}

/// The value of a digit in the given radix, which is at most 16.
pub open spec fn digit(c: char, radix: nat) -> Option<nat> {
    let v: int = if '0' <= c <= '9' {
        c as int - '0' as int
    } else if 'a' <= c <= 'f' {
        c as int - 'a' as int + 10
    } else if 'A' <= c <= 'F' {
        c as int - 'A' as int + 10
    } else {
        16
    };
    if v < radix {
        Some(v as nat)
    } else {
        None
    }
}

/// The value of a run of digits, most significant first.
pub open spec fn digits(s: Seq<char>, radix: nat) -> Option<nat>
    decreases s.len(),
{
    if s.len() == 0 {
        Some(0)
    } else {
        match (digits(s.drop_last(), radix), digit(s.last(), radix)) {
            (Some(n), Some(d)) => Some(n * radix + d),
            _ => None,
        }
    }
}

/// The number that a numeral stands for: an optional `+`, at least one digit, nothing else.
pub open spec fn numeral(s: Seq<char>, radix: nat) -> Option<nat> {
    let d = if s.len() > 0 && s[0] == '+' {
        s.drop_first()
    } else {
        s
    };
    if d.len() == 0 {
        None
    } else {
        digits(d, radix)
    }
}

/// `numeral`, where it is at most `max`.
pub open spec fn numeral_up_to(s: Seq<char>, radix: nat, max: nat) -> Option<nat> {
    match numeral(s, radix) {
        Some(n) if n <= max => Some(n),
        _ => None,
    }
}

/// More digits never make a number smaller, nor mend a run that holds a non-digit.
pub proof fn lemma_digits_grow(s: Seq<char>, radix: nat, i: int)
    requires
        0 <= i <= s.len(),
        radix >= 1,
    ensures
        digits(s, radix) is Some ==> digits(s.take(i), radix) is Some && digits(
            s.take(i),
            radix,
        )->0 <= digits(s, radix)->0,
    decreases s.len(),
{
    if i == s.len() {
        assert(s.take(i) =~= s);
    } else {
        lemma_digits_grow(s.drop_last(), radix, i);
        assert(s.drop_last().take(i) =~= s.take(i));
        if digits(s, radix) is Some {
            let n = digits(s.drop_last(), radix)->0;
            assert(n * radix >= n) by (nonlinear_arith)
                requires
                    radix >= 1,
            ;
        }
    }
}

/// The lower-case form of an ASCII letter; any other character as it is.
pub fn to_lower(c: char) -> (r: char)
    ensures
        r == lower(c),
{
    if 'A' <= c && c <= 'Z' {
        let b: u8 = c as u8 + 32;
        b as char
    } else {
        c
    }
}

/// `s` with its ASCII letters in lower case.
pub fn to_ascii_lowercase(s: &[char]) -> (r: Vec<char>)
    ensures
        r@ == lowered(s@),
{
    let mut r: Vec<char> = Vec::new();
    let n = s.len();
    let mut i: usize = 0;
    while i < n
        invariant
            i <= n,
            n == s@.len(),
            r@ == lowered(s@.take(i as int)),
        decreases n - i,
    {
        r.push(to_lower(s[i]));
        i += 1;
        assert(r@ =~= lowered(s@.take(i as int)));
    }
    assert(s@.take(n as int) =~= s@);
    r
}

/// The value of a digit in the given radix.
pub fn digit_value(c: char, radix: u32) -> (r: Option<u32>)
    requires
        radix <= 16,
    ensures
        match r {
            Some(d) => digit(c, radix as nat) == Some(d as nat) && d < radix,
            None => digit(c, radix as nat) is None,
        },
{
    let n: u32 = c as u32;
    let v: u32 = if '0' <= c && c <= '9' {
        n - 48
    } else if 'a' <= c && c <= 'f' {
        n - 97 + 10
    } else if 'A' <= c && c <= 'F' {
        n - 65 + 10
    } else {
        16
    };
    if v < radix {
        Some(v)
    } else {
        None
    }
}

/// Reads a numeral of at most `max`.
pub fn read_numeral(s: &[char], radix: u32, max: u64) -> (r: Option<u64>)
    requires
        2 <= radix <= 16,
    ensures
        match r {
            Some(n) => numeral_up_to(s@, radix as nat, max as nat) == Some(n as nat),
            None => numeral_up_to(s@, radix as nat, max as nat) is None,
        },
{
    let len = s.len();
    let d: &[char] = if len > 0 && s[0] == '+' {
        slice_subrange(s, 1, len)
    } else {
        s
    };
    proof {
        if len > 0 && s@[0] == '+' {
            assert(d@ =~= s@.drop_first());
        }
    }
    let n = d.len();
    if n == 0 {
        return None;
    }
    let mut acc: u64 = 0;
    let mut i: usize = 0;
    while i < n
        invariant
            i <= n,
            n == d@.len(),
            2 <= radix <= 16,
            acc <= max,
            digits(d@.take(i as int), radix as nat) == Some(acc as nat),
            n > 0,
            numeral(s@, radix as nat) == digits(d@, radix as nat),
        decreases n - i,
    {
        proof {
            assert(d@.take(i + 1).drop_last() =~= d@.take(i as int));
            lemma_digits_grow(d@, radix as nat, i + 1);
            assert(acc as nat * radix as nat <= u64::MAX * 16) by (nonlinear_arith)
                requires
                    acc <= u64::MAX,
                    radix <= 16,
            ;
            assert(0 <= acc * radix) by (nonlinear_arith);
        }
        match digit_value(d[i], radix) {
            Some(v) => {
                let next: u128 = acc as u128 * radix as u128 + v as u128;
                if next > max as u128 {
                    return None;
                }
                acc = next as u64;
            },
            None => {
                return None;
            },
        }
        i += 1;
    }
    assert(d@.take(n as int) =~= d@);
    Some(acc)
}

/// The character of a hexadecimal digit.
pub open spec fn hex_digit(n: nat) -> char {
    if n < 10 {
        ('0' as u32 + n) as char
    } else {
        ('a' as u32 + n - 10) as char
    }
}

/// `n` in lower-case hexadecimal, without leading zeros.
pub open spec fn hex(n: nat) -> Seq<char>
    decreases n,
{
    if n < 16 {
        seq![hex_digit(n)]
    } else {
        hex(n / 16).push(hex_digit(n % 16))
    }
}

/// Appends `n` in hexadecimal.
pub fn push_hex(out: &mut Vec<char>, n: u32)
    ensures
        final(out)@ == old(out)@ + hex(n as nat),
    decreases n,
{
    if n >= 16 {
        push_hex(out, n / 16);
    }
    let d: u32 = n % 16;
    let c: char = if d < 10 {
        (48 + d as u8) as char
    } else {
        (97 + (d as u8 - 10)) as char
    };
    out.push(c);
    assert(out@ =~= old(out)@ + hex(n as nat));
}

/// Whether every character of `s` is an ASCII character.
pub open spec fn ascii(s: Seq<char>) -> bool {
    forall|i: int| 0 <= i < s.len() ==> (#[trigger] s[i] as u32) < 128
}

/// What `str::to_lowercase` makes of a text.
pub uninterp spec fn lowercase(s: Seq<char>) -> Seq<char>;

/// `str::to_lowercase`, the lower-case form of a text by Unicode's rules. The result is a
/// function of the text alone, which `lowercase` names. Of a text of ASCII characters it is
/// also claimed that the letters `A` to `Z` become `a` to `z` and nothing else changes. Of other
/// texts nothing more is claimed, and so not that a text in lower case keeps its form.
#[verifier::external_body]
pub(crate) fn to_lowercase(s: &str) -> (r: String)
    ensures
        r@ == lowercase(s@),
        ascii(s@) ==> r@ == lowered(s@),
{
    s.to_lowercase()
}

// ---------------------------------------------------------------------------
// Facts about trimming, lower case and hexadecimal
// ---------------------------------------------------------------------------

/// A trimmed text begins and ends with something other than white space.
pub proof fn lemma_trimmed_ends(s: Seq<char>)
    ensures
        trimmed(s).len() > 0 ==> !is_space(trimmed(s)[0]) && !is_space(trimmed(s).last()),
{
    lemma_trimmed_start_len(s);
    lemma_trimmed_end(trimmed_start(s));
}

proof fn lemma_trimmed_end(s: Seq<char>)
    ensures
        trimmed_end(s).len() <= s.len(),
        trimmed_end(s) == s.take(trimmed_end(s).len() as int),
        trimmed_end(s).len() > 0 ==> !is_space(trimmed_end(s).last()),
    decreases s.len(),
{
    if s.len() > 0 && is_space(s.last()) {
        lemma_trimmed_end(s.drop_last());
        let n = trimmed_end(s).len() as int;
        assert(s.drop_last().take(n) =~= s.take(n));
    } else {
        assert(s.take(s.len() as int) =~= s);
    }
}

/// A text that begins and ends with something other than white space is trimmed already.
pub proof fn lemma_trimmed_fixed(s: Seq<char>)
    requires
        s.len() > 0 ==> !is_space(s[0]) && !is_space(s.last()),
    ensures
        trimmed(s) == s,
{
}

/// Lower case changes neither what is white space nor where a non-letter stands.
pub proof fn lemma_lowered(s: Seq<char>)
    ensures
        lowered(s).len() == s.len(),
        lowered(lowered(s)) == lowered(s),
        forall|i: int| 0 <= i < s.len() ==> is_space(#[trigger] lowered(s)[i]) == is_space(s[i]),
{
    assert(lowered(lowered(s)) =~= lowered(s));
}

/// Hexadecimal is made of the digits `0` to `9` and `a` to `f`, begins with `0` only for zero,
/// and reads back as the number that was written.
pub proof fn lemma_hex(n: nat)
    ensures
        hex(n).len() > 0,
        forall|i: int|
            0 <= i < hex(n).len() ==> '0' <= #[trigger] hex(n)[i] <= '9' || 'a' <= hex(n)[i]
                <= 'f',
        n > 0 ==> hex(n)[0] != '0',
        digits(hex(n), 16) == Some(n),
    decreases n,
{
    if n < 16 {
        assert(hex(n).drop_last() =~= Seq::<char>::empty());
        assert(digits(Seq::<char>::empty(), 16) == Some(0nat));
    } else {
        lemma_hex(n / 16);
        assert(hex(n).drop_last() =~= hex(n / 16));
        assert(hex(n).last() == hex_digit(n % 16));
        assert((n / 16) * 16 + n % 16 == n);
    }
}

// ---------------------------------------------------------------------------
// Laws
// ---------------------------------------------------------------------------

/// White space is these twenty-five characters and no others.
pub proof fn law_white_space(c: char)
    ensures
        is_space(c) <==> (c == '\t' || c == '\n' || c == '\u{b}' || c == '\u{c}' || c == '\r'
            || c == ' ' || c == '\u{85}' || c == '\u{a0}' || c == '\u{1680}' || c == '\u{2000}'
            || c == '\u{2001}' || c == '\u{2002}' || c == '\u{2003}' || c == '\u{2004}' || c
            == '\u{2005}' || c == '\u{2006}' || c == '\u{2007}' || c == '\u{2008}' || c
            == '\u{2009}' || c == '\u{200a}' || c == '\u{2028}' || c == '\u{2029}' || c
            == '\u{202f}' || c == '\u{205f}' || c == '\u{3000}'),
{
}

/// Whether a text is white space throughout.
pub open spec fn blank(s: Seq<char>) -> bool {
    forall|i: int| 0 <= i < s.len() ==> is_space(#[trigger] s[i])
}

proof fn lemma_trimmed_start_of_padded(a: Seq<char>, t: Seq<char>)
    requires
        blank(a),
    ensures
        trimmed_start(a + t) == trimmed_start(t),
    decreases a.len(),
{
    if a.len() == 0 {
        assert(a + t =~= t);
    } else {
        assert(is_space((a + t)[0]));
        assert((a + t).drop_first() =~= a.drop_first() + t);
        lemma_trimmed_start_of_padded(a.drop_first(), t);
    }
}

proof fn lemma_trimmed_end_of_padded(t: Seq<char>, b: Seq<char>)
    requires
        blank(b),
    ensures
        trimmed_end(t + b) == trimmed_end(t),
    decreases b.len(),
{
    if b.len() == 0 {
        assert(t + b =~= t);
    } else {
        assert((t + b).last() == b.last());
        assert(is_space(b[b.len() - 1]));
        assert((t + b).drop_last() =~= t + b.drop_last());
        lemma_trimmed_end_of_padded(t, b.drop_last());
    }
}

/// Trimming takes off the white space around a text, all of it and nothing else.
pub proof fn law_trimming(a: Seq<char>, m: Seq<char>, b: Seq<char>)
    requires
        blank(a),
        blank(b),
        m.len() > 0 ==> !is_space(m[0]) && !is_space(m.last()),
    ensures
        trimmed(a + m + b) == m,
        trimmed_start(a + m + b) == (if m.len() > 0 {
            m + b
        } else {
            Seq::<char>::empty()
        }),
{
    assert(a + m + b =~= a + (m + b));
    lemma_trimmed_start_of_padded(a, m + b);
    if m.len() > 0 {
        assert((m + b)[0] == m[0]);
        lemma_trimmed_end_of_padded(m, b);
    } else {
        assert(m + b =~= b + Seq::<char>::empty());
        lemma_trimmed_start_of_padded(b, Seq::<char>::empty());
        assert(m =~= Seq::<char>::empty());
    }
}

/// A text occurs in another exactly where it stands between two parts of it.
pub proof fn law_occurrence(s: Seq<char>, p: Seq<char>)
    ensures
        occurs(s, p) <==> exists|a: Seq<char>, b: Seq<char>| s == #[trigger] (a + p + b),
{
    if occurs(s, p) {
        let i = choose|i: int| occurs_at(s, p, i);
        let a = s.take(i);
        let b = s.skip(i + p.len());
        assert(s =~= a + s.subrange(i, i + p.len()) + b);
        assert(s == a + p + b);
    }
    if exists|a: Seq<char>, b: Seq<char>| s == #[trigger] (a + p + b) {
        let (a, b) = choose|a: Seq<char>, b: Seq<char>| s == #[trigger] (a + p + b);
        assert(s.subrange(a.len() as int, (a.len() + p.len()) as int) =~= p);
        assert(occurs_at(s, p, a.len() as int));
    }
}

/// A text occurs wherever it is put.
pub proof fn law_inserted_text_occurs(a: Seq<char>, p: Seq<char>, b: Seq<char>)
    ensures
        occurs(a + p + b, p),
{
    law_occurrence(a + p + b, p);
}

/// A text begins with another exactly where that is its first part.
pub proof fn law_beginning(s: Seq<char>, p: Seq<char>)
    ensures
        begins(s, p) <==> exists|b: Seq<char>| s == #[trigger] (p + b),
{
    if begins(s, p) {
        let b = s.skip(p.len() as int);
        assert(s =~= s.subrange(0, p.len() as int) + b);
        assert(s == p + b);
    }
    if exists|b: Seq<char>| s == #[trigger] (p + b) {
        let b = choose|b: Seq<char>| s == #[trigger] (p + b);
        assert(s.subrange(0, p.len() as int) =~= p);
    }
}

/// Stripping takes copies off one end, one after another, and stops where there is none.
pub proof fn law_stripping(s: Seq<char>, p: Seq<char>)
    requires
        p.len() > 0,
    ensures
        stripped_start(p + s, p) == stripped_start(s, p),
        stripped_end(s + p, p) == stripped_end(s, p),
        (forall|b: Seq<char>| s != #[trigger] (p + b)) ==> stripped_start(s, p) == s,
        (forall|a: Seq<char>| s != #[trigger] (a + p)) ==> stripped_end(s, p) == s,
{
    assert((p + s).subrange(0, p.len() as int) =~= p);
    assert((p + s).skip(p.len() as int) =~= s);
    let n = s.len() as int;
    assert((s + p).subrange(n, n + p.len()) =~= p);
    assert((s + p).take(n) =~= s);
    if begins(s, p) {
        law_beginning(s, p);
    }
    if ends(s, p) {
        let a = s.take(s.len() - p.len());
        assert(s =~= a + s.subrange(s.len() - p.len(), s.len() as int));
        assert(s == a + p);
    }
}

/// A text is split at the first `c` and nowhere else; without one it is not split.
pub proof fn law_splitting_once(a: Seq<char>, c: char, b: Seq<char>)
    requires
        !a.contains(c),
    ensures
        halves(a + seq![c] + b, c) == Some((a, b)),
        halves(a, c) is None,
{
    let s = a + seq![c] + b;
    let n = a.len() as int;
    assert forall|j: int| 0 <= j < n implies s[j] != c by {
        assert(s[j] == a[j]);
    }
    lemma_span_is(s, c, n);
    assert(s.take(n) =~= a);
    assert(s.skip(n + 1) =~= b);
    lemma_span_is(a, c, n);
}

/// Splitting at every `c` gives what stands before the first, then the pieces of what stands
/// after it.
pub proof fn law_splitting(a: Seq<char>, c: char, b: Seq<char>)
    requires
        !a.contains(c),
    ensures
        pieces(a, c) == seq![a],
        pieces(a + seq![c] + b, c) == seq![a] + pieces(b, c),
{
    law_splitting_once(a, c, b);
}

/// The lines of a text: up to the first line feed, without a carriage return before it, and then
/// the lines of the rest. What follows the last line feed is a line only if there is something.
pub proof fn law_lines(a: Seq<char>, b: Seq<char>)
    requires
        !a.contains('\n'),
    ensures
        lines_of(Seq::<char>::empty()) == Seq::<Seq<char>>::empty(),
        a.len() > 0 ==> lines_of(a) == seq![a],
        a.len() > 0 && a.last() == '\r' ==> lines_of(a + seq!['\n'] + b) == seq![a.drop_last()]
            + lines_of(b),
        a.len() == 0 || a.last() != '\r' ==> lines_of(a + seq!['\n'] + b) == seq![a] + lines_of(b),
{
    law_splitting_once(a, '\n', b);
    law_splitting_once(Seq::<char>::empty(), '\n', b);
}

proof fn lemma_word_len_is(w: Seq<char>, t: Seq<char>)
    requires
        forall|i: int| 0 <= i < w.len() ==> !is_space(#[trigger] w[i]),
        t.len() > 0 ==> is_space(t[0]),
    ensures
        word_len(w + t) == w.len(),
    decreases w.len(),
{
    if w.len() == 0 {
        assert(w + t =~= t);
    } else {
        assert((w + t)[0] == w[0]);
        assert((w + t).drop_first() =~= w.drop_first() + t);
        lemma_word_len_is(w.drop_first(), t);
    }
}

/// The words of a text: white space before a word does not count, a word goes up to the next
/// white space, and then come the words of the rest.
pub proof fn law_words(a: Seq<char>, w: Seq<char>, t: Seq<char>)
    requires
        blank(a),
        forall|i: int| 0 <= i < w.len() ==> !is_space(#[trigger] w[i]),
        w.len() > 0,
        t.len() > 0 ==> is_space(t[0]),
    ensures
        words_of(a + w + t) == seq![w] + words_of(t),
        words_of(a) == Seq::<Seq<char>>::empty(),
{
    let s = a + w + t;
    assert(s =~= a + (w + t));
    lemma_trimmed_start_of_padded(a, w + t);
    assert((w + t)[0] == w[0]);
    lemma_word_len_is(w, t);
    assert((w + t).take(w.len() as int) =~= w);
    assert((w + t).skip(w.len() as int) =~= t);
    lemma_trimmed_start_of_padded(a, Seq::<char>::empty());
    assert(a + Seq::<char>::empty() =~= a);
}

/// Lower case moves the letters `A` to `Z` to `a` to `z` and leaves everything else, in place.
pub proof fn law_lower_case(s: Seq<char>, i: int)
    requires
        0 <= i < s.len(),
    ensures
        lowered(s).len() == s.len(),
        'A' <= s[i] <= 'Z' ==> lowered(s)[i] as int - 'a' as int == s[i] as int - 'A' as int,
        !('A' <= s[i] <= 'Z') ==> lowered(s)[i] == s[i],
{
}

/// `n` in decimal, without leading zeros.
pub open spec fn decimal(n: nat) -> Seq<char>
    decreases n,
{
    if n < 10 {
        seq![('0' as u32 + n) as char]
    } else {
        decimal(n / 10).push(('0' as u32 + n % 10) as char)
    }
}

/// Decimal is made of the digits `0` to `9`, begins with `0` only for zero, and reads back as the
/// number that was written.
pub proof fn lemma_decimal(n: nat)
    ensures
        decimal(n).len() > 0,
        forall|i: int| 0 <= i < decimal(n).len() ==> '0' <= #[trigger] decimal(n)[i] <= '9',
        n > 0 ==> decimal(n)[0] != '0',
        digits(decimal(n), 10) == Some(n),
    decreases n,
{
    if n < 10 {
        assert(decimal(n).drop_last() =~= Seq::<char>::empty());
        assert(digits(Seq::<char>::empty(), 10) == Some(0nat));
    } else {
        lemma_decimal(n / 10);
        assert(decimal(n).drop_last() =~= decimal(n / 10));
        assert((n / 10) * 10 + n % 10 == n);
    }
}

/// A number that was written is read back, in decimal and in hexadecimal, with or without a plus
/// sign, exactly where it is not too large.
pub proof fn law_numerals_read_back(n: nat, max: nat)
    ensures
        numeral_up_to(decimal(n), 10, max) == (if n <= max {
            Some(n)
        } else {
            None
        }),
        numeral_up_to(hex(n), 16, max) == (if n <= max {
            Some(n)
        } else {
            None
        }),
        numeral_up_to(seq!['+'] + decimal(n), 10, max) == numeral_up_to(decimal(n), 10, max),
        trimmed(decimal(n)) == decimal(n),
{
    lemma_decimal(n);
    lemma_hex(n);
    let d = decimal(n);
    let h = hex(n);
    assert('0' <= d[0] <= '9');
    assert('0' <= d[d.len() - 1] <= '9');
    assert('0' <= h[0] <= '9' || 'a' <= h[0] <= 'f');
    assert((seq!['+'] + d).drop_first() =~= d);
    lemma_trimmed_fixed(d);
}

/// What holds anything but digits, and at most one plus sign before them, is no numeral, and
/// neither is what holds no digit.
pub proof fn law_only_digits_are_numerals(s: Seq<char>, radix: nat, max: nat, i: int)
    requires
        1 <= radix <= 16,
    ensures
        0 <= i < s.len() && digit(s[i], radix) is None && !(i == 0 && s[0] == '+')
            ==> numeral_up_to(s, radix, max) is None,
        s.len() == 0 || s == seq!['+'] ==> numeral_up_to(s, radix, max) is None,
{
    if 0 <= i < s.len() && digit(s[i], radix) is None && !(i == 0 && s[0] == '+') {
        let plus = s[0] == '+';
        let d = if plus {
            s.drop_first()
        } else {
            s
        };
        let k = if plus {
            i - 1
        } else {
            i
        };
        assert(d[k] == s[i]);
        lemma_digits_grow(d, radix, k + 1);
        assert(d.take(k + 1).last() == d[k]);
    }
}

/// The digits: `0` to `9` stand for zero to nine, and `a` to `f` in either case for ten to
/// fifteen where the radix has them.
pub proof fn law_digits(c: char, radix: nat)
    requires
        radix <= 16,
    ensures
        digit(c, radix) is Some ==> digit(c, radix)->0 < radix,
        '0' <= c <= '9' && c as int - 48 < radix ==> digit(c, radix) == Some((c as int - 48) as nat),
        'a' <= c <= 'f' && radix == 16 ==> digit(c, radix) == Some((c as int - 87) as nat),
        'A' <= c <= 'F' && radix == 16 ==> digit(c, radix) == Some((c as int - 55) as nat),
        !('0' <= c <= '9' || 'a' <= c <= 'f' || 'A' <= c <= 'F') ==> digit(c, radix) is None,
{
}

/// A numeral is read digit by digit: one digit stands for its value, and each further digit counts
/// once more the radix. A plus sign before it and zeros before it change nothing.
pub proof fn law_numeral_grows(s: Seq<char>, c: char, radix: nat)
    requires
        1 <= radix <= 16,
    ensures
        c != '+' ==> numeral(seq![c], radix) == digit(c, radix),
        s.len() > 0 && s != seq!['+'] && numeral(s, radix) is Some && digit(c, radix) is Some
            ==> numeral(s.push(c), radix) == Some(
            numeral(s, radix)->0 * radix + digit(c, radix)->0,
        ),
        s.len() > 0 && (numeral(s, radix) is None && s != seq!['+'] || digit(c, radix) is None)
            ==> numeral(s.push(c), radix) is None,
        s.len() > 0 && s[0] != '+' ==> numeral(seq!['+'] + s, radix) == numeral(s, radix),
        s.len() > 0 && s[0] != '+' ==> numeral(seq!['0'] + s, radix) == numeral(s, radix),
{
    let none = Seq::<char>::empty();
    assert(seq![c].drop_last() =~= none);
    assert(digits(none, radix) == Some(0nat));
    assert(0 * radix == 0) by (nonlinear_arith);
    assert(digits(seq![c], radix) == digit(c, radix));
    if s.len() > 0 {
        let t = s.push(c);
        if s[0] == '+' {
            assert(t.drop_first() =~= s.drop_first().push(c));
            assert(s.drop_first().push(c).drop_last() =~= s.drop_first());
            if s.len() == 1 {
                assert(s =~= seq!['+']);
                assert(t.drop_first() =~= seq![c]);
            }
        } else {
            assert(t[0] == s[0]);
            assert(t.drop_last() =~= s);
        }
        assert((seq!['+'] + s).drop_first() =~= s);
        lemma_leading_zero(s, radix);
    }
}

proof fn lemma_leading_zero(s: Seq<char>, radix: nat)
    requires
        1 <= radix <= 16,
    ensures
        digits(seq!['0'] + s, radix) == digits(s, radix),
    decreases s.len(),
{
    let z = seq!['0'] + s;
    let none = Seq::<char>::empty();
    if s.len() == 0 {
        assert(z.drop_last() =~= none);
        assert(digits(none, radix) == Some(0nat));
        assert(z.last() == '0');
        assert(s =~= none);
        assert(0 * radix == 0) by (nonlinear_arith);
    } else {
        assert(z.drop_last() =~= seq!['0'] + s.drop_last());
        assert(z.last() == s.last());
        lemma_leading_zero(s.drop_last(), radix);
    }
}

} // verus!
