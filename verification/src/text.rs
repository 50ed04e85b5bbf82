//! Text primitives over sequences of characters.
//!
//! Every executable function here has a specification function over
//! `Seq<char>`, so that the modules built on top can speak of model names,
//! mount tables and command output as plain character sequences.

use vstd::prelude::*;
use vstd::string::*;

verus! {

/// `String::push` appends one character to the end of the string.
pub assume_specification[ String::push ](s: &mut String, c: char)
    ensures
        final(s)@ == old(s)@.push(c),
;

// ---------------------------------------------------------------------------
// Characters
// ---------------------------------------------------------------------------

/// The ASCII lower-case form of a character; anything else is unchanged.
pub open spec fn lower_char(c: char) -> char {
    if 'A' <= c && c <= 'Z' {
        ((c as u8) + 32) as char
    } else {
        c
    }
}

/// A decimal digit of ASCII.
pub open spec fn is_digit(c: char) -> bool {
    '0' <= c && c <= '9'
}

/// The number that an ASCII digit stands for.
pub open spec fn digit_value(c: char) -> nat {
    (c as u32 - '0' as u32) as nat
}

/// The Unicode `White_Space` property.
pub open spec fn is_space(c: char) -> bool {
    ||| '\u{9}' <= c && c <= '\u{d}'
    ||| c == '\u{20}'
    ||| c == '\u{85}'
    ||| c == '\u{a0}'
    ||| c == '\u{1680}'
    ||| '\u{2000}' <= c && c <= '\u{200a}'
    ||| c == '\u{2028}'
    ||| c == '\u{2029}'
    ||| c == '\u{202f}'
    ||| c == '\u{205f}'
    ||| c == '\u{3000}'
}

/// Whether `c` has the Unicode `White_Space` property.
pub fn char_is_space(c: char) -> (res: bool)
    ensures
        res == is_space(c),
{
    ('\u{9}' <= c && c <= '\u{d}') || c == '\u{20}' || c == '\u{85}' || c == '\u{a0}' || c
        == '\u{1680}' || ('\u{2000}' <= c && c <= '\u{200a}') || c == '\u{2028}' || c == '\u{2029}'
        || c == '\u{202f}' || c == '\u{205f}' || c == '\u{3000}'
}

/// The ASCII lower-case form of `c`.
fn char_to_lower(c: char) -> (res: char)
    ensures
        res == lower_char(c),
{
    if 'A' <= c && c <= 'Z' {
        ((c as u8) + 32) as char
    } else {
        c
    }
}

// ---------------------------------------------------------------------------
// Between strings and vectors of characters
// ---------------------------------------------------------------------------

/// The characters of a string.
pub fn chars_of(s: &str) -> (res: Vec<char>)
    ensures
        res@ == s@,
{
    let mut v: Vec<char> = Vec::new();
    for c in it: s.chars()
        invariant
            it.seq() == s@,
            v@ == s@.take(it.index()),
    {
        v.push(c);
        assert(s@.take(it.index() + 1) =~= s@.take(it.index()).push(c));
    }
    assert(s@.take(s@.len() as int) =~= s@);
    v
}

/// The string made of `v[from..to]`.
pub fn string_of(v: &Vec<char>, from: usize, to: usize) -> (res: String)
    requires
        from <= to <= v.len(),
    ensures
        res@ == v@.subrange(from as int, to as int),
{
    let mut s = String::new();
    let mut i: usize = from;
    while i < to
        invariant
            from <= i <= to <= v.len(),
            s@ == v@.subrange(from as int, i as int),
        decreases to - i,
    {
        s.push(v[i]);
        assert(v@.subrange(from as int, i + 1) =~= v@.subrange(from as int, i as int).push(
            v@[i as int],
        ));
        i += 1;
    }
    s
}

/// Whether two strings hold the same characters.
pub fn same_text(a: &str, b: &str) -> (res: bool)
    ensures
        res == (a@ == b@),
{
    let x = chars_of(a);
    let y = chars_of(b);
    if x.len() != y.len() {
        return false;
    }
    let mut i: usize = 0;
    while i < x.len()
        invariant
            x@ == a@,
            y@ == b@,
            x.len() == y.len(),
            i <= x.len(),
            forall|j: int| 0 <= j < i ==> x@[j] == y@[j],
        decreases x.len() - i,
    {
        if x[i] != y[i] {
            assert(a@[i as int] != b@[i as int]);
            return false;
        }
        i += 1;
    }
    assert(a@ =~= b@);
    true
}

// ---------------------------------------------------------------------------
// Case
// ---------------------------------------------------------------------------

/// ASCII lower-casing of a text.
pub open spec fn lower(s: Seq<char>) -> Seq<char> {
    s.map_values(|c: char| lower_char(c))
}

/// `s` with each ASCII upper-case letter replaced by its lower-case form.
pub fn to_lower(s: &str) -> (res: String)
    ensures
        res@ == lower(s@),
{
    let mut out = String::new();
    for c in it: s.chars()
        invariant
            it.seq() == s@,
            out@ == lower(s@).take(it.index()),
    {
        out.push(char_to_lower(c));
        assert(lower(s@).take(it.index() + 1) =~= lower(s@).take(it.index()).push(lower_char(c)));
    }
    assert(lower(s@).take(s@.len() as int) =~= lower(s@));
    out
}

// ---------------------------------------------------------------------------
// Searching
// ---------------------------------------------------------------------------

/// `pat` stands in `s` at position `i`.
pub open spec fn occurs_at(s: Seq<char>, pat: Seq<char>, i: int) -> bool {
    &&& 0 <= i
    &&& i + pat.len() <= s.len()
    &&& s.subrange(i, i + pat.len()) == pat
}

/// `pat` stands somewhere in `s`.
pub open spec fn contains_text(s: Seq<char>, pat: Seq<char>) -> bool {
    exists|i: int| occurs_at(s, pat, i)
}

/// `i` is the position of the first occurrence of `pat` in `s`.
pub open spec fn first_at(s: Seq<char>, pat: Seq<char>, i: int) -> bool {
    &&& occurs_at(s, pat, i)
    &&& forall|j: int| 0 <= j < i ==> !occurs_at(s, pat, j)
}

/// Whether `pat` stands in `s` at position `i`.
pub fn matches_at(s: &Vec<char>, pat: &Vec<char>, i: usize) -> (res: bool)
    ensures
        res == occurs_at(s@, pat@, i as int),
{
    if pat.len() > s.len() || i > s.len() - pat.len() {
        return false;
    }
    let mut k: usize = 0;
    while k < pat.len()
        invariant
            i + pat.len() <= s.len(),
            k <= pat.len(),
            forall|j: int| 0 <= j < k ==> s@[i + j] == pat@[j],
        decreases pat.len() - k,
    {
        if s[i + k] != pat[k] {
            assert(s@.subrange(i as int, i + pat.len())[k as int] != pat@[k as int]);
            return false;
        }
        k += 1;
    }
    assert(s@.subrange(i as int, i + pat.len()) =~= pat@);
    true
}

/// The position of the first occurrence of `pat` in `s`, if there is one.
pub fn find_chars(s: &Vec<char>, pat: &Vec<char>) -> (res: Option<usize>)
    ensures
        match res {
            Some(i) => first_at(s@, pat@, i as int),
            None => !contains_text(s@, pat@),
        },
{
    let mut i: usize = 0;
    while i < s.len()
        invariant
            i <= s.len(),
            forall|j: int| 0 <= j < i ==> !occurs_at(s@, pat@, j),
        decreases s.len() - i,
    {
        if matches_at(s, pat, i) {
            return Some(i);
        }
        i += 1;
    }
    if matches_at(s, pat, i) {
        return Some(i);
    }
    None
}

/// Whether `pat` stands somewhere in `s`.
pub fn contains(s: &str, pat: &str) -> (res: bool)
    ensures
        res == contains_text(s@, pat@),
{
    let x = chars_of(s);
    let p = chars_of(pat);
    match find_chars(&x, &p) {
        Some(_) => true,
        None => false,
    }
}

/// `s` begins with `pat`.
pub open spec fn begins_with(s: Seq<char>, pat: Seq<char>) -> bool {
    occurs_at(s, pat, 0)
}

/// Whether `s` begins with `pat`.
pub fn has_prefix(s: &str, pat: &str) -> (res: bool)
    ensures
        res == begins_with(s@, pat@),
{
    matches_at(&chars_of(s), &chars_of(pat), 0)
}

// ---------------------------------------------------------------------------
// White space
// ---------------------------------------------------------------------------

/// `s` without its leading white space.
pub open spec fn trim_start(s: Seq<char>) -> Seq<char>
    decreases s.len(),
{
    if s.len() > 0 && is_space(s[0]) {
        trim_start(s.skip(1))
    } else {
        s
    }
}

/// `s` without its trailing white space.
pub open spec fn trim_end(s: Seq<char>) -> Seq<char>
    decreases s.len(),
{
    if s.len() > 0 && is_space(s.last()) {
        trim_end(s.drop_last())
    } else {
        s
    }
}

/// `s` without leading and trailing white space.
pub open spec fn trim(s: Seq<char>) -> Seq<char> {
    trim_end(trim_start(s))
}

/// The position of the first character at or after `from` that is no white space.
fn skip_spaces(v: &Vec<char>, from: usize) -> (res: usize)
    requires
        from <= v.len(),
    ensures
        from <= res <= v.len(),
        v@.skip(res as int) == trim_start(v@.skip(from as int)),
        res < v.len() ==> !is_space(v@[res as int]),
{
    let mut i: usize = from;
    while i < v.len() && char_is_space(v[i])
        invariant
            from <= i <= v.len(),
            trim_start(v@.skip(i as int)) == trim_start(v@.skip(from as int)),
        decreases v.len() - i,
    {
        assert(v@.skip(i as int).skip(1) =~= v@.skip(i + 1));
        i += 1;
    }
    i
}

/// `s` without leading and trailing white space.
pub fn trimmed(s: &str) -> (res: String)
    ensures
        res@ == trim(s@),
{
    let v = chars_of(s);
    assert(v@.skip(0) =~= v@);
    let start = skip_spaces(&v, 0);
    let ghost t = v@.skip(start as int);
    let mut end: usize = v.len();
    assert(t.take(t.len() as int) =~= t);
    while start < end && char_is_space(v[end - 1])
        invariant
            start <= end <= v.len(),
            t == v@.skip(start as int),
            trim_end(t.take(end - start)) == trim_end(t),
        decreases end,
    {
        assert(t.take(end - start).last() == v@[end - 1]);
        assert(t.take(end - start).drop_last() =~= t.take(end - start - 1));
        end -= 1;
    }
    assert(start < end ==> t.take(end - start).last() == v@[end - 1]);
    assert(v@.subrange(start as int, end as int) =~= t.take(end - start));
    string_of(&v, start, end)
}

/// Every character of `s` is white space.
pub open spec fn all_space(s: Seq<char>) -> bool {
    forall|i: int| 0 <= i < s.len() ==> is_space(#[trigger] s[i])
}

proof fn lemma_trim_start_padded(pad: Seq<char>, s: Seq<char>)
    requires
        all_space(pad),
    ensures
        trim_start(pad + s) == trim_start(s),
    decreases pad.len(),
{
    if pad.len() == 0 {
        assert(pad + s =~= s);
    } else {
        assert((pad + s).skip(1) =~= pad.skip(1) + s);
        lemma_trim_start_padded(pad.skip(1), s);
    }
}

proof fn lemma_trim_end_padded(s: Seq<char>, pad: Seq<char>)
    requires
        all_space(pad),
    ensures
        trim_end(s + pad) == trim_end(s),
    decreases pad.len(),
{
    if pad.len() == 0 {
        assert(s + pad =~= s);
    } else {
        assert((s + pad).drop_last() =~= s + pad.drop_last());
        assert((s + pad).last() == pad.last());
        lemma_trim_end_padded(s, pad.drop_last());
    }
}

proof fn lemma_trim_start_before(s: Seq<char>, pad: Seq<char>)
    requires
        all_space(pad),
    ensures
        trim_start(s + pad) == trim_start(s) + pad || (trim_start(s).len() == 0 && trim_start(
            s + pad,
        ).len() == 0),
    decreases s.len(),
{
    if s.len() == 0 {
        assert(s + pad =~= pad + Seq::<char>::empty());
        lemma_trim_start_padded(pad, Seq::empty());
    } else if is_space(s[0]) {
        assert((s + pad).skip(1) =~= s.skip(1) + pad);
        lemma_trim_start_before(s.skip(1), pad);
    }
}

/// White space around a text does not change what trimming leaves of it.
pub proof fn lemma_trim_padded(before: Seq<char>, s: Seq<char>, after: Seq<char>)
    requires
        all_space(before),
        all_space(after),
    ensures
        trim(before + s + after) == trim(s),
{
    assert(before + s + after =~= before + (s + after));
    lemma_trim_start_padded(before, s + after);
    lemma_trim_start_before(s, after);
    if trim_start(s + after) == trim_start(s) + after {
        lemma_trim_end_padded(trim_start(s), after);
    } else {
        assert(trim_start(s + after) =~= trim_start(s));
    }
}

// ---------------------------------------------------------------------------
// Lines and fields
// ---------------------------------------------------------------------------

/// The character sequences of a sequence of strings.
pub open spec fn views(v: Seq<String>) -> Seq<Seq<char>> {
    v.map_values(|x: String| x@)
}

/// How many characters stand before the first line feed, or in `s` if it has none.
pub open spec fn line_end(s: Seq<char>) -> nat
    decreases s.len(),
{
    if s.len() == 0 || s[0] == '\n' {
        0
    } else {
        1 + line_end(s.skip(1))
    }
}

/// A line without the carriage return that stands before its line feed.
pub open spec fn chomp(s: Seq<char>) -> Seq<char> {
    if s.len() > 0 && s.last() == '\r' {
        s.drop_last()
    } else {
        s
    }
}

/// The lines of a text. A line ends in a line feed, with or without a carriage
/// return before it; the last line may go without.
pub open spec fn lines(s: Seq<char>) -> Seq<Seq<char>>
    decreases s.len(),
{
    if s.len() == 0 {
        Seq::empty()
    } else if line_end(s) >= s.len() {
        seq![s]
    } else {
        seq![chomp(s.take(line_end(s) as int))] + lines(s.skip(line_end(s) as int + 1))
    }
}

fn find_line_end(v: &Vec<char>, from: usize) -> (res: usize)
    requires
        from <= v.len(),
    ensures
        from <= res <= v.len(),
        res == from + line_end(v@.skip(from as int)),
{
    let mut i: usize = from;
    while i < v.len() && v[i] != '\n'
        invariant
            from <= i <= v.len(),
            i + line_end(v@.skip(i as int)) == from + line_end(v@.skip(from as int)),
        decreases v.len() - i,
    {
        assert(v@.skip(i as int).skip(1) =~= v@.skip(i + 1));
        i += 1;
    }
    i
}

/// The lines of a text.
pub fn lines_of(s: &str) -> (res: Vec<String>)
    ensures
        views(res@) == lines(s@),
{
    let v = chars_of(s);
    let mut out: Vec<String> = Vec::new();
    let mut i: usize = 0;
    assert(v@.skip(0) =~= v@);
    assert(views(out@) + lines(v@.skip(0)) =~= lines(s@));
    while i < v.len()
        invariant
            v@ == s@,
            i <= v.len(),
            views(out@) + lines(v@.skip(i as int)) == lines(s@),
        decreases v.len() - i,
    {
        let ghost rest = v@.skip(i as int);
        let e = find_line_end(&v, i);
        if e == v.len() {
            assert(v@.subrange(i as int, e as int) =~= rest);
            let ghost before = out@;
            out.push(string_of(&v, i, e));
            assert(views(out@) =~= views(before).push(rest));
            i = v.len();
            assert(v@.skip(i as int).len() == 0);
            assert(views(out@) + lines(v@.skip(i as int)) =~= views(before) + lines(rest));
        } else {
            let end = if e > i && v[e - 1] == '\r' {
                e - 1
            } else {
                e
            };
            assert(v@.subrange(i as int, end as int) =~= chomp(rest.take(e - i)));
            let ghost before = out@;
            out.push(string_of(&v, i, end));
            assert(views(out@) =~= views(before).push(chomp(rest.take(e - i))));
            assert(rest.skip(e - i + 1) =~= v@.skip(e + 1));
            i = e + 1;
            assert(views(out@) + lines(v@.skip(i as int)) =~= views(before) + lines(rest));
        }
    }
    assert(v@.skip(i as int).len() == 0);
    assert(views(out@) + lines(v@.skip(i as int)) =~= views(out@));
    out
}

/// How many characters stand before the first white space, or in `s` if it has none.
pub open spec fn word_end(s: Seq<char>) -> nat
    decreases s.len(),
{
    if s.len() == 0 || is_space(s[0]) {
        0
    } else {
        1 + word_end(s.skip(1))
    }
}

/// The fields of a text: its maximal runs without white space.
pub open spec fn fields(s: Seq<char>) -> Seq<Seq<char>>
    decreases s.len(),
{
    let t = trim_start(s);
    if t.len() == 0 || word_end(t) == 0 {
        Seq::empty()
    } else {
        proof {
            lemma_trim_start_len(s);
            lemma_word_end_len(t);
        }
        seq![t.take(word_end(t) as int)] + fields(t.skip(word_end(t) as int))
    }
}

pub proof fn lemma_trim_start_len(s: Seq<char>)
    ensures
        trim_start(s).len() <= s.len(),
    decreases s.len(),
{
    if s.len() > 0 && is_space(s[0]) {
        lemma_trim_start_len(s.skip(1));
    }
}

pub proof fn lemma_word_end_len(s: Seq<char>)
    ensures
        word_end(s) <= s.len(),
    decreases s.len(),
{
    if s.len() > 0 && !is_space(s[0]) {
        lemma_word_end_len(s.skip(1));
    }
}

fn find_word_end(v: &Vec<char>, from: usize) -> (res: usize)
    requires
        from <= v.len(),
    ensures
        from <= res <= v.len(),
        res == from + word_end(v@.skip(from as int)),
{
    let mut i: usize = from;
    while i < v.len() && !char_is_space(v[i])
        invariant
            from <= i <= v.len(),
            i + word_end(v@.skip(i as int)) == from + word_end(v@.skip(from as int)),
        decreases v.len() - i,
    {
        assert(v@.skip(i as int).skip(1) =~= v@.skip(i + 1));
        i += 1;
    }
    i
}

/// The fields of a text.
pub fn fields_of(s: &str) -> (res: Vec<String>)
    ensures
        views(res@) == fields(s@),
{
    let v = chars_of(s);
    let mut out: Vec<String> = Vec::new();
    let mut i: usize = 0;
    assert(v@.skip(0) =~= v@);
    assert(views(out@) + fields(v@.skip(0)) =~= fields(s@));
    while i < v.len()
        invariant
            v@ == s@,
            i <= v.len(),
            views(out@) + fields(v@.skip(i as int)) == fields(s@),
        decreases v.len() - i,
    {
        let ghost rest = v@.skip(i as int);
        let ghost before = out@;
        proof {
            lemma_trim_start_len(rest);
            lemma_word_end_len(trim_start(rest));
        }
        let a = skip_spaces(&v, i);
        let ghost t = v@.skip(a as int);
        if a == v.len() {
            i = a;
            assert(fields(rest).len() == 0);
            assert(v@.skip(i as int) =~= Seq::<char>::empty());
            assert(fields(v@.skip(i as int)).len() == 0) by {
                lemma_trim_start_len(v@.skip(i as int));
                lemma_word_end_len(trim_start(v@.skip(i as int)));
            }
            assert(views(out@) + fields(v@.skip(i as int)) =~= views(before) + fields(rest));
        } else {
            assert(t[0] == v@[a as int]);
            let b = find_word_end(&v, a);
            assert(v@.subrange(a as int, b as int) =~= t.take(b - a));
            out.push(string_of(&v, a, b));
            assert(views(out@) =~= views(before).push(t.take(b - a)));
            assert(t.skip(b - a) =~= v@.skip(b as int));
            i = b;
            assert(views(out@) + fields(v@.skip(i as int)) =~= views(before) + fields(rest));
        }
    }
    assert(v@.skip(i as int) =~= Seq::<char>::empty());
    assert(fields(v@.skip(i as int)).len() == 0) by {
        lemma_trim_start_len(v@.skip(i as int));
        lemma_word_end_len(trim_start(v@.skip(i as int)));
    }
    assert(views(out@) + fields(v@.skip(i as int)) =~= views(out@));
    out
}

// ---------------------------------------------------------------------------
// Numbers
// ---------------------------------------------------------------------------

/// The character of a decimal digit.
pub open spec fn digit_char(d: nat) -> char {
    ('0' as u32 + d) as char
}

/// The decimal form of a number, without leading zeros.
pub open spec fn decimal(n: nat) -> Seq<char>
    decreases n,
{
    if n < 10 {
        seq![digit_char(n)]
    } else {
        decimal(n / 10).push(digit_char(n % 10))
    }
}

/// The decimal form of `n`.
pub fn decimal_of(n: u64) -> (res: String)
    ensures
        res@ == decimal(n as nat),
    decreases n,
{
    if n < 10 {
        let mut s = String::new();
        s.push((('0' as u8) + (n as u8)) as char);
        assert(s@ =~= decimal(n as nat));
        s
    } else {
        let mut s = decimal_of(n / 10);
        s.push((('0' as u8) + ((n % 10) as u8)) as char);
        s
    }
}

/// Every character of `s` is a digit.
pub open spec fn all_digits(s: Seq<char>) -> bool {
    forall|i: int| 0 <= i < s.len() ==> is_digit(#[trigger] s[i])
}

/// The number that a run of digits stands for.
pub open spec fn digits_value(s: Seq<char>) -> nat
    decreases s.len(),
{
    if s.len() == 0 {
        0
    } else {
        digits_value(s.drop_last()) * 10 + digit_value(s.last())
    }
}

/// What a text says as a 64-bit number: an optional plus sign and then digits
/// alone, at least one of them, whose value fits.
pub open spec fn parsed(s: Seq<char>) -> Option<u64> {
    let d = if s.len() > 0 && s[0] == '+' {
        s.skip(1)
    } else {
        s
    };
    if d.len() > 0 && all_digits(d) && digits_value(d) <= u64::MAX {
        Some(digits_value(d) as u64)
    } else {
        None
    }
}

proof fn lemma_digits_value_take(s: Seq<char>, i: int)
    requires
        0 <= i <= s.len(),
    ensures
        digits_value(s.take(i)) <= digits_value(s),
    decreases s.len(),
{
    if i == s.len() {
        assert(s.take(i) =~= s);
    } else {
        lemma_digits_value_take(s.drop_last(), i);
        assert(s.drop_last().take(i) =~= s.take(i));
    }
}

/// The number that `v[from..]` stands for, if it is a run of digits that fits.
pub fn parse_chars(v: &Vec<char>, from: usize) -> (res: Option<u64>)
    requires
        from <= v.len(),
    ensures
        res == ({
            let d = v@.skip(from as int);
            if d.len() > 0 && all_digits(d) && digits_value(d) <= u64::MAX {
                Some(digits_value(d) as u64)
            } else {
                None
            }
        }),
{
    let ghost d = v@.skip(from as int);
    if from == v.len() {
        return None;
    }
    let mut n: u64 = 0;
    let mut i: usize = from;
    assert(d.take(0).len() == 0);
    while i < v.len()
        invariant
            d == v@.skip(from as int),
            from <= i <= v.len(),
            n == digits_value(d.take(i - from)),
            forall|j: int| 0 <= j < i - from ==> is_digit(#[trigger] d[j]),
        decreases v.len() - i,
    {
        let c = v[i];
        assert(d[i - from] == c);
        if !('0' <= c && c <= '9') {
            assert(!is_digit(d[i - from]));
            return None;
        }
        let ghost next = d.take(i - from + 1);
        assert(next.drop_last() =~= d.take(i - from));
        assert(digits_value(next) == n * 10 + digit_value(c));
        proof {
            lemma_digits_value_take(d, i - from + 1);
        }
        let k: u64 = (c as u64) - ('0' as u64);
        let m: u128 = (n as u128) * 10 + (k as u128);
        if m > u64::MAX as u128 {
            return None;
        }
        n = m as u64;
        i += 1;
    }
    assert(d.take(i - from) =~= d);
    Some(n)
}

/// The number that `s` says; see [`parsed`].
pub fn parse_u64(s: &str) -> (res: Option<u64>)
    ensures
        res == parsed(s@),
{
    let v = chars_of(s);
    if v.len() > 0 && v[0] == '+' {
        parse_chars(&v, 1)
    } else {
        assert(v@.skip(0) =~= v@);
        parse_chars(&v, 0)
    }
}

/// Reading back the decimal form of a number gives the number.
pub proof fn lemma_decimal_reads_back(n: nat)
    ensures
        decimal(n).len() > 0,
        all_digits(decimal(n)),
        digits_value(decimal(n)) == n,
    decreases n,
{
    if n < 10 {
        assert(decimal(n).drop_last() =~= Seq::<char>::empty());
        assert(digits_value(decimal(n).drop_last()) == 0);
    } else {
        lemma_decimal_reads_back(n / 10);
        assert(decimal(n).drop_last() =~= decimal(n / 10));
    }
}

/// Parsing the decimal form of a 64-bit number gives the number.
pub proof fn lemma_parse_decimal(n: u64)
    ensures
        parsed(decimal(n as nat)) == Some(n),
{
    lemma_decimal_reads_back(n as nat);
    assert(is_digit(decimal(n as nat)[0]));
}

// ---------------------------------------------------------------------------
// Putting text together
// ---------------------------------------------------------------------------

/// The parts with `sep` between each two of them.
pub open spec fn joined(parts: Seq<Seq<char>>, sep: Seq<char>) -> Seq<char>
    decreases parts.len(),
{
    if parts.len() == 0 {
        Seq::empty()
    } else if parts.len() == 1 {
        parts[0]
    } else {
        joined(parts.drop_last(), sep) + sep + parts.last()
    }
}

/// The parts with `sep` between each two of them.
pub fn join(parts: &Vec<String>, sep: &str) -> (res: String)
    ensures
        res@ == joined(views(parts@), sep@),
{
    let ghost all = views(parts@);
    let mut out = String::new();
    let mut i: usize = 0;
    assert(out@ =~= joined(all.take(0), sep@));
    while i < parts.len()
        invariant
            i <= parts.len(),
            all == views(parts@),
            out@ == joined(all.take(i as int), sep@),
        decreases parts.len() - i,
    {
        assert(all.take(i + 1).drop_last() =~= all.take(i as int));
        if i > 0 {
            out.append(sep);
        }
        out.append(&parts[i]);
        i += 1;
        assert(out@ =~= joined(all.take(i as int), sep@));
    }
    assert(all.take(i as int) =~= all);
    out
}

/// The characters other than `c`.
pub open spec fn other_than(c: char) -> spec_fn(char) -> bool {
    |x: char| x != c
}

/// `s` without the characters equal to `c`.
pub open spec fn without(s: Seq<char>, c: char) -> Seq<char> {
    s.filter(other_than(c))
}

/// `s` without the characters equal to `c`.
pub fn remove_char(s: &str, c: char) -> (res: String)
    ensures
        res@ == without(s@, c),
{
    let mut out = String::new();
    for x in it: s.chars()
        invariant
            it.seq() == s@,
            out@ == s@.take(it.index()).filter(other_than(c)),
    {
        proof {
            let t = s@.take(it.index() + 1);
            reveal(Seq::filter);
            assert(t.drop_last() =~= s@.take(it.index()));
            assert(t.last() == x);
        }
        if x != c {
            out.push(x);
        }
    }
    assert(s@.take(s@.len() as int) =~= s@);
    out
}

/// A path below a directory, as `Path::join` gives it: an absolute `name`
/// stands for itself, and no second slash follows one that is there.
pub open spec fn path_below(dir: Seq<char>, name: Seq<char>) -> Seq<char> {
    if name.len() > 0 && name[0] == '/' {
        name
    } else if dir.len() == 0 || dir.last() == '/' {
        dir + name
    } else {
        dir.push('/') + name
    }
}

/// `name` below `dir`.
pub fn join_path(dir: &str, name: &str) -> (res: String)
    ensures
        res@ == path_below(dir@, name@),
{
    let d = chars_of(dir);
    let n = chars_of(name);
    if n.len() > 0 && n[0] == '/' {
        return name.to_owned();
    }
    let mut out = dir.to_owned();
    if d.len() > 0 && d[d.len() - 1] != '/' {
        out.push('/');
    }
    out.append(name);
    out
}

/// The concatenation of two texts.
pub fn cat(a: &str, b: &str) -> (res: String)
    ensures
        res@ == a@ + b@,
{
    let mut out = a.to_owned();
    out.append(b);
    out
}

// ---------------------------------------------------------------------------
// Laws
// ---------------------------------------------------------------------------

/// Lower-casing moves each of the 26 capital letters of ASCII to its small
/// letter, 32 code points further on, and leaves every other character alone.
pub proof fn law_lower_moves_capitals_only(s: Seq<char>, i: int)
    requires
        0 <= i < s.len(),
    ensures
        lower(s).len() == s.len(),
        65 <= s[i] as int <= 90 ==> lower(s)[i] as int == s[i] as int + 32,
        !(65 <= s[i] as int <= 90) ==> lower(s)[i] == s[i],
{
}

/// Lower-casing goes character by character.
pub proof fn law_lower_of_parts(a: Seq<char>, b: Seq<char>)
    ensures
        lower(a + b) == lower(a) + lower(b),
        lower(lower(a)) == lower(a),
{
    assert(lower(a + b) =~= lower(a) + lower(b));
    assert(lower(lower(a)) =~= lower(a));
}

/// White space is what Unicode lists as such, by code point; no printable
/// character of ASCII is among it.
pub proof fn law_space_by_code_point(c: char)
    ensures
        is_space(c) <==> {
            let n = c as int;
            ||| 9 <= n <= 13
            ||| n == 32
            ||| n == 0x85
            ||| n == 0xa0
            ||| n == 0x1680
            ||| 0x2000 <= n <= 0x200a
            ||| n == 0x2028
            ||| n == 0x2029
            ||| n == 0x202f
            ||| n == 0x205f
            ||| n == 0x3000
        },
        33 <= c as int <= 126 ==> !is_space(c),
{
}

proof fn lemma_trim_start_splits(s: Seq<char>)
    ensures
        trim_start(s).len() <= s.len(),
        s == s.take(s.len() - trim_start(s).len()) + trim_start(s),
        all_space(s.take(s.len() - trim_start(s).len())),
        trim_start(s).len() > 0 ==> !is_space(trim_start(s)[0]),
    decreases s.len(),
{
    if s.len() > 0 && is_space(s[0]) {
        let rest = s.skip(1);
        lemma_trim_start_splits(rest);
        let n = s.len() - trim_start(s).len();
        assert forall|i: int| 0 <= i < n implies is_space(#[trigger] s.take(n)[i]) by {
            if i > 0 {
                assert(rest.take(n - 1)[i - 1] == s[i]);
            }
        }
        assert(s =~= s.take(n) + trim_start(s)) by {
            assert(rest =~= rest.take(n - 1) + trim_start(rest));
            assert forall|i: int| n <= i < s.len() implies s[i] == trim_start(s)[i - n] by {
                assert(rest[i - 1] == trim_start(rest)[i - n]);
            }
        }
    } else {
        assert(s =~= s.take(0) + s);
    }
}

proof fn lemma_trim_end_splits(s: Seq<char>)
    ensures
        trim_end(s).len() <= s.len(),
        trim_end(s) == s.take(trim_end(s).len() as int),
        all_space(s.skip(trim_end(s).len() as int)),
        trim_end(s).len() > 0 ==> !is_space(trim_end(s).last()),
    decreases s.len(),
{
    if s.len() > 0 && is_space(s.last()) {
        let rest = s.drop_last();
        lemma_trim_end_splits(rest);
        let n = trim_end(s).len() as int;
        assert(s.take(n) =~= rest.take(n));
        assert forall|i: int| 0 <= i < s.skip(n).len() implies is_space(
            #[trigger] s.skip(n)[i],
        ) by {
            if i < s.skip(n).len() - 1 {
                assert(rest.skip(n)[i] == s.skip(n)[i]);
            }
        }
    } else {
        assert(s.take(s.len() as int) =~= s);
    }
}

/// Trimming takes away white space alone, from both ends and as much as there
/// is: the text is what is left between two runs of white space, and what is
/// left neither begins nor ends in white space.
pub proof fn law_trim_takes_outer_space(s: Seq<char>)
    ensures
        exists|before: Seq<char>, after: Seq<char>|
            #![trigger all_space(before), all_space(after)]
            all_space(before) && all_space(after) && s == before + trim(s) + after,
        trim(s).len() > 0 ==> !is_space(trim(s)[0]) && !is_space(trim(s).last()),
{
    let t = trim_start(s);
    lemma_trim_start_splits(s);
    lemma_trim_end_splits(t);
    let before = s.take(s.len() - t.len());
    let after = t.skip(trim(s).len() as int);
    assert(s =~= before + trim(s) + after);
    assert(all_space(before) && all_space(after));
}

/// A text that neither begins nor ends in white space is what trimming leaves of
/// it, whatever white space is put around it.
pub proof fn law_trim_keeps_the_rest(before: Seq<char>, s: Seq<char>, after: Seq<char>)
    requires
        all_space(before),
        all_space(after),
        s.len() > 0 ==> !is_space(s[0]) && !is_space(s.last()),
    ensures
        trim(before + s + after) == s,
{
    lemma_trim_padded(before, s, after);
}

/// Trimming leaves something exactly where some character is no white space.
pub proof fn law_trim_empties_blank_text(s: Seq<char>)
    ensures
        trim(s).len() > 0 <==> exists|i: int| 0 <= i < s.len() && !is_space(#[trigger] s[i]),
{
    law_trim_takes_outer_space(s);
    let (before, after) = choose|before: Seq<char>, after: Seq<char>|
        #![trigger all_space(before), all_space(after)]
        all_space(before) && all_space(after) && s == before + trim(s) + after;
    if trim(s).len() > 0 {
        assert(s[before.len() as int] == trim(s)[0]);
    } else {
        assert forall|i: int| 0 <= i < s.len() implies is_space(#[trigger] s[i]) by {
            if i < before.len() {
                assert(s[i] == before[i]);
            } else {
                assert(s[i] == after[i - before.len()]);
            }
        }
    }
}

/// A text occurs in every text that has it in its middle, and in no other.
pub proof fn law_occurrence_splits_the_text(s: Seq<char>, pat: Seq<char>)
    ensures
        contains_text(s, pat) <==> exists|a: Seq<char>, b: Seq<char>| s == #[trigger] (a + pat + b),
        begins_with(s, pat) <==> exists|b: Seq<char>| s == #[trigger] (pat + b),
{
    if contains_text(s, pat) {
        let i = choose|i: int| occurs_at(s, pat, i);
        let (a, b) = (s.take(i), s.skip(i + pat.len()));
        assert forall|k: int| i <= k < i + pat.len() implies s[k] == pat[k - i] by {
            assert(s.subrange(i, i + pat.len())[k - i] == s[k]);
        }
        assert(s =~= a + pat + b);
    }
    if exists|a: Seq<char>, b: Seq<char>| s == #[trigger] (a + pat + b) {
        let (a, b) = choose|a: Seq<char>, b: Seq<char>| s == #[trigger] (a + pat + b);
        let i = a.len() as int;
        assert(s.subrange(i, i + pat.len()) =~= pat);
        assert(occurs_at(s, pat, i));
    }
    if begins_with(s, pat) {
        assert forall|k: int| 0 <= k < pat.len() implies s[k] == pat[k] by {
            assert(s.subrange(0, pat.len() as int)[k] == s[k]);
        }
        assert(s =~= pat + s.skip(pat.len() as int));
    }
    if exists|b: Seq<char>| s == #[trigger] (pat + b) {
        assert(s.subrange(0, pat.len() as int) =~= pat);
    }
}

proof fn lemma_line_end(line: Seq<char>, rest: Seq<char>)
    requires
        forall|i: int| 0 <= i < line.len() ==> #[trigger] line[i] != '\n',
    ensures
        line_end(line + seq!['\n'] + rest) == line.len(),
        line_end(line) == line.len(),
    decreases line.len(),
{
    let all = line + seq!['\n'] + rest;
    if line.len() > 0 {
        lemma_line_end(line.skip(1), rest);
        assert(all.skip(1) =~= line.skip(1) + seq!['\n'] + rest);
        assert(all[0] == line[0]);
    }
}

/// The lines of a text are what stands between its line feeds; a carriage
/// return right before a line feed is no part of the line.
pub proof fn law_lines_end_in_line_feeds(line: Seq<char>, rest: Seq<char>)
    requires
        forall|i: int| 0 <= i < line.len() ==> #[trigger] line[i] != '\n',
    ensures
        lines(Seq::empty()) == Seq::<Seq<char>>::empty(),
        line.len() > 0 ==> lines(line) == seq![line],
        !(line.len() > 0 && line.last() == '\r') ==> lines(line + seq!['\n'] + rest) == seq![line]
            + lines(rest),
        lines(line + seq!['\r', '\n'] + rest) == seq![line] + lines(rest),
{
    let all = line + seq!['\n'] + rest;
    lemma_line_end(line, rest);
    assert(all.take(line.len() as int) =~= line);
    assert(all.skip(line.len() as int + 1) =~= rest);
    let long = line.push('\r');
    let crlf = line + seq!['\r', '\n'] + rest;
    assert forall|i: int| 0 <= i < long.len() implies #[trigger] long[i] != '\n' by {
        if i < line.len() {
            assert(long[i] == line[i]);
        }
    }
    lemma_line_end(long, rest);
    assert(crlf =~= long + seq!['\n'] + rest);
    assert(crlf.take(long.len() as int) =~= long);
    assert(long.drop_last() =~= line);
    assert(crlf.skip(long.len() as int + 1) =~= rest);
}

proof fn lemma_word_end(word: Seq<char>, rest: Seq<char>)
    requires
        forall|i: int| 0 <= i < word.len() ==> !is_space(#[trigger] word[i]),
        rest.len() > 0 ==> is_space(rest[0]),
    ensures
        word_end(word + rest) == word.len(),
    decreases word.len(),
{
    if word.len() > 0 {
        lemma_word_end(word.skip(1), rest);
        assert((word + rest).skip(1) =~= word.skip(1) + rest);
        assert((word + rest)[0] == word[0]);
    } else {
        assert(word + rest =~= rest);
    }
}

/// The fields of a text are its words, in order: white space before a word does
/// not matter, and a word goes on until the next white space.
pub proof fn law_fields_are_the_words(pad: Seq<char>, word: Seq<char>, rest: Seq<char>)
    requires
        all_space(pad),
        word.len() > 0,
        forall|i: int| 0 <= i < word.len() ==> !is_space(#[trigger] word[i]),
        rest.len() > 0 ==> is_space(rest[0]),
    ensures
        fields(pad) == Seq::<Seq<char>>::empty(),
        fields(pad + word + rest) == seq![word] + fields(rest),
{
    let s = pad + word + rest;
    assert(s =~= pad + (word + rest));
    lemma_trim_start_padded(pad, word + rest);
    assert((word + rest)[0] == word[0]);
    assert(trim_start(s) == word + rest);
    lemma_word_end(word, rest);
    assert((word + rest).take(word.len() as int) =~= word);
    assert((word + rest).skip(word.len() as int) =~= rest);
    lemma_trim_start_padded(pad, Seq::empty());
    assert(pad + Seq::<char>::empty() =~= pad);
    assert(trim_start(Seq::<char>::empty()).len() == 0);
    assert(fields(pad) =~= Seq::empty());
}

/// Decimal numbers are written with the most significant digit first, each
/// digit as its ASCII character, and without a leading zero.
pub proof fn law_decimal_is_positional(n: nat, d: nat)
    requires
        d < 10,
    ensures
        decimal(d).len() == 1 && decimal(d)[0] as int == 48 + d,
        n > 0 ==> decimal(n * 10 + d) == decimal(n) + decimal(d),
        n > 0 ==> decimal(n)[0] != '0',
    decreases n,
{
    assert((n * 10 + d) / 10 == n && (n * 10 + d) % 10 == d);
    if n > 0 {
        assert(decimal(n * 10 + d) =~= decimal(n) + decimal(d));
        if n >= 10 {
            law_decimal_is_positional(n / 10, n % 10);
            lemma_decimal_reads_back(n / 10);
        }
    }
}

/// The decimal forms of different numbers differ.
pub proof fn law_decimals_differ(a: nat, b: nat)
    ensures
        decimal(a) == decimal(b) ==> a == b,
{
    lemma_decimal_reads_back(a);
    lemma_decimal_reads_back(b);
}

/// Reading digits gives the number they stand for, most significant first.
pub proof fn law_digits_are_positional(s: Seq<char>, c: char)
    requires
        48 <= c as int <= 57,
    ensures
        digits_value(Seq::empty()) == 0,
        digits_value(s.push(c)) == digits_value(s) * 10 + (c as int - 48),
        is_digit(c),
{
    assert(s.push(c).drop_last() =~= s);
}

/// A number is read with or without a plus sign. A text with any character but
/// digits after that is no number, nor is an empty one, nor one that does not
/// fit in 64 bits.
pub proof fn law_only_numbers_parse(n: u64, s: Seq<char>, i: int)
    ensures
        parsed(decimal(n as nat)) == Some(n),
        parsed(seq!['+'] + decimal(n as nat)) == Some(n),
        parsed(Seq::empty()) is None,
        0 <= i < s.len() && !(48 <= s[i] as int <= 57) && !(i == 0 && s[0] == '+') ==> parsed(
            s,
        ) is None,
        forall|m: nat| m > u64::MAX ==> parsed(#[trigger] decimal(m)) is None,
{
    lemma_parse_decimal(n);
    let signed = seq!['+'] + decimal(n as nat);
    lemma_decimal_reads_back(n as nat);
    assert(signed.skip(1) =~= decimal(n as nat));
    if 0 <= i < s.len() && !(48 <= s[i] as int <= 57) && !(i == 0 && s[0] == '+') {
        assert(!is_digit(s[i]));
        if s[0] == '+' {
            assert(s.skip(1)[i - 1] == s[i]);
        }
    }
    assert forall|m: nat| m > u64::MAX implies parsed(#[trigger] decimal(m)) is None by {
        lemma_decimal_reads_back(m);
        assert(is_digit(decimal(m)[0]));
    }
}

/// Joining puts one separator between each two parts, and none anywhere else.
pub proof fn law_join_separates(parts: Seq<Seq<char>>, last: Seq<char>, sep: Seq<char>)
    ensures
        joined(Seq::empty(), sep) == Seq::<char>::empty(),
        joined(seq![last], sep) == last,
        parts.len() > 0 ==> joined(parts.push(last), sep) == joined(parts, sep) + sep + last,
{
    assert(parts.push(last).drop_last() =~= parts);
}

/// Taking a character out leaves the others, in order.
pub proof fn law_without_drops_one_character(s: Seq<char>, c: char, x: char)
    ensures
        without(Seq::empty(), c) == Seq::<char>::empty(),
        x != c ==> without(s.push(x), c) == without(s, c).push(x),
        x == c ==> without(s.push(x), c) == without(s, c),
{
    reveal(Seq::filter);
    assert(s.push(x).drop_last() =~= s);
    assert(without(Seq::empty(), c) =~= Seq::empty());
}

/// A relative name goes below a directory with one slash between the two; an
/// absolute one stands for itself.
pub proof fn law_names_go_below_directories(dir: Seq<char>, name: Seq<char>)
    ensures
        name.len() > 0 && name[0] == '/' ==> path_below(dir, name) == name,
        !(name.len() > 0 && name[0] == '/') && dir.len() > 0 && dir.last() != '/' ==> path_below(
            dir,
            name,
        ) == dir + seq!['/'] + name,
        !(name.len() > 0 && name[0] == '/') && dir.len() > 0 && dir.last() == '/' ==> path_below(
            dir,
            name,
        ) == dir + name,
{
    assert(dir.push('/') + name =~= dir + seq!['/'] + name);
}

/// Going below twice is going below once, by the two names with a slash between.
pub proof fn lemma_below_twice(dir: Seq<char>, a: Seq<char>, b: Seq<char>)
    requires
        a.len() > 0 && a[0] != '/' && a.last() != '/',
        b.len() > 0 && b[0] != '/',
    ensures
        path_below(path_below(dir, a), b) == path_below(dir, a + seq!['/'] + b),
{
    let p = path_below(dir, a);
    assert(p.last() == a.last());
    assert((a + seq!['/'] + b)[0] == a[0]);
    assert(path_below(p, b) =~= path_below(dir, a + seq!['/'] + b));
}

/// Different relative names below one directory are different paths.
pub proof fn lemma_below_differs(dir: Seq<char>, a: Seq<char>, b: Seq<char>)
    requires
        a.len() > 0 && a[0] != '/',
        b.len() > 0 && b[0] != '/',
    ensures
        path_below(dir, a) == path_below(dir, b) ==> a == b,
{
    let pre = if dir.len() == 0 || dir.last() == '/' {
        dir
    } else {
        dir.push('/')
    };
    let n = pre.len() as int;
    assert(path_below(dir, a).skip(n) =~= a);
    assert(path_below(dir, b).skip(n) =~= b);
}

/// A list of strings says what each of them holds, in order.
pub proof fn law_views_keep_the_strings(v: Seq<String>, i: int)
    ensures
        views(v).len() == v.len(),
        0 <= i < v.len() ==> views(v)[i] == v[i]@,
{
}

} // verus!
