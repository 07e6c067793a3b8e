//! Text as sequences of characters: trimming, splitting, searching, and decimal
//! numbers.

use vstd::prelude::*;
use vstd::slice::slice_subrange;

verus! {

/// `String::push` appends one character.
pub assume_specification[ String::push ](s: &mut String, ch: char)
    ensures
        final(s)@ == old(s)@.push(ch),
;

// ---------------------------------------------------------------------------
// Characters
// ---------------------------------------------------------------------------

/// The characters with the Unicode property `White_Space`.
pub open spec fn is_ws(c: char) -> bool {
    ||| '\u{9}' <= c <= '\u{d}'
    ||| c == ' '
    ||| c == '\u{85}'
    ||| c == '\u{a0}'
    ||| c == '\u{1680}'
    ||| '\u{2000}' <= c <= '\u{200a}'
    ||| c == '\u{2028}'
    ||| c == '\u{2029}'
    ||| c == '\u{202f}'
    ||| c == '\u{205f}'
    ||| c == '\u{3000}'
}

/// Whether `c` is white space.
pub fn is_whitespace(c: char) -> (r: bool)
    ensures
        r == is_ws(c),
{
    ('\u{9}' <= c && c <= '\u{d}') || c == ' ' || c == '\u{85}' || c == '\u{a0}' || c == '\u{1680}'
        || ('\u{2000}' <= c && c <= '\u{200a}') || c == '\u{2028}' || c == '\u{2029}' || c
        == '\u{202f}' || c == '\u{205f}' || c == '\u{3000}'
}

/// The characters `0` to `9`.
pub open spec fn is_ascii_digit(c: char) -> bool {
    '0' <= c <= '9'
}

/// The value of an ASCII digit.
pub open spec fn digit_value(c: char) -> nat {
    (c as u32 - '0' as u32) as nat
}

/// The ASCII digit with value `n`, for `n < 10`.
pub open spec fn digit_char(n: nat) -> char {
    if n == 0 {
        '0'
    } else if n == 1 {
        '1'
    } else if n == 2 {
        '2'
    } else if n == 3 {
        '3'
    } else if n == 4 {
        '4'
    } else if n == 5 {
        '5'
    } else if n == 6 {
        '6'
    } else if n == 7 {
        '7'
    } else if n == 8 {
        '8'
    } else {
        '9'
    }
}

/// The digit character for `n`.
pub fn digit_of(n: u64) -> (c: char)
    requires
        n < 10,
    ensures
        c == digit_char(n as nat),
{
    if n == 0 {
        '0'
    } else if n == 1 {
        '1'
    } else if n == 2 {
        '2'
    } else if n == 3 {
        '3'
    } else if n == 4 {
        '4'
    } else if n == 5 {
        '5'
    } else if n == 6 {
        '6'
    } else if n == 7 {
        '7'
    } else if n == 8 {
        '8'
    } else {
        '9'
    }
}

/// The lower-case form of an ASCII letter; any other character is itself.
pub open spec fn ascii_lower(c: char) -> char {
    if 'A' <= c <= 'Z' {
        (c as u32 + 32) as char
    } else {
        c
    }
}

/// Lower-cases one ASCII letter.
pub fn to_ascii_lower(c: char) -> (r: char)
    ensures
        r == ascii_lower(c),
{
    if 'A' <= c && c <= 'Z' {
        (c as u8 + 32) as char
    } else {
        c
    }
}

// ---------------------------------------------------------------------------
// Between strings and character lists
// ---------------------------------------------------------------------------

/// The characters of a string.
pub fn to_chars(s: &str) -> (r: Vec<char>)
    ensures
        r@ == s@,
{
    let mut out: Vec<char> = Vec::new();
    for c in it: s.chars()
        invariant
            it.seq() == s@,
            out@ == s@.subrange(0, it.index() as int),
    {
        out.push(c);
    }
    proof {
        assert(out@ =~= s@);
    }
    out
}

/// Appends characters to a string.
pub fn push_chars(out: &mut String, cs: &[char])
    ensures
        final(out)@ == old(out)@ + cs@,
{
    let mut i: usize = 0;
    while i < cs.len()
        invariant
            i <= cs.len(),
            out@ == old(out)@ + cs@.subrange(0, i as int),
        decreases cs.len() - i,
    {
        out.push(cs[i]);
        proof {
            assert(cs@.subrange(0, i + 1) =~= cs@.subrange(0, i as int).push(cs@[i as int]));
        }
        i += 1;
    }
    proof {
        assert(cs@.subrange(0, i as int) =~= cs@);
        assert(out@ =~= old(out)@ + cs@);
    }
}

/// The string made of the given characters.
pub fn string_of(cs: &[char]) -> (r: String)
    ensures
        r@ == cs@,
{
    let mut out = String::new();
    push_chars(&mut out, cs);
    proof {
        assert(out@ =~= cs@);
    }
    out
}

/// Whether two character lists are equal.
pub fn chars_eq(a: &[char], b: &[char]) -> (r: bool)
    ensures
        r == (a@ == b@),
{
    if a.len() != b.len() {
        return false;
    }
    let mut i: usize = 0;
    while i < a.len()
        invariant
            i <= a.len(),
            a.len() == b.len(),
            forall|k: int| 0 <= k < i ==> a@[k] == b@[k],
        decreases a.len() - i,
    {
        if a[i] != b[i] {
            return false;
        }
        i += 1;
    }
    proof {
        assert(a@ =~= b@);
    }
    true
}

/// Whether the characters are those of `s`.
pub fn chars_are(a: &[char], s: &str) -> (r: bool)
    ensures
        r == (a@ == s@),
{
    let b = to_chars(s);
    chars_eq(a, b.as_slice())
}

/// Whether two strings are equal.
pub fn str_eq(a: &str, b: &str) -> (r: bool)
    ensures
        r == (a@ == b@),
{
    let x = to_chars(a);
    chars_are(x.as_slice(), b)
}

// ---------------------------------------------------------------------------
// Trimming
// ---------------------------------------------------------------------------

/// `s` without the white space at its front.
pub open spec fn trim_start(s: Seq<char>) -> Seq<char>
    decreases s.len(),
{
    if s.len() > 0 && is_ws(s[0]) {
        trim_start(s.subrange(1, s.len() as int))
    } else {
        s
    }
}

/// `s` without the white space at its end.
pub open spec fn trim_end(s: Seq<char>) -> Seq<char>
    decreases s.len(),
{
    if s.len() > 0 && is_ws(s.last()) {
        trim_end(s.drop_last())
    } else {
        s
    }
}

/// `s` without the white space at its ends.
pub open spec fn trim(s: Seq<char>) -> Seq<char> {
    trim_end(trim_start(s))
}

/// Whether `s` holds nothing but white space.
pub open spec fn is_blank(s: Seq<char>) -> bool {
    trim(s).len() == 0
}

/// Trimming the end leaves a prefix whose last character is not white space.
pub proof fn lemma_trim_end(s: Seq<char>)
    ensures
        trim_end(s).len() <= s.len(),
        trim_end(s) == s.subrange(0, trim_end(s).len() as int),
        trim_end(s).len() > 0 ==> !is_ws(trim_end(s).last()),
        trim_end(s).len() == s.len() <==> (s.len() == 0 || !is_ws(s.last())),
    decreases s.len(),
{
    if s.len() > 0 && is_ws(s.last()) {
        lemma_trim_end(s.drop_last());
        assert(s.drop_last().subrange(0, trim_end(s).len() as int) =~= s.subrange(
            0,
            trim_end(s).len() as int,
        ));
    } else {
        assert(s =~= s.subrange(0, s.len() as int));
    }
}

/// Trimming the front leaves a suffix whose first character is not white space.
pub proof fn lemma_trim_start(s: Seq<char>)
    ensures
        trim_start(s).len() <= s.len(),
        trim_start(s) == s.subrange(s.len() - trim_start(s).len(), s.len() as int),
        trim_start(s).len() > 0 ==> !is_ws(trim_start(s)[0]),
    decreases s.len(),
{
    if s.len() > 0 && is_ws(s[0]) {
        let t = s.subrange(1, s.len() as int);
        lemma_trim_start(t);
        assert(t.subrange(t.len() - trim_start(t).len(), t.len() as int) =~= s.subrange(
            s.len() - trim_start(s).len(),
            s.len() as int,
        ));
    } else {
        assert(s =~= s.subrange(0, s.len() as int));
    }
}

/// The part of `s` that is left when its end is trimmed.
pub fn trimmed_end(s: &[char]) -> (r: &[char])
    ensures
        r@ == trim_end(s@),
{
    let mut n: usize = s.len();
    proof {
        assert(s@.subrange(0, n as int) =~= s@);
    }
    while n > 0 && is_whitespace(s[n - 1])
        invariant
            n <= s.len(),
            trim_end(s@) == trim_end(s@.subrange(0, n as int)),
        decreases n,
    {
        proof {
            assert(s@.subrange(0, n as int).drop_last() =~= s@.subrange(0, n - 1));
        }
        n -= 1;
    }
    slice_subrange(s, 0, n)
}

/// The part of `s` that is left when its front is trimmed.
pub fn trimmed_start(s: &[char]) -> (r: &[char])
    ensures
        r@ == trim_start(s@),
{
    let mut i: usize = 0;
    proof {
        assert(s@.subrange(0, s@.len() as int) =~= s@);
    }
    while i < s.len() && is_whitespace(s[i])
        invariant
            i <= s.len(),
            trim_start(s@) == trim_start(s@.subrange(i as int, s@.len() as int)),
        decreases s.len() - i,
    {
        proof {
            let t = s@.subrange(i as int, s@.len() as int);
            assert(t.subrange(1, t.len() as int) =~= s@.subrange(i + 1, s@.len() as int));
        }
        i += 1;
    }
    slice_subrange(s, i, s.len())
}

/// The part of `s` between the white space at its ends.
pub fn trimmed(s: &[char]) -> (r: &[char])
    ensures
        r@ == trim(s@),
{
    trimmed_end(trimmed_start(s))
}

/// `s` without the white space at its ends, as a new string.
pub fn trim_str(s: &str) -> (r: String)
    ensures
        r@ == trim(s@),
{
    let v = to_chars(s);
    string_of(trimmed(v.as_slice()))
}

/// Whether a string holds nothing but white space.
pub fn str_is_blank(s: &str) -> (r: bool)
    ensures
        r == is_blank(s@),
{
    let v = to_chars(s);
    trimmed(v.as_slice()).len() == 0
}

// ---------------------------------------------------------------------------
// Searching
// ---------------------------------------------------------------------------

/// The first position at or after `from` whose character is in `ds`, or the
/// length of `s` where there is none.
pub open spec fn next_of(s: Seq<char>, ds: Seq<char>, from: int) -> int
    decreases s.len() - from,
{
    if from < 0 || from >= s.len() {
        s.len() as int
    } else if ds.contains(s[from]) {
        from
    } else {
        next_of(s, ds, from + 1)
    }
}

/// What `next_of` finds.
pub proof fn lemma_next_of(s: Seq<char>, ds: Seq<char>, from: int)
    requires
        0 <= from <= s.len(),
    ensures
        from <= next_of(s, ds, from) <= s.len(),
        next_of(s, ds, from) < s.len() ==> ds.contains(s[next_of(s, ds, from)]),
        forall|k: int| from <= k < next_of(s, ds, from) ==> !ds.contains(#[trigger] s[k]),
    decreases s.len() - from,
{
    if from < s.len() && !ds.contains(s[from]) {
        lemma_next_of(s, ds, from + 1);
    }
}

/// Whether `ds` holds `c`.
pub fn has_char(ds: &[char], c: char) -> (r: bool)
    ensures
        r == ds@.contains(c),
{
    let mut i: usize = 0;
    while i < ds.len()
        invariant
            i <= ds.len(),
            forall|k: int| 0 <= k < i ==> ds@[k] != c,
        decreases ds.len() - i,
    {
        if ds[i] == c {
            return true;
        }
        i += 1;
    }
    false
}

/// Finds the first position at or after `from` whose character is in `ds`.
pub fn find_any(s: &[char], ds: &[char], from: usize) -> (r: usize)
    requires
        from <= s.len(),
    ensures
        r == next_of(s@, ds@, from as int),
        from <= r <= s.len(),
{
    let mut i: usize = from;
    while i < s.len()
        invariant
            from <= i <= s.len(),
            next_of(s@, ds@, from as int) == next_of(s@, ds@, i as int),
        decreases s.len() - i,
    {
        if has_char(ds, s[i]) {
            return i;
        }
        i += 1;
    }
    i
}

/// Finds the first `c` at or after `from`.
pub fn find_char(s: &[char], c: char, from: usize) -> (r: usize)
    requires
        from <= s.len(),
    ensures
        r == next_of(s@, seq![c], from as int),
        from <= r <= s.len(),
{
    let ds: [char; 1] = [c];
    proof {
        assert(ds@ =~= seq![c]);
    }
    find_any(s, &ds, from)
}

/// Whether `p` stands in `s` at position `i`.
pub open spec fn stands_at(s: Seq<char>, p: Seq<char>, i: int) -> bool {
    0 <= i && i + p.len() <= s.len() && s.subrange(i, i + p.len()) == p
}

/// Whether `p` occurs in `s`.
pub open spec fn occurs_in(p: Seq<char>, s: Seq<char>) -> bool {
    exists|i: int| stands_at(s, p, i)
}

/// Whether `p` stands in `s` at position `i`.
pub fn matches_at(s: &[char], p: &[char], i: usize) -> (r: bool)
    requires
        i <= s.len(),
    ensures
        r == stands_at(s@, p@, i as int),
{
    if p.len() > s.len() - i {
        return false;
    }
    chars_eq(slice_subrange(s, i, i + p.len()), p)
}

/// Whether `s` begins with `p`.
pub fn begins_with(s: &[char], p: &str) -> (r: bool)
    ensures
        r == stands_at(s@, p@, 0),
{
    let q = to_chars(p);
    matches_at(s, q.as_slice(), 0)
}

/// Whether `p` occurs in `s`.
pub fn occurs(s: &[char], p: &[char]) -> (r: bool)
    ensures
        r == occurs_in(p@, s@),
{
    let mut i: usize = 0;
    loop
        invariant
            i <= s.len(),
            forall|k: int| 0 <= k < i ==> !stands_at(s@, p@, k),
        decreases s.len() - i,
    {
        if matches_at(s, p, i) {
            return true;
        }
        if i == s.len() {
            return false;
        }
        i += 1;
    }
}

/// Whether `p` occurs in `s`.
pub fn str_contains(s: &str, p: &str) -> (r: bool)
    ensures
        r == occurs_in(p@, s@),
{
    let a = to_chars(s);
    let b = to_chars(p);
    occurs(a.as_slice(), b.as_slice())
}

// ---------------------------------------------------------------------------
// Splitting and joining
// ---------------------------------------------------------------------------

/// The parts of `s` between the characters that are in `ds`: one more part than
/// there are such characters.
pub open spec fn split_any(s: Seq<char>, ds: Seq<char>) -> Seq<Seq<char>>
    decreases s.len(),
    via split_any_decreases
{
    let i = next_of(s, ds, 0);
    if i >= s.len() {
        seq![s]
    } else {
        seq![s.subrange(0, i)] + split_any(s.subrange(i + 1, s.len() as int), ds)
    }
}

#[via_fn]
proof fn split_any_decreases(s: Seq<char>, ds: Seq<char>) {
    lemma_next_of(s, ds, 0);
}

/// The views of a list of strings.
pub open spec fn views(v: Seq<String>) -> Seq<Seq<char>> {
    Seq::new(v.len(), |i: int| v[i]@)
}

/// Splits at every character of `ds`.
pub fn split_at_any(s: &[char], ds: &[char]) -> (r: Vec<Vec<char>>)
    ensures
        r@.len() == split_any(s@, ds@).len(),
        forall|i: int| 0 <= i < r@.len() ==> #[trigger] r@[i]@ == split_any(s@, ds@)[i],
{
    let mut out: Vec<Vec<char>> = Vec::new();
    let mut from: usize = 0;
    proof {
        assert(s@.subrange(0, s@.len() as int) =~= s@);
    }
    loop
        invariant
            from <= s.len(),
            out@.len() + split_any(s@.subrange(from as int, s@.len() as int), ds@).len()
                == split_any(s@, ds@).len(),
            forall|i: int|
                0 <= i < out@.len() ==> #[trigger] out@[i]@ == split_any(s@, ds@)[i],
            forall|i: int|
                0 <= i < split_any(s@.subrange(from as int, s@.len() as int), ds@).len()
                    ==> #[trigger] split_any(s@.subrange(from as int, s@.len() as int), ds@)[i]
                    == split_any(s@, ds@)[out@.len() + i],
        decreases s.len() - from,
    {
        let rest = slice_subrange(s, from, s.len());
        let i = find_any(rest, ds, 0);
        let ghost before = out@;
        let ghost tail = split_any(rest@, ds@);
        let part = slice_subrange(rest, 0, i);
        out.push(vstd::slice::slice_to_vec(part));
        proof {
            assert(tail[0] == part@) by {
                if i >= rest.len() {
                    assert(part@ =~= rest@);
                }
            }
            assert(tail[0] == split_any(s@, ds@)[before.len() as int]);
        }
        if i >= rest.len() {
            return out;
        }
        proof {
            let next = rest@.subrange(i + 1, rest@.len() as int);
            assert(next =~= s@.subrange(from + i + 1, s@.len() as int));
            let more = split_any(next, ds@);
            assert(tail == seq![rest@.subrange(0, i as int)] + more);
            assert forall|k: int| 0 <= k < more.len() implies #[trigger] more[k] == split_any(
                s@,
                ds@,
            )[out@.len() + k] by {
                assert(more[k] == tail[k + 1]);
            }
        }
        from = from + i + 1;
    }
}

/// The first position at or after `i` where `p` stands in `s`, or the length of
/// `s`.
pub open spec fn find_from(s: Seq<char>, p: Seq<char>, i: int) -> int
    decreases s.len() - i,
{
    if i < 0 || i >= s.len() {
        s.len() as int
    } else if stands_at(s, p, i) {
        i
    } else {
        find_from(s, p, i + 1)
    }
}

/// What `find_from` finds.
pub proof fn lemma_find_from(s: Seq<char>, p: Seq<char>, i: int)
    requires
        0 <= i <= s.len(),
    ensures
        i <= find_from(s, p, i) <= s.len(),
        find_from(s, p, i) < s.len() ==> stands_at(s, p, find_from(s, p, i)),
    decreases s.len() - i,
{
    if i < s.len() && !stands_at(s, p, i) {
        lemma_find_from(s, p, i + 1);
    }
}

/// The parts of a text between the places where `p`, which is not empty, stands.
pub open spec fn split_str(s: Seq<char>, p: Seq<char>) -> Seq<Seq<char>>
    decreases s.len(),
    when p.len() > 0
    via split_str_decreases
{
    let i = find_from(s, p, 0);
    if i >= s.len() {
        seq![s]
    } else {
        seq![s.subrange(0, i)] + split_str(s.subrange(i + p.len(), s.len() as int), p)
    }
}

#[via_fn]
proof fn split_str_decreases(s: Seq<char>, p: Seq<char>) {
    lemma_find_from(s, p, 0);
}

/// Splits a text where `p` stands.
pub fn split_at_str(text: &str, p: &str) -> (r: Vec<String>)
    requires
        p@.len() > 0,
    ensures
        views(r@) == split_str(text@, p@),
{
    let v = to_chars(text);
    let s = v.as_slice();
    let mark = to_chars(p);
    let n: usize = mark.len();
    let mut out: Vec<String> = Vec::new();
    let mut from: usize = 0;
    proof {
        assert(s@.subrange(0, s@.len() as int) =~= s@);
        assert(views(out@) + split_str(s@, p@) =~= split_str(s@, p@));
    }
    loop
        invariant
            from <= s.len(),
            s@ == text@,
            mark@ == p@,
            n == p@.len(),
            n > 0,
            views(out@) + split_str(s@.subrange(from as int, s@.len() as int), p@) == split_str(
                s@,
                p@,
            ),
        decreases s.len() - from,
    {
        let rest = slice_subrange(s, from, s.len());
        let mut i: usize = 0;
        while i < rest.len() && !matches_at(rest, mark.as_slice(), i)
            invariant
                i <= rest.len(),
                mark@ == p@,
                find_from(rest@, p@, 0) == find_from(rest@, p@, i as int),
            decreases rest.len() - i,
        {
            i += 1;
        }
        let ghost before = views(out@);
        out.push(string_of(slice_subrange(rest, 0, i)));
        proof {
            assert(views(out@) =~= before.push(rest@.subrange(0, i as int)));
        }
        if i == rest.len() {
            proof {
                assert(rest@.subrange(0, i as int) =~= rest@);
                assert(before + seq![rest@] =~= views(out@));
            }
            return out;
        }
        proof {
            let next = rest@.subrange(i + n, rest@.len() as int);
            assert(next =~= s@.subrange(from + i + n, s@.len() as int));
            assert(before + (seq![rest@.subrange(0, i as int)] + split_str(next, p@)) =~= views(
                out@,
            ) + split_str(next, p@));
        }
        from = from + i + n;
    }
}

/// The words of `s`: its longest parts without white space, in order.
pub open spec fn words(s: Seq<char>) -> Seq<Seq<char>>
    decreases s.len(),
    via words_decreases
{
    let t = trim_start(s);
    if t.len() == 0 {
        Seq::empty()
    } else {
        let n = word_len(t);
        seq![t.subrange(0, n as int)] + words(t.subrange(n as int, t.len() as int))
    }
}

/// The number of characters of `s` before its first white space.
pub open spec fn word_len(s: Seq<char>) -> nat
    decreases s.len(),
{
    if s.len() == 0 || is_ws(s[0]) {
        0
    } else {
        1 + word_len(s.subrange(1, s.len() as int))
    }
}

/// A text that does not start with white space starts with a word.
pub proof fn lemma_word_len(s: Seq<char>)
    ensures
        word_len(s) <= s.len(),
        s.len() > 0 && !is_ws(s[0]) ==> word_len(s) > 0,
        forall|k: int| 0 <= k < word_len(s) ==> !is_ws(#[trigger] s[k]),
        word_len(s) < s.len() ==> is_ws(s[word_len(s) as int]),
    decreases s.len(),
{
    if s.len() > 0 && !is_ws(s[0]) {
        let t = s.subrange(1, s.len() as int);
        lemma_word_len(t);
        assert forall|k: int| 0 <= k < word_len(s) implies !is_ws(#[trigger] s[k]) by {
            if k > 0 {
                assert(t[k - 1] == s[k]);
            }
        }
    }
}

#[via_fn]
proof fn words_decreases(s: Seq<char>) {
    lemma_trim_start(s);
    lemma_word_len(trim_start(s));
}

/// The length of the word at the front of `s`.
fn first_word_len(s: &[char]) -> (n: usize)
    ensures
        n == word_len(s@),
        n <= s.len(),
{
    let mut n: usize = 0;
    proof {
        assert(s@.subrange(0, s@.len() as int) =~= s@);
    }
    while n < s.len() && !is_whitespace(s[n])
        invariant
            n <= s.len(),
            word_len(s@) == n + word_len(s@.subrange(n as int, s@.len() as int)),
        decreases s.len() - n,
    {
        proof {
            let t = s@.subrange(n as int, s@.len() as int);
            assert(t.subrange(1, t.len() as int) =~= s@.subrange(n + 1, s@.len() as int));
        }
        n += 1;
    }
    n
}

/// Splits a text into its words.
pub fn split_words(s: &[char]) -> (r: Vec<Vec<char>>)
    ensures
        r@.len() == words(s@).len(),
        forall|i: int| 0 <= i < r@.len() ==> #[trigger] r@[i]@ == words(s@)[i],
{
    let mut out: Vec<Vec<char>> = Vec::new();
    let mut from: usize = 0;
    proof {
        assert(s@.subrange(0, s@.len() as int) =~= s@);
    }
    loop
        invariant
            from <= s.len(),
            out@.len() + words(s@.subrange(from as int, s@.len() as int)).len() == words(s@).len(),
            forall|i: int| 0 <= i < out@.len() ==> #[trigger] out@[i]@ == words(s@)[i],
            forall|i: int|
                0 <= i < words(s@.subrange(from as int, s@.len() as int)).len()
                    ==> #[trigger] words(s@.subrange(from as int, s@.len() as int))[i] == words(
                    s@,
                )[out@.len() + i],
        decreases s.len() - from,
    {
        let rest = slice_subrange(s, from, s.len());
        let t = trimmed_start(rest);
        proof {
            lemma_trim_start(rest@);
        }
        if t.len() == 0 {
            return out;
        }
        let n = first_word_len(t);
        proof {
            lemma_word_len(t@);
        }
        let ghost before = out@;
        let ghost tail = words(rest@);
        out.push(vstd::slice::slice_to_vec(slice_subrange(t, 0, n)));
        let skipped: usize = rest.len() - t.len();
        proof {
            assert(tail[0] == t@.subrange(0, n as int));
            assert(tail[0] == words(s@)[before.len() as int]);
            let next = t@.subrange(n as int, t@.len() as int);
            assert(next =~= s@.subrange(from + skipped + n, s@.len() as int));
            let more = words(next);
            assert(tail == seq![t@.subrange(0, n as int)] + more);
            assert forall|k: int| 0 <= k < more.len() implies #[trigger] more[k] == words(
                s@,
            )[out@.len() + k] by {
                assert(more[k] == tail[k + 1]);
            }
        }
        from = from + skipped + n;
    }
}

/// The parts with `sep` between each two of them.
pub open spec fn join(parts: Seq<Seq<char>>, sep: Seq<char>) -> Seq<char>
    decreases parts.len(),
{
    if parts.len() == 0 {
        Seq::empty()
    } else if parts.len() == 1 {
        parts[0]
    } else {
        join(parts.drop_last(), sep) + sep + parts.last()
    }
}

/// Joins strings.
pub fn join_strings(parts: &[String], sep: &str) -> (r: String)
    ensures
        r@ == join(views(parts@), sep@),
{
    let mut out = String::new();
    let mut i: usize = 0;
    while i < parts.len()
        invariant
            i <= parts.len(),
            out@ == join(views(parts@.subrange(0, i as int)), sep@),
        decreases parts.len() - i,
    {
        if i > 0 {
            out.append(sep);
        }
        out.append(parts[i].as_str());
        proof {
            let now = views(parts@.subrange(0, i + 1));
            assert(now.drop_last() =~= views(parts@.subrange(0, i as int)));
            assert(now.last() == parts@[i as int]@);
            if i == 0 {
                assert(out@ =~= now[0]);
            }
        }
        i += 1;
    }
    proof {
        assert(parts@.subrange(0, i as int) =~= parts@);
    }
    out
}

/// Texts can be joined in any grouping.
pub proof fn lemma_assoc(a: Seq<char>, b: Seq<char>, c: Seq<char>)
    ensures
        a + (b + c) == a + b + c,
{
    assert(a + (b + c) =~= a + b + c);
}

/// Texts put together one after the other make the same text as put together
/// first and added then.
pub proof fn lemma_concat3(o: Seq<char>, a: Seq<char>, b: Seq<char>, c: Seq<char>)
    ensures
        o + a + b + c == o + (a + b + c),
{
    assert(o + a + b + c =~= o + (a + b + c));
}

/// As `lemma_concat3`, for four texts.
pub proof fn lemma_concat4(o: Seq<char>, a: Seq<char>, b: Seq<char>, c: Seq<char>, d: Seq<char>)
    ensures
        o + a + b + c + d == o + (a + b + c + d),
{
    assert(o + a + b + c + d =~= o + (a + b + c + d));
}

// ---------------------------------------------------------------------------
// Case
// ---------------------------------------------------------------------------

/// `s` with its ASCII letters in lower case.
pub open spec fn ascii_lower_seq(s: Seq<char>) -> Seq<char> {
    Seq::new(s.len(), |i: int| ascii_lower(s[i]))
}

/// Whether two texts differ in the case of ASCII letters at most.
pub open spec fn eq_ignore_case(a: Seq<char>, b: Seq<char>) -> bool {
    ascii_lower_seq(a) == ascii_lower_seq(b)
}

/// Whether two texts differ in the case of ASCII letters at most.
pub fn equal_ignoring_case(a: &[char], b: &[char]) -> (r: bool)
    ensures
        r == eq_ignore_case(a@, b@),
{
    if a.len() != b.len() {
        proof {
            assert(ascii_lower_seq(a@).len() != ascii_lower_seq(b@).len());
        }
        return false;
    }
    let mut i: usize = 0;
    while i < a.len()
        invariant
            i <= a.len(),
            a.len() == b.len(),
            forall|k: int| 0 <= k < i ==> ascii_lower(a@[k]) == ascii_lower(b@[k]),
        decreases a.len() - i,
    {
        if to_ascii_lower(a[i]) != to_ascii_lower(b[i]) {
            proof {
                assert(ascii_lower_seq(a@)[i as int] != ascii_lower_seq(b@)[i as int]);
            }
            return false;
        }
        i += 1;
    }
    proof {
        assert(ascii_lower_seq(a@) =~= ascii_lower_seq(b@));
    }
    true
}

/// Whether every character is below U+0080.
pub open spec fn is_ascii_text(s: Seq<char>) -> bool {
    forall|i: int| 0 <= i < s.len() ==> #[trigger] s[i] < '\u{80}'
}

/// What `str::to_lowercase` makes of a text.
pub uninterp spec fn unicode_lower(s: Seq<char>) -> Seq<char>;

/// A text in lower case.
pub open spec fn lower_case(s: Seq<char>) -> Seq<char> {
    if is_ascii_text(s) {
        ascii_lower_seq(s)
    } else {
        unicode_lower(s)
    }
}

/// `str::to_lowercase` returns the lower-case equivalent of a text under Unicode.
/// The result depends on the text alone; of an ASCII text it is the text with
/// its ASCII letters in lower case.
#[verifier::external_body]
pub(crate) fn lowercase(s: &str) -> (r: String)
    ensures
        r@ == if is_ascii_text(s@) {
            ascii_lower_seq(s@)
        } else {
            unicode_lower(s@)
        },
{
    s.to_lowercase()
}

// ---------------------------------------------------------------------------
// Decimal numbers
// ---------------------------------------------------------------------------

/// The decimal digits of `n`, without leading zeros.
pub open spec fn dec(n: nat) -> Seq<char>
    decreases n,
{
    if n < 10 {
        seq![digit_char(n)]
    } else {
        dec(n / 10).push(digit_char(n % 10))
    }
}

/// `n` with at least two digits.
pub open spec fn dec2(n: nat) -> Seq<char> {
    if n < 10 {
        seq!['0'] + dec(n)
    } else {
        dec(n)
    }
}

/// Whether every character is an ASCII digit.
pub open spec fn all_ascii_digits(s: Seq<char>) -> bool {
    forall|i: int| 0 <= i < s.len() ==> is_ascii_digit(#[trigger] s[i])
}

/// The number that a list of ASCII digits writes in decimal.
pub open spec fn dec_value(s: Seq<char>) -> nat
    decreases s.len(),
{
    if s.len() == 0 {
        0
    } else {
        dec_value(s.drop_last()) * 10 + digit_value(s.last())
    }
}

/// A decimal number has digits only, has at least one, and writes its value.
pub proof fn lemma_dec(n: nat)
    ensures
        dec(n).len() >= 1,
        all_ascii_digits(dec(n)),
        dec_value(dec(n)) == n,
        n < 10 ==> dec(n).len() == 1,
        10 <= n < 100 ==> dec(n).len() == 2,
        n >= 10 ==> dec(n)[0] != '0',
        n > 0 ==> dec(n)[0] != '0',
    decreases n,
{
    if n < 10 {
        reveal_with_fuel(dec_value, 2);
        assert(dec(n).drop_last() =~= Seq::<char>::empty());
        assert(digit_value(digit_char(n)) == n);
    } else {
        lemma_dec(n / 10);
        assert(digit_value(digit_char(n % 10)) == n % 10);
        assert(dec(n).drop_last() =~= dec(n / 10));
        assert(dec(n)[0] == dec(n / 10)[0]);
    }
}

/// Two-digit numbers have two digits and write their value.
pub proof fn lemma_dec2(n: nat)
    requires
        n < 100,
    ensures
        dec2(n).len() == 2,
        all_ascii_digits(dec2(n)),
        dec_value(dec2(n)) == n,
{
    lemma_dec(n);
    if n < 10 {
        let s = dec2(n);
        assert(s.drop_last() =~= seq!['0']);
        assert(seq!['0'].drop_last() =~= Seq::<char>::empty());
        reveal_with_fuel(dec_value, 3);
    }
}

/// The digits of `n`.
pub fn decimal(n: u64) -> (r: Vec<char>)
    ensures
        r@ == dec(n as nat),
    decreases n,
{
    if n < 10 {
        let v = vec![digit_of(n)];
        proof {
            assert(v@ =~= dec(n as nat));
        }
        v
    } else {
        let mut v = decimal(n / 10);
        v.push(digit_of(n % 10));
        v
    }
}

/// Appends `n` in decimal.
pub fn push_dec(out: &mut String, n: u64)
    ensures
        final(out)@ == old(out)@ + dec(n as nat),
{
    let v = decimal(n);
    push_chars(out, v.as_slice());
}

/// Appends `n` with at least two digits.
pub fn push_dec2(out: &mut String, n: u64)
    ensures
        final(out)@ == old(out)@ + dec2(n as nat),
{
    if n < 10 {
        out.push('0');
    }
    push_dec(out, n);
    proof {
        assert(out@ =~= old(out)@ + dec2(n as nat));
    }
}

/// The number that `s` writes where `s` is a non-empty list of ASCII digits and
/// the number is at most `max`.
pub open spec fn parse_dec(s: Seq<char>, max: nat) -> Option<nat> {
    if s.len() > 0 && all_ascii_digits(s) && dec_value(s) <= max {
        Some(dec_value(s))
    } else {
        None
    }
}

/// Why a text is not a number that can be read.
#[derive(Debug, Clone, Copy, PartialEq, Eq, Structural)]
pub enum IntProblem {
    /// There is nothing to read.
    Empty,
    /// A character is not one of the digits `0` to `9`.
    InvalidDigit,
    /// The number is too large.
    PosOverflow,
}

/// What stops the reading of digits from left to right, if something does: a
/// character that is no ASCII digit, or a digit with which the number exceeds
/// `max`.
pub open spec fn digits_problem(s: Seq<char>, max: nat) -> Option<IntProblem>
    decreases s.len(),
{
    if s.len() == 0 {
        None
    } else {
        match digits_problem(s.drop_last(), max) {
            Some(p) => Some(p),
            None => if !is_ascii_digit(s.last()) {
                Some(IntProblem::InvalidDigit)
            } else if dec_value(s) > max {
                Some(IntProblem::PosOverflow)
            } else {
                None
            },
        }
    }
}

/// Why `s` is not a number that is at most `max`, if it is not.
pub open spec fn dec_problem(s: Seq<char>, max: nat) -> Option<IntProblem> {
    if s.len() == 0 {
        Some(IntProblem::Empty)
    } else {
        digits_problem(s, max)
    }
}

/// What stops the reading of a part at the front stops the reading of the whole.
pub proof fn lemma_problem_stays(s: Seq<char>, max: nat, i: int)
    requires
        0 <= i <= s.len(),
        digits_problem(s.subrange(0, i), max) is Some,
    ensures
        digits_problem(s, max) == digits_problem(s.subrange(0, i), max),
    decreases s.len(),
{
    if i == s.len() {
        assert(s.subrange(0, i) =~= s);
    } else {
        assert(s.drop_last().subrange(0, i) =~= s.subrange(0, i));
        lemma_problem_stays(s.drop_last(), max, i);
    }
}

/// A text is a number or there is a problem with it, and never both. The problem
/// of a text of digits alone is its size.
pub proof fn law_number_or_problem(s: Seq<char>, max: nat)
    ensures
        parse_dec(s, max) is Some <==> dec_problem(s, max) is None,
        s.len() > 0 && all_ascii_digits(s) && dec_value(s) > max ==> dec_problem(s, max) == Some(
            IntProblem::PosOverflow,
        ),
{
    lemma_digits_problem(s, max);
}

/// Digits are read without a problem where they are digits and write a number that
/// is not too large.
pub proof fn lemma_digits_problem(s: Seq<char>, max: nat)
    ensures
        digits_problem(s, max) is None <==> all_ascii_digits(s) && (s.len() == 0 || dec_value(s)
            <= max),
        all_ascii_digits(s) && digits_problem(s, max) is Some ==> digits_problem(s, max) == Some(
            IntProblem::PosOverflow,
        ),
    decreases s.len(),
{
    if s.len() > 0 {
        let t = s.drop_last();
        lemma_digits_problem(t, max);
        lemma_dec_value_grows(s, s.len() - 1);
        assert(s.subrange(0, s.len() - 1) =~= t);
        assert(s.last() == s[s.len() - 1]);
        if all_ascii_digits(s) {
            assert forall|k: int| 0 <= k < t.len() implies is_ascii_digit(#[trigger] t[k]) by {
                assert(t[k] == s[k]);
            }
        }
        if all_ascii_digits(t) && is_ascii_digit(s.last()) {
            assert forall|k: int| 0 <= k < s.len() implies is_ascii_digit(#[trigger] s[k]) by {
                if k < t.len() {
                    assert(s[k] == t[k]);
                }
            }
        }
    }
}

/// Says why a text is not a number that is at most `max`.
pub fn int_problem(s: &[char], max: u64) -> (r: Option<IntProblem>)
    ensures
        r == dec_problem(s@, max as nat),
{
    if s.len() == 0 {
        return Some(IntProblem::Empty);
    }
    let mut n: u64 = 0;
    let mut i: usize = 0;
    while i < s.len()
        invariant
            i <= s.len(),
            n <= max,
            n == dec_value(s@.subrange(0, i as int)),
            digits_problem(s@.subrange(0, i as int), max as nat) is None,
        decreases s.len() - i,
    {
        let c = s[i];
        let ghost now = s@.subrange(0, i + 1);
        proof {
            assert(now.drop_last() =~= s@.subrange(0, i as int));
            assert(now.last() == c);
        }
        if !('0' <= c && c <= '9') {
            proof {
                lemma_problem_stays(s@, max as nat, i + 1);
            }
            return Some(IntProblem::InvalidDigit);
        }
        let d: u64 = (c as u8 - 48) as u64;
        proof {
            assert(dec_value(now) == n * 10 + d);
        }
        if n > max / 10 || d > max - n * 10 {
            proof {
                assert(digits_problem(now, max as nat) == Some(IntProblem::PosOverflow));
                lemma_problem_stays(s@, max as nat, i + 1);
            }
            return Some(IntProblem::PosOverflow);
        }
        n = n * 10 + d;
        i += 1;
    }
    proof {
        assert(s@.subrange(0, i as int) =~= s@);
    }
    None
}

/// More digits never write a smaller number.
proof fn lemma_dec_value_grows(s: Seq<char>, i: int)
    requires
        0 <= i <= s.len(),
    ensures
        dec_value(s.subrange(0, i)) <= dec_value(s),
    decreases s.len(),
{
    if i == s.len() {
        assert(s.subrange(0, i) =~= s);
    } else {
        lemma_dec_value_grows(s.drop_last(), i);
        assert(s.drop_last().subrange(0, i) =~= s.subrange(0, i));
    }
}

/// Reads a list of ASCII digits as a number that is at most `max`.
pub fn parse_digits(s: &[char], max: u64) -> (r: Option<u64>)
    ensures
        match r {
            Some(n) => parse_dec(s@, max as nat) == Some(n as nat),
            None => parse_dec(s@, max as nat) is None,
        },
{
    if s.len() == 0 {
        return None;
    }
    let mut n: u64 = 0;
    let mut i: usize = 0;
    while i < s.len()
        invariant
            i <= s.len(),
            n <= max,
            n == dec_value(s@.subrange(0, i as int)),
            forall|k: int| 0 <= k < i ==> is_ascii_digit(#[trigger] s@[k]),
        decreases s.len() - i,
    {
        let c = s[i];
        if !('0' <= c && c <= '9') {
            return None;
        }
        let d: u64 = (c as u8 - 48) as u64;
        proof {
            assert(s@.subrange(0, i + 1).drop_last() =~= s@.subrange(0, i as int));
            assert(dec_value(s@.subrange(0, i + 1)) == n * 10 + d);
            lemma_dec_value_grows(s@, i + 1);
        }
        if n > max / 10 || d > max - n * 10 {
            return None;
        }
        n = n * 10 + d;
        i += 1;
    }
    proof {
        assert(s@.subrange(0, i as int) =~= s@);
    }
    Some(n)
}

} // verus!
