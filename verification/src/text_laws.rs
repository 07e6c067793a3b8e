//! What the operations on texts do, said of the characters.

use vstd::prelude::*;

use crate::text::{
    all_ascii_digits, ascii_lower, dec, dec2, dec_problem, dec_value, digits_problem,
    eq_ignore_case, find_from, is_ascii_digit, is_blank, is_ws, join, law_number_or_problem,
    lemma_dec, lemma_digits_problem, lemma_find_from, lemma_next_of, lemma_problem_stays,
    lemma_trim_end, lower_case, next_of, occurs_in, parse_dec, split_any, split_str, stands_at,
    trim, trim_end, trim_start, IntProblem,
};
use crate::types::wrapped;

verus! {

/// Trimming takes the white space off both ends, all of it and nothing else.
pub proof fn law_trim(a: Seq<char>, s: Seq<char>, b: Seq<char>)
    requires
        forall|k: int| 0 <= k < a.len() ==> is_ws(#[trigger] a[k]),
        forall|k: int| 0 <= k < b.len() ==> is_ws(#[trigger] b[k]),
        s.len() > 0 ==> !is_ws(s[0]) && !is_ws(s.last()),
    ensures
        trim(a + s + b) == s,
        is_blank(a + s + b) <==> s.len() == 0,
{
    lemma_trim_front_all(a, s + b);
    assert(a + s + b =~= a + (s + b));
    if s.len() > 0 {
        assert((s + b)[0] == s[0]);
        assert(trim_start(s + b) == s + b);
        lemma_trim_back_all(s, b);
        lemma_trim_end(s);
        assert(trim_end(s) == s);
    } else {
        assert(s + b =~= b);
        lemma_trim_front_all(b, Seq::empty());
        assert(b + Seq::<char>::empty() =~= b);
        assert(trim_start(Seq::<char>::empty()) =~= Seq::<char>::empty());
        assert(trim_end(Seq::<char>::empty()) =~= Seq::<char>::empty());
        assert(s =~= Seq::<char>::empty());
    }
}

/// White space in front is trimmed.
proof fn lemma_trim_front_all(a: Seq<char>, s: Seq<char>)
    requires
        forall|k: int| 0 <= k < a.len() ==> is_ws(#[trigger] a[k]),
    ensures
        trim_start(a + s) == trim_start(s),
    decreases a.len(),
{
    if a.len() == 0 {
        assert(a + s =~= s);
    } else {
        let rest = a.subrange(1, a.len() as int);
        assert((a + s)[0] == a[0]);
        assert((a + s).subrange(1, (a + s).len() as int) =~= rest + s);
        assert forall|k: int| 0 <= k < rest.len() implies is_ws(#[trigger] rest[k]) by {
            assert(rest[k] == a[k + 1]);
        }
        lemma_trim_front_all(rest, s);
    }
}

/// White space at the end is trimmed.
proof fn lemma_trim_back_all(s: Seq<char>, b: Seq<char>)
    requires
        forall|k: int| 0 <= k < b.len() ==> is_ws(#[trigger] b[k]),
    ensures
        trim_end(s + b) == trim_end(s),
    decreases b.len(),
{
    if b.len() == 0 {
        assert(s + b =~= s);
    } else {
        assert((s + b).last() == b[b.len() - 1]);
        assert((s + b).drop_last() =~= s + b.drop_last());
        lemma_trim_back_all(s, b.drop_last());
    }
}

/// Two texts that differ in the case of ASCII letters at most have the same length
/// and at each place the same character or the two cases of one letter.
pub proof fn law_eq_ignore_case(a: Seq<char>, b: Seq<char>)
    ensures
        eq_ignore_case(a, b) <==> a.len() == b.len() && forall|k: int|
            0 <= k < a.len() ==> same_letter(#[trigger] a[k], b[k]),
{
    if eq_ignore_case(a, b) {
        let x = crate::text::ascii_lower_seq(a);
        let y = crate::text::ascii_lower_seq(b);
        assert(x.len() == a.len() && y.len() == b.len());
        assert forall|k: int| 0 <= k < a.len() implies same_letter(#[trigger] a[k], b[k]) by {
            assert(x[k] == ascii_lower(a[k]));
            assert(y[k] == ascii_lower(b[k]));
            lemma_letters(a[k], b[k]);
        }
    } else if a.len() == b.len() && forall|k: int|
        0 <= k < a.len() ==> same_letter(#[trigger] a[k], b[k]) {
        assert forall|k: int| 0 <= k < a.len() implies ascii_lower(#[trigger] a[k]) == ascii_lower(
            b[k],
        ) by {
            lemma_letters(a[k], b[k]);
        }
        assert(crate::text::ascii_lower_seq(a) =~= crate::text::ascii_lower_seq(b));
    }
}

/// Whether two characters are the same or the two cases of one ASCII letter.
pub open spec fn same_letter(a: char, b: char) -> bool {
    ||| a == b
    ||| 'A' <= a <= 'Z' && b as int == a as int + 32
    ||| 'A' <= b <= 'Z' && a as int == b as int + 32
}

/// Letters are the same where their lower cases are.
proof fn lemma_letters(a: char, b: char)
    ensures
        same_letter(a, b) <==> ascii_lower(a) == ascii_lower(b),
{
    let x = ascii_lower(a);
    let y = ascii_lower(b);
    assert('A' <= a <= 'Z' ==> x as int == a as int + 32);
    assert('A' <= b <= 'Z' ==> y as int == b as int + 32);
}

/// The lower case of a text of ASCII characters has `a` for `A`, and so on to `z` for
/// `Z`, and every other character as it is.
pub proof fn law_lower_case(s: Seq<char>)
    requires
        forall|k: int| 0 <= k < s.len() ==> '\u{80}' > #[trigger] s[k],
    ensures
        lower_case(s).len() == s.len(),
        forall|k: int|
            0 <= k < s.len() ==> (#[trigger] lower_case(s)[k]) as int == if 'A' <= s[k] <= 'Z' {
                s[k] as int + 32
            } else {
                s[k] as int
            },
{
    assert(crate::text::is_ascii_text(s));
}

/// A text is split at every one of the given characters and nowhere else.
pub proof fn law_split(a: Seq<char>, c: char, b: Seq<char>, ds: Seq<char>)
    requires
        ds.contains(c),
        forall|k: int| 0 <= k < a.len() ==> !ds.contains(#[trigger] a[k]),
    ensures
        split_any(a, ds) == seq![a],
        split_any(a.push(c) + b, ds) == seq![a] + split_any(b, ds),
{
    let s = a.push(c) + b;
    lemma_next_of(a, ds, 0);
    lemma_next_of(s, ds, 0);
    let i = next_of(s, ds, 0);
    assert(s[a.len() as int] == c);
    if i < a.len() {
        assert(s[i] == a[i]);
    }
    assert(i == a.len());
    assert(s.subrange(0, i) =~= a);
    assert(s.subrange(i + 1, s.len() as int) =~= b);
    let j = next_of(a, ds, 0);
    if j < a.len() {
        assert(ds.contains(a[j]));
    }
}

/// A text is split wherever another stands in it, from the front on.
pub proof fn law_split_text(a: Seq<char>, p: Seq<char>, b: Seq<char>)
    requires
        p.len() > 0,
        forall|i: int| 0 <= i < a.len() ==> !stands_at(a + p + b, p, i),
    ensures
        split_str(a + p + b, p) == seq![a] + split_str(b, p),
{
    let s = a + p + b;
    lemma_find_from(s, p, 0);
    let i = find_from(s, p, 0);
    assert(s.subrange(a.len() as int, (a.len() + p.len()) as int) =~= p);
    assert(stands_at(s, p, a.len() as int));
    lemma_found(s, p, 0, a.len() as int);
    assert(s.subrange(0, i) =~= a);
    assert(s.subrange(i + p.len(), s.len() as int) =~= b);
}

/// The first place where a text stands is found.
proof fn lemma_found(s: Seq<char>, p: Seq<char>, i: int, at: int)
    requires
        0 <= i <= at < s.len(),
        stands_at(s, p, at),
        forall|k: int| 0 <= k < at ==> !stands_at(s, p, k),
    ensures
        find_from(s, p, i) == at,
    decreases at - i,
{
    if i < at {
        lemma_found(s, p, i + 1, at);
    }
}

/// A text in which another does not stand is not split.
pub proof fn law_not_split(s: Seq<char>, p: Seq<char>)
    requires
        p.len() > 0,
        forall|i: int| 0 <= i < s.len() ==> !stands_at(s, p, i),
    ensures
        split_str(s, p) == seq![s],
{
    lemma_find_from(s, p, 0);
}

/// Joined texts stand in order with the separator between each two.
pub proof fn law_join(v: Seq<Seq<char>>, x: Seq<char>, sep: Seq<char>)
    ensures
        join(Seq::empty(), sep) == Seq::<char>::empty(),
        v.len() == 0 ==> join(v.push(x), sep) == x,
        v.len() > 0 ==> join(v.push(x), sep) == join(v, sep) + sep + x,
{
    assert(v.push(x).drop_last() =~= v);
}

/// A text occurs in another where the other is made of something, the text and
/// something else.
pub proof fn law_occurs_in(p: Seq<char>, s: Seq<char>)
    ensures
        occurs_in(p, s) <==> exists|a: Seq<char>, b: Seq<char>| s == #[trigger] (a + p + b),
{
    if occurs_in(p, s) {
        let i = choose|i: int| stands_at(s, p, i);
        let a = s.subrange(0, i);
        let b = s.subrange(i + p.len(), s.len() as int);
        assert(s =~= a + s.subrange(i, i + p.len()) + b);
        assert(s == a + p + b);
    }
    if exists|a: Seq<char>, b: Seq<char>| s == #[trigger] (a + p + b) {
        let (a, b) = choose|a: Seq<char>, b: Seq<char>| s == #[trigger] (a + p + b);
        assert(s.subrange(a.len() as int, (a.len() + p.len()) as int) =~= p);
        assert(stands_at(s, p, a.len() as int));
    }
}

/// A number is written with the digits of its tens before that of its ones, and with two
/// digits at least where that is asked for.
pub proof fn law_decimal(n: nat)
    ensures
        n < 10 ==> dec(n).len() == 1,
        n >= 10 ==> dec(n).drop_last() == dec(n / 10),
        dec(n).last() as int == '0' as int + n % 10,
        n < 10 ==> dec2(n) == seq!['0'] + dec(n),
        n >= 10 ==> dec2(n) == dec(n),
        dec_value(dec(n)) == n,
{
    lemma_dec(n);
    if n >= 10 {
        assert(dec(n).drop_last() =~= dec(n / 10));
    }
}

/// Digits are read from left to right, and the first that stops the reading is the
/// problem: a number that has become too large, or a character that is no digit. Nothing
/// at all is a problem of its own.
pub proof fn law_number_problem(a: Seq<char>, c: char, b: Seq<char>, max: nat)
    requires
        all_ascii_digits(a),
    ensures
        dec_problem(Seq::empty(), max) == Some(IntProblem::Empty),
        dec_value(a) <= max && !is_ascii_digit(c) ==> dec_problem(a.push(c) + b, max) == Some(
            IntProblem::InvalidDigit,
        ),
        a.len() > 0 && dec_value(a) > max ==> dec_problem(a + b, max) == Some(
            IntProblem::PosOverflow,
        ),
{
    lemma_digits_problem(a, max);
    law_number_or_problem(a, max);
    let s = a.push(c) + b;
    if dec_value(a) <= max && !is_ascii_digit(c) {
        assert(a.push(c).drop_last() =~= a);
        if a.len() > 0 {
            assert(parse_dec(a, max) is Some);
        }
        assert(digits_problem(a, max) is None);
        assert(digits_problem(a.push(c), max) == Some(IntProblem::InvalidDigit));
        assert(s.subrange(0, a.len() as int + 1) =~= a.push(c));
        lemma_problem_stays(s, max, a.len() as int + 1);
    }
    if a.len() > 0 && dec_value(a) > max {
        let t = a + b;
        assert(t.subrange(0, a.len() as int) =~= a);
        lemma_problem_stays(t, max, a.len() as int);
    }
}

/// A number of 64 bits that is too large for a signed one is taken less two to the power
/// of 64.
pub proof fn law_wrapped(n: u64)
    ensures
        n <= i64::MAX ==> wrapped(n) == n,
        n > i64::MAX ==> wrapped(n) == n - 0x1_0000_0000_0000_0000,
{
}

/// White space is a tab, a line feed or one of the three behind it, a space, or one of
/// the other spaces and separators of Unicode.
pub proof fn law_white_space(c: char)
    ensures
        is_ws(c) <==> {
            let n = c as int;
            ||| 9 <= n <= 13
            ||| n == 32
            ||| n == 0x85
            ||| n == 0xa0
            ||| n == 0x1680
            ||| 0x2000 <= n <= 0x200a
            ||| n == 0x2028
            ||| n == 0x2029
            ||| n == 0x202f
            ||| n == 0x205f
            ||| n == 0x3000
        },
{
}

/// A digit is one of `0` to `9`, and digits write their value from the highest to the
/// lowest.
pub proof fn law_digits(s: Seq<char>, c: char)
    ensures
        is_ascii_digit(c) <==> 48 <= c as int <= 57,
        all_ascii_digits(s) <==> forall|k: int| 0 <= k < s.len() ==> is_ascii_digit(#[trigger] s[k]),
        is_ascii_digit(c) ==> dec_value(s.push(c)) == 10 * dec_value(s) + (c as int - 48),
        dec_value(Seq::empty()) == 0,
{
    assert(s.push(c).drop_last() =~= s);
}

} // verus!
