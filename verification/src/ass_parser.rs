//! Reads ASS files: event lines, times, karaoke tags and actor fields.

use vstd::prelude::*;
use vstd::slice::slice_subrange;

use crate::text::{
    begins_with, chars_are, dec_problem, dec_value, eq_ignore_case, equal_ignoring_case, find_char,
    int_problem, is_ascii_digit, is_whitespace, is_ws, law_number_or_problem, lower_case, lowercase,
    matches_at, next_of, parse_dec, parse_digits, push_chars, split_any, split_at_any, split_words,
    stands_at, str_eq, string_of, to_chars, trim, trim_end, trimmed, trimmed_end, views, words,
    IntProblem,
};
use crate::types::{
    line_views, marker_views, meta_views, opt_view, set_pair, syllable_views, with_pair, ActorRole,
    ActorView, AssDataView, AssLineContent, AssLineInfo, AssMetadata, AssSyllable, ContentView,
    ConvertError, ErrorView, LineView, ParsedActor, ProcessedAssData, SyllableView,
};

verus! {

// ---------------------------------------------------------------------------
// Digits
// ---------------------------------------------------------------------------

/// Whether the regular expression `\d` matches `c`.
pub uninterp spec fn regex_digit(c: char) -> bool;

/// `regex::Regex::is_match` on one character with the pattern `\d`. The result
/// depends on the character alone; of the ASCII characters the pattern matches
/// `0` to `9` and no other.
#[verifier::external_body]
fn matches_digit(c: char) -> (r: bool)
    ensures
        r == regex_digit(c),
        '\u{80}' > c ==> r == is_ascii_digit(c),
{
    regex::Regex::new(r"\A\d\z").unwrap().is_match(c.encode_utf8(&mut [0; 4]))
}

/// A decimal digit of any script.
pub open spec fn is_digit(c: char) -> bool {
    if '\u{80}' > c {
        is_ascii_digit(c)
    } else {
        regex_digit(c)
    }
}

/// Whether `c` is a decimal digit of any script.
pub fn is_decimal_digit(c: char) -> (r: bool)
    ensures
        r == is_digit(c),
{
    if '\u{80}' > c {
        '0' <= c && c <= '9'
    } else {
        matches_digit(c)
    }
}

/// The end of the run of digits that starts at `i`.
pub open spec fn digit_run(s: Seq<char>, i: int) -> int
    decreases s.len() - i,
{
    if 0 <= i < s.len() && is_digit(s[i]) {
        digit_run(s, i + 1)
    } else {
        i
    }
}

/// The end of a run of digits.
fn digits_end(s: &[char], i: usize) -> (j: usize)
    requires
        i <= s.len(),
    ensures
        j == digit_run(s@, i as int),
        i <= j <= s.len(),
{
    let mut j: usize = i;
    while j < s.len() && is_decimal_digit(s[j])
        invariant
            i <= j <= s.len(),
            digit_run(s@, i as int) == digit_run(s@, j as int),
        decreases s.len() - j,
    {
        j += 1;
    }
    j
}

/// A run of digits does not end before it starts.
pub proof fn lemma_digit_run(s: Seq<char>, i: int)
    requires
        0 <= i <= s.len(),
    ensures
        i <= digit_run(s, i) <= s.len(),
        forall|k: int| i <= k < digit_run(s, i) ==> is_digit(#[trigger] s[k]),
        digit_run(s, i) < s.len() ==> !is_digit(s[digit_run(s, i)]),
    decreases s.len() - i,
{
    if i < s.len() && is_digit(s[i]) {
        lemma_digit_run(s, i + 1);
    }
}

// ---------------------------------------------------------------------------
// Times
// ---------------------------------------------------------------------------

/// Whether a time `H:MM:SS.CC` stands at `i`; the hours are the run of digits
/// there, and nine characters follow them.
pub open spec fn time_at(s: Seq<char>, i: int) -> bool {
    let j = digit_run(s, i);
    &&& 0 <= i < j
    &&& j + 9 <= s.len()
    &&& s[j] == ':'
    &&& is_digit(s[j + 1])
    &&& is_digit(s[j + 2])
    &&& s[j + 3] == ':'
    &&& is_digit(s[j + 4])
    &&& is_digit(s[j + 5])
    &&& s[j + 6] == '.'
    &&& is_digit(s[j + 7])
    &&& is_digit(s[j + 8])
}

/// The end of the time that stands at `i`.
pub open spec fn time_end(s: Seq<char>, i: int) -> int {
    digit_run(s, i) + 9
}

/// The first position at or after `i` where a time stands, or the length of `s`.
pub open spec fn first_time(s: Seq<char>, i: int) -> int
    decreases s.len() - i,
{
    if i < 0 || i >= s.len() {
        s.len() as int
    } else if time_at(s, i) {
        i
    } else {
        first_time(s, i + 1)
    }
}

/// Why the first number that cannot be read cannot, in the time that stands at `i`
/// and whose hours end at `j`.
pub open spec fn time_problem(s: Seq<char>, i: int, j: int) -> IntProblem {
    let h = dec_problem(s.subrange(i, j), u64::MAX as nat);
    let m = dec_problem(s.subrange(j + 1, j + 3), u64::MAX as nat);
    let sec = dec_problem(s.subrange(j + 4, j + 6), u64::MAX as nat);
    let cs = dec_problem(s.subrange(j + 7, j + 9), u64::MAX as nat);
    if h is Some {
        h->0
    } else if m is Some {
        m->0
    } else if sec is Some {
        sec->0
    } else {
        cs->0
    }
}

/// The milliseconds that a text means as a time: those of the first time in it.
pub open spec fn ass_time(s: Seq<char>, line_num: nat) -> Result<nat, ErrorView> {
    let i = first_time(s, 0);
    if i >= s.len() {
        Err(ErrorView::InvalidAssTime(line_num, s))
    } else {
        let j = digit_run(s, i);
        let h = parse_dec(s.subrange(i, j), u64::MAX as nat);
        let m = parse_dec(s.subrange(j + 1, j + 3), u64::MAX as nat);
        let sec = parse_dec(s.subrange(j + 4, j + 6), u64::MAX as nat);
        let cs = parse_dec(s.subrange(j + 7, j + 9), u64::MAX as nat);
        if h is Some && m is Some && sec is Some && cs is Some {
            Ok(h->0 * 3_600_000 + m->0 * 60_000 + sec->0 * 1000 + cs->0 * 10)
        } else {
            Err(ErrorView::ParseInt(time_problem(s, i, j)))
        }
    }
}

/// Whether the time that `s` means, if it means one, fits in 64 bits.
pub open spec fn time_fits(s: Seq<char>, line_num: nat) -> bool {
    match ass_time(s, line_num) {
        Ok(t) => t <= u64::MAX,
        Err(_) => true,
    }
}

/// Whether a time stands at `i`.
fn has_time_at(s: &[char], i: usize) -> (r: bool)
    requires
        i <= s.len(),
    ensures
        r == time_at(s@, i as int),
        r ==> digit_run(s@, i as int) + 9 <= s.len(),
{
    let j = digits_end(s, i);
    if j == i || s.len() - j < 9 {
        return false;
    }
    s[j] == ':' && is_decimal_digit(s[j + 1]) && is_decimal_digit(s[j + 2]) && s[j + 3] == ':'
        && is_decimal_digit(s[j + 4]) && is_decimal_digit(s[j + 5]) && s[j + 6] == '.'
        && is_decimal_digit(s[j + 7]) && is_decimal_digit(s[j + 8])
}

/// The value of two digits is below 100.
proof fn lemma_two_digits(s: Seq<char>)
    requires
        s.len() == 2,
        parse_dec(s, u64::MAX as nat) is Some,
    ensures
        parse_dec(s, u64::MAX as nat)->0 < 100,
{
    reveal_with_fuel(dec_value, 3);
    assert(is_ascii_digit(s[0]) && is_ascii_digit(s[1]));
    assert(s.drop_last().last() == s[0]);
    assert(s.drop_last().drop_last().len() == 0);
}

/// Reads the time in `s`; `None` where it is too large for 64 bits.
fn time_of(s: &[char], line_num: usize) -> (r: Option<Result<u64, ConvertError>>)
    ensures
        match r {
            None => !time_fits(s@, line_num as nat),
            Some(Ok(t)) => ass_time(s@, line_num as nat) == Ok::<nat, ErrorView>(t as nat),
            Some(Err(e)) => ass_time(s@, line_num as nat) == Err::<nat, ErrorView>(e@),
        },
{
    let mut i: usize = 0;
    while i < s.len() && !has_time_at(s, i)
        invariant
            i <= s.len(),
            first_time(s@, 0) == first_time(s@, i as int),
        decreases s.len() - i,
    {
        i += 1;
    }
    if i == s.len() {
        return Some(Err(ConvertError::InvalidAssTime(line_num, string_of(s))));
    }
    let j = digits_end(s, i);
    let h = parse_digits(slice_subrange(s, i, j), u64::MAX);
    let m = parse_digits(slice_subrange(s, j + 1, j + 3), u64::MAX);
    let sec = parse_digits(slice_subrange(s, j + 4, j + 6), u64::MAX);
    let cs = parse_digits(slice_subrange(s, j + 7, j + 9), u64::MAX);
    match (h, m, sec, cs) {
        (Some(h), Some(m), Some(sec), Some(cs)) => {
            proof {
                lemma_two_digits(s@.subrange(j + 1, j + 3));
                lemma_two_digits(s@.subrange(j + 4, j + 6));
                lemma_two_digits(s@.subrange(j + 7, j + 9));
            }
            let below: u64 = m * 60_000 + sec * 1000 + cs * 10;
            match h.checked_mul(3_600_000) {
                Some(hours) => match hours.checked_add(below) {
                    Some(t) => Some(Ok(t)),
                    None => None,
                },
                None => None,
            }
        },
        _ => Some(Err(ConvertError::ParseInt(problem_at(s, i, j)))),
    }
}

/// Why a number of the time at `i` cannot be read.
fn problem_at(s: &[char], i: usize, j: usize) -> (r: IntProblem)
    requires
        i <= j,
        j + 9 <= s.len(),
        parse_dec(s@.subrange(i as int, j as int), u64::MAX as nat) is None || parse_dec(
            s@.subrange(j + 1, j + 3),
            u64::MAX as nat,
        ) is None || parse_dec(s@.subrange(j + 4, j + 6), u64::MAX as nat) is None || parse_dec(
            s@.subrange(j + 7, j + 9),
            u64::MAX as nat,
        ) is None,
    ensures
        r == time_problem(s@, i as int, j as int),
{
    proof {
        law_number_or_problem(s@.subrange(i as int, j as int), u64::MAX as nat);
        law_number_or_problem(s@.subrange(j + 1, j + 3), u64::MAX as nat);
        law_number_or_problem(s@.subrange(j + 4, j + 6), u64::MAX as nat);
        law_number_or_problem(s@.subrange(j + 7, j + 9), u64::MAX as nat);
    }
    match int_problem(slice_subrange(s, i, j), u64::MAX) {
        Some(p) => p,
        None => match int_problem(slice_subrange(s, j + 1, j + 3), u64::MAX) {
            Some(p) => p,
            None => match int_problem(slice_subrange(s, j + 4, j + 6), u64::MAX) {
                Some(p) => p,
                None => match int_problem(slice_subrange(s, j + 7, j + 9), u64::MAX) {
                    Some(p) => p,
                    None => IntProblem::Empty,
                },
            },
        },
    }
}

/// Reads the time in a string; `None` where it is too large for 64 bits.
fn read_time(time_str: &str, line_num: usize) -> (r: Option<Result<u64, ConvertError>>)
    ensures
        match r {
            None => !time_fits(time_str@, line_num as nat),
            Some(Ok(t)) => ass_time(time_str@, line_num as nat) == Ok::<nat, ErrorView>(t as nat),
            Some(Err(e)) => ass_time(time_str@, line_num as nat) == Err::<nat, ErrorView>(e@),
        },
{
    let s = to_chars(time_str);
    time_of(s.as_slice(), line_num)
}

/// Reads an ASS time (`H:MM:SS.CC`) as milliseconds.
pub fn parse_ass_time(time_str: &str, line_num: usize) -> (r: Result<u64, ConvertError>)
    requires
        time_fits(time_str@, line_num as nat),
    ensures
        match r {
            Ok(t) => ass_time(time_str@, line_num as nat) == Ok::<nat, ErrorView>(t as nat),
            Err(e) => ass_time(time_str@, line_num as nat) == Err::<nat, ErrorView>(e@),
        },
{
    match read_time(time_str, line_num) {
        Some(r) => r,
        None => Err(ConvertError::ParseInt(IntProblem::PosOverflow)),
    }
}

/// Reads an ASS time as milliseconds, or says that it is too large: `None`
/// exactly where the time does not fit in 64 bits.
pub fn checked_ass_time(time_str: &str, line_num: usize) -> (r: Option<Result<u64, ConvertError>>)
    ensures
        match r {
            None => !time_fits(time_str@, line_num as nat),
            Some(Ok(t)) => ass_time(time_str@, line_num as nat) == Ok::<nat, ErrorView>(t as nat),
            Some(Err(e)) => ass_time(time_str@, line_num as nat) == Err::<nat, ErrorView>(e@),
        },
{
    match read_time(time_str, line_num) {
        Some(_) => Some(parse_ass_time(time_str, line_num)),
        None => None,
    }
}

// ---------------------------------------------------------------------------
// Karaoke tags
// ---------------------------------------------------------------------------

/// Whether a karaoke tag `{\kN}` stands at `i`.
pub open spec fn tag_at(s: Seq<char>, i: int) -> bool {
    let j = digit_run(s, i + 3);
    &&& 0 <= i && i + 3 < j
    &&& j < s.len()
    &&& s[i] == '{'
    &&& s[i + 1] == '\\'
    &&& s[i + 2] == 'k'
    &&& s[j] == '}'
}

/// The first position at or after `i` where a karaoke tag stands, or the length
/// of `s`.
pub open spec fn next_tag(s: Seq<char>, i: int) -> int
    decreases s.len() - i,
{
    if i < 0 || i >= s.len() {
        s.len() as int
    } else if tag_at(s, i) {
        i
    } else {
        next_tag(s, i + 1)
    }
}

/// What has been read of a karaoke text.
pub struct KaraokeView {
    pub syllables: Seq<SyllableView>,
    /// The time that has been reached.
    pub end: nat,
    pub error: Option<ErrorView>,
}

/// The syllables with the last of them marked as followed by a space.
pub open spec fn mark_space(syllables: Seq<SyllableView>) -> Seq<SyllableView> {
    if syllables.len() == 0 {
        syllables
    } else {
        syllables.drop_last().push(SyllableView { space: true, ..syllables.last() })
    }
}

/// The state after a piece of text that lasts `cs` centiseconds. A piece with
/// text is a syllable; one of white space alone marks the syllable before it,
/// if it lasts; an empty one is a pause.
pub open spec fn after_piece(k: KaraokeView, piece: Seq<char>, cs: nat) -> KaraokeView {
    let end = k.end + cs * 10;
    let text = trim_end(piece);
    KaraokeView {
        syllables: if text.len() > 0 {
            k.syllables.push(
                SyllableView { text, start: k.end, end, space: is_ws(piece.last()) },
            )
        } else if piece.len() > 0 && cs > 0 {
            mark_space(k.syllables)
        } else {
            k.syllables
        },
        end,
        error: None,
    }
}

/// The karaoke text `s` read from `pos` on, where `cs` is the duration in
/// centiseconds of the text before the next tag.
pub open spec fn karaoke_from(
    s: Seq<char>,
    pos: int,
    cs: nat,
    k: KaraokeView,
    line_num: nat,
) -> KaraokeView
    decreases s.len() - pos,
    when 0 <= pos <= s.len()
    via karaoke_from_decreases
{
    let i = next_tag(s, pos);
    if i >= s.len() {
        after_piece(k, s.subrange(pos, s.len() as int), cs)
    } else {
        let j = digit_run(s, i + 3);
        let digits = s.subrange(i + 3, j);
        match parse_dec(digits, u32::MAX as nat) {
            None => KaraokeView {
                error: Some(ErrorView::InvalidAssKaraoke(line_num, "无效的K值: "@ + digits)),
                ..k
            },
            Some(next) => karaoke_from(
                s,
                j + 1,
                next,
                after_piece(k, s.subrange(pos, i), cs),
                line_num,
            ),
        }
    }
}

#[via_fn]
proof fn karaoke_from_decreases(
    s: Seq<char>,
    pos: int,
    cs: nat,
    k: KaraokeView,
    line_num: nat,
) {
    lemma_next_tag(s, pos);
}

/// A karaoke text that starts at `start`: each text lasts as long as the tag
/// before it says.
pub open spec fn karaoke(s: Seq<char>, start: nat, line_num: nat) -> KaraokeView {
    karaoke_from(
        s,
        0,
        0,
        KaraokeView { syllables: Seq::empty(), end: start, error: None },
        line_num,
    )
}

/// Whether the times of a karaoke text fit in 64 bits.
pub open spec fn karaoke_fits(s: Seq<char>, start: nat, line_num: nat) -> bool {
    karaoke(s, start, line_num).end <= u64::MAX
}

/// What `next_tag` finds.
pub proof fn lemma_next_tag(s: Seq<char>, i: int)
    requires
        0 <= i <= s.len(),
    ensures
        i <= next_tag(s, i) <= s.len(),
        next_tag(s, i) < s.len() ==> tag_at(s, next_tag(s, i)),
    decreases s.len() - i,
{
    if i < s.len() && !tag_at(s, i) {
        lemma_next_tag(s, i + 1);
    }
}

/// Reading on never goes back in time.
pub proof fn lemma_karaoke_from_end(s: Seq<char>, pos: int, cs: nat, k: KaraokeView, line_num: nat)
    requires
        0 <= pos <= s.len(),
    ensures
        karaoke_from(s, pos, cs, k, line_num).end >= k.end,
    decreases s.len() - pos,
{
    let i = next_tag(s, pos);
    lemma_next_tag(s, pos);
    if i < s.len() {
        let j = digit_run(s, i + 3);
        let digits = s.subrange(i + 3, j);
        if parse_dec(digits, u32::MAX as nat) is Some {
            lemma_karaoke_from_end(
                s,
                j + 1,
                parse_dec(digits, u32::MAX as nat)->0,
                after_piece(k, s.subrange(pos, i), cs),
                line_num,
            );
        }
    }
}

/// Whether a karaoke tag stands at `i`.
fn has_tag_at(s: &[char], i: usize) -> (r: bool)
    requires
        i < s.len(),
    ensures
        r == tag_at(s@, i as int),
{
    if s.len() - i < 3 || s[i] != '{' || s[i + 1] != '\\' || s[i + 2] != 'k' {
        return false;
    }
    let j = digits_end(s, i + 3);
    j > i + 3 && j < s.len() && s[j] == '}'
}

/// The first karaoke tag at or after `from`.
fn find_tag(s: &[char], from: usize) -> (i: usize)
    requires
        from <= s.len(),
    ensures
        i == next_tag(s@, from as int),
        from <= i <= s.len(),
        i < s.len() ==> tag_at(s@, i as int),
{
    let mut i: usize = from;
    while i < s.len() && !has_tag_at(s, i)
        invariant
            from <= i <= s.len(),
            next_tag(s@, from as int) == next_tag(s@, i as int),
        decreases s.len() - i,
    {
        i += 1;
    }
    i
}

/// Reads one piece of text that starts at `time` and lasts `cs` centiseconds;
/// `None` where its end does not fit in 64 bits.
fn read_piece(syllables: &mut Vec<AssSyllable>, time: u64, piece: &[char], cs: u32) -> (r: Option<u64>)
    ensures
        match r {
            Some(end) => ({
                let k = KaraokeView {
                    syllables: syllable_views(old(syllables)@),
                    end: time as nat,
                    error: None,
                };
                let after = after_piece(k, piece@, cs as nat);
                &&& syllable_views(final(syllables)@) == after.syllables
                &&& end == after.end
            }),
            None => time + cs * 10 > u64::MAX,
        },
{
    let end = match time.checked_add(cs as u64 * 10) {
        Some(end) => end,
        None => {
            return None;
        },
    };
    let text = trimmed_end(piece);
    proof {
        crate::text::lemma_trim_end(piece@);
    }
    let ghost before = syllables@;
    if text.len() > 0 {
        syllables.push(
            AssSyllable {
                text: string_of(text),
                start_ms: time,
                end_ms: end,
                ends_with_space: is_whitespace(piece[piece.len() - 1]),
            },
        );
        proof {
            assert(syllable_views(syllables@) =~= syllable_views(before).push(
                syllables@.last()@,
            ));
        }
    } else if piece.len() > 0 && cs > 0 {
        if syllables.len() > 0 {
            let n: usize = syllables.len() - 1;
            syllables[n].ends_with_space = true;
            proof {
                assert(syllable_views(syllables@) =~= mark_space(syllable_views(before)));
            }
        }
    }
    Some(end)
}

/// Reads a karaoke text; `None` where its times do not fit in 64 bits.
fn karaoke_of(s: &[char], start: u64, line_num: usize) -> (r: Option<
    Result<(Vec<AssSyllable>, u64), ConvertError>,
>)
    ensures
        match r {
            None => !karaoke_fits(s@, start as nat, line_num as nat),
            Some(Ok(p)) => ({
                let k = karaoke(s@, start as nat, line_num as nat);
                &&& k.error is None
                &&& syllable_views(p.0@) == k.syllables
                &&& p.1 == k.end
            }),
            Some(Err(e)) => ({
                &&& karaoke(s@, start as nat, line_num as nat).error == Some(e@)
                &&& karaoke_fits(s@, start as nat, line_num as nat)
            }),
        },
{
    let mut syllables: Vec<AssSyllable> = Vec::new();
    let mut pos: usize = 0;
    let mut time: u64 = start;
    let mut cs: u32 = 0;
    proof {
        assert(syllable_views(syllables@) =~= Seq::<SyllableView>::empty());
    }
    loop
        invariant
            pos <= s.len(),
            karaoke(s@, start as nat, line_num as nat) == karaoke_from(
                s@,
                pos as int,
                cs as nat,
                KaraokeView {
                    syllables: syllable_views(syllables@),
                    end: time as nat,
                    error: None,
                },
                line_num as nat,
            ),
        decreases s.len() - pos,
    {
        let i = find_tag(s, pos);
        let ghost k = KaraokeView {
            syllables: syllable_views(syllables@),
            end: time as nat,
            error: None,
        };
        if i == s.len() {
            return match read_piece(&mut syllables, time, slice_subrange(s, pos, s.len()), cs) {
                Some(end) => Some(Ok((syllables, end))),
                None => None,
            };
        }
        let j = digits_end(s, i + 3);
        let digits = slice_subrange(s, i + 3, j);
        match parse_digits(digits, u32::MAX as u64) {
            Some(next) => {
                proof {
                    lemma_karaoke_from_end(
                        s@,
                        j + 1,
                        next as nat,
                        after_piece(k, s@.subrange(pos as int, i as int), cs as nat),
                        line_num as nat,
                    );
                }
                match read_piece(&mut syllables, time, slice_subrange(s, pos, i), cs) {
                    Some(end) => {
                        time = end;
                    },
                    None => {
                        return None;
                    },
                }
                cs = next as u32;
                pos = j + 1;
            },
            None => {
                let mut msg = String::new();
                msg.append("无效的K值: ");
                push_chars(&mut msg, digits);
                proof {
                    assert(msg@ =~= "无效的K值: "@ + digits@);
                }
                return Some(Err(ConvertError::InvalidAssKaraoke(line_num, msg)));
            },
        }
    }
}

/// Reads a karaoke text from a string; `None` where its times do not fit in 64
/// bits.
fn read_karaoke(text: &str, line_start_ms: u64, line_num: usize) -> (r: Option<
    Result<(Vec<AssSyllable>, u64), ConvertError>,
>)
    ensures
        match r {
            None => !karaoke_fits(text@, line_start_ms as nat, line_num as nat),
            Some(Ok(p)) => ({
                let k = karaoke(text@, line_start_ms as nat, line_num as nat);
                &&& k.error is None
                &&& syllable_views(p.0@) == k.syllables
                &&& p.1 == k.end
            }),
            Some(Err(e)) => ({
                &&& karaoke(text@, line_start_ms as nat, line_num as nat).error == Some(e@)
                &&& karaoke_fits(text@, line_start_ms as nat, line_num as nat)
            }),
        },
{
    let s = to_chars(text);
    karaoke_of(s.as_slice(), line_start_ms, line_num)
}

/// Splits a karaoke text into syllables with their time spans, and gives the
/// time at which the last tag runs out.
pub fn parse_karaoke_text(text: &str, line_start_ms: u64, line_num: usize) -> (r: Result<
    (Vec<AssSyllable>, u64),
    ConvertError,
>)
    requires
        karaoke_fits(text@, line_start_ms as nat, line_num as nat),
    ensures
        match r {
            Ok(p) => ({
                let k = karaoke(text@, line_start_ms as nat, line_num as nat);
                &&& k.error is None
                &&& syllable_views(p.0@) == k.syllables
                &&& p.1 == k.end
            }),
            Err(e) => karaoke(text@, line_start_ms as nat, line_num as nat).error == Some(e@),
        },
{
    match read_karaoke(text, line_start_ms, line_num) {
        Some(r) => r,
        None => Err(ConvertError::ParseInt(IntProblem::PosOverflow)),
    }
}

/// Reads a karaoke text, or says that it lasts too long: `None` exactly where
/// its times do not fit in 64 bits.
pub fn checked_karaoke_text(text: &str, line_start_ms: u64, line_num: usize) -> (r: Option<
    Result<(Vec<AssSyllable>, u64), ConvertError>,
>)
    ensures
        match r {
            None => !karaoke_fits(text@, line_start_ms as nat, line_num as nat),
            Some(Ok(p)) => ({
                let k = karaoke(text@, line_start_ms as nat, line_num as nat);
                &&& k.error is None
                &&& syllable_views(p.0@) == k.syllables
                &&& p.1 == k.end
            }),
            Some(Err(e)) => ({
                &&& karaoke(text@, line_start_ms as nat, line_num as nat).error == Some(e@)
                &&& karaoke_fits(text@, line_start_ms as nat, line_num as nat)
            }),
        },
{
    match read_karaoke(text, line_start_ms, line_num) {
        Some(_) => Some(parse_karaoke_text(text, line_start_ms, line_num)),
        None => None,
    }
}

// ---------------------------------------------------------------------------
// The actor field
// ---------------------------------------------------------------------------

/// The number of characters from `i` on that are neither white space nor quotes.
pub open spec fn bare_end(s: Seq<char>, i: int) -> int
    decreases s.len() - i,
{
    if 0 <= i < s.len() && !is_ws(s[i]) && s[i] != '"' && s[i] != '\'' {
        bare_end(s, i + 1)
    } else {
        i
    }
}

/// Where the value of a `itunes:song-part=` directive at `i` starts and ends,
/// and where the directive ends. A value stands in double quotes, in single
/// quotes, or bare.
pub open spec fn song_part_at(s: Seq<char>, i: int) -> Option<(int, int, int)> {
    let v = i + 17;
    if !stands_at(s, "itunes:song-part="@, i) || v >= s.len() {
        None
    } else if s[v] == '"' || s[v] == '\'' {
        let q = next_of(s, seq![s[v]], v + 1);
        if q < s.len() {
            Some((v + 1, q, q + 1))
        } else {
            None
        }
    } else {
        let e = bare_end(s, v);
        if e > v {
            Some((v, e, e))
        } else {
            None
        }
    }
}

/// The first position at or after `i` where a song-part directive stands, or the
/// length of `s`.
pub open spec fn first_song_part(s: Seq<char>, i: int) -> int
    decreases s.len() - i,
{
    if i < 0 || i >= s.len() {
        s.len() as int
    } else if song_part_at(s, i) is Some {
        i
    } else {
        first_song_part(s, i + 1)
    }
}

/// The song part that an actor field names, and the field without that
/// directive.
pub open spec fn split_song_part(s: Seq<char>) -> (Option<Seq<char>>, Seq<char>) {
    let i = first_song_part(s, 0);
    if i >= s.len() {
        (None, s)
    } else {
        let p = song_part_at(s, i)->0;
        (Some(s.subrange(p.0, p.1)), s.subrange(0, i) + s.subrange(p.2, s.len() as int))
    }
}

/// The role that a tag of an actor field stands for.
pub open spec fn tag_role(tag: Seq<char>) -> Option<ActorRole> {
    if tag == "左"@ || tag == "v1"@ {
        Some(ActorRole::Vocal1)
    } else if tag == "右"@ || tag == "x-duet"@ || tag == "x-anti"@ || tag == "v2"@ {
        Some(ActorRole::Vocal2)
    } else if tag == "背"@ || tag == "x-bg"@ {
        Some(ActorRole::Background)
    } else if tag == "合"@ || tag == "v1000"@ {
        Some(ActorRole::Chorus)
    } else {
        None
    }
}

/// The tags that stand for a role, in order.
pub open spec fn role_tags(tags: Seq<Seq<char>>) -> Seq<Seq<char>>
    decreases tags.len(),
{
    if tags.len() == 0 {
        tags
    } else if tag_role(tags.last()) is Some {
        role_tags(tags.drop_last()).push(tags.last())
    } else {
        role_tags(tags.drop_last())
    }
}

/// Whether a tag stands for `role`.
pub open spec fn names_role(tags: Seq<Seq<char>>, role: ActorRole) -> bool {
    exists|i: int| 0 <= i < tags.len() && tag_role(#[trigger] tags[i]) == Some(role)
}

/// Whether the tags stand for two different roles.
pub open spec fn roles_conflict(tags: Seq<Seq<char>>) -> bool {
    exists|a: ActorRole, b: ActorRole|
        a != b && #[trigger] names_role(tags, a) && #[trigger] names_role(tags, b)
}

/// The language code of the last `x-lang:` tag that has one.
pub open spec fn last_lang(tags: Seq<Seq<char>>) -> Option<Seq<char>>
    decreases tags.len(),
{
    if tags.len() == 0 {
        None
    } else if stands_at(tags.last(), "x-lang:"@, 0) && tags.last().len() > 7 {
        Some(tags.last().subrange(7, tags.last().len() as int))
    } else {
        last_lang(tags.drop_last())
    }
}

/// The styles of lyric lines.
pub open spec fn is_lyric_style(style: Seq<char>) -> bool {
    style == "orig"@ || style == "default"@
}

/// The styles of lines that translate a main line.
pub open spec fn is_translation_style(style: Seq<char>) -> bool {
    style == "ts"@ || style == "trans"@
}

/// What the actor field of a line with this style says.
pub open spec fn actor(field: Seq<char>, style: Seq<char>, line_num: nat) -> Result<
    ActorView,
    ErrorView,
> {
    let (song_part, rest) = split_song_part(field);
    let tags = words(rest);
    let lyric = is_lyric_style(style);
    if lyric && roles_conflict(tags) {
        Err(ErrorView::ConflictingActorTags(line_num, role_tags(tags)))
    } else {
        Ok(
            ActorView {
                role: if !lyric {
                    None
                } else if names_role(tags, ActorRole::Chorus) {
                    Some(ActorRole::Chorus)
                } else if names_role(tags, ActorRole::Background) {
                    Some(ActorRole::Background)
                } else if names_role(tags, ActorRole::Vocal2) {
                    Some(ActorRole::Vocal2)
                } else {
                    Some(ActorRole::Vocal1)
                },
                is_background: lyric && names_role(tags, ActorRole::Background),
                lang_code: if is_translation_style(style) {
                    if last_lang(tags) is Some {
                        last_lang(tags)
                    } else {
                        Some("zh-CN"@)
                    }
                } else if style == "bg-ts"@ {
                    last_lang(tags)
                } else {
                    None
                },
                is_marker: tags.contains("x-mark"@),
                song_part,
            },
        )
    }
}

/// Finds the value and the end of a song-part directive at `i`.
fn song_part_here(s: &[char], i: usize) -> (r: Option<(usize, usize, usize)>)
    requires
        i < s.len(),
    ensures
        match r {
            Some(p) => ({
                &&& song_part_at(s@, i as int) == Some((p.0 as int, p.1 as int, p.2 as int))
                &&& i <= p.0 <= p.1 <= p.2 <= s.len()
            }),
            None => song_part_at(s@, i as int) is None,
        },
{
    let name = to_chars("itunes:song-part=");
    proof {
        reveal_strlit("itunes:song-part=");
    }
    if !matches_at(s, name.as_slice(), i) {
        return None;
    }
    let v: usize = i + 17;
    if v >= s.len() {
        return None;
    }
    if s[v] == '"' || s[v] == '\'' {
        let q = find_char(s, s[v], v + 1);
        if q < s.len() {
            Some((v + 1, q, q + 1))
        } else {
            None
        }
    } else {
        let mut e: usize = v;
        while e < s.len() && !is_whitespace(s[e]) && s[e] != '"' && s[e] != '\''
            invariant
                v <= e <= s.len(),
                bare_end(s@, v as int) == bare_end(s@, e as int),
            decreases s.len() - e,
        {
            e += 1;
        }
        if e > v {
            Some((v, e, e))
        } else {
            None
        }
    }
}

/// Takes the song part out of an actor field.
fn take_song_part(s: &[char]) -> (r: (Option<String>, Vec<char>))
    ensures
        crate::types::opt_view(r.0) == split_song_part(s@).0,
        r.1@ == split_song_part(s@).1,
{
    let mut i: usize = 0;
    while i < s.len()
        invariant
            i <= s.len(),
            first_song_part(s@, 0) == first_song_part(s@, i as int),
        decreases s.len() - i,
    {
        match song_part_here(s, i) {
            Some(p) => {
                let value = string_of(slice_subrange(s, p.0, p.1));
                let mut rest = vstd::slice::slice_to_vec(slice_subrange(s, 0, i));
                let mut tail = vstd::slice::slice_to_vec(slice_subrange(s, p.2, s.len()));
                rest.append(&mut tail);
                return (Some(value), rest);
            },
            None => {},
        }
        i += 1;
    }
    (None, vstd::slice::slice_to_vec(s))
}

/// The role that a tag stands for.
fn role_of_tag(tag: &[char]) -> (r: Option<ActorRole>)
    ensures
        r == tag_role(tag@),
{
    if chars_are(tag, "左") || chars_are(tag, "v1") {
        Some(ActorRole::Vocal1)
    } else if chars_are(tag, "右") || chars_are(tag, "x-duet") || chars_are(tag, "x-anti")
        || chars_are(tag, "v2") {
        Some(ActorRole::Vocal2)
    } else if chars_are(tag, "背") || chars_are(tag, "x-bg") {
        Some(ActorRole::Background)
    } else if chars_are(tag, "合") || chars_are(tag, "v1000") {
        Some(ActorRole::Chorus)
    } else {
        None
    }
}

/// A list with one more tag names the roles that it named and that of the tag.
proof fn lemma_names_role_push(tags: Seq<Seq<char>>, i: int, role: ActorRole)
    requires
        0 <= i < tags.len(),
    ensures
        names_role(tags.subrange(0, i + 1), role) == (names_role(tags.subrange(0, i), role)
            || tag_role(tags[i]) == Some(role)),
{
    let a = tags.subrange(0, i);
    let b = tags.subrange(0, i + 1);
    if names_role(a, role) {
        let k = choose|k: int| 0 <= k < a.len() && tag_role(#[trigger] a[k]) == Some(role);
        assert(b[k] == a[k]);
    }
    if tag_role(tags[i]) == Some(role) {
        assert(b[i] == tags[i]);
    }
    if names_role(b, role) {
        let k = choose|k: int| 0 <= k < b.len() && tag_role(#[trigger] b[k]) == Some(role);
        if k < i {
            assert(a[k] == b[k]);
        }
    }
}

/// Reads the actor field of a line: the role, whether it is a background voice,
/// the language, whether the line is a marker, and the song part.
pub fn parse_actor(actor_str_input: &str, style_input: &str, line_num: usize) -> (r: Result<
    ParsedActor,
    ConvertError,
>)
    ensures
        match r {
            Ok(a) => actor(actor_str_input@, style_input@, line_num as nat) == Ok::<
                ActorView,
                ErrorView,
            >(a@),
            Err(e) => actor(actor_str_input@, style_input@, line_num as nat) == Err::<
                ActorView,
                ErrorView,
            >(e@),
        },
{
    let field = to_chars(actor_str_input);
    let style = to_chars(style_input);
    let lyric = chars_are(style.as_slice(), "orig") || chars_are(style.as_slice(), "default");
    let translation = chars_are(style.as_slice(), "ts") || chars_are(style.as_slice(), "trans");
    let background_translation = chars_are(style.as_slice(), "bg-ts");
    let (song_part, rest) = take_song_part(field.as_slice());
    let tag_list = split_words(rest.as_slice());
    let ghost tags = words(rest@);
    let mut is_marker = false;
    let mut v1 = false;
    let mut v2 = false;
    let mut bg = false;
    let mut chorus = false;
    let mut lang: Option<String> = None;
    let mut found: Vec<String> = Vec::new();
    proof {
        reveal_strlit("x-lang:");
        assert(views(found@) =~= role_tags(tags.subrange(0, 0)));
    }
    let mut i: usize = 0;
    while i < tag_list.len()
        invariant
            i <= tag_list.len(),
            tag_list@.len() == tags.len(),
            forall|k: int| 0 <= k < tag_list@.len() ==> #[trigger] tag_list@[k]@ == tags[k],
            is_marker == tags.subrange(0, i as int).contains("x-mark"@),
            v1 == names_role(tags.subrange(0, i as int), ActorRole::Vocal1),
            v2 == names_role(tags.subrange(0, i as int), ActorRole::Vocal2),
            bg == names_role(tags.subrange(0, i as int), ActorRole::Background),
            chorus == names_role(tags.subrange(0, i as int), ActorRole::Chorus),
            crate::types::opt_view(lang) == last_lang(tags.subrange(0, i as int)),
            views(found@) == role_tags(tags.subrange(0, i as int)),
            "x-lang:"@.len() == 7,
        decreases tag_list.len() - i,
    {
        let tag = tag_list[i].as_slice();
        let ghost before = found@;
        let ghost upto = tags.subrange(0, i + 1);
        proof {
            assert(tag@ == tags[i as int]);
            assert(upto.drop_last() =~= tags.subrange(0, i as int));
            assert(upto.last() == tag@);
            lemma_names_role_push(tags, i as int, ActorRole::Vocal1);
            lemma_names_role_push(tags, i as int, ActorRole::Vocal2);
            lemma_names_role_push(tags, i as int, ActorRole::Background);
            lemma_names_role_push(tags, i as int, ActorRole::Chorus);
        }
        if chars_are(tag, "x-mark") {
            is_marker = true;
            proof {
                assert(upto[i as int] == "x-mark"@);
            }
        }
        proof {
            if tags.subrange(0, i as int).contains("x-mark"@) {
                let k = choose|k: int|
                    0 <= k < i && tags.subrange(0, i as int)[k] == "x-mark"@;
                assert(upto[k] == "x-mark"@);
            }
            if upto.contains("x-mark"@) && tag@ != "x-mark"@ {
                let k = choose|k: int| 0 <= k < upto.len() && upto[k] == "x-mark"@;
                assert(tags.subrange(0, i as int)[k] == "x-mark"@);
            }
        }
        match role_of_tag(tag) {
            Some(role) => {
                match role {
                    ActorRole::Vocal1 => {
                        v1 = true;
                    },
                    ActorRole::Vocal2 => {
                        v2 = true;
                    },
                    ActorRole::Background => {
                        bg = true;
                    },
                    ActorRole::Chorus => {
                        chorus = true;
                    },
                }
                found.push(string_of(tag));
                proof {
                    assert(views(found@) =~= views(before).push(tag@));
                }
            },
            None => {},
        }
        if begins_with(tag, "x-lang:") && tag.len() > 7 {
            lang = Some(string_of(slice_subrange(tag, 7, tag.len())));
        }
        i += 1;
    }
    proof {
        assert(tags.subrange(0, i as int) =~= tags);
        lemma_roles_conflict(tags);
    }
    if lyric && ((v1 && v2) || (v1 && bg) || (v1 && chorus) || (v2 && bg) || (v2 && chorus) || (bg
        && chorus)) {
        return Err(ConvertError::ConflictingActorTags { line_num, tags: found });
    }
    let role = if !lyric {
        None
    } else if chorus {
        Some(ActorRole::Chorus)
    } else if bg {
        Some(ActorRole::Background)
    } else if v2 {
        Some(ActorRole::Vocal2)
    } else {
        Some(ActorRole::Vocal1)
    };
    let lang_code = if translation {
        match lang {
            Some(code) => Some(code),
            None => Some("zh-CN".to_owned()),
        }
    } else if background_translation {
        lang
    } else {
        None
    };
    Ok(ParsedActor { role, is_background: lyric && bg, lang_code, is_marker, song_part })
}

/// Roles conflict where two of the four are named.
proof fn lemma_roles_conflict(tags: Seq<Seq<char>>)
    ensures
        roles_conflict(tags) == ({
            let v1 = names_role(tags, ActorRole::Vocal1);
            let v2 = names_role(tags, ActorRole::Vocal2);
            let bg = names_role(tags, ActorRole::Background);
            let chorus = names_role(tags, ActorRole::Chorus);
            (v1 && v2) || (v1 && bg) || (v1 && chorus) || (v2 && bg) || (v2 && chorus) || (bg
                && chorus)
        }),
{
}

// ---------------------------------------------------------------------------
// Event lines
// ---------------------------------------------------------------------------

/// The fields of a `Dialogue:` or `Comment:` line.
#[derive(Debug, Clone)]
pub struct AssEvent {
    pub is_dialogue: bool,
    pub start: String,
    pub end: String,
    pub style: String,
    pub actor: String,
    pub effect: String,
    pub text: String,
}

/// An `AssEvent` over mathematical values.
pub struct EventView {
    pub is_dialogue: bool,
    pub start: Seq<char>,
    pub end: Seq<char>,
    pub style: Seq<char>,
    pub actor: Seq<char>,
    pub effect: Seq<char>,
    pub text: Seq<char>,
}

impl View for AssEvent {
    type V = EventView;

    open spec fn view(&self) -> EventView {
        EventView {
            is_dialogue: self.is_dialogue,
            start: self.start@,
            end: self.end@,
            style: self.style@,
            actor: self.actor@,
            effect: self.effect@,
            text: self.text@,
        }
    }
}

/// The first position at or after `i` that does not hold white space.
pub open spec fn skip_ws(s: Seq<char>, i: int) -> int
    decreases s.len() - i,
{
    if 0 <= i < s.len() && is_ws(s[i]) {
        skip_ws(s, i + 1)
    } else {
        i
    }
}

/// The position behind the comma that follows `i`, with white space before it
/// allowed; `None` where something else stands there.
pub open spec fn comma_after(s: Seq<char>, i: int) -> Option<int> {
    let c = skip_ws(s, i);
    if c < s.len() && s[c] == ',' {
        Some(c + 1)
    } else {
        None
    }
}

/// Where the first field with a free text starts (the style), with the ends of
/// the two times before it: kind, layer, start and end stand in front of it.
pub open spec fn event_head(s: Seq<char>) -> Option<(bool, int, int, int)> {
    let dialogue = stands_at(s, "Dialogue:"@, 0);
    if !dialogue && !stands_at(s, "Comment:"@, 0) {
        None
    } else {
        let layer = skip_ws(s, if dialogue {
            9
        } else {
            8
        });
        let layer_end = digit_run(s, layer);
        if layer_end <= layer {
            None
        } else {
            match comma_after(s, layer_end) {
                None => None,
                Some(start) => if !time_at(s, start) {
                    None
                } else {
                    match comma_after(s, time_end(s, start)) {
                        None => None,
                        Some(end) => if !time_at(s, end) {
                            None
                        } else {
                            match comma_after(s, time_end(s, end)) {
                                None => None,
                                Some(style) => Some((dialogue, start, end, style)),
                            }
                        },
                    }
                },
            }
        }
    }
}

/// The end of the field that starts at `i`: the next comma.
pub open spec fn field_end(s: Seq<char>, i: int) -> int {
    next_of(s, seq![','], i)
}

/// The fields of an event line: kind, layer, start, end, style, actor, three
/// margins, effect and text, with commas between them. Only the text may hold
/// commas. `None` where the line is not of this form.
pub open spec fn event_fields(s: Seq<char>) -> Option<EventView> {
    match event_head(s) {
        None => None,
        Some((dialogue, start, end, style)) => {
            let actor = field_end(s, style) + 1;
            let left = field_end(s, actor) + 1;
            let right = field_end(s, left) + 1;
            let vertical = field_end(s, right) + 1;
            let effect = field_end(s, vertical) + 1;
            let text = field_end(s, effect) + 1;
            if actor > s.len() || left > s.len() || right > s.len() || vertical > s.len() || effect
                > s.len() || text > s.len() {
                None
            } else {
                Some(
                    EventView {
                        is_dialogue: dialogue,
                        start: s.subrange(start, time_end(s, start)),
                        end: s.subrange(end, time_end(s, end)),
                        style: trim(s.subrange(style, actor - 1)),
                        actor: trim(s.subrange(actor, left - 1)),
                        effect: trim(s.subrange(effect, text - 1)),
                        text: trim_end(s.subrange(text, s.len() as int)),
                    },
                )
            }
        },
    }
}

/// Skips white space.
fn ws_end(s: &[char], i: usize) -> (j: usize)
    requires
        i <= s.len(),
    ensures
        j == skip_ws(s@, i as int),
        i <= j <= s.len(),
{
    let mut j: usize = i;
    while j < s.len() && is_whitespace(s[j])
        invariant
            i <= j <= s.len(),
            skip_ws(s@, i as int) == skip_ws(s@, j as int),
        decreases s.len() - j,
    {
        j += 1;
    }
    j
}

/// Steps over white space and a comma.
fn past_comma(s: &[char], i: usize) -> (r: Option<usize>)
    requires
        i <= s.len(),
    ensures
        match r {
            Some(j) => comma_after(s@, i as int) == Some(j as int) && i < j <= s.len(),
            None => comma_after(s@, i as int) is None,
        },
{
    let c = ws_end(s, i);
    if c < s.len() && s[c] == ',' {
        Some(c + 1)
    } else {
        None
    }
}

/// The time at `i` and the position behind it and its comma.
fn time_field(s: &[char], i: usize) -> (r: Option<(usize, usize)>)
    requires
        i <= s.len(),
    ensures
        match r {
            Some(p) => ({
                &&& time_at(s@, i as int)
                &&& p.0 == time_end(s@, i as int)
                &&& comma_after(s@, p.0 as int) == Some(p.1 as int)
                &&& i <= p.0 <= p.1 <= s.len()
            }),
            None => !time_at(s@, i as int) || comma_after(s@, time_end(s@, i as int)) is None,
        },
{
    if !has_time_at(s, i) {
        return None;
    }
    let e: usize = digits_end(s, i) + 9;
    match past_comma(s, e) {
        Some(j) => Some((e, j)),
        None => None,
    }
}

/// Reads the fields of an event line.
pub fn parse_event(line: &[char]) -> (r: Option<AssEvent>)
    ensures
        match r {
            Some(e) => event_fields(line@) == Some(e@),
            None => event_fields(line@) is None,
        },
{
    proof {
        reveal_strlit("Dialogue:");
        reveal_strlit("Comment:");
    }
    let dialogue = begins_with(line, "Dialogue:");
    if !dialogue && !begins_with(line, "Comment:") {
        return None;
    }
    let layer = ws_end(line, if dialogue { 9 } else { 8 });
    let layer_end = digits_end(line, layer);
    if layer_end <= layer {
        return None;
    }
    let start = match past_comma(line, layer_end) {
        Some(i) => i,
        None => {
            return None;
        },
    };
    let (start_end, end) = match time_field(line, start) {
        Some(p) => p,
        None => {
            return None;
        },
    };
    let (end_end, style) = match time_field(line, end) {
        Some(p) => p,
        None => {
            return None;
        },
    };
    let style_end = find_char(line, ',', style);
    if style_end == line.len() {
        return None;
    }
    let actor_end = find_char(line, ',', style_end + 1);
    if actor_end == line.len() {
        return None;
    }
    let left_end = find_char(line, ',', actor_end + 1);
    if left_end == line.len() {
        return None;
    }
    let right_end = find_char(line, ',', left_end + 1);
    if right_end == line.len() {
        return None;
    }
    let vertical_end = find_char(line, ',', right_end + 1);
    if vertical_end == line.len() {
        return None;
    }
    let effect_end = find_char(line, ',', vertical_end + 1);
    if effect_end == line.len() {
        return None;
    }
    Some(
        AssEvent {
            is_dialogue: dialogue,
            start: string_of(slice_subrange(line, start, start_end)),
            end: string_of(slice_subrange(line, end, end_end)),
            style: string_of(trimmed(slice_subrange(line, style, style_end))),
            actor: string_of(trimmed(slice_subrange(line, style_end + 1, actor_end))),
            effect: string_of(trimmed(slice_subrange(line, vertical_end + 1, effect_end))),
            text: string_of(trimmed_end(slice_subrange(line, effect_end + 1, line.len()))),
        },
    )
}

// ---------------------------------------------------------------------------
// Files
// ---------------------------------------------------------------------------

/// What has been read of an ASS file, and which of its lines a translation or
/// romanization that follows belongs to.
pub struct LoadView {
    pub data: AssDataView,
    pub last_main: Option<nat>,
    pub last_bg: Option<nat>,
}

/// Nothing has been read.
pub open spec fn load_start() -> LoadView {
    LoadView {
        data: AssDataView {
            lines: Seq::empty(),
            metadata: Seq::empty(),
            markers: Seq::empty(),
            apple_music_id: Seq::empty(),
            songwriters: Seq::empty(),
            language_code: None,
            agent_names: Seq::empty(),
            detected_translation_language: None,
        },
        last_main: None,
        last_bg: None,
    }
}

/// The styles whose lines are left out when they have an effect other than
/// karaoke.
pub open spec fn is_content_style(style: Seq<char>) -> bool {
    is_lyric_style(style) || is_translation_style(style) || style == "roma"@ || style == "bg-ts"@
        || style == "bg-roma"@
}

/// Whether an event is left out, given its style and effect in lower case.
pub open spec fn is_left_out(style_lower: Seq<char>, effect_lower: Seq<char>) -> bool {
    is_content_style(style_lower) && effect_lower.len() != 0 && effect_lower != "karaoke"@
}

/// The line that a translation or romanization with this start belongs to.
pub open spec fn owner(l: LoadView, index: Option<nat>, start: nat) -> Option<int> {
    match index {
        Some(i) => if i < l.data.lines.len() && l.data.lines[i as int].start == start {
            Some(i as int)
        } else {
            None
        },
        None => None,
    }
}

/// The language of the first translation, once another translation with this
/// language has been seen.
pub open spec fn first_language(known: Option<Seq<char>>, seen: Option<Seq<char>>) -> Option<
    Seq<char>,
> {
    if known is Some {
        known
    } else {
        match seen {
            Some(lang) => if lang.len() > 0 {
                Some(lang)
            } else {
                None
            },
            None => None,
        }
    }
}

/// `l` with one more line.
pub open spec fn with_line(l: LoadView, line: LineView) -> LoadView {
    LoadView { data: AssDataView { lines: l.data.lines.push(line), ..l.data }, ..l }
}

/// `l` after the translation of a main line: kept where the main line before it
/// starts at the same time.
pub open spec fn after_translation(
    l: LoadView,
    line_num: nat,
    start: nat,
    end: nat,
    a: ActorView,
    text: Seq<char>,
) -> LoadView {
    if owner(l, l.last_main, start) is None {
        l
    } else {
        let line = LineView {
            line_num,
            start,
            end,
            content: Some(ContentView::MainTranslation { lang_code: a.lang_code, text }),
            song_part: a.song_part,
        };
        with_line(
            LoadView {
                data: AssDataView {
                    detected_translation_language: first_language(
                        l.data.detected_translation_language,
                        a.lang_code,
                    ),
                    ..l.data
                },
                ..l
            },
            line,
        )
    }
}

/// `l` after the romanization of a main line.
pub open spec fn after_romanization(
    l: LoadView,
    line_num: nat,
    start: nat,
    end: nat,
    a: ActorView,
    text: Seq<char>,
) -> LoadView {
    if owner(l, l.last_main, start) is None {
        l
    } else {
        with_line(
            l,
            LineView {
                line_num,
                start,
                end,
                content: Some(ContentView::MainRomanization { text }),
                song_part: a.song_part,
            },
        )
    }
}

/// `c` with the translation of a background line.
pub open spec fn with_bg_translation(
    c: Option<ContentView>,
    lang_code: Option<Seq<char>>,
    text: Seq<char>,
) -> Option<ContentView> {
    match c {
        Some(ContentView::LyricLine { role, syllables, bg_translation, bg_romanization }) => Some(
            ContentView::LyricLine {
                role,
                syllables,
                bg_translation: Some((lang_code, text)),
                bg_romanization,
            },
        ),
        _ => c,
    }
}

/// `c` with the romanization of a background line.
pub open spec fn with_bg_romanization(c: Option<ContentView>, text: Seq<char>) -> Option<
    ContentView,
> {
    match c {
        Some(ContentView::LyricLine { role, syllables, bg_translation, bg_romanization }) => Some(
            ContentView::LyricLine {
                role,
                syllables,
                bg_translation,
                bg_romanization: Some(text),
            },
        ),
        _ => c,
    }
}

/// `l` with the content of line `i` replaced.
pub open spec fn with_content(l: LoadView, i: int, c: Option<ContentView>) -> LoadView {
    LoadView {
        data: AssDataView {
            lines: l.data.lines.update(i, LineView { content: c, ..l.data.lines[i] }),
            ..l.data
        },
        ..l
    }
}

/// `l` after the translation of a background line: attached to the background
/// line before it where that starts at the same time.
pub open spec fn after_bg_translation(
    l: LoadView,
    start: nat,
    a: ActorView,
    text: Seq<char>,
) -> LoadView {
    match owner(l, l.last_bg, start) {
        None => l,
        Some(i) => with_content(
            LoadView {
                data: AssDataView {
                    detected_translation_language: first_language(
                        l.data.detected_translation_language,
                        a.lang_code,
                    ),
                    ..l.data
                },
                ..l
            },
            i,
            with_bg_translation(l.data.lines[i].content, a.lang_code, text),
        ),
    }
}

/// `l` after the romanization of a background line.
pub open spec fn after_bg_romanization(l: LoadView, start: nat, text: Seq<char>) -> LoadView {
    match owner(l, l.last_bg, start) {
        None => l,
        Some(i) => with_content(l, i, with_bg_romanization(l.data.lines[i].content, text)),
    }
}

/// `l` after a lyric line: kept where it has a syllable. Its end is the one that
/// its karaoke tags give.
pub open spec fn after_lyric(
    l: LoadView,
    line_num: nat,
    start: nat,
    a: ActorView,
    k: KaraokeView,
) -> LoadView {
    if k.syllables.len() == 0 || a.role is None {
        l
    } else {
        let index = l.data.lines.len();
        let line = LineView {
            line_num,
            start,
            end: k.end,
            content: Some(
                ContentView::LyricLine {
                    role: a.role->0,
                    syllables: k.syllables,
                    bg_translation: None,
                    bg_romanization: None,
                },
            ),
            song_part: a.song_part,
        };
        let kept = with_line(l, line);
        if a.is_background {
            LoadView { last_bg: Some(index), ..kept }
        } else {
            LoadView { last_main: Some(index), ..kept }
        }
    }
}

/// `d` with a metadata entry that has been read.
pub open spec fn with_metadata(d: AssDataView, key: Seq<char>, value: Seq<char>) -> AssDataView {
    AssDataView {
        metadata: d.metadata.push((key, value)),
        language_code: if eq_ignore_case(key, "lang"@) && value.len() > 0 {
            Some(value)
        } else {
            d.language_code
        },
        agent_names: if (key == "v1"@ || key == "v2"@) && value.len() > 0 {
            with_pair(d.agent_names, key, value)
        } else {
            d.agent_names
        },
        apple_music_id: if key == "appleMusicId"@ {
            value
        } else {
            d.apple_music_id
        },
        songwriters: if key == "songwriter"@ && value.len() > 0 {
            d.songwriters.push(value)
        } else {
            d.songwriters
        },
        ..d
    }
}

/// `l` after a metadata line: a comment at time zero whose text is `key: value`.
pub open spec fn after_meta(l: LoadView, e: EventView, start: nat, end: nat) -> LoadView {
    let colon = next_of(e.text, seq![':'], 0);
    let key = trim(e.text.subrange(0, colon));
    if e.is_dialogue || start != 0 || end != 0 || colon >= e.text.len() || key.len() == 0 {
        l
    } else {
        let value = trim(e.text.subrange(colon + 1, e.text.len() as int));
        LoadView { data: with_metadata(l.data, key, value), ..l }
    }
}

/// `l` with a marker added where the line is one.
pub open spec fn after_marker(l: LoadView, line_num: nat, a: ActorView, text: Seq<char>) -> LoadView {
    if a.is_marker {
        LoadView {
            data: AssDataView { markers: l.data.markers.push((line_num, text)), ..l.data },
            ..l
        }
    } else {
        l
    }
}

/// `l` after an event whose times and actor have been read.
pub open spec fn after_read_event(
    l: LoadView,
    line_num: nat,
    e: EventView,
    start: nat,
    end: nat,
    a: ActorView,
) -> Result<LoadView, ErrorView> {
    let m = after_marker(l, line_num, a, e.text);
    if is_translation_style(e.style) {
        Ok(after_translation(m, line_num, start, end, a, e.text))
    } else if e.style == "bg-ts"@ {
        Ok(after_bg_translation(m, start, a, e.text))
    } else if e.style == "roma"@ {
        Ok(after_romanization(m, line_num, start, end, a, e.text))
    } else if e.style == "bg-roma"@ {
        Ok(after_bg_romanization(m, start, e.text))
    } else if is_lyric_style(e.style) {
        let k = karaoke(e.text, start, line_num);
        if !e.is_dialogue || a.role is None {
            Ok(m)
        } else if k.error is Some {
            Err(k.error->0)
        } else {
            Ok(after_lyric(m, line_num, start, a, k))
        }
    } else if e.style == "meta"@ {
        Ok(after_meta(m, e, start, end))
    } else {
        Ok(m)
    }
}

/// `l` after an event, given its style and effect in lower case.
pub open spec fn after_event(
    l: LoadView,
    line_num: nat,
    e: EventView,
    style_lower: Seq<char>,
    effect_lower: Seq<char>,
) -> Result<LoadView, ErrorView> {
    if is_left_out(style_lower, effect_lower) {
        Ok(l)
    } else {
        match ass_time(e.start, line_num) {
            Err(x) => Err(x),
            Ok(start) => match ass_time(e.end, line_num) {
                Err(x) => Err(x),
                Ok(end) => match actor(e.actor, e.style, line_num) {
                    Err(x) => Err(x),
                    Ok(a) => after_read_event(l, line_num, e, start, end, a),
                },
            },
        }
    }
}

/// Whether the times that an event has read fit in 64 bits.
pub open spec fn event_fits(
    line_num: nat,
    e: EventView,
    style_lower: Seq<char>,
    effect_lower: Seq<char>,
) -> bool {
    is_left_out(style_lower, effect_lower) || {
        &&& time_fits(e.start, line_num)
        &&& ass_time(e.start, line_num) is Ok ==> time_fits(e.end, line_num)
        &&& ass_time(e.start, line_num) is Ok && ass_time(e.end, line_num) is Ok && actor(
            e.actor,
            e.style,
            line_num,
        ) is Ok && is_lyric_style(e.style) && e.is_dialogue ==> karaoke_fits(
            e.text,
            ass_time(e.start, line_num)->Ok_0,
            line_num,
        )
    }
}

/// `l` after a line of the file. Lines that are not events say nothing.
pub open spec fn after_line(l: LoadView, line_num: nat, raw: Seq<char>) -> Result<
    LoadView,
    ErrorView,
> {
    match event_fields(trim(raw)) {
        None => Ok(l),
        Some(e) => after_event(l, line_num, e, lower_case(e.style), lower_case(e.effect)),
    }
}

/// Whether the times on a line fit in 64 bits.
pub open spec fn line_fits(line_num: nat, raw: Seq<char>) -> bool {
    match event_fields(trim(raw)) {
        None => true,
        Some(e) => event_fits(line_num, e, lower_case(e.style), lower_case(e.effect)),
    }
}

/// What the first `n` lines say; the first error ends the reading.
pub open spec fn load_lines(lines: Seq<Seq<char>>, n: nat) -> Result<LoadView, ErrorView>
    decreases n,
{
    if n == 0 {
        Ok(load_start())
    } else {
        match load_lines(lines, (n - 1) as nat) {
            Err(x) => Err(x),
            Ok(l) => after_line(l, n, lines[n - 1]),
        }
    }
}

/// The lines of a file.
pub open spec fn file_lines(content: Seq<char>) -> Seq<Seq<char>> {
    split_any(content, seq!['\n'])
}

/// What an ASS file says.
pub open spec fn load(content: Seq<char>) -> Result<AssDataView, ErrorView> {
    let lines = file_lines(content);
    match load_lines(lines, lines.len()) {
        Ok(l) => Ok(l.data),
        Err(x) => Err(x),
    }
}

/// Whether the times on every line that is read fit in 64 bits.
pub open spec fn load_fits(content: Seq<char>) -> bool {
    let lines = file_lines(content);
    forall|n: nat|
        n < lines.len() && (#[trigger] load_lines(lines, n)) is Ok ==> line_fits(
            n + 1,
            lines[n as int],
        )
}

/// Reads an ASS file event by event.
pub struct AssLoader {
    pub data: ProcessedAssData,
    pub last_main: Option<usize>,
    pub last_bg: Option<usize>,
}

/// The view of an optional index.
pub open spec fn index_view(o: Option<usize>) -> Option<nat> {
    match o {
        Some(i) => Some(i as nat),
        None => None,
    }
}

impl View for AssLoader {
    type V = LoadView;

    open spec fn view(&self) -> LoadView {
        LoadView {
            data: self.data@,
            last_main: index_view(self.last_main),
            last_bg: index_view(self.last_bg),
        }
    }
}

impl AssLoader {
    /// A loader that has read nothing.
    pub fn new() -> (r: AssLoader)
        ensures
            r@ == load_start(),
    {
        let r = AssLoader {
            data: ProcessedAssData {
                lines: Vec::new(),
                metadata: Vec::new(),
                markers: Vec::new(),
                apple_music_id: String::new(),
                songwriters: Vec::new(),
                language_code: None,
                agent_names: Vec::new(),
                detected_translation_language: None,
            },
            last_main: None,
            last_bg: None,
        };
        proof {
            assert(r@.data.lines =~= Seq::<LineView>::empty());
            assert(r@.data.metadata =~= load_start().data.metadata);
            assert(r@.data.markers =~= load_start().data.markers);
            assert(r@.data.songwriters =~= load_start().data.songwriters);
            assert(r@.data.agent_names =~= load_start().data.agent_names);
        }
        r
    }

    /// The line that a translation or romanization belongs to.
    fn owner_of(&self, index: Option<usize>, start: u64) -> (r: Option<usize>)
        ensures
            match r {
                Some(i) => owner(self@, index_view(index), start as nat) == Some(i as int) && i
                    < self.data.lines@.len(),
                None => owner(self@, index_view(index), start as nat) is None,
            },
    {
        match index {
            Some(i) => if i < self.data.lines.len() && self.data.lines[i].start_ms == start {
                proof {
                    assert(self@.data.lines[i as int] == self.data.lines@[i as int]@);
                }
                Some(i)
            } else {
                proof {
                    if i < self.data.lines@.len() {
                        assert(self@.data.lines[i as int] == self.data.lines@[i as int]@);
                    }
                }
                None
            },
            None => None,
        }
    }

    /// Adds a line.
    fn add_line(&mut self, line: AssLineInfo)
        ensures
            final(self)@ == with_line(old(self)@, line@),
    {
        let ghost before = self.data.lines@;
        self.data.lines.push(line);
        proof {
            assert(line_views(self.data.lines@) =~= line_views(before).push(line@));
        }
    }

    /// Notes the language of a translation.
    fn see_language(&mut self, lang: &Option<String>)
        ensures
            final(self)@ == (LoadView {
                data: AssDataView {
                    detected_translation_language: first_language(
                        old(self)@.data.detected_translation_language,
                        opt_view(*lang),
                    ),
                    ..old(self)@.data
                },
                ..old(self)@
            }),
            final(self).data.lines == old(self).data.lines,
    {
        if self.data.detected_translation_language.is_none() {
            match lang {
                Some(code) => if !code.as_str().is_empty() {
                    self.data.detected_translation_language = Some(code.clone());
                },
                None => {},
            }
        }
    }

    /// Reads a metadata line.
    fn read_meta(&mut self, e: &AssEvent, start: u64, end: u64)
        ensures
            final(self)@ == after_meta(old(self)@, e@, start as nat, end as nat),
    {
        if e.is_dialogue || start != 0 || end != 0 {
            return ;
        }
        let text = to_chars(e.text.as_str());
        let s = text.as_slice();
        let colon = find_char(s, ':', 0);
        if colon == s.len() {
            return ;
        }
        let key = trimmed(slice_subrange(s, 0, colon));
        if key.len() == 0 {
            return ;
        }
        let value = trimmed(slice_subrange(s, colon + 1, s.len()));
        let lang = to_chars("lang");
        if equal_ignoring_case(key, lang.as_slice()) && value.len() > 0 {
            self.data.language_code = Some(string_of(value));
        }
        if (chars_are(key, "v1") || chars_are(key, "v2")) && value.len() > 0 {
            set_pair(&mut self.data.agent_names, string_of(key), string_of(value));
        }
        if chars_are(key, "appleMusicId") {
            self.data.apple_music_id = string_of(value);
        }
        if chars_are(key, "songwriter") && value.len() > 0 {
            let ghost before = self.data.songwriters@;
            self.data.songwriters.push(string_of(value));
            proof {
                assert(views(self.data.songwriters@) =~= views(before).push(value@));
            }
        }
        let ghost before = self.data.metadata@;
        self.data.metadata.push(AssMetadata { key: string_of(key), value: string_of(value) });
        proof {
            assert(meta_views(self.data.metadata@) =~= meta_views(before).push((key@, value@)));
        }
    }

    /// Reads an event, given its style and effect in lower case. `None` exactly
    /// where a time does not fit in 64 bits; the loader is then of no use.
    pub fn read_event(
        &mut self,
        line_num: usize,
        e: &AssEvent,
        style_lower: &str,
        effect_lower: &str,
    ) -> (r: Option<Result<(), ConvertError>>)
        ensures
            match r {
                None => !event_fits(line_num as nat, e@, style_lower@, effect_lower@),
                Some(Ok(_)) => ({
                    &&& event_fits(line_num as nat, e@, style_lower@, effect_lower@)
                    &&& after_event(old(self)@, line_num as nat, e@, style_lower@, effect_lower@)
                        == Ok::<LoadView, ErrorView>(final(self)@)
                }),
                Some(Err(x)) => ({
                    &&& event_fits(line_num as nat, e@, style_lower@, effect_lower@)
                    &&& after_event(old(self)@, line_num as nat, e@, style_lower@, effect_lower@)
                        == Err::<LoadView, ErrorView>(x@)
                }),
            },
    {
        if content_style(style_lower) && !effect_lower.is_empty() && !str_eq(
            effect_lower,
            "karaoke",
        ) {
            return Some(Ok(()));
        }
        let start = match read_time(e.start.as_str(), line_num) {
            None => {
                return None;
            },
            Some(Err(x)) => {
                return Some(Err(x));
            },
            Some(Ok(t)) => t,
        };
        let end = match read_time(e.end.as_str(), line_num) {
            None => {
                return None;
            },
            Some(Err(x)) => {
                return Some(Err(x));
            },
            Some(Ok(t)) => t,
        };
        let a = match parse_actor(e.actor.as_str(), e.style.as_str(), line_num) {
            Err(x) => {
                return Some(Err(x));
            },
            Ok(a) => a,
        };
        self.read_timed_event(line_num, e, start, end, a)
    }

    /// Reads an event whose times and actor have been read.
    fn read_timed_event(
        &mut self,
        line_num: usize,
        e: &AssEvent,
        start: u64,
        end: u64,
        a: ParsedActor,
    ) -> (r: Option<Result<(), ConvertError>>)
        ensures
            match r {
                None => is_lyric_style(e.style@) && e.is_dialogue && !karaoke_fits(
                    e.text@,
                    start as nat,
                    line_num as nat,
                ),
                Some(Ok(_)) => ({
                    &&& is_lyric_style(e.style@) && e.is_dialogue && a.role is Some ==> karaoke_fits(
                        e.text@,
                        start as nat,
                        line_num as nat,
                    )
                    &&& after_read_event(
                        old(self)@,
                        line_num as nat,
                        e@,
                        start as nat,
                        end as nat,
                        a@,
                    ) == Ok::<LoadView, ErrorView>(final(self)@)
                }),
                Some(Err(x)) => ({
                    &&& is_lyric_style(e.style@) && e.is_dialogue && a.role is Some ==> karaoke_fits(
                        e.text@,
                        start as nat,
                        line_num as nat,
                    )
                    &&& after_read_event(
                        old(self)@,
                        line_num as nat,
                        e@,
                        start as nat,
                        end as nat,
                        a@,
                    ) == Err::<LoadView, ErrorView>(x@)
                }),
            },
    {
        proof {
            lemma_styles_differ();
        }
        let style = e.style.as_str();
        if a.is_marker {
            let ghost before = self.data.markers@;
            self.data.markers.push((line_num, e.text.clone()));
            proof {
                assert(marker_views(self.data.markers@) =~= marker_views(before).push(
                    (line_num as nat, e.text@),
                ));
            }
        }
        if str_eq(style, "ts") || str_eq(style, "trans") {
            if self.owner_of(self.last_main, start).is_some() {
                self.see_language(&a.lang_code);
                self.add_line(
                    AssLineInfo {
                        line_num,
                        start_ms: start,
                        end_ms: end,
                        content: Some(
                            AssLineContent::MainTranslation {
                                lang_code: a.lang_code,
                                text: e.text.clone(),
                            },
                        ),
                        song_part: a.song_part,
                    },
                );
            }
        } else if str_eq(style, "bg-ts") {
            match self.owner_of(self.last_bg, start) {
                Some(i) => {
                    self.see_language(&a.lang_code);
                    let ghost before = self.data.lines@;
                    match &mut self.data.lines[i].content {
                        Some(AssLineContent::LyricLine { bg_translation, .. }) => {
                            *bg_translation = Some((a.lang_code, e.text.clone()));
                        },
                        _ => {},
                    }
                    proof {
                        assert(line_views(self.data.lines@) =~= line_views(before).update(
                            i as int,
                            LineView {
                                content: with_bg_translation(
                                    before[i as int]@.content,
                                    a@.lang_code,
                                    e.text@,
                                ),
                                ..before[i as int]@
                            },
                        ));
                    }
                },
                None => {},
            }
        } else if str_eq(style, "roma") {
            if self.owner_of(self.last_main, start).is_some() {
                self.add_line(
                    AssLineInfo {
                        line_num,
                        start_ms: start,
                        end_ms: end,
                        content: Some(AssLineContent::MainRomanization { text: e.text.clone() }),
                        song_part: a.song_part,
                    },
                );
            }
        } else if str_eq(style, "bg-roma") {
            match self.owner_of(self.last_bg, start) {
                Some(i) => {
                    let ghost before = self.data.lines@;
                    match &mut self.data.lines[i].content {
                        Some(AssLineContent::LyricLine { bg_romanization, .. }) => {
                            *bg_romanization = Some(e.text.clone());
                        },
                        _ => {},
                    }
                    proof {
                        assert(line_views(self.data.lines@) =~= line_views(before).update(
                            i as int,
                            LineView {
                                content: with_bg_romanization(
                                    before[i as int]@.content,
                                    e.text@,
                                ),
                                ..before[i as int]@
                            },
                        ));
                    }
                },
                None => {},
            }
        } else if str_eq(style, "orig") || str_eq(style, "default") {
            if e.is_dialogue {
                match a.role {
                    Some(role) => {
                        let (syllables, line_end) = match read_karaoke(
                            e.text.as_str(),
                            start,
                            line_num,
                        ) {
                            None => {
                                return None;
                            },
                            Some(Err(x)) => {
                                return Some(Err(x));
                            },
                            Some(Ok(p)) => p,
                        };
                        if syllables.len() > 0 {
                            let index = self.data.lines.len();
                            let is_background = a.is_background;
                            self.add_line(
                                AssLineInfo {
                                    line_num,
                                    start_ms: start,
                                    end_ms: line_end,
                                    content: Some(
                                        AssLineContent::LyricLine {
                                            role,
                                            syllables,
                                            bg_translation: None,
                                            bg_romanization: None,
                                        },
                                    ),
                                    song_part: a.song_part,
                                },
                            );
                            if is_background {
                                self.last_bg = Some(index);
                            } else {
                                self.last_main = Some(index);
                            }
                        }
                    },
                    None => {},
                }
            }
        } else if str_eq(style, "meta") {
            self.read_meta(e, start, end);
        }
        Some(Ok(()))
    }
}

/// Whether this is the style of a line that an effect leaves out.
fn content_style(style: &str) -> (r: bool)
    ensures
        r == is_content_style(style@),
{
    str_eq(style, "orig") || str_eq(style, "default") || str_eq(style, "ts") || str_eq(
        style,
        "trans",
    ) || str_eq(style, "roma") || str_eq(style, "bg-ts") || str_eq(style, "bg-roma")
}

/// An error ends the reading: more lines change nothing.
proof fn lemma_load_stops(lines: Seq<Seq<char>>, n: nat, m: nat)
    requires
        n <= m <= lines.len(),
        load_lines(lines, n) is Err,
    ensures
        load_lines(lines, m) == load_lines(lines, n),
    decreases m,
{
    if n < m {
        lemma_load_stops(lines, n, (m - 1) as nat);
    }
}

/// Reads an ASS file; `None` where a time that is read does not fit in 64 bits.
fn read_file(ass_content: &str) -> (r: Option<Result<ProcessedAssData, ConvertError>>)
    ensures
        match r {
            None => !load_fits(ass_content@),
            Some(Ok(d)) => load_fits(ass_content@) && load(ass_content@) == Ok::<
                AssDataView,
                ErrorView,
            >(d@),
            Some(Err(e)) => load_fits(ass_content@) && load(ass_content@) == Err::<
                AssDataView,
                ErrorView,
            >(e@),
        },
{
    let content = to_chars(ass_content);
    let newline: [char; 1] = ['\n'];
    proof {
        assert(newline@ =~= seq!['\n']);
    }
    let raw_lines = split_at_any(content.as_slice(), &newline);
    let ghost lines = file_lines(ass_content@);
    let mut loader = AssLoader::new();
    let mut i: usize = 0;
    while i < raw_lines.len()
        invariant
            i <= raw_lines.len(),
            lines == file_lines(ass_content@),
            raw_lines@.len() == lines.len(),
            forall|k: int| 0 <= k < raw_lines@.len() ==> #[trigger] raw_lines@[k]@ == lines[k],
            load_lines(lines, i as nat) == Ok::<LoadView, ErrorView>(loader@),
            forall|n: nat|
                n < i && (#[trigger] load_lines(lines, n)) is Ok ==> line_fits(
                    n + 1,
                    lines[n as int],
                ),
        decreases raw_lines.len() - i,
    {
        let line = trimmed(raw_lines[i].as_slice());
        proof {
            assert(raw_lines@[i as int]@ == lines[i as int]);
        }
        match parse_event(line) {
            Some(e) => {
                let style_lower = lowercase(e.style.as_str());
                let effect_lower = lowercase(e.effect.as_str());
                match loader.read_event(i + 1, &e, style_lower.as_str(), effect_lower.as_str()) {
                    None => {
                        return None;
                    },
                    Some(Err(x)) => {
                        proof {
                            assert(load_lines(lines, (i + 1) as nat) == Err::<LoadView, ErrorView>(
                                x@,
                            ));
                            lemma_load_stops(lines, (i + 1) as nat, lines.len());
                            assert forall|n: nat|
                                n < lines.len() && (#[trigger] load_lines(
                                    lines,
                                    n,
                                )) is Ok implies line_fits(n + 1, lines[n as int]) by {
                                if n > i {
                                    lemma_load_stops(lines, (i + 1) as nat, n);
                                }
                            }
                        }
                        return Some(Err(x));
                    },
                    Some(Ok(_)) => {},
                }
            },
            None => {},
        }
        i += 1;
    }
    Some(Ok(loader.data))
}

/// Reads an ASS file: its lyric lines with their translations and
/// romanizations, its metadata and its markers.
pub fn load_and_process_ass_from_string(ass_content: &str) -> (r: Result<
    ProcessedAssData,
    ConvertError,
>)
    requires
        load_fits(ass_content@),
    ensures
        match r {
            Ok(d) => load(ass_content@) == Ok::<AssDataView, ErrorView>(d@),
            Err(e) => load(ass_content@) == Err::<AssDataView, ErrorView>(e@),
        },
{
    match read_file(ass_content) {
        Some(r) => r,
        None => Err(ConvertError::ParseInt(IntProblem::PosOverflow)),
    }
}

/// Reads an ASS file, or says that a time in it is too large: `None` exactly
/// where a time that is read does not fit in 64 bits.
pub fn checked_load_ass(ass_content: &str) -> (r: Option<Result<ProcessedAssData, ConvertError>>)
    ensures
        match r {
            None => !load_fits(ass_content@),
            Some(Ok(d)) => load_fits(ass_content@) && load(ass_content@) == Ok::<
                AssDataView,
                ErrorView,
            >(d@),
            Some(Err(e)) => load_fits(ass_content@) && load(ass_content@) == Err::<
                AssDataView,
                ErrorView,
            >(e@),
        },
{
    match read_file(ass_content) {
        Some(_) => Some(load_and_process_ass_from_string(ass_content)),
        None => None,
    }
}

/// The styles of lyric lines are none of the others.
proof fn lemma_styles_differ()
    ensures
        !is_lyric_style("ts"@) && !is_lyric_style("trans"@) && !is_lyric_style("bg-ts"@),
        !is_lyric_style("roma"@) && !is_lyric_style("bg-roma"@),
{
    reveal_strlit("orig");
    reveal_strlit("default");
    reveal_strlit("ts");
    reveal_strlit("trans");
    reveal_strlit("bg-ts");
    reveal_strlit("roma");
    reveal_strlit("bg-roma");
    assert("orig"@[0] == 'o' && "default"@[0] == 'd');
    assert("ts"@[0] == 't' && "trans"@[0] == 't' && "bg-ts"@[0] == 'b');
    assert("roma"@[0] == 'r' && "bg-roma"@[0] == 'b');
}

} // verus!
