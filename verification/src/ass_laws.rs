//! What holds between reading and writing ASS files.

use vstd::prelude::*;

use crate::ass_generator::{
    ass_time_text, can_round, centiseconds, duration_cs, karaoke_line, karaoke_prefix, minus,
    reached, space_if, syllable_cs, syllable_piece, tag, tag_if_any,
};
use crate::ass_parser::{
    after_piece, ass_time, digit_run, first_time, is_digit, karaoke, karaoke_from, lemma_next_tag,
    next_tag, tag_at, time_at, KaraokeView,
};
use crate::text::{
    all_ascii_digits, dec, dec2, is_ascii_digit, is_ws, lemma_dec, lemma_dec2, lemma_trim_end,
    parse_dec, trim_end,
};
use crate::types::{ErrorView, SyllableView};

verus! {

/// A run of digits in front of a colon ends at the colon.
pub proof fn lemma_run_of(s: Seq<char>, i: int, n: int)
    requires
        0 <= i <= n < s.len(),
        forall|k: int| i <= k < n ==> is_ascii_digit(#[trigger] s[k]),
        s[n] == ':' || s[n] == '}',
    ensures
        digit_run(s, i) == n,
    decreases n - i,
{
    if i < n {
        assert(is_digit(s[i]));
        lemma_run_of(s, i + 1, n);
    }
}

/// The shape of a time: hours, and two digits each for minutes, seconds and
/// centiseconds.
pub proof fn lemma_time_shape(h: Seq<char>, m: Seq<char>, sec: Seq<char>, c: Seq<char>)
    requires
        h.len() > 0,
        m.len() == 2,
        sec.len() == 2,
        c.len() == 2,
        all_ascii_digits(h),
        all_ascii_digits(m),
        all_ascii_digits(sec),
        all_ascii_digits(c),
    ensures
        ({
            let s = h + ":"@ + m + ":"@ + sec + "."@ + c;
            let n = h.len() as int;
            &&& s.len() == n + 9
            &&& s.subrange(0, n) == h
            &&& s.subrange(n + 1, n + 3) == m
            &&& s.subrange(n + 4, n + 6) == sec
            &&& s.subrange(n + 7, n + 9) == c
            &&& digit_run(s, 0) == n
            &&& time_at(s, 0)
        }),
{
    reveal_strlit(":");
    reveal_strlit(".");
    let s = h + ":"@ + m + ":"@ + sec + "."@ + c;
    let n = h.len() as int;
    assert(s.subrange(0, n) =~= h);
    assert(s.subrange(n + 1, n + 3) =~= m);
    assert(s.subrange(n + 4, n + 6) =~= sec);
    assert(s.subrange(n + 7, n + 9) =~= c);
    assert(s[n] == ':' && s[n + 3] == ':' && s[n + 6] == '.');
    assert forall|k: int| 0 <= k < n implies is_ascii_digit(#[trigger] s[k]) by {
        assert(s[k] == h[k]);
    }
    lemma_run_of(s, 0, n);
    assert(s[n + 1] == m[0] && s[n + 2] == m[1]);
    assert(s[n + 4] == sec[0] && s[n + 5] == sec[1]);
    assert(s[n + 7] == c[0] && s[n + 8] == c[1]);
}

/// Hours, minutes, seconds and centiseconds add up.
proof fn lemma_time_parts(cs: nat)
    ensures
        (cs / 360_000) * 3_600_000 + (cs / 6000 % 60) * 60_000 + (cs / 100 % 60) * 1000 + (cs % 100)
            * 10 == 10 * cs,
{
    assert(cs / 6000 / 60 == cs / 360_000);
    assert(cs / 100 / 60 == cs / 6000);
}

/// A written time reads as the time rounded to centiseconds.
pub proof fn law_time_round_trip(ms: nat, line_num: nat)
    requires
        can_round(ms),
    ensures
        ass_time(ass_time_text(ms), line_num) == Ok::<nat, ErrorView>(10 * centiseconds(ms)),
{
    let cs = centiseconds(ms);
    let h = cs / 360_000;
    let m = cs / 6000 % 60;
    let sec = cs / 100 % 60;
    let c = cs % 100;
    lemma_dec(h);
    lemma_dec2(m);
    lemma_dec2(sec);
    lemma_dec2(c);
    lemma_time_parts(cs);
    lemma_time_shape(dec(h), dec2(m), dec2(sec), dec2(c));
    assert(first_time(ass_time_text(ms), 0) == 0);
    assert(h <= cs && cs <= u64::MAX);
}

/// Rounding to centiseconds moves a time by five milliseconds at most.
pub proof fn law_rounding_is_close(ms: nat)
    ensures
        10 * centiseconds(ms) <= ms + 5,
        ms <= 10 * centiseconds(ms) + 4,
{
}

/// The syllables follow one another in time from `start` to `end`.
pub open spec fn in_order(syllables: Seq<SyllableView>, start: nat, end: nat) -> bool {
    &&& start <= end
    &&& forall|i: int|
        0 <= i < syllables.len() ==> start <= (#[trigger] syllables[i]).start <= syllables[i].end
            <= end
    &&& forall|i: int, j: int|
        0 <= i < j < syllables.len() ==> (#[trigger] syllables[i]).end <= (
        #[trigger] syllables[j]).start
}

/// Reading on keeps the syllables in order.
proof fn lemma_karaoke_in_order(
    s: Seq<char>,
    pos: int,
    cs: nat,
    k: KaraokeView,
    line_num: nat,
    start: nat,
)
    requires
        0 <= pos <= s.len(),
        in_order(k.syllables, start, k.end),
    ensures
        ({
            let r = karaoke_from(s, pos, cs, k, line_num);
            in_order(r.syllables, start, r.end)
        }),
    decreases s.len() - pos,
{
    let i = next_tag(s, pos);
    lemma_next_tag(s, pos);
    if i >= s.len() {
        lemma_piece_in_order(k, s.subrange(pos, s.len() as int), cs, start);
    } else {
        let j = digit_run(s, i + 3);
        let digits = s.subrange(i + 3, j);
        if parse_dec(digits, u32::MAX as nat) is Some {
            lemma_piece_in_order(k, s.subrange(pos, i), cs, start);
            lemma_karaoke_in_order(
                s,
                j + 1,
                parse_dec(digits, u32::MAX as nat)->0,
                after_piece(k, s.subrange(pos, i), cs),
                line_num,
                start,
            );
        }
    }
}

/// A piece keeps the syllables in order.
proof fn lemma_piece_in_order(k: KaraokeView, piece: Seq<char>, cs: nat, start: nat)
    requires
        in_order(k.syllables, start, k.end),
    ensures
        in_order(after_piece(k, piece, cs).syllables, start, after_piece(k, piece, cs).end),
{
    let a = after_piece(k, piece, cs);
    assert forall|i: int, j: int| 0 <= i < j < a.syllables.len() implies (
    #[trigger] a.syllables[i]).end <= (#[trigger] a.syllables[j]).start by {
        if j < k.syllables.len() {
            assert(k.syllables[i].end <= k.syllables[j].start);
        } else {
            assert(k.syllables[i].end <= k.end);
        }
    }
}

/// The syllables of a karaoke text do not overlap, come in the order of time,
/// and lie between the start of the line and its end.
pub proof fn law_karaoke_in_order(s: Seq<char>, start: nat, line_num: nat)
    ensures
        in_order(
            karaoke(s, start, line_num).syllables,
            start,
            karaoke(s, start, line_num).end,
        ),
{
    lemma_karaoke_in_order(
        s,
        0,
        0,
        KaraokeView { syllables: Seq::empty(), end: start, error: None },
        line_num,
        start,
    );
}

// ---------------------------------------------------------------------------
// Karaoke texts
// ---------------------------------------------------------------------------

/// Whether a syllable can be told apart in a karaoke text: it lasts, and its
/// text is not empty, does not end in white space and holds no brace that could
/// start a tag.
pub open spec fn is_plain(s: SyllableView) -> bool {
    &&& s.end > s.start
    &&& s.text.len() > 0
    &&& !is_ws(s.text.last())
    &&& forall|k: int| 0 <= k < s.text.len() ==> #[trigger] s.text[k] != '{'
}

/// Whether every syllable is plain.
pub open spec fn all_plain(syllables: Seq<SyllableView>) -> bool {
    forall|i: int| 0 <= i < syllables.len() ==> is_plain(#[trigger] syllables[i])
}

/// The centiseconds of the gap before syllable `i`.
pub open spec fn gap_cs(syllables: Seq<SyllableView>, i: int) -> nat {
    duration_cs(minus(syllables[i].start, reached(syllables, i)))
}

/// The time that the tags of the first `i` syllables lead to.
pub open spec fn written_end(syllables: Seq<SyllableView>, i: nat, start: nat) -> nat
    decreases i,
{
    if i == 0 {
        start
    } else {
        written_end(syllables, (i - 1) as nat, start) + 10 * gap_cs(syllables, i - 1) + 10
            * syllable_cs(syllables[i - 1])
    }
}

/// Syllable `i` with the times that the tags give it. The line's end is trimmed,
/// so the last syllable has no space behind it.
pub open spec fn written_syllable(syllables: Seq<SyllableView>, i: int, start: nat) -> SyllableView {
    SyllableView {
        text: syllables[i].text,
        start: written_end(syllables, i as nat, start) + 10 * gap_cs(syllables, i),
        end: written_end(syllables, (i + 1) as nat, start),
        space: syllables[i].space && i + 1 < syllables.len(),
    }
}

/// The first `n` syllables with the times that their tags give them.
pub open spec fn written(syllables: Seq<SyllableView>, n: nat, start: nat) -> Seq<SyllableView> {
    Seq::new(n, |i: int| written_syllable(syllables, i, start))
}

/// A syllable with the gap before it and without the space behind it.
spec fn bare_piece(syllables: Seq<SyllableView>, i: int) -> Seq<char> {
    tag_if_any(gap_cs(syllables, i)) + tag(syllable_cs(syllables[i])) + syllables[i].text
}

/// What is written from syllable `i` on.
spec fn rest(syllables: Seq<SyllableView>, i: nat) -> Seq<char>
    decreases syllables.len() - i,
{
    if i >= syllables.len() {
        Seq::empty()
    } else if i + 1 == syllables.len() {
        bare_piece(syllables, i as int)
    } else {
        bare_piece(syllables, i as int) + space_if(syllables[i as int].space) + rest(
            syllables,
            i + 1,
        )
    }
}

/// A plain syllable is written as its gap, its tag, its text and its space.
proof fn lemma_piece(syllables: Seq<SyllableView>, i: int)
    requires
        0 <= i < syllables.len(),
        all_plain(syllables),
    ensures
        syllable_piece(syllables[i], reached(syllables, i), false) == bare_piece(syllables, i)
            + space_if(syllables[i].space),
        syllable_cs(syllables[i]) > 0,
{
    assert(is_plain(syllables[i]));
}

/// A line is its first syllables and the rest.
proof fn lemma_prefix_and_rest(syllables: Seq<SyllableView>, i: nat)
    requires
        all_plain(syllables),
        i < syllables.len(),
    ensures
        karaoke_prefix(syllables, i, false) + rest(syllables, i) == karaoke_line(syllables, false),
    decreases syllables.len() - i,
{
    let n = syllables.len();
    let p = karaoke_prefix(syllables, i, false);
    let b = bare_piece(syllables, i as int);
    let sp = space_if(syllables[i as int].space);
    lemma_piece(syllables, i as int);
    assert(is_plain(syllables[i as int]));
    assert(karaoke_prefix(syllables, i + 1, false) == p + (b + sp));
    if i + 1 == n {
        let whole = p + (b + sp);
        let bare = p + b;
        assert(bare.last() == syllables[i as int].text.last());
        lemma_trim_end(bare);
        if syllables[i as int].space {
            reveal_strlit(" ");
            assert(whole.drop_last() =~= bare);
            assert(trim_end(whole) == trim_end(bare));
        } else {
            assert(whole =~= bare);
        }
        assert(trim_end(bare) == bare) by {
            assert(bare.subrange(0, bare.len() as int) =~= bare);
        }
    } else {
        lemma_prefix_and_rest(syllables, i + 1);
        assert(p + (b + sp + rest(syllables, i + 1)) =~= p + (b + sp) + rest(syllables, i + 1));
    }
}

/// Without an opening brace there is no tag.
proof fn lemma_no_tag(s: Seq<char>, a: int, b: int)
    requires
        0 <= a <= b <= s.len(),
        forall|k: int| a <= k < b ==> #[trigger] s[k] != '{',
    ensures
        next_tag(s, a) == next_tag(s, b),
    decreases b - a,
{
    if a < b {
        lemma_no_tag(s, a + 1, b);
    }
}

/// A tag that is written is found where it stands, and reads as its number.
proof fn lemma_written_tag(s: Seq<char>, i: int, cs: nat)
    requires
        0 <= i,
        i + tag(cs).len() <= s.len(),
        s.subrange(i, i + tag(cs).len()) == tag(cs),
        cs <= u32::MAX,
    ensures
        tag_at(s, i),
        next_tag(s, i) == i,
        digit_run(s, i + 3) == i + tag(cs).len() - 1,
        parse_dec(s.subrange(i + 3, digit_run(s, i + 3)), u32::MAX as nat) == Some(cs),
        tag(cs).len() > 4,
{
    reveal_strlit("{\\k");
    reveal_strlit("}");
    lemma_dec(cs);
    let t = tag(cs);
    let n = i + t.len() - 1;
    let sub = s.subrange(i, i + t.len());
    assert forall|k: int| i <= k < i + t.len() implies #[trigger] s[k] == t[k - i] by {
        assert(sub[k - i] == s[k]);
    }
    assert(t[0] == '{' && t[1] == '\\' && t[2] == 'k');
    assert(t[t.len() - 1] == '}');
    assert forall|k: int| i + 3 <= k < n implies is_ascii_digit(#[trigger] s[k]) by {
        assert(s[k] == t[k - i]);
        assert(t[k - i] == dec(cs)[k - i - 3]);
    }
    lemma_run_of(s, i + 3, n);
    assert(s.subrange(i + 3, n) =~= dec(cs));
}

/// Where a text goes on with `a` and then `b`.
proof fn lemma_goes_on(s: Seq<char>, pos: int, a: Seq<char>, b: Seq<char>)
    requires
        0 <= pos <= s.len(),
        s.subrange(pos, s.len() as int) == a + b,
    ensures
        pos + a.len() <= s.len(),
        s.subrange(pos, pos + a.len()) == a,
        s.subrange(pos + a.len(), s.len() as int) == b,
{
    let tail = s.subrange(pos, s.len() as int);
    assert(tail.len() == a.len() + b.len());
    assert(s.subrange(pos, pos + a.len()) =~= tail.subrange(0, a.len() as int));
    assert((a + b).subrange(0, a.len() as int) =~= a);
    assert(s.subrange(pos + a.len(), s.len() as int) =~= tail.subrange(
        a.len() as int,
        tail.len() as int,
    ));
    assert((a + b).subrange(a.len() as int, (a + b).len() as int) =~= b);
}

/// Reads a piece without braces and the tag behind it.
proof fn lemma_read_tag(
    s: Seq<char>,
    pos: int,
    piece: Seq<char>,
    c: nat,
    more: Seq<char>,
    cs: nat,
    k: KaraokeView,
    line_num: nat,
)
    requires
        0 <= pos <= s.len(),
        s.subrange(pos, s.len() as int) == piece + (tag(c) + more),
        forall|q: int| 0 <= q < piece.len() ==> #[trigger] piece[q] != '{',
        c <= u32::MAX,
    ensures
        karaoke_from(s, pos, cs, k, line_num) == karaoke_from(
            s,
            pos + piece.len() + tag(c).len(),
            c,
            after_piece(k, piece, cs),
            line_num,
        ),
        pos + piece.len() + tag(c).len() <= s.len(),
        s.subrange(pos + piece.len() + tag(c).len(), s.len() as int) == more,
{
    let at = pos + piece.len();
    lemma_goes_on(s, pos, piece, tag(c) + more);
    lemma_goes_on(s, at, tag(c), more);
    assert forall|q: int| pos <= q < at implies #[trigger] s[q] != '{' by {
        assert(s.subrange(pos, at)[q - pos] == s[q]);
        assert(piece[q - pos] == s[q]);
    }
    lemma_no_tag(s, pos, at);
    lemma_written_tag(s, at, c);
}

/// Reads the last piece.
proof fn lemma_read_last(s: Seq<char>, pos: int, cs: nat, k: KaraokeView, line_num: nat)
    requires
        0 <= pos <= s.len(),
        forall|q: int| pos <= q < s.len() ==> #[trigger] s[q] != '{',
    ensures
        karaoke_from(s, pos, cs, k, line_num) == after_piece(
            k,
            s.subrange(pos, s.len() as int),
            cs,
        ),
{
    lemma_no_tag(s, pos, s.len() as int);
}

/// What has been read when syllable `i` is about to be sung.
spec fn before_syllable(syllables: Seq<SyllableView>, i: nat, start: nat) -> KaraokeView {
    KaraokeView {
        syllables: written(syllables, i, start),
        end: written_end(syllables, i, start) + 10 * gap_cs(syllables, i as int),
        error: None,
    }
}

/// What has been read when the first `i` syllables have been sung.
spec fn after_syllables(syllables: Seq<SyllableView>, i: nat, start: nat) -> KaraokeView {
    KaraokeView {
        syllables: written(syllables, i, start),
        end: written_end(syllables, i, start),
        error: None,
    }
}

/// Reading the text of a syllable, with its space unless it is the last.
proof fn lemma_sing(syllables: Seq<SyllableView>, i: nat, start: nat, piece: Seq<char>)
    requires
        i < syllables.len(),
        is_plain(syllables[i as int]),
        piece == if i + 1 == syllables.len() {
            syllables[i as int].text
        } else {
            syllables[i as int].text + space_if(syllables[i as int].space)
        },
    ensures
        after_piece(
            before_syllable(syllables, i, start),
            piece,
            syllable_cs(syllables[i as int]),
        ) == after_syllables(syllables, i + 1, start),
        forall|q: int| 0 <= q < piece.len() ==> #[trigger] piece[q] != '{',
{
    reveal_strlit(" ");
    let cur = syllables[i as int];
    let cs = syllable_cs(cur);
    lemma_trim_end(cur.text);
    assert(cur.text.subrange(0, cur.text.len() as int) =~= cur.text);
    assert(trim_end(cur.text) == cur.text);
    let spaced = i + 1 < syllables.len() && cur.space;
    if spaced {
        assert(piece.drop_last() =~= cur.text);
        assert(trim_end(piece) == trim_end(cur.text));
    } else {
        assert(piece =~= cur.text);
    }
    assert(is_ws(piece.last()) == spaced);
    let k = before_syllable(syllables, i, start);
    let done = after_piece(k, piece, cs);
    assert(done.syllables =~= written(syllables, i + 1, start)) by {
        assert(done.syllables.last() == written_syllable(syllables, i as int, start));
    }
    assert forall|q: int| 0 <= q < piece.len() implies #[trigger] piece[q] != '{' by {
        if q < cur.text.len() {
            assert(piece[q] == cur.text[q]);
        }
    }
}

/// What follows the tag of syllable `i`.
spec fn after_tag(syllables: Seq<SyllableView>, i: nat) -> Seq<char> {
    if i + 1 == syllables.len() {
        syllables[i as int].text
    } else {
        syllables[i as int].text + space_if(syllables[i as int].space) + rest(syllables, i + 1)
    }
}

/// What is written from syllable `i` on starts with its gap and its tag.
proof fn lemma_rest(syllables: Seq<SyllableView>, i: nat)
    requires
        i < syllables.len(),
    ensures
        rest(syllables, i) == tag_if_any(gap_cs(syllables, i as int)) + (tag(
            syllable_cs(syllables[i as int]),
        ) + after_tag(syllables, i)),
{
    let a = tag_if_any(gap_cs(syllables, i as int));
    let b = tag(syllable_cs(syllables[i as int]));
    let c = syllables[i as int].text;
    if i + 1 == syllables.len() {
        assert(a + b + c =~= a + (b + c));
    } else {
        let d = space_if(syllables[i as int].space);
        let e = rest(syllables, i + 1);
        assert(a + b + c + d + e =~= a + (b + (c + d + e)));
    }
}

/// A pause of `c` centiseconds.
proof fn lemma_pause(k: KaraokeView, c: nat)
    requires
        k.error is None,
    ensures
        after_piece(k, Seq::empty(), c) == (KaraokeView { end: k.end + 10 * c, ..k }),
{
    assert(trim_end(Seq::<char>::empty()).len() == 0);
}

/// `s` read from the text of syllable `i` on, where what stands before it has
/// been read.
proof fn lemma_read_from(
    s: Seq<char>,
    syllables: Seq<SyllableView>,
    i: nat,
    pos: int,
    start: nat,
    line_num: nat,
)
    requires
        i < syllables.len(),
        all_plain(syllables),
        0 <= pos <= s.len(),
        s.subrange(pos, s.len() as int) == after_tag(syllables, i),
    ensures
        karaoke_from(
            s,
            pos,
            syllable_cs(syllables[i as int]),
            before_syllable(syllables, i, start),
            line_num,
        ) == after_syllables(syllables, syllables.len(), start),
    decreases syllables.len() - i,
{
    let cur = syllables[i as int];
    let cs = syllable_cs(cur);
    let k = before_syllable(syllables, i, start);
    assert(is_plain(cur));
    if i + 1 == syllables.len() {
        let piece = cur.text;
        lemma_sing(syllables, i, start, piece);
        assert forall|q: int| pos <= q < s.len() implies #[trigger] s[q] != '{' by {
            assert(s[q] == s.subrange(pos, s.len() as int)[q - pos]);
            assert(s[q] == piece[q - pos]);
        }
        lemma_read_last(s, pos, cs, k, line_num);
    } else {
        let piece = cur.text + space_if(cur.space);
        lemma_sing(syllables, i, start, piece);
        lemma_rest(syllables, i + 1);
        assert(is_plain(syllables[i as int + 1]));
        let k1 = after_syllables(syllables, i + 1, start);
        let gap = gap_cs(syllables, i as int + 1);
        let next_cs = syllable_cs(syllables[i as int + 1]);
        let more = after_tag(syllables, i + 1);
        lemma_pause(k1, gap);
        assert(before_syllable(syllables, i + 1, start) == (KaraokeView {
            end: k1.end + 10 * gap,
            ..k1
        }));
        if gap > 0 {
            lemma_read_tag(s, pos, piece, gap, tag(next_cs) + more, cs, k, line_num);
            let at = pos + piece.len() + tag(gap).len();
            assert(Seq::<char>::empty() + (tag(next_cs) + more) =~= tag(next_cs) + more);
            lemma_read_tag(s, at, Seq::empty(), next_cs, more, gap, k1, line_num);
            lemma_read_from(s, syllables, i + 1, at + tag(next_cs).len(), start, line_num);
        } else {
            assert(Seq::<char>::empty() + (tag(next_cs) + more) =~= tag(next_cs) + more);
            lemma_read_tag(s, pos, piece, next_cs, more, cs, k, line_num);
            lemma_read_from(
                s,
                syllables,
                i + 1,
                pos + piece.len() + tag(next_cs).len(),
                start,
                line_num,
            );
        }
    }
}

/// A written line of plain syllables reads as those syllables, with the times
/// that their durations and gaps give when they are rounded to centiseconds.
pub proof fn law_karaoke_round_trip(syllables: Seq<SyllableView>, start: nat, line_num: nat)
    requires
        all_plain(syllables),
        syllables.len() > 0,
    ensures
        karaoke(karaoke_line(syllables, false), start, line_num) == (KaraokeView {
            syllables: written(syllables, syllables.len(), start),
            end: written_end(syllables, syllables.len(), start),
            error: None,
        }),
{
    let s = karaoke_line(syllables, false);
    lemma_prefix_and_rest(syllables, 0);
    assert(s =~= rest(syllables, 0));
    lemma_rest(syllables, 0);
    assert(is_plain(syllables[0]));
    assert(gap_cs(syllables, 0) == 0);
    let cs = syllable_cs(syllables[0]);
    let more = after_tag(syllables, 0);
    let k0 = KaraokeView { syllables: Seq::<SyllableView>::empty(), end: start, error: None };
    assert(s.subrange(0, s.len() as int) =~= s);
    assert(s.subrange(0, s.len() as int) == Seq::<char>::empty() + (tag(cs) + more));
    lemma_read_tag(s, 0, Seq::empty(), cs, more, 0, k0, line_num);
    lemma_pause(k0, 0);
    assert(written(syllables, 0, start) =~= Seq::<SyllableView>::empty());
    assert(before_syllable(syllables, 0, start) == k0);
    lemma_read_from(s, syllables, 0, tag(cs).len() as int, start, line_num);
}

/// Rounding leaves whole centiseconds as they are.
proof fn lemma_whole(ms: nat)
    requires
        ms % 10 == 0,
        ms < 10 * 0x1_0000_0000,
    ensures
        10 * duration_cs(ms) == ms,
{
}

/// Whether every time is a whole number of centiseconds, the syllables do not
/// overlap, and no duration or gap is as long as 2^32 centiseconds.
pub open spec fn is_exact(syllables: Seq<SyllableView>) -> bool {
    &&& syllables.len() > 0
    &&& forall|i: int|
        0 <= i < syllables.len() ==> (#[trigger] syllables[i]).start % 10 == 0 && syllables[i].end
            % 10 == 0 && syllables[i].start < syllables[i].end < 10 * 0x1_0000_0000
    &&& forall|i: int, j: int|
        0 <= i < j < syllables.len() ==> (#[trigger] syllables[i]).end <= (
        #[trigger] syllables[j]).start
}

/// The syllables without a space behind the last.
pub open spec fn without_last_space(syllables: Seq<SyllableView>) -> Seq<SyllableView> {
    syllables.update(
        syllables.len() - 1,
        SyllableView { space: false, ..syllables[syllables.len() - 1] },
    )
}

/// The gap and the duration of an exact syllable are written as they are.
proof fn lemma_exact_durations(syllables: Seq<SyllableView>, i: int)
    requires
        is_exact(syllables),
        0 <= i < syllables.len(),
    ensures
        10 * gap_cs(syllables, i) == syllables[i].start - reached(syllables, i),
        10 * syllable_cs(syllables[i]) == syllables[i].end - syllables[i].start,
        reached(syllables, i) == if i == 0 {
            syllables[0].start
        } else {
            syllables[i - 1].end
        },
{
    let cur = syllables[i];
    let before = reached(syllables, i);
    assert(before % 10 == 0 && before <= cur.start) by {
        if i > 0 {
            assert(syllables[i - 1].end <= cur.start);
        }
    }
    assert(cur.start % 10 == 0 && cur.end % 10 == 0);
    let gap = (cur.start - before) as nat;
    let own = (cur.end - cur.start) as nat;
    assert(gap % 10 == 0 && own % 10 == 0);
    lemma_whole(gap);
    lemma_whole(own);
}

/// Tags lead to the times that exact syllables have.
proof fn lemma_exact_times(syllables: Seq<SyllableView>, i: nat)
    requires
        is_exact(syllables),
        i < syllables.len(),
    ensures
        written_end(syllables, i, syllables[0].start) + 10 * gap_cs(syllables, i as int)
            == syllables[i as int].start,
        written_end(syllables, i + 1, syllables[0].start) == syllables[i as int].end,
    decreases i,
{
    let start = syllables[0].start;
    let gap = 10 * gap_cs(syllables, i as int);
    let own = 10 * syllable_cs(syllables[i as int]);
    lemma_exact_durations(syllables, i as int);
    if i > 0 {
        lemma_exact_times(syllables, (i - 1) as nat);
    }
    assert(written_end(syllables, i, start) == reached(syllables, i as int));
    assert(written_end(syllables, i + 1, start) == written_end(syllables, i, start) + gap + own);
}

/// A written line of plain syllables with exact times reads as the very same
/// syllables; only a space behind the last is lost.
pub proof fn law_karaoke_exact(syllables: Seq<SyllableView>, line_num: nat)
    requires
        all_plain(syllables),
        is_exact(syllables),
    ensures
        karaoke(karaoke_line(syllables, false), syllables[0].start, line_num) == (KaraokeView {
            syllables: without_last_space(syllables),
            end: syllables.last().end,
            error: None,
        }),
{
    let start = syllables[0].start;
    law_karaoke_round_trip(syllables, start, line_num);
    let w = written(syllables, syllables.len(), start);
    let kept = without_last_space(syllables);
    assert forall|i: int| 0 <= i < syllables.len() implies w[i] == #[trigger] kept[i] by {
        lemma_exact_times(syllables, i as nat);
    }
    assert(w =~= kept);
    lemma_exact_times(syllables, (syllables.len() - 1) as nat);
}

} // verus!
