//! What holds between writing a whole ASS file and reading it.

use vstd::prelude::*;

use crate::ass_event_laws::{
    follows_background, follows_main, is_field, is_language, is_voice, language_field,
    language_read, law_background_romanization_round_trip, law_background_translation_round_trip,
    law_event_round_trip, law_romanization_round_trip, law_sung_line_exact,
    law_sung_line_round_trip, law_translation_round_trip, lemma_language, lemma_no_words,
    lemma_singer, lemma_trim_front, lemma_trim_line, lemma_trim_newline, reads_as, role_of,
    with_background_romanization, with_background_translation, with_romanization, with_sung,
    with_translation,
};
use crate::ass_generator::{
    actor_name, ass_file, ass_time_text, background_lines, bare_bg_text, can_round, centiseconds,
    dialogue, duration_cs, events, has_texts, karaoke_line, karaoke_prefix, minus, paragraph_lines,
    reached, romanization_line, space_if, sung_line, syllable_cs, syllable_piece, tag_if_any,
    translation_line, ASS_HEADER,
};
use crate::ass_laws::{
    all_plain, is_exact, law_karaoke_exact, law_karaoke_round_trip, law_time_round_trip,
    without_last_space, written, written_end,
};
use crate::ass_parser::{
    after_line, event_fields, file_lines, is_lyric_style, karaoke_fits, line_fits, load, load_fits,
    load_lines, load_start, LoadView,
};
use crate::text::{
    ascii_lower_seq, dec, dec2, is_ascii_digit, is_ascii_text, is_ws, lemma_assoc, lemma_dec,
    lemma_dec2, lemma_next_of, lemma_trim_end, lemma_trim_start, lower_case, next_of, stands_at,
    trim, trim_end, trim_start,
};
use crate::types::{
    AssDataView, BackgroundView, ContentView, ErrorView, LineView, ParagraphView, SyllableView,
};

verus! {

/// Whether a text holds no line break.
pub open spec fn one_line(s: Seq<char>) -> bool {
    forall|k: int| 0 <= k < s.len() ==> #[trigger] s[k] != '\n'
}

/// Texts without a line break have none when they are joined.
proof fn lemma_one_line(a: Seq<char>, b: Seq<char>)
    requires
        one_line(a),
        one_line(b),
    ensures
        one_line(a + b),
{
    let s = a + b;
    assert forall|k: int| 0 <= k < s.len() implies #[trigger] s[k] != '\n' by {
        if k < a.len() {
            assert(s[k] == a[k]);
        } else {
            assert(s[k] == b[k - a.len()]);
        }
    }
}

/// The first line break of a line that is followed by one.
proof fn lemma_first_break(s: Seq<char>, rest: Seq<char>, i: int)
    requires
        one_line(s),
        0 <= i <= s.len(),
    ensures
        next_of(s + "\n"@ + rest, seq!['\n'], i) == s.len(),
    decreases s.len() - i,
{
    reveal_strlit("\n");
    let t = s + "\n"@ + rest;
    let ds = seq!['\n'];
    if i == s.len() {
        assert(t[i] == '\n');
        assert(ds[0] == t[i]);
        assert(ds.contains(t[i]));
    } else {
        assert(t[i] == s[i]);
        assert(!ds.contains(t[i]));
        lemma_first_break(s, rest, i + 1);
    }
}

/// A line and what follows its line break.
proof fn lemma_split_line(s: Seq<char>, rest: Seq<char>)
    requires
        one_line(s),
    ensures
        file_lines(s + "\n"@ + rest) == seq![s] + file_lines(rest),
{
    reveal_strlit("\n");
    let t = s + "\n"@ + rest;
    lemma_first_break(s, rest, 0);
    assert(t.subrange(0, s.len() as int) =~= s);
    assert(t.subrange(s.len() as int + 1, t.len() as int) =~= rest);
}

/// Lines that end in a line break, and what follows them.
proof fn lemma_split_lines(a: Seq<char>, b: Seq<char>)
    requires
        a.len() > 0,
        a.last() == '\n',
    ensures
        file_lines(a + b) == file_lines(a).drop_last() + file_lines(b),
        file_lines(a).last() == Seq::<char>::empty(),
    decreases a.len(),
{
    reveal_strlit("\n");
    let ds = seq!['\n'];
    lemma_next_of(a, ds, 0);
    let i = next_of(a, ds, 0);
    assert(ds[0] == a.last());
    assert(i < a.len()) by {
        if i >= a.len() {
            assert(ds.contains(a[a.len() - 1]));
        }
    }
    assert(ds.contains(a[i]));
    assert(a[i] == '\n');
    let line = a.subrange(0, i);
    let rest = a.subrange(i + 1, a.len() as int);
    assert forall|k: int| 0 <= k < line.len() implies #[trigger] line[k] != '\n' by {
        assert(line[k] == a[k]);
        assert(!ds.contains(a[k]));
        if a[k] == '\n' {
            assert(ds[0] == a[k]);
        }
    }
    assert(a =~= line + "\n"@ + rest);
    assert(a + b =~= line + "\n"@ + (rest + b));
    lemma_split_line(line, rest);
    lemma_split_line(line, rest + b);
    if rest.len() > 0 {
        lemma_split_lines(rest, b);
        assert((seq![line] + file_lines(rest)).drop_last() =~= seq![line] + file_lines(
            rest,
        ).drop_last());
        assert(seq![line] + (file_lines(rest).drop_last() + file_lines(b)) =~= (seq![line]
            + file_lines(rest).drop_last()) + file_lines(b));
        assert((seq![line] + file_lines(rest)).last() == file_lines(rest).last());
    } else {
        assert(rest =~= Seq::<char>::empty());
        assert(next_of(rest, ds, 0) == 0);
        assert(file_lines(rest) =~= seq![rest]);
        assert(rest + b =~= b);
        assert((seq![line] + seq![rest]).drop_last() =~= seq![line]);
    }
}

/// What the first lines say does not depend on those behind them.
proof fn lemma_load_prefix(a: Seq<Seq<char>>, b: Seq<Seq<char>>, n: nat)
    requires
        n <= a.len(),
        n <= b.len(),
        a.subrange(0, n as int) == b.subrange(0, n as int),
    ensures
        load_lines(a, n) == load_lines(b, n),
    decreases n,
{
    if n > 0 {
        assert(a.subrange(0, n - 1) =~= a.subrange(0, n as int).subrange(0, n - 1));
        assert(b.subrange(0, n - 1) =~= b.subrange(0, n as int).subrange(0, n - 1));
        lemma_load_prefix(a, b, (n - 1) as nat);
        assert(a[n - 1] == a.subrange(0, n as int)[n - 1]);
        assert(b[n - 1] == b.subrange(0, n as int)[n - 1]);
    }
}

/// A blank line says nothing.
proof fn lemma_blank_line(l: LoadView, line_num: nat)
    ensures
        after_line(l, line_num, Seq::empty()) == Ok::<LoadView, ErrorView>(l),
{
    lemma_blank_event();
}

/// A decimal number is on one line.
proof fn lemma_dec_one_line(n: nat)
    ensures
        one_line(dec(n)),
        n < 100 ==> one_line(dec2(n)),
{
    lemma_dec(n);
    assert forall|k: int| 0 <= k < dec(n).len() implies #[trigger] dec(n)[k] != '\n' by {
        assert(is_ascii_digit(dec(n)[k]));
    }
    if n < 100 {
        lemma_dec2(n);
        assert forall|k: int| 0 <= k < dec2(n).len() implies #[trigger] dec2(n)[k] != '\n' by {
            assert(is_ascii_digit(dec2(n)[k]));
        }
    }
}

/// A written time is on one line.
proof fn lemma_time_one_line(ms: nat)
    ensures
        one_line(ass_time_text(ms)),
{
    reveal_strlit(":");
    reveal_strlit(".");
    let cs = centiseconds(ms);
    let a = dec(cs / 360_000);
    let b = dec2(cs / 6000 % 60);
    let c = dec2(cs / 100 % 60);
    let d = dec2(cs % 100);
    lemma_dec_one_line(cs / 360_000);
    lemma_dec_one_line(cs / 6000 % 60);
    lemma_dec_one_line(cs / 100 % 60);
    lemma_dec_one_line(cs % 100);
    lemma_one_line(a, ":"@);
    lemma_one_line(a + ":"@, b);
    lemma_one_line(a + ":"@ + b, ":"@);
    lemma_one_line(a + ":"@ + b + ":"@, c);
    lemma_one_line(a + ":"@ + b + ":"@ + c, "."@);
    lemma_one_line(a + ":"@ + b + ":"@ + c + "."@, d);
}

/// A karaoke tag is on one line.
proof fn lemma_tag_one_line(cs: nat)
    ensures
        one_line(tag_if_any(cs)),
{
    reveal_strlit("{\\k");
    reveal_strlit("}");
    lemma_dec_one_line(cs);
    lemma_one_line("{\\k"@, dec(cs));
    lemma_one_line("{\\k"@ + dec(cs), "}"@);
}

/// Syllables on one line are written on one line.
proof fn lemma_karaoke_one_line(syllables: Seq<SyllableView>, n: nat)
    requires
        n <= syllables.len(),
        forall|i: int| 0 <= i < syllables.len() ==> one_line((#[trigger] syllables[i]).text),
    ensures
        one_line(karaoke_prefix(syllables, n, false)),
    decreases n,
{
    if n > 0 {
        reveal_strlit(" ");
        lemma_karaoke_one_line(syllables, (n - 1) as nat);
        let s = syllables[n - 1];
        let gap = tag_if_any(duration_cs(minus(s.start, reached(syllables, n - 1))));
        let own = tag_if_any(syllable_cs(s));
        lemma_tag_one_line(duration_cs(minus(s.start, reached(syllables, n - 1))));
        lemma_tag_one_line(syllable_cs(s));
        lemma_one_line(gap, own);
        lemma_one_line(gap + own, s.text);
        lemma_one_line(gap + own + s.text, space_if(s.space));
        lemma_one_line(
            karaoke_prefix(syllables, (n - 1) as nat, false),
            syllable_piece(s, reached(syllables, n - 1), false),
        );
    }
}

/// An event line without its line break.
pub open spec fn event_line(
    start: nat,
    end: nat,
    style: Seq<char>,
    actor: Seq<char>,
    text: Seq<char>,
) -> Seq<char> {
    "Dialogue: 0,"@ + ass_time_text(start) + ","@ + ass_time_text(end) + ","@ + style + ","@ + actor
        + ",0,0,0,,"@ + text
}

/// An event line is on one line where its fields are, and starts with its kind.
proof fn lemma_event_one_line(
    start: nat,
    end: nat,
    style: Seq<char>,
    actor: Seq<char>,
    text: Seq<char>,
)
    requires
        one_line(style),
        one_line(actor),
        one_line(text),
    ensures
        one_line(event_line(start, end, style, actor, text)),
        event_line(start, end, style, actor, text).len() > 0,
        event_line(start, end, style, actor, text)[0] == 'D',
        dialogue(start, end, style, actor, text) == event_line(start, end, style, actor, text)
            + "\n"@,
{
    reveal_strlit("Dialogue: 0,");
    reveal_strlit(",");
    reveal_strlit(",0,0,0,,");
    lemma_time_one_line(start);
    lemma_time_one_line(end);
    let a = ass_time_text(start);
    let b = ass_time_text(end);
    let s1 = "Dialogue: 0,"@ + a;
    let s2 = s1 + ","@;
    let s3 = s2 + b;
    let s4 = s3 + ","@;
    let s5 = s4 + style;
    let s6 = s5 + ","@;
    let s7 = s6 + actor;
    let s8 = s7 + ",0,0,0,,"@;
    lemma_one_line("Dialogue: 0,"@, a);
    lemma_one_line(s1, ","@);
    lemma_one_line(s2, b);
    lemma_one_line(s3, ","@);
    lemma_one_line(s4, style);
    lemma_one_line(s5, ","@);
    lemma_one_line(s6, actor);
    lemma_one_line(s7, ",0,0,0,,"@);
    lemma_one_line(s8, text);
}

/// A translation with its language, where there is one.
pub type TranslationView = Option<(Seq<char>, Option<Seq<char>>)>;

/// Whether a translation, if there is one, is on one line without white space at
/// its end, and in a language that can be named.
pub open spec fn translation_fits(t: TranslationView) -> bool {
    match t {
        Some((text, lang)) => {
            &&& one_line(text)
            &&& trim_end(text) == text
            &&& lang is Some ==> is_language(lang->0)
        },
        None => true,
    }
}

/// Whether a romanization, if there is one, is on one line without white space at
/// its end.
pub open spec fn romanization_fits(t: Option<Seq<char>>) -> bool {
    match t {
        Some(text) => one_line(text) && trim_end(text) == text,
        None => true,
    }
}

/// Whether syllables are written as a line that reads back: they are plain and
/// without line breaks.
pub open spec fn sung_fits(syllables: Seq<SyllableView>) -> bool {
    &&& syllables.len() > 0
    &&& all_plain(syllables)
    &&& forall|i: int| 0 <= i < syllables.len() ==> one_line((#[trigger] syllables[i]).text)
    &&& can_round(syllables[0].start)
    &&& can_round(syllables.last().end)
}

/// Whether what a voice sings from `start` to `end`, with its translation and
/// romanization, is written as lines that read back. Where there is a translation
/// or romanization, `start` is the start of the first syllable.
pub open spec fn voice_fits(
    syllables: Seq<SyllableView>,
    start: nat,
    end: nat,
    translation: TranslationView,
    romanization: Option<Seq<char>>,
) -> bool {
    &&& sung_fits(syllables)
    &&& translation_fits(translation)
    &&& romanization_fits(romanization)
    &&& has_texts(translation, romanization) ==> can_round(start) && can_round(end)
        && centiseconds(start) == centiseconds(syllables[0].start)
}

/// The syllables of a background voice as they are written: without the
/// parentheses round their texts.
pub open spec fn bare_syllables(syllables: Seq<SyllableView>) -> Seq<SyllableView> {
    Seq::new(
        syllables.len(),
        |i: int| SyllableView { text: bare_bg_text(syllables[i].text), ..syllables[i] },
    )
}

/// Whether a paragraph is written as lines that read back: the main voice is one
/// of the three known singers, and what it and the background voice sing fits.
pub open spec fn reads_back(p: ParagraphView) -> bool {
    let singer = actor_name(p.agent);
    &&& singer == "v1"@ || singer == "v2"@ || singer == "v1000"@
    &&& voice_fits(p.syllables, p.start, p.end, p.translation, p.romanization)
    &&& match p.background {
        Some(b) => voice_fits(
            bare_syllables(b.syllables),
            b.start,
            b.end,
            b.translation,
            b.romanization,
        ),
        None => true,
    }
}

/// Whether every paragraph is written as lines that read back.
pub open spec fn all_read_back(ps: Seq<ParagraphView>) -> bool {
    forall|i: int| 0 <= i < ps.len() ==> reads_back(#[trigger] ps[i])
}

/// The number of lines of a translation.
pub open spec fn translation_count(t: TranslationView) -> nat {
    if t is Some && (t->0).0.len() > 0 {
        1
    } else {
        0
    }
}

/// The number of lines of a romanization.
pub open spec fn romanization_count(t: Option<Seq<char>>) -> nat {
    if t is Some && t->0.len() > 0 {
        1
    } else {
        0
    }
}

/// The number of lines of a background voice.
pub open spec fn background_count(b: Option<BackgroundView>) -> nat {
    match b {
        Some(x) => 1 + translation_count(x.translation) + romanization_count(x.romanization),
        None => 0,
    }
}

/// The number of lines of a paragraph.
pub open spec fn line_count(p: ParagraphView) -> nat {
    1 + background_count(p.background) + translation_count(p.translation) + romanization_count(
        p.romanization,
    )
}

/// The number of lines of the first `n` paragraphs.
pub open spec fn line_counts(ps: Seq<ParagraphView>, n: nat) -> nat
    decreases n,
{
    if n == 0 {
        0
    } else {
        line_counts(ps, (n - 1) as nat) + line_count(ps[n - 1])
    }
}

/// What is known after the line of what a voice sings, with the times that
/// rounding to centiseconds gives.
pub open spec fn after_sung(
    l: LoadView,
    line_num: nat,
    syllables: Seq<SyllableView>,
    singer: Seq<char>,
) -> LoadView {
    let start = 10 * centiseconds(syllables[0].start);
    with_sung(
        l,
        line_num,
        start,
        written_end(syllables, syllables.len(), start),
        role_of(singer),
        written(syllables, syllables.len(), start),
    )
}

/// What is known after a translation, if there is one.
pub open spec fn after_translated(
    l: LoadView,
    line_num: nat,
    start: nat,
    end: nat,
    t: TranslationView,
) -> LoadView {
    if translation_count(t) == 1 {
        with_translation(
            l,
            line_num,
            10 * centiseconds(start),
            10 * centiseconds(end),
            language_read((t->0).1),
            (t->0).0,
        )
    } else {
        l
    }
}

/// What is known after a romanization, if there is one.
pub open spec fn after_romanized(
    l: LoadView,
    line_num: nat,
    start: nat,
    end: nat,
    t: Option<Seq<char>>,
) -> LoadView {
    if romanization_count(t) == 1 {
        with_romanization(l, line_num, 10 * centiseconds(start), 10 * centiseconds(end), t->0)
    } else {
        l
    }
}

/// What is known after the translation of a background voice, if there is one.
pub open spec fn after_bg_translated(l: LoadView, t: TranslationView) -> LoadView {
    if translation_count(t) == 1 {
        with_background_translation(l, (t->0).1, (t->0).0)
    } else {
        l
    }
}

/// What is known after the romanization of a background voice, if there is one.
pub open spec fn after_bg_romanized(l: LoadView, t: Option<Seq<char>>) -> LoadView {
    if romanization_count(t) == 1 {
        with_background_romanization(l, t->0)
    } else {
        l
    }
}

/// What is known after the lines of a background voice, if there is one, the first
/// of which is line `line_num`.
pub open spec fn after_background(l: LoadView, line_num: nat, b: Option<BackgroundView>) -> LoadView {
    match b {
        Some(x) => after_bg_romanized(
            after_bg_translated(
                after_sung(l, line_num, bare_syllables(x.syllables), "x-bg"@),
                x.translation,
            ),
            x.romanization,
        ),
        None => l,
    }
}

/// What is known after the lines of a paragraph, where `before` lines stand in
/// front of them.
pub open spec fn after_paragraph(l: LoadView, before: nat, p: ParagraphView) -> LoadView {
    let l1 = after_sung(l, before + 1, p.syllables, actor_name(p.agent));
    let l2 = after_background(l1, before + 2, p.background);
    let n = before + 2 + background_count(p.background);
    let l3 = after_translated(l2, n, p.start, p.end, p.translation);
    after_romanized(l3, n + translation_count(p.translation), p.start, p.end, p.romanization)
}

/// What is known after the lines of the first `n` paragraphs, where `before`
/// lines stand in front of them.
pub open spec fn after_paragraphs(
    l: LoadView,
    before: nat,
    ps: Seq<ParagraphView>,
    n: nat,
) -> LoadView
    decreases n,
{
    if n == 0 {
        l
    } else {
        after_paragraph(
            after_paragraphs(l, before, ps, (n - 1) as nat),
            before + line_counts(ps, (n - 1) as nat),
            ps[n - 1],
        )
    }
}

/// Whether a style is one that lines are written with.
spec fn is_written_style(style: Seq<char>) -> bool {
    style == "orig"@ || style == "ts"@ || style == "roma"@ || style == "bg-ts"@ || style
        == "bg-roma"@
}

/// The styles of written lines, and no effect, are in lower case and on one line.
proof fn lemma_written_style(style: Seq<char>)
    requires
        is_written_style(style),
    ensures
        lower_case(style) == style,
        lower_case(Seq::<char>::empty()) == Seq::<char>::empty(),
        one_line(style),
{
    reveal_strlit("orig");
    reveal_strlit("ts");
    reveal_strlit("roma");
    reveal_strlit("bg-ts");
    reveal_strlit("bg-roma");
    assert(is_ascii_text(style));
    assert(ascii_lower_seq(style) =~= style);
    assert(ascii_lower_seq(Seq::<char>::empty()) =~= Seq::<char>::empty());
}

/// A line that has been read with its line break is read without it.
proof fn lemma_read_line(l: LoadView, line_num: nat, line: Seq<char>, style: Seq<char>, m: LoadView)
    requires
        line.len() > 0,
        line[0] == 'D',
        is_written_style(style),
        reads_as(l, line_num, line + "\n"@, style, m),
    ensures
        after_line(l, line_num, line) == Ok::<LoadView, ErrorView>(m),
{
    reveal(reads_as);
    let whole = line + "\n"@;
    assert(whole[0] == 'D');
    lemma_trim_front(line);
    lemma_trim_front(whole);
    lemma_trim_newline(line);
    assert(trim(line) == trim(whole));
    lemma_written_style(style);
}

/// A karaoke line of syllables on one line is on one line.
proof fn lemma_karaoke_line_one_line(syllables: Seq<SyllableView>)
    requires
        forall|i: int| 0 <= i < syllables.len() ==> one_line((#[trigger] syllables[i]).text),
    ensures
        one_line(karaoke_line(syllables, false)),
{
    let text = karaoke_line(syllables, false);
    let prefix = karaoke_prefix(syllables, syllables.len(), false);
    lemma_karaoke_one_line(syllables, syllables.len());
    lemma_trim_end(prefix);
    assert forall|k: int| 0 <= k < text.len() implies #[trigger] text[k] != '\n' by {
        assert(text[k] == prefix[k]);
    }
}

/// The names of voices are on one line.
proof fn lemma_voice_one_line(singer: Seq<char>)
    requires
        is_voice(singer),
    ensures
        one_line(singer),
{
    reveal_strlit("v1");
    reveal_strlit("v2");
    reveal_strlit("v1000");
    reveal_strlit("x-bg");
}

/// An empty text is no event.
proof fn lemma_blank_event()
    ensures
        event_fields(trim(Seq::<char>::empty())) is None,
{
    reveal_strlit("Dialogue:");
    reveal_strlit("Comment:");
    let s = trim(Seq::<char>::empty());
    assert(s.len() == 0);
    assert(!stands_at(s, "Dialogue:"@, 0));
    assert(!stands_at(s, "Comment:"@, 0));
}

/// Whether a text of `n` lines, the last of them empty, has been read as `l`.
#[verifier::opaque]
spec fn is_read(text: Seq<char>, n: nat, l: LoadView) -> bool {
    &&& text.len() > 0
    &&& text.last() == '\n'
    &&& file_lines(text).len() == n
    &&& load_lines(file_lines(text), n) == Ok::<LoadView, ErrorView>(l)
}

/// A blank last line says nothing.
proof fn lemma_last_blank(lines: Seq<Seq<char>>, l: LoadView)
    requires
        lines.len() > 0,
        lines.last() == Seq::<char>::empty(),
        load_lines(lines, lines.len()) == Ok::<LoadView, ErrorView>(l),
    ensures
        load_lines(lines, (lines.len() - 1) as nat) == Ok::<LoadView, ErrorView>(l),
{
    let before = load_lines(lines, (lines.len() - 1) as nat);
    assert(lines[lines.len() - 1] == lines.last());
    if before is Ok {
        lemma_blank_line(before->Ok_0, lines.len());
    }
}

/// One more line is read.
proof fn lemma_add_line(a: Seq<char>, n: nat, known: LoadView, line: Seq<char>, now: LoadView)
    requires
        is_read(a, n, known),
        one_line(line),
        after_line(known, n, line) == Ok::<LoadView, ErrorView>(now),
    ensures
        is_read(a + (line + "\n"@), n + 1, now),
{
    reveal(is_read);
    reveal_strlit("\n");
    let b = line + "\n"@;
    let text = a + b;
    let nothing = Seq::<char>::empty();
    let old_lines = file_lines(a);
    lemma_split_lines(a, b);
    assert(b =~= line + "\n"@ + nothing);
    lemma_split_line(line, nothing);
    assert(next_of(nothing, seq!['\n'], 0) == 0);
    assert(file_lines(nothing) =~= seq![nothing]);
    let lines = file_lines(text);
    assert(lines =~= old_lines.drop_last().push(line).push(nothing));
    assert(lines.subrange(0, n - 1) =~= old_lines.subrange(0, n - 1));
    lemma_load_prefix(lines, old_lines, (n - 1) as nat);
    lemma_last_blank(old_lines, known);
    assert(lines[n - 1] == line);
    assert(load_lines(lines, n) == after_line(known, n, line));
    lemma_blank_line(now, n + 1);
    assert(lines[n as int] == nothing);
    assert(load_lines(lines, n + 1) == after_line(now, n + 1, nothing));
    assert(text.last() == '\n');
}

/// One more event is read.
proof fn lemma_add_event(
    a: Seq<char>,
    n: nat,
    l: LoadView,
    start: nat,
    end: nat,
    style: Seq<char>,
    actor: Seq<char>,
    text: Seq<char>,
    m: LoadView,
)
    requires
        is_read(a, n, l),
        is_written_style(style),
        one_line(actor),
        one_line(text),
        reads_as(l, n, dialogue(start, end, style, actor, text), style, m),
    ensures
        is_read(a + dialogue(start, end, style, actor, text), n + 1, m),
{
    let line = event_line(start, end, style, actor, text);
    lemma_written_style(style);
    lemma_event_one_line(start, end, style, actor, text);
    lemma_read_line(l, n, line, style, m);
    lemma_add_line(a, n, l, line, m);
}

/// The line of what a voice sings is not empty.
proof fn lemma_sung_line_is(
    syllables: Seq<SyllableView>,
    singer: Seq<char>,
    l: LoadView,
    line_num: nat,
)
    requires
        sung_fits(syllables),
        is_voice(singer),
    ensures
        sung_line(syllables, singer, false) == dialogue(
            syllables[0].start,
            syllables.last().end,
            "orig"@,
            singer,
            karaoke_line(syllables, false),
        ),
{
    let line = sung_line(syllables, singer, false);
    law_sung_line_round_trip(l, line_num, syllables, singer);
    reveal(reads_as);
    if line.len() == 0 {
        assert(line =~= Seq::<char>::empty());
        lemma_blank_event();
    }
}

/// The line of what a voice sings is read.
proof fn lemma_add_sung(
    a: Seq<char>,
    n: nat,
    l: LoadView,
    syllables: Seq<SyllableView>,
    singer: Seq<char>,
)
    requires
        is_read(a, n, l),
        sung_fits(syllables),
        is_voice(singer),
    ensures
        is_read(
            a + sung_line(syllables, singer, false),
            n + 1,
            after_sung(l, n, syllables, singer),
        ),
{
    lemma_karaoke_line_one_line(syllables);
    lemma_voice_one_line(singer);
    lemma_sung_line_is(syllables, singer, l, n);
    law_sung_line_round_trip(l, n, syllables, singer);
    lemma_add_event(
        a,
        n,
        l,
        syllables[0].start,
        syllables.last().end,
        "orig"@,
        singer,
        karaoke_line(syllables, false),
        after_sung(l, n, syllables, singer),
    );
}

/// A background voice is written as its bare syllables are.
proof fn lemma_bare_prefix(syllables: Seq<SyllableView>, n: nat)
    requires
        n <= syllables.len(),
    ensures
        karaoke_prefix(syllables, n, true) == karaoke_prefix(bare_syllables(syllables), n, false),
    decreases n,
{
    if n > 0 {
        lemma_bare_prefix(syllables, (n - 1) as nat);
        let bare = bare_syllables(syllables);
        assert(reached(bare, n - 1) == reached(syllables, n - 1));
        assert(syllable_piece(syllables[n - 1], reached(syllables, n - 1), true) == syllable_piece(
            bare[n - 1],
            reached(bare, n - 1),
            false,
        ));
    }
}

/// The line of a background voice is that of its bare syllables.
proof fn lemma_bare_line(syllables: Seq<SyllableView>)
    ensures
        sung_line(syllables, "x-bg"@, true) == sung_line(
            bare_syllables(syllables),
            "x-bg"@,
            false,
        ),
{
    lemma_bare_prefix(syllables, syllables.len());
    if syllables.len() > 0 {
        let bare = bare_syllables(syllables);
        assert(bare[0].start == syllables[0].start);
        assert(bare.last().end == syllables.last().end);
    }
}

/// The field that names a language is on one line.
proof fn lemma_language_one_line(lang: Option<Seq<char>>)
    requires
        lang is Some ==> is_language(lang->0),
    ensures
        one_line(language_field(lang)),
{
    reveal_strlit("x-lang:");
    match lang {
        Some(code) => {
            assert forall|k: int| 0 <= k < code.len() implies #[trigger] code[k] != '\n' by {
                assert(!is_ws(code[k]));
            }
            lemma_one_line("x-lang:"@, code);
        },
        None => {},
    }
}

/// A translation is read.
proof fn lemma_add_translation(
    a: Seq<char>,
    n: nat,
    l: LoadView,
    start: nat,
    end: nat,
    t: TranslationView,
)
    requires
        is_read(a, n, l),
        translation_fits(t),
        translation_count(t) == 1 ==> can_round(start) && can_round(end) && follows_main(
            l,
            10 * centiseconds(start),
        ),
    ensures
        is_read(
            a + translation_line(start, end, "ts"@, t),
            n + translation_count(t),
            after_translated(l, n, start, end, t),
        ),
{
    if translation_count(t) == 1 {
        let (text, lang) = t->0;
        lemma_language_one_line(lang);
        law_translation_round_trip(l, n, start, end, lang, text);
        let m = after_translated(l, n, start, end, t);
        lemma_add_event(a, n, l, start, end, "ts"@, language_field(lang), text, m);
    } else {
        assert(a + translation_line(start, end, "ts"@, t) =~= a);
    }
}

/// A romanization is read.
proof fn lemma_add_romanization(
    a: Seq<char>,
    n: nat,
    l: LoadView,
    start: nat,
    end: nat,
    t: Option<Seq<char>>,
)
    requires
        is_read(a, n, l),
        romanization_fits(t),
        romanization_count(t) == 1 ==> can_round(start) && can_round(end) && follows_main(
            l,
            10 * centiseconds(start),
        ),
    ensures
        is_read(
            a + romanization_line(start, end, "roma"@, t),
            n + romanization_count(t),
            after_romanized(l, n, start, end, t),
        ),
{
    if romanization_count(t) == 1 {
        let text = t->0;
        law_romanization_round_trip(l, n, start, end, text);
        let m = after_romanized(l, n, start, end, t);
        lemma_add_event(a, n, l, start, end, "roma"@, Seq::empty(), text, m);
    } else {
        assert(a + romanization_line(start, end, "roma"@, t) =~= a);
    }
}

/// The translation of a background voice is read.
proof fn lemma_add_bg_translation(
    a: Seq<char>,
    n: nat,
    l: LoadView,
    start: nat,
    end: nat,
    t: TranslationView,
)
    requires
        is_read(a, n, l),
        translation_fits(t),
        translation_count(t) == 1 ==> can_round(start) && can_round(end) && follows_background(
            l,
            10 * centiseconds(start),
        ),
    ensures
        is_read(
            a + translation_line(start, end, "bg-ts"@, t),
            n + translation_count(t),
            after_bg_translated(l, t),
        ),
{
    if translation_count(t) == 1 {
        let (text, lang) = t->0;
        lemma_language_one_line(lang);
        law_background_translation_round_trip(l, n, start, end, lang, text);
        let m = after_bg_translated(l, t);
        lemma_add_event(a, n, l, start, end, "bg-ts"@, language_field(lang), text, m);
    } else {
        assert(a + translation_line(start, end, "bg-ts"@, t) =~= a);
    }
}

/// The romanization of a background voice is read.
proof fn lemma_add_bg_romanization(
    a: Seq<char>,
    n: nat,
    l: LoadView,
    start: nat,
    end: nat,
    t: Option<Seq<char>>,
)
    requires
        is_read(a, n, l),
        romanization_fits(t),
        romanization_count(t) == 1 ==> can_round(start) && can_round(end) && follows_background(
            l,
            10 * centiseconds(start),
        ),
    ensures
        is_read(
            a + romanization_line(start, end, "bg-roma"@, t),
            n + romanization_count(t),
            after_bg_romanized(l, t),
        ),
{
    if romanization_count(t) == 1 {
        let text = t->0;
        law_background_romanization_round_trip(l, n, start, end, text);
        let m = after_bg_romanized(l, t);
        lemma_add_event(a, n, l, start, end, "bg-roma"@, Seq::empty(), text, m);
    } else {
        assert(a + romanization_line(start, end, "bg-roma"@, t) =~= a);
    }
}

/// The line of a background voice is the last background line until the next.
proof fn lemma_follows_background(
    l: LoadView,
    line_num: nat,
    syllables: Seq<SyllableView>,
    t: TranslationView,
)
    ensures
        ({
            let start = 10 * centiseconds(syllables[0].start);
            let sung = after_sung(l, line_num, syllables, "x-bg"@);
            follows_background(sung, start) && follows_background(
                after_bg_translated(sung, t),
                start,
            )
        }),
{
    reveal_strlit("v2");
    reveal_strlit("v1000");
    reveal_strlit("x-bg");
    assert("v2"@.len() == 2 && "v1000"@.len() == 5 && "x-bg"@.len() == 4);
    let sung = after_sung(l, line_num, syllables, "x-bg"@);
    let i = l.data.lines.len() as int;
    assert(sung.last_bg == Some(i as nat));
    assert(sung.data.lines[i].start == 10 * centiseconds(syllables[0].start));
}

/// The lines of a background voice are read.
proof fn lemma_add_background(a: Seq<char>, n: nat, l: LoadView, b: BackgroundView)
    requires
        is_read(a, n, l),
        voice_fits(bare_syllables(b.syllables), b.start, b.end, b.translation, b.romanization),
    ensures
        is_read(
            a + background_lines(b),
            n + background_count(Some(b)),
            after_background(l, n, Some(b)),
        ),
{
    let bare = bare_syllables(b.syllables);
    let sung = sung_line(bare, "x-bg"@, false);
    let translated = translation_line(b.start, b.end, "bg-ts"@, b.translation);
    let romanized = romanization_line(b.start, b.end, "bg-roma"@, b.romanization);
    let l1 = after_sung(l, n, bare, "x-bg"@);
    let l2 = after_bg_translated(l1, b.translation);
    lemma_bare_line(b.syllables);
    lemma_add_sung(a, n, l, bare, "x-bg"@);
    lemma_follows_background(l, n, bare, b.translation);
    lemma_add_bg_translation(a + sung, n + 1, l1, b.start, b.end, b.translation);
    let n2 = n + 1 + translation_count(b.translation);
    lemma_add_bg_romanization(a + sung + translated, n2, l2, b.start, b.end, b.romanization);
    lemma_assoc(a, sung, translated);
    lemma_assoc(a, sung + translated, romanized);
}

/// The main line of a paragraph is the last main line until the next paragraph.
proof fn lemma_follows_main(
    l: LoadView,
    line_num: nat,
    bg_num: nat,
    syllables: Seq<SyllableView>,
    singer: Seq<char>,
    b: Option<BackgroundView>,
)
    requires
        singer == "v1"@ || singer == "v2"@ || singer == "v1000"@,
    ensures
        follows_main(
            after_background(after_sung(l, line_num, syllables, singer), bg_num, b),
            10 * centiseconds(syllables[0].start),
        ),
{
    reveal_strlit("v1");
    reveal_strlit("v2");
    reveal_strlit("v1000");
    reveal_strlit("x-bg");
    assert("v1"@.len() == 2 && "v2"@.len() == 2 && "v1000"@.len() == 5 && "x-bg"@.len() == 4);
    let main = after_sung(l, line_num, syllables, singer);
    let i = l.data.lines.len() as int;
    assert(main.last_main == Some(i as nat));
    assert(main.data.lines[i].start == 10 * centiseconds(syllables[0].start));
    match b {
        Some(x) => {
            let sung = after_sung(main, bg_num, bare_syllables(x.syllables), "x-bg"@);
            let translated = after_bg_translated(sung, x.translation);
            let romanized = after_bg_romanized(translated, x.romanization);
            assert(sung.data.lines[i] == main.data.lines[i]);
            assert(sung.last_bg == Some((i + 1) as nat));
            assert(translated.data.lines[i] == main.data.lines[i]);
            assert(romanized.data.lines[i] == main.data.lines[i]);
        },
        None => {},
    }
}

/// A translation leaves the last main line as it is.
proof fn lemma_still_follows(
    l: LoadView,
    line_num: nat,
    start: nat,
    end: nat,
    t: TranslationView,
    at: nat,
)
    requires
        follows_main(l, at),
    ensures
        follows_main(after_translated(l, line_num, start, end, t), at),
{
    let i = l.last_main->0 as int;
    if translation_count(t) == 1 {
        assert(after_translated(l, line_num, start, end, t).data.lines[i] == l.data.lines[i]);
    }
}

/// The lines of a paragraph, one behind the other.
proof fn lemma_paragraph_parts(a: Seq<char>, p: ParagraphView)
    ensures
        ({
            let main = sung_line(p.syllables, actor_name(p.agent), false);
            let background = match p.background {
                Some(b) => background_lines(b),
                None => Seq::empty(),
            };
            let translated = translation_line(p.start, p.end, "ts"@, p.translation);
            let romanized = romanization_line(p.start, p.end, "roma"@, p.romanization);
            a + paragraph_lines(p) == a + main + background + translated + romanized
        }),
{
    let main = sung_line(p.syllables, actor_name(p.agent), false);
    let background = match p.background {
        Some(b) => background_lines(b),
        None => Seq::empty(),
    };
    let translated = translation_line(p.start, p.end, "ts"@, p.translation);
    let romanized = romanization_line(p.start, p.end, "roma"@, p.romanization);
    assert(paragraph_lines(p) == main + background + translated + romanized);
    lemma_assoc(a, main, background);
    lemma_assoc(a, main + background, translated);
    lemma_assoc(a, main + background + translated, romanized);
}

/// The lines of a paragraph are read.
proof fn lemma_add_paragraph(a: Seq<char>, n: nat, l: LoadView, p: ParagraphView)
    requires
        is_read(a, n, l),
        n > 0,
        reads_back(p),
    ensures
        is_read(
            a + paragraph_lines(p),
            n + line_count(p),
            after_paragraph(l, (n - 1) as nat, p),
        ),
{
    let singer = actor_name(p.agent);
    let main = sung_line(p.syllables, singer, false);
    let background = match p.background {
        Some(b) => background_lines(b),
        None => Seq::empty(),
    };
    let translated = translation_line(p.start, p.end, "ts"@, p.translation);
    let at = 10 * centiseconds(p.syllables[0].start);
    let l1 = after_sung(l, n, p.syllables, singer);
    let l2 = after_background(l1, n + 1, p.background);
    let n2 = n + 1 + background_count(p.background);
    let l3 = after_translated(l2, n2, p.start, p.end, p.translation);
    let n3 = n2 + translation_count(p.translation);
    lemma_add_sung(a, n, l, p.syllables, singer);
    match p.background {
        Some(b) => {
            lemma_add_background(a + main, n + 1, l1, b);
        },
        None => {
            assert(a + main + background =~= a + main);
        },
    }
    lemma_follows_main(l, n, n + 1, p.syllables, singer, p.background);
    lemma_add_translation(a + main + background, n2, l2, p.start, p.end, p.translation);
    lemma_still_follows(l2, n2, p.start, p.end, p.translation, at);
    let text = a + main + background + translated;
    lemma_add_romanization(text, n3, l3, p.start, p.end, p.romanization);
    lemma_paragraph_parts(a, p);
}

/// Reading on from `head` over the lines of the first `n` paragraphs.
proof fn lemma_add_paragraphs(
    head: Seq<char>,
    count: nat,
    l: LoadView,
    ps: Seq<ParagraphView>,
    n: nat,
)
    requires
        is_read(head, count, l),
        count > 0,
        all_read_back(ps),
        n <= ps.len(),
    ensures
        is_read(
            head + events(ps, n),
            count + line_counts(ps, n),
            after_paragraphs(l, (count - 1) as nat, ps, n),
        ),
    decreases n,
{
    if n == 0 {
        assert(head + events(ps, 0) =~= head);
    } else {
        let m = (n - 1) as nat;
        let c = count + line_counts(ps, m);
        let known = after_paragraphs(l, (count - 1) as nat, ps, m);
        lemma_add_paragraphs(head, count, l, ps, m);
        assert(reads_back(ps[n - 1]));
        lemma_add_paragraph(head + events(ps, m), c, known, ps[n - 1]);
        lemma_next_text(head, ps, n);
        lemma_next_known(l, (count - 1) as nat, ps, n);
        assert((c - 1) as nat == (count - 1) as nat + line_counts(ps, m));
        assert(count + line_counts(ps, n) == c + line_count(ps[n - 1]));
    }
}

/// What the next paragraph adds to the text.
proof fn lemma_next_text(head: Seq<char>, ps: Seq<ParagraphView>, n: nat)
    requires
        0 < n <= ps.len(),
    ensures
        head + events(ps, n) == head + events(ps, (n - 1) as nat) + paragraph_lines(ps[n - 1]),
{
    let lines = paragraph_lines(ps[n - 1]);
    assert(events(ps, n) == events(ps, (n - 1) as nat) + lines);
    lemma_assoc(head, events(ps, (n - 1) as nat), lines);
}

/// What the next paragraph adds to what is known.
proof fn lemma_next_known(l: LoadView, before: nat, ps: Seq<ParagraphView>, n: nat)
    requires
        0 < n <= ps.len(),
    ensures
        after_paragraphs(l, before, ps, n) == after_paragraph(
            after_paragraphs(l, before, ps, (n - 1) as nat),
            before + line_counts(ps, (n - 1) as nat),
            ps[n - 1],
        ),
{
}

/// A written file reads as what its header and metadata say, followed by the lines
/// of its paragraphs: of the main and of the background voice the role and the
/// syllables, their translations in their languages and their romanizations, with
/// the times that rounding to centiseconds gives.
pub proof fn law_file_round_trip(ps: Seq<ParagraphView>, metadata_lines: Seq<char>, l: LoadView)
    requires
        all_read_back(ps),
        (ASS_HEADER@ + metadata_lines).len() > 0,
        (ASS_HEADER@ + metadata_lines).last() == '\n',
        ({
            let lines = file_lines(ASS_HEADER@ + metadata_lines);
            load_lines(lines, lines.len()) == Ok::<LoadView, ErrorView>(l)
        }),
    ensures
        load(ass_file(ps, metadata_lines)) == Ok::<AssDataView, ErrorView>(
            after_paragraphs(
                l,
                (file_lines(ASS_HEADER@ + metadata_lines).len() - 1) as nat,
                ps,
                ps.len(),
            ).data,
        ),
{
    let head = ASS_HEADER@ + metadata_lines;
    lemma_split_lines(head, Seq::empty());
    assert(file_lines(head).len() > 0);
    reveal(is_read);
    assert(is_read(head, file_lines(head).len(), l));
    lemma_add_paragraphs(head, file_lines(head).len(), l, ps, ps.len());
}

/// What a voice sings is read with the very same syllables and times where these
/// are whole numbers of centiseconds; only a space behind the last syllable is
/// lost.
pub proof fn law_exact_sung(
    l: LoadView,
    line_num: nat,
    syllables: Seq<SyllableView>,
    singer: Seq<char>,
)
    requires
        sung_fits(syllables),
        is_voice(singer),
        is_exact(syllables),
    ensures
        after_sung(l, line_num, syllables, singer) == with_sung(
            l,
            line_num,
            syllables[0].start,
            syllables.last().end,
            role_of(singer),
            without_last_space(syllables),
        ),
{
    law_sung_line_round_trip(l, line_num, syllables, singer);
    law_sung_line_exact(l, line_num, syllables, singer);
    reveal(reads_as);
}

// ---------------------------------------------------------------------------
// The header
// ---------------------------------------------------------------------------

/// Whether no event starts at `k`.
spec fn quiet_at(s: Seq<char>, k: int) -> bool {
    !(s[k] == 'D' && s[k + 1] == 'i') && !(s[k] == 'C' && s[k + 1] == 'o' && s[k + 2] == 'm')
}

/// Whether no event starts at one of the `n` positions from `i` on.
spec fn quiet_from(s: Seq<char>, i: int, n: nat) -> bool
    decreases n,
{
    n == 0 || (quiet_at(s, i) && quiet_from(s, i + 1, (n - 1) as nat))
}

/// Whether no event starts anywhere.
spec fn is_quiet(s: Seq<char>) -> bool {
    &&& forall|k: int|
        0 <= k && k + 1 < s.len() ==> !(#[trigger] s[k] == 'D' && s[k + 1] == 'i')
    &&& forall|k: int|
        0 <= k && k + 2 < s.len() ==> !(#[trigger] s[k] == 'C' && s[k + 1] == 'o' && s[k + 2]
            == 'm')
}

/// A position among quiet ones is quiet.
proof fn lemma_quiet_at(s: Seq<char>, i: int, n: nat, k: int)
    requires
        quiet_from(s, i, n),
        i <= k < i + n,
    ensures
        quiet_at(s, k),
    decreases n,
{
    if i < k {
        lemma_quiet_at(s, i + 1, (n - 1) as nat, k);
    }
}

/// No event starts in the header.
#[verifier::spinoff_prover]
#[verifier::rlimit(60)]
proof fn lemma_header_quiet()
    ensures
        is_quiet(ASS_HEADER@),
        ASS_HEADER@.len() == 1137,
        ASS_HEADER@.last() == '\n',
{
    reveal_strlit(
        "[Script Info]\nScriptType: v4.00+\nPlayResX: 1920\nPlayResY: 1440\n\n[V4+ Styles]\nFormat: Name, Fontname, Fontsize, PrimaryColour, SecondaryColour, OutlineColour, BackColour, Bold, Italic, Underline, StrikeOut, ScaleX, ScaleY, Spacing, Angle, BorderStyle, Outline, Shadow, Alignment, MarginL, MarginR, MarginV, Encoding\nStyle: Default,Arial,100,&H00FFFFFF,&H000000FF,&H00000000,&H00000000,0,0,0,0,100,100,0,0,1,2,1,2,10,10,10,1\nStyle: orig,Arial,100,&H00FFFFFF,&H000000FF,&H00000000,&H00000000,0,0,0,0,100,100,0,0,1,2,1,2,10,10,10,1\nStyle: ts,Arial,60,&H00D3D3D3,&H000000FF,&H00000000,&H00000000,0,0,0,0,100,100,0,0,1,1,1,2,10,10,60,1\nStyle: roma,Arial,60,&H00D3D3D3,&H000000FF,&H00000000,&H00000000,0,0,0,0,100,100,0,0,1,1,1,2,10,10,60,1\nStyle: bg-ts,Arial,55,&H00A0A0A0,&H000000FF,&H00000000,&H00000000,0,0,0,0,100,100,0,0,1,1,1,2,10,10,80,1\nStyle: bg-roma,Arial,55,&H00A0A0A0,&H000000FF,&H00000000,&H00000000,0,0,0,0,100,100,0,0,1,1,1,2,10,10,80,1\nStyle: meta,Arial,50,&H00C0C0C0,&H000000FF,&H00000000,&H00000000,0,0,0,0,100,100,0,0,1,1,0,1,0,0,0,1\n\n[Events]\nFormat: Layer, Start, End, Style, Name, MarginL, MarginR, MarginV, Effect, Text\n",
    );
    let s = ASS_HEADER@;
    assert(s.len() == 1137);
    assert(s[1136] == '\n');
    reveal_with_fuel(quiet_from, 61);
    assert(quiet_from(s, 0, 60));
    assert(quiet_from(s, 60, 60));
    assert(quiet_from(s, 120, 60));
    assert(quiet_from(s, 180, 60));
    assert(quiet_from(s, 240, 60));
    assert(quiet_from(s, 300, 60));
    assert(quiet_from(s, 360, 60));
    assert(quiet_from(s, 420, 60));
    assert(quiet_from(s, 480, 60));
    assert(quiet_from(s, 540, 60));
    assert(quiet_from(s, 600, 60));
    assert(quiet_from(s, 660, 60));
    assert(quiet_from(s, 720, 60));
    assert(quiet_from(s, 780, 60));
    assert(quiet_from(s, 840, 60));
    assert(quiet_from(s, 900, 60));
    assert(quiet_from(s, 960, 60));
    assert(quiet_from(s, 1020, 60));
    assert(quiet_from(s, 1080, 57));
    assert forall|k: int| 0 <= k < 1137 implies quiet_at(s, k) by {
        let i = k / 60 * 60;
        if i == 1080 {
            lemma_quiet_at(s, 1080, 57, k);
        } else {
            assert(quiet_from(s, i, 60));
            lemma_quiet_at(s, i, 60, k);
        }
    }
    assert forall|k: int| 0 <= k && k + 1 < s.len() implies !(#[trigger] s[k] == 'D' && s[k + 1]
        == 'i') by {
        assert(quiet_at(s, k));
    }
    assert forall|k: int| 0 <= k && k + 2 < s.len() implies !(#[trigger] s[k] == 'C' && s[k + 1]
        == 'o' && s[k + 2] == 'm') by {
        assert(quiet_at(s, k));
    }
}

/// A part of a quiet text is quiet.
proof fn lemma_quiet_part(s: Seq<char>, i: int, j: int)
    requires
        is_quiet(s),
        0 <= i <= j <= s.len(),
    ensures
        is_quiet(s.subrange(i, j)),
{
    let t = s.subrange(i, j);
    assert forall|k: int| 0 <= k && k + 1 < t.len() implies !(#[trigger] t[k] == 'D' && t[k + 1]
        == 'i') by {
        assert(t[k] == s[i + k] && t[k + 1] == s[(i + k) + 1]);
    }
    assert forall|k: int| 0 <= k && k + 2 < t.len() implies !(#[trigger] t[k] == 'C' && t[k + 1]
        == 'o' && t[k + 2] == 'm') by {
        assert(t[k] == s[i + k] && t[k + 1] == s[(i + k) + 1] && t[k + 2] == s[(i + k) + 2]);
    }
}

/// The lines of a quiet text are quiet.
proof fn lemma_quiet_lines(s: Seq<char>, i: int)
    requires
        is_quiet(s),
        0 <= i < file_lines(s).len(),
    ensures
        is_quiet(file_lines(s)[i]),
    decreases s.len(),
{
    let ds = seq!['\n'];
    lemma_next_of(s, ds, 0);
    let at = next_of(s, ds, 0);
    if at < s.len() {
        let line = s.subrange(0, at);
        let rest = s.subrange(at + 1, s.len() as int);
        lemma_quiet_part(s, 0, at);
        lemma_quiet_part(s, at + 1, s.len() as int);
        assert(file_lines(s) == seq![line] + file_lines(rest));
        if i > 0 {
            assert(file_lines(s)[i] == file_lines(rest)[i - 1]);
            lemma_quiet_lines(rest, i - 1);
        }
    }
}

/// A quiet line says nothing.
proof fn lemma_quiet_line(l: LoadView, line_num: nat, line: Seq<char>)
    requires
        is_quiet(line),
    ensures
        after_line(l, line_num, line) == Ok::<LoadView, ErrorView>(l),
        event_fields(trim(line)) is None,
{
    reveal_strlit("Dialogue:");
    reveal_strlit("Comment:");
    let a = trim_start(line);
    let s = trim(line);
    lemma_trim_start(line);
    lemma_trim_end(a);
    lemma_quiet_part(line, line.len() - a.len(), line.len() as int);
    lemma_quiet_part(a, 0, s.len() as int);
    if stands_at(s, "Dialogue:"@, 0) {
        assert(s.subrange(0, 9)[0] == s[0] && s.subrange(0, 9)[1] == s[1]);
        assert(s[0] == 'D' && s[1] == 'i');
    }
    if stands_at(s, "Comment:"@, 0) {
        assert(s.subrange(0, 8)[0] == s[0] && s.subrange(0, 8)[1] == s[1] && s.subrange(
            0,
            8,
        )[2] == s[2]);
        assert(s[0] == 'C' && s[1] == 'o' && s[2] == 'm');
    }
    assert(event_fields(s) is None);
}

/// Quiet lines say nothing.
proof fn lemma_quiet_load(s: Seq<char>, n: nat)
    requires
        is_quiet(s),
        n <= file_lines(s).len(),
    ensures
        load_lines(file_lines(s), n) == Ok::<LoadView, ErrorView>(load_start()),
    decreases n,
{
    if n > 0 {
        lemma_quiet_load(s, (n - 1) as nat);
        lemma_quiet_lines(s, n - 1);
        lemma_quiet_line(load_start(), n, file_lines(s)[n - 1]);
    }
}

/// The header says nothing: what is known after it is what is known at the start.
pub proof fn law_header_says_nothing()
    ensures
        ASS_HEADER@.len() > 0,
        ASS_HEADER@.last() == '\n',
        load_lines(file_lines(ASS_HEADER@), file_lines(ASS_HEADER@).len()) == Ok::<
            LoadView,
            ErrorView,
        >(load_start()),
{
    lemma_header_quiet();
    lemma_quiet_load(ASS_HEADER@, file_lines(ASS_HEADER@).len());
}

/// A file that is written without metadata reads as the lines of its paragraphs and
/// nothing else.
pub proof fn law_written_file_reads_back(ps: Seq<ParagraphView>)
    requires
        all_read_back(ps),
    ensures
        load(ass_file(ps, Seq::empty())) == Ok::<AssDataView, ErrorView>(
            after_paragraphs(
                load_start(),
                (file_lines(ASS_HEADER@).len() - 1) as nat,
                ps,
                ps.len(),
            ).data,
        ),
{
    law_header_says_nothing();
    assert(ASS_HEADER@ + Seq::<char>::empty() =~= ASS_HEADER@);
    law_file_round_trip(ps, Seq::empty(), load_start());
}

// ---------------------------------------------------------------------------
// What can be read at all
// ---------------------------------------------------------------------------

/// Whether the times on a line fit in 64 bits, wherever it stands.
pub open spec fn always_fits(line: Seq<char>) -> bool {
    forall|n: nat| #[trigger] line_fits(n, line)
}

/// Whether a text is empty or ends in a line break, and the times on each of its
/// lines fit in 64 bits.
pub open spec fn lines_fit(text: Seq<char>) -> bool {
    &&& text.len() == 0 || text.last() == '\n'
    &&& forall|i: int|
        0 <= i < file_lines(text).len() ==> always_fits(#[trigger] file_lines(text)[i])
}

/// Whether the end that the tags of a line lead to fits in 64 bits.
pub open spec fn end_fits(syllables: Seq<SyllableView>) -> bool {
    written_end(syllables, syllables.len(), 10 * centiseconds(syllables[0].start)) <= u64::MAX
}

/// Whether the ends that the tags of a paragraph's lines lead to fit in 64 bits.
pub open spec fn ends_fit(p: ParagraphView) -> bool {
    &&& end_fits(p.syllables)
    &&& match p.background {
        Some(b) => end_fits(bare_syllables(b.syllables)),
        None => true,
    }
}

/// An empty text is one line, which is no event.
proof fn lemma_nothing_fits()
    ensures
        lines_fit(Seq::<char>::empty()),
        always_fits(Seq::<char>::empty()),
        file_lines(Seq::<char>::empty()) == seq![Seq::<char>::empty()],
{
    let nothing = Seq::<char>::empty();
    lemma_blank_event();
    assert(next_of(nothing, seq!['\n'], 0) == 0);
    assert(file_lines(nothing) =~= seq![nothing]);
}

/// Texts that fit can be joined.
proof fn lemma_joined_fit(a: Seq<char>, b: Seq<char>)
    requires
        lines_fit(a),
        lines_fit(b),
    ensures
        lines_fit(a + b),
{
    if a.len() == 0 {
        assert(a + b =~= b);
    } else {
        lemma_split_lines(a, b);
        let lines = file_lines(a + b);
        let front = file_lines(a);
        assert forall|i: int| 0 <= i < lines.len() implies always_fits(#[trigger] lines[i]) by {
            if i < front.len() - 1 {
                assert(lines[i] == front[i]);
            } else {
                assert(lines[i] == file_lines(b)[i - (front.len() - 1)]);
            }
        }
        if b.len() == 0 {
            assert(a + b =~= a);
        } else {
            assert((a + b).last() == b.last());
        }
    }
}

/// A line that fits, with its line break.
proof fn lemma_line_fits(line: Seq<char>)
    requires
        one_line(line),
        always_fits(line),
    ensures
        lines_fit(line + "\n"@),
{
    reveal_strlit("\n");
    let nothing = Seq::<char>::empty();
    lemma_nothing_fits();
    lemma_split_line(line, nothing);
    assert(line + "\n"@ + nothing =~= line + "\n"@);
    assert(file_lines(line + "\n"@) =~= seq![line, nothing]);
}

/// A written event fits where its times can be rounded and its tags, if it is sung,
/// lead to an end that fits.
proof fn lemma_event_fits(
    start: nat,
    end: nat,
    style: Seq<char>,
    actor: Seq<char>,
    text: Seq<char>,
)
    requires
        is_written_style(style),
        is_field(style),
        is_field(actor),
        one_line(actor),
        one_line(text),
        can_round(start),
        can_round(end),
        style == "orig"@ ==> forall|n: nat| #[trigger]
            karaoke_fits(trim_end(text), 10 * centiseconds(start), n),
    ensures
        lines_fit(dialogue(start, end, style, actor, text)),
{
    let line = event_line(start, end, style, actor, text);
    lemma_written_style(style);
    lemma_event_one_line(start, end, style, actor, text);
    lemma_trim_front(line);
    assert((line + "\n"@)[0] == line[0]);
    lemma_trim_front(line + "\n"@);
    lemma_trim_newline(line);
    law_event_round_trip(start, end, style, actor, text);
    lemma_default_is_not_written(style);
    assert forall|n: nat| #[trigger] line_fits(n, line) by {
        law_time_round_trip(start, n);
        law_time_round_trip(end, n);
        if style == "orig"@ {
            assert(karaoke_fits(trim_end(text), 10 * centiseconds(start), n));
        }
    }
    lemma_line_fits(line);
}

/// Of the styles that lines are written with only one is sung.
proof fn lemma_default_is_not_written(style: Seq<char>)
    requires
        is_written_style(style),
    ensures
        is_lyric_style(style) ==> style == "orig"@,
        is_field(style),
{
    reveal_strlit("orig");
    reveal_strlit("default");
    reveal_strlit("ts");
    reveal_strlit("roma");
    reveal_strlit("bg-ts");
    reveal_strlit("bg-roma");
    assert("default"@.len() == 7 && "bg-roma"@.len() == 7);
    assert("default"@[0] == 'd' && "bg-roma"@[0] == 'b');
    lemma_trim_line(style);
}

/// The line of what a voice sings fits.
proof fn lemma_sung_fits(syllables: Seq<SyllableView>, singer: Seq<char>)
    requires
        sung_fits(syllables),
        end_fits(syllables),
        is_voice(singer),
    ensures
        lines_fit(sung_line(syllables, singer, false)),
{
    let text = karaoke_line(syllables, false);
    let start = 10 * centiseconds(syllables[0].start);
    lemma_karaoke_line_one_line(syllables);
    lemma_voice_one_line(singer);
    lemma_singer(singer, 0);
    lemma_sung_line_is(syllables, singer, load_start(), 0);
    lemma_trim_end(karaoke_prefix(syllables, syllables.len(), false));
    assert(trim_end(text) == text);
    assert forall|n: nat| #[trigger] karaoke_fits(text, start, n) by {
        law_karaoke_round_trip(syllables, start, n);
    }
    lemma_default_is_not_written("orig"@);
    lemma_event_fits(syllables[0].start, syllables.last().end, "orig"@, singer, text);
}

/// A translation fits.
proof fn lemma_translation_line_fits(start: nat, end: nat, style: Seq<char>, t: TranslationView)
    requires
        translation_fits(t),
        style == "ts"@ || style == "bg-ts"@,
        translation_count(t) == 1 ==> can_round(start) && can_round(end),
    ensures
        lines_fit(translation_line(start, end, style, t)),
{
    if translation_count(t) == 1 {
        let (text, lang) = t->0;
        lemma_language_one_line(lang);
        lemma_language(lang, style, 0);
        lemma_default_is_not_written(style);
        reveal_strlit("orig");
        reveal_strlit("ts");
        reveal_strlit("bg-ts");
        assert("orig"@.len() == 4 && "ts"@.len() == 2 && "bg-ts"@.len() == 5);
        lemma_event_fits(start, end, style, language_field(lang), text);
    } else {
        lemma_nothing_fits();
    }
}

/// A romanization fits.
proof fn lemma_romanization_line_fits(start: nat, end: nat, style: Seq<char>, t: Option<Seq<char>>)
    requires
        romanization_fits(t),
        style == "roma"@ || style == "bg-roma"@,
        romanization_count(t) == 1 ==> can_round(start) && can_round(end),
    ensures
        lines_fit(romanization_line(start, end, style, t)),
{
    if romanization_count(t) == 1 {
        lemma_no_words();
        lemma_default_is_not_written(style);
        reveal_strlit("orig");
        reveal_strlit("roma");
        reveal_strlit("bg-roma");
        assert("orig"@[0] == 'o' && "roma"@[0] == 'r' && "bg-roma"@[0] == 'b');
        lemma_event_fits(start, end, style, Seq::empty(), t->0);
    } else {
        lemma_nothing_fits();
    }
}

/// The lines of a paragraph fit.
proof fn lemma_paragraph_fits(p: ParagraphView)
    requires
        reads_back(p),
        ends_fit(p),
    ensures
        lines_fit(paragraph_lines(p)),
{
    let singer = actor_name(p.agent);
    let main = sung_line(p.syllables, singer, false);
    let background = match p.background {
        Some(b) => background_lines(b),
        None => Seq::empty(),
    };
    let translated = translation_line(p.start, p.end, "ts"@, p.translation);
    let romanized = romanization_line(p.start, p.end, "roma"@, p.romanization);
    lemma_sung_fits(p.syllables, singer);
    match p.background {
        Some(b) => {
            lemma_background_fits(b);
        },
        None => {
            lemma_nothing_fits();
        },
    }
    lemma_translation_line_fits(p.start, p.end, "ts"@, p.translation);
    lemma_romanization_line_fits(p.start, p.end, "roma"@, p.romanization);
    lemma_joined_fit(main, background);
    lemma_joined_fit(main + background, translated);
    lemma_joined_fit(main + background + translated, romanized);
}

/// The lines of a background voice fit.
proof fn lemma_background_fits(b: BackgroundView)
    requires
        voice_fits(bare_syllables(b.syllables), b.start, b.end, b.translation, b.romanization),
        end_fits(bare_syllables(b.syllables)),
    ensures
        lines_fit(background_lines(b)),
{
    let sung = sung_line(bare_syllables(b.syllables), "x-bg"@, false);
    let translated = translation_line(b.start, b.end, "bg-ts"@, b.translation);
    let romanized = romanization_line(b.start, b.end, "bg-roma"@, b.romanization);
    lemma_bare_line(b.syllables);
    lemma_sung_fits(bare_syllables(b.syllables), "x-bg"@);
    lemma_translation_line_fits(b.start, b.end, "bg-ts"@, b.translation);
    lemma_romanization_line_fits(b.start, b.end, "bg-roma"@, b.romanization);
    lemma_joined_fit(sung, translated);
    lemma_joined_fit(sung + translated, romanized);
}

/// The lines of the first `n` paragraphs fit.
proof fn lemma_events_fit(ps: Seq<ParagraphView>, n: nat)
    requires
        all_read_back(ps),
        forall|i: int| 0 <= i < ps.len() ==> ends_fit(#[trigger] ps[i]),
        n <= ps.len(),
    ensures
        lines_fit(events(ps, n)),
    decreases n,
{
    if n == 0 {
        lemma_nothing_fits();
    } else {
        let m = (n - 1) as nat;
        lemma_events_fit(ps, m);
        assert(reads_back(ps[n - 1]) && ends_fit(ps[n - 1]));
        lemma_paragraph_fits(ps[n - 1]);
        lemma_joined_fit(events(ps, m), paragraph_lines(ps[n - 1]));
    }
}

/// The lines of the header fit: none of them is an event.
proof fn lemma_header_fits()
    ensures
        lines_fit(ASS_HEADER@),
{
    lemma_header_quiet();
    let lines = file_lines(ASS_HEADER@);
    assert forall|i: int| 0 <= i < lines.len() implies always_fits(#[trigger] lines[i]) by {
        lemma_quiet_lines(ASS_HEADER@, i);
        lemma_quiet_line(load_start(), 0, lines[i]);
        assert(event_fields(trim(lines[i])) is None);
    }
}

/// A written file can be read: where the metadata lines fit, and the ends that the
/// tags lead to do, the times on all of its lines fit in 64 bits.
pub proof fn law_written_file_fits(ps: Seq<ParagraphView>, metadata_lines: Seq<char>)
    requires
        all_read_back(ps),
        forall|i: int| 0 <= i < ps.len() ==> ends_fit(#[trigger] ps[i]),
        lines_fit(metadata_lines),
    ensures
        load_fits(ass_file(ps, metadata_lines)),
{
    lemma_header_fits();
    lemma_joined_fit(ASS_HEADER@, metadata_lines);
    lemma_events_fit(ps, ps.len());
    lemma_joined_fit(ASS_HEADER@ + metadata_lines, events(ps, ps.len()));
    let lines = file_lines(ass_file(ps, metadata_lines));
    assert forall|n: nat|
        n < lines.len() && (#[trigger] load_lines(lines, n)) is Ok implies line_fits(
        n + 1,
        lines[n as int],
    ) by {
        assert(always_fits(lines[n as int]));
    }
}

/// The tags of exact syllables lead to an end that fits.
pub proof fn law_exact_ends_fit(syllables: Seq<SyllableView>)
    requires
        all_plain(syllables),
        is_exact(syllables),
    ensures
        end_fits(syllables),
{
    assert(syllables[0].start % 10 == 0);
    assert(10 * centiseconds(syllables[0].start) == syllables[0].start);
    law_karaoke_exact(syllables, 0);
    law_karaoke_round_trip(syllables, syllables[0].start, 0);
    assert(syllables.last() == syllables[syllables.len() - 1]);
}

/// A file of one paragraph, sung by one of the known singers without a background
/// voice, translation or romanization, at whole centiseconds, reads as one line
/// with the very same syllables and times; only a space behind the last syllable
/// is lost.
pub proof fn law_one_paragraph_reads_back(p: ParagraphView)
    requires
        reads_back(p),
        is_exact(p.syllables),
        p.background is None,
        !has_texts(p.translation, p.romanization),
    ensures
        ({
            let r = load(ass_file(seq![p], Seq::empty()));
            &&& load_fits(ass_file(seq![p], Seq::empty()))
            &&& r is Ok
            &&& r->Ok_0 == (AssDataView {
                lines: seq![
                    LineView {
                        line_num: file_lines(ASS_HEADER@).len(),
                        start: p.syllables[0].start,
                        end: p.syllables.last().end,
                        content: Some(
                            ContentView::LyricLine {
                                role: role_of(actor_name(p.agent)),
                                syllables: without_last_space(p.syllables),
                                bg_translation: None,
                                bg_romanization: None,
                            },
                        ),
                        song_part: None,
                    },
                ],
                ..load_start().data
            })
        }),
{
    let ps = seq![p];
    let l = load_start();
    let before = (file_lines(ASS_HEADER@).len() - 1) as nat;
    law_header_says_nothing();
    lemma_split_lines(ASS_HEADER@, Seq::empty());
    assert(all_read_back(ps));
    law_written_file_reads_back(ps);
    law_exact_ends_fit(p.syllables);
    lemma_nothing_fits();
    law_written_file_fits(ps, Seq::empty());
    law_exact_sung(l, before + 1, p.syllables, actor_name(p.agent));
    assert(line_counts(ps, 0) == 0);
    assert(after_paragraphs(l, before, ps, 0) == l);
    assert(ps[0] == p);
    assert(after_paragraphs(l, before, ps, 1) == after_paragraph(l, before, p));
    assert(after_paragraph(l, before, p) == after_sung(
        l,
        before + 1,
        p.syllables,
        actor_name(p.agent),
    ));
    assert(after_paragraph(l, before, p).data.lines =~= seq![
        after_paragraph(l, before, p).data.lines[0],
    ]);
}

} // verus!
