//! What holds between writing an event line and reading it.

use vstd::prelude::*;

use crate::ass_generator::{
    ass_time_text, can_round, centiseconds, dialogue, karaoke_line, karaoke_prefix, sung_line,
};
use crate::ass_laws::{
    all_plain, is_exact, law_karaoke_exact, law_karaoke_round_trip, law_time_round_trip,
    without_last_space, written, written_end,
};
use crate::ass_parser::{
    actor, after_event, comma_after, digit_run, event_fields, event_head, field_end, first_language,
    first_song_part, is_digit, karaoke, last_lang, lemma_karaoke_from_end, names_role, skip_ws,
    song_part_at, tag_role, time_at, time_end, with_bg_romanization, with_bg_translation, EventView,
    KaraokeView, LoadView,
};
use crate::text::{
    dec, dec2, is_ws, lemma_dec, lemma_dec2, lemma_trim_end, lemma_word_len, stands_at, trim,
    trim_end, trim_start, word_len, words,
};
use crate::types::{
    ActorRole, ActorView, AssDataView, ContentView, ErrorView, LineView, SyllableView,
};

verus! {

/// A text whose ends are not white space, with a line break behind it, is trimmed
/// to itself.
pub proof fn lemma_trim_line(s: Seq<char>)
    requires
        s.len() > 0,
        !is_ws(s[0]),
        !is_ws(s.last()),
    ensures
        trim(s + "\n"@) == s,
        trim(s) == s,
{
    reveal_strlit("\n");
    let t = s + "\n"@;
    assert(t[0] == s[0]);
    assert(trim_start(t) == t);
    assert(is_ws(t.last()));
    assert(t.drop_last() =~= s);
    assert(trim_end(t) == trim_end(s));
}

/// A comma ends a field that holds none.
proof fn lemma_field_end(s: Seq<char>, i: int, n: int)
    requires
        0 <= i <= n < s.len(),
        s[n] == ',',
        forall|k: int| i <= k < n ==> #[trigger] s[k] != ',',
    ensures
        field_end(s, i) == n,
    decreases n - i,
{
    let ds = seq![','];
    if i == n {
        assert(ds[0] == s[n]);
        assert(ds.contains(s[n]));
    } else {
        assert(s[i] != ',');
        assert(!ds.contains(s[i]));
        lemma_field_end(s, i + 1, n);
    }
}

/// A run of digits is the same wherever it stands, where something else follows.
proof fn lemma_run_moves(s: Seq<char>, t: Seq<char>, at: int, i: int)
    requires
        0 <= at,
        at + t.len() <= s.len(),
        s.subrange(at, at + t.len()) == t,
        0 <= i <= t.len(),
        digit_run(t, i) < t.len(),
    ensures
        digit_run(s, at + i) == at + digit_run(t, i),
    decreases t.len() - i,
{
    if i < t.len() {
        assert(s[at + i] == s.subrange(at, at + t.len())[i]);
        if is_digit(t[i]) {
            lemma_run_moves(s, t, at, i + 1);
        }
    }
}

/// A time is a time wherever it stands.
pub proof fn lemma_time_moves(s: Seq<char>, t: Seq<char>, at: int)
    requires
        0 <= at,
        at + t.len() <= s.len(),
        s.subrange(at, at + t.len()) == t,
        time_at(t, 0),
    ensures
        time_at(s, at),
        time_end(s, at) == at + time_end(t, 0),
{
    let j = digit_run(t, 0);
    lemma_run_moves(s, t, at, 0);
    assert forall|k: int| 0 <= k < t.len() implies #[trigger] s[at + k] == t[k] by {
        assert(s.subrange(at, at + t.len())[k] == s[at + k]);
    }
    assert(s[at + j] == t[j]);
    assert(s[at + (j + 1)] == t[j + 1]);
    assert(s[at + (j + 2)] == t[j + 2]);
    assert(s[at + (j + 3)] == t[j + 3]);
    assert(s[at + (j + 4)] == t[j + 4]);
    assert(s[at + (j + 5)] == t[j + 5]);
    assert(s[at + (j + 6)] == t[j + 6]);
    assert(s[at + (j + 7)] == t[j + 7]);
    assert(s[at + (j + 8)] == t[j + 8]);
}

/// A written time is a time and nothing else.
proof fn lemma_written_time(ms: nat)
    ensures
        time_at(ass_time_text(ms), 0),
        time_end(ass_time_text(ms), 0) == ass_time_text(ms).len(),
{
    let cs = centiseconds(ms);
    lemma_dec(cs / 360_000);
    lemma_dec2(cs / 6000 % 60);
    lemma_dec2(cs / 100 % 60);
    lemma_dec2(cs % 100);
    crate::ass_laws::lemma_time_shape(
        dec(cs / 360_000),
        dec2(cs / 6000 % 60),
        dec2(cs / 100 % 60),
        dec2(cs % 100),
    );
}

/// The front of an event line: kind, layer and times.
proof fn lemma_event_head(s: Seq<char>, a: Seq<char>, b: Seq<char>)
    requires
        time_at(a, 0),
        time_end(a, 0) == a.len(),
        time_at(b, 0),
        time_end(b, 0) == b.len(),
        13 + a.len() + b.len() < s.len(),
        s.subrange(0, 12) == "Dialogue: 0,"@,
        s.subrange(12, 12 + a.len() as int) == a,
        s[12 + a.len() as int] == ',',
        s.subrange(13 + a.len() as int, 13 + a.len() as int + b.len()) == b,
        s[13 + a.len() as int + b.len()] == ',',
    ensures
        event_head(s) == Some((true, 12int, 13 + a.len() as int, 14 + a.len() as int + b.len())),
        time_end(s, 12) == 12 + a.len(),
        time_end(s, 13 + a.len() as int) == 13 + a.len() as int + b.len(),
{
    reveal_strlit("Dialogue: 0,");
    reveal_strlit("Dialogue:");
    let head = s.subrange(0, 12);
    assert(s.subrange(0, 9) =~= "Dialogue:"@) by {
        assert forall|k: int| 0 <= k < 9 implies s[k] == "Dialogue:"@[k] by {
            assert(s[k] == head[k]);
        }
    }
    assert(stands_at(s, "Dialogue:"@, 0));
    assert(s[9] == head[9] && s[10] == head[10] && s[11] == head[11]);
    assert(s[9] == ' ' && s[10] == '0' && s[11] == ',');
    assert(skip_ws(s, 10) == 10);
    assert(skip_ws(s, 9) == 10);
    assert(is_digit('0') && !is_digit(','));
    assert(digit_run(s, 11) == 11);
    assert(digit_run(s, 10) == 11);
    assert(skip_ws(s, 11) == 11);
    assert(comma_after(s, 11) == Some(12int));
    lemma_time_moves(s, a, 12);
    let p = 12 + a.len() as int;
    assert(skip_ws(s, p) == p);
    assert(comma_after(s, p) == Some(p + 1));
    lemma_time_moves(s, b, p + 1);
    let q = p + 1 + b.len();
    assert(skip_ws(s, q) == q);
    assert(comma_after(s, q) == Some(q + 1));
}

/// What an event line holds where.
spec fn holds_fields(
    s: Seq<char>,
    a: Seq<char>,
    b: Seq<char>,
    style: Seq<char>,
    actor: Seq<char>,
    text: Seq<char>,
) -> bool {
    let x = (14 + a.len() + b.len()) as int;
    let y = x + style.len() + 1;
    let z = y + actor.len() + 1;
    &&& s.len() == z + 7 + text.len()
    &&& s.subrange(0, 12) == "Dialogue: 0,"@
    &&& s.subrange(12, 12 + a.len() as int) == a
    &&& s[12 + a.len() as int] == ','
    &&& s.subrange(13 + a.len() as int, 13 + a.len() as int + b.len()) == b
    &&& s[x - 1] == ','
    &&& s.subrange(x, y - 1) == style
    &&& s[y - 1] == ','
    &&& s.subrange(y, z - 1) == actor
    &&& s[z - 1] == ','
    &&& s[z] == '0' && s[z + 1] == ',' && s[z + 2] == '0' && s[z + 3] == ',' && s[z + 4] == '0'
        && s[z + 5] == ',' && s[z + 6] == ','
    &&& s.subrange(z + 7, s.len() as int) == text
}

/// A line made of its fields holds them.
proof fn lemma_dialogue_parts(
    a: Seq<char>,
    b: Seq<char>,
    style: Seq<char>,
    actor: Seq<char>,
    text: Seq<char>,
)
    ensures
        holds_fields(
            "Dialogue: 0,"@ + a + ","@ + b + ","@ + style + ","@ + actor + ",0,0,0,,"@ + text,
            a,
            b,
            style,
            actor,
            text,
        ),
{
    reveal_strlit("Dialogue: 0,");
    reveal_strlit(",");
    reveal_strlit(",0,0,0,,");
    let s1 = "Dialogue: 0,"@ + a + ","@;
    let s2 = s1 + b + ","@;
    let s3 = s2 + style + ","@;
    let s4 = s3 + actor + ",0,0,0,,"@;
    let s = s4 + text;
    let x = (14 + a.len() + b.len()) as int;
    let y = x + style.len() + 1;
    let z = y + actor.len() + 1;
    assert(s1.len() == 13 + a.len());
    assert(s2.len() == x && s3.len() == y && s4.len() == z + 7);
    assert(s.subrange(0, 12) =~= "Dialogue: 0,"@);
    assert(s.subrange(12, 12 + a.len() as int) =~= a);
    assert(s[12 + a.len() as int] == s1[12 + a.len() as int]);
    assert(s.subrange(13 + a.len() as int, 13 + a.len() as int + b.len()) =~= b);
    assert(s.subrange(x, y - 1) =~= style);
    assert(s.subrange(y, z - 1) =~= actor);
    assert(s.subrange(z + 7, s.len() as int) =~= text);
    assert(s[x - 1] == s2[x - 1]);
    assert(s[y - 1] == s3[y - 1]);
    assert forall|k: int| 0 <= k < 8 implies s[z - 1 + k] == #[trigger] ",0,0,0,,"@[k] by {
        assert(s[z - 1 + k] == s4[z - 1 + k]);
    }
    assert(s[z - 1 + 0] == ",0,0,0,,"@[0]);
    assert(s[z - 1 + 1] == ",0,0,0,,"@[1]);
    assert(s[z - 1 + 2] == ",0,0,0,,"@[2]);
    assert(s[z - 1 + 3] == ",0,0,0,,"@[3]);
    assert(s[z - 1 + 4] == ",0,0,0,,"@[4]);
    assert(s[z - 1 + 5] == ",0,0,0,,"@[5]);
    assert(s[z - 1 + 6] == ",0,0,0,,"@[6]);
    assert(s[z - 1 + 7] == ",0,0,0,,"@[7]);
}

/// Whether a text can stand in a field: it holds no comma, and no white space at
/// its ends.
pub open spec fn is_field(s: Seq<char>) -> bool {
    &&& trim(s) == s
    &&& forall|k: int| 0 <= k < s.len() ==> #[trigger] s[k] != ','
}

/// The fields that an event line is written with.
pub open spec fn written_event(
    start: nat,
    end: nat,
    style: Seq<char>,
    actor: Seq<char>,
    text: Seq<char>,
) -> EventView {
    EventView {
        is_dialogue: true,
        start: ass_time_text(start),
        end: ass_time_text(end),
        style,
        actor,
        effect: Seq::empty(),
        text,
    }
}

/// What an event line holds where, and so what is read of it.
proof fn lemma_fields(
    s: Seq<char>,
    a: Seq<char>,
    b: Seq<char>,
    style: Seq<char>,
    actor: Seq<char>,
    text: Seq<char>,
)
    requires
        time_at(a, 0),
        time_end(a, 0) == a.len(),
        time_at(b, 0),
        time_end(b, 0) == b.len(),
        is_field(style),
        is_field(actor),
        trim_end(text) == text,
        holds_fields(s, a, b, style, actor, text),
    ensures
        event_fields(s) == Some(
            EventView {
                is_dialogue: true,
                start: a,
                end: b,
                style,
                actor,
                effect: Seq::empty(),
                text,
            },
        ),
{
    let x = (14 + a.len() + b.len()) as int;
    let y = x + style.len() + 1;
    let z = y + actor.len() + 1;
    lemma_event_head(s, a, b);
    assert forall|k: int| x <= k < y - 1 implies #[trigger] s[k] != ',' by {
        assert(s[k] == s.subrange(x, y - 1)[k - x]);
    }
    assert forall|k: int| y <= k < z - 1 implies #[trigger] s[k] != ',' by {
        assert(s[k] == s.subrange(y, z - 1)[k - y]);
    }
    lemma_field_end(s, x, y - 1);
    lemma_field_end(s, y, z - 1);
    lemma_field_end(s, z, z + 1);
    lemma_field_end(s, z + 2, z + 3);
    lemma_field_end(s, z + 4, z + 5);
    lemma_field_end(s, z + 6, z + 6);
    assert(s.subrange(z + 6, z + 6) =~= Seq::<char>::empty());
    assert(trim(Seq::<char>::empty()) =~= Seq::<char>::empty());
}

/// What a written event line is trimmed to.
proof fn lemma_trimmed_dialogue(
    start: nat,
    end: nat,
    style: Seq<char>,
    actor: Seq<char>,
    text: Seq<char>,
)
    ensures
        trim(dialogue(start, end, style, actor, text)) == "Dialogue: 0,"@ + ass_time_text(start)
            + ","@ + ass_time_text(end) + ","@ + style + ","@ + actor + ",0,0,0,,"@ + trim_end(
            text,
        ),
{
    let front = "Dialogue: 0,"@ + ass_time_text(start) + ","@ + ass_time_text(end) + ","@ + style
        + ","@ + actor + ",0,0,0,,"@;
    let whole = front + text;
    reveal_strlit("Dialogue: 0,");
    reveal_strlit(",0,0,0,,");
    assert(front[0] == 'D');
    assert(front.last() == ',');
    assert(whole[0] == 'D');
    lemma_trim_front(whole + "\n"@);
    lemma_trim_newline(whole);
    lemma_trim_back(front, text);
}

/// A written event line reads as the fields that it was written with, whatever
/// the text holds; white space at the end of the text is lost.
pub proof fn law_event_round_trip(
    start: nat,
    end: nat,
    style: Seq<char>,
    actor: Seq<char>,
    text: Seq<char>,
)
    requires
        is_field(style),
        is_field(actor),
    ensures
        event_fields(trim(dialogue(start, end, style, actor, text))) == Some(
            written_event(start, end, style, actor, trim_end(text)),
        ),
{
    let a = ass_time_text(start);
    let b = ass_time_text(end);
    let kept = trim_end(text);
    lemma_trimmed_dialogue(start, end, style, actor, text);
    lemma_dialogue_parts(a, b, style, actor, kept);
    lemma_trim_end(text);
    assert(trim_end(kept) == kept);
    lemma_written_time(start);
    lemma_written_time(end);
    lemma_fields(
        trim(dialogue(start, end, style, actor, text)),
        a,
        b,
        style,
        actor,
        kept,
    );
}

/// White space at the end of a text is trimmed behind another text as well.
proof fn lemma_trim_back(front: Seq<char>, text: Seq<char>)
    requires
        front.len() > 0,
        !is_ws(front.last()),
    ensures
        trim_end(front + text) == front + trim_end(text),
    decreases text.len(),
{
    let s = front + text;
    if text.len() == 0 {
        assert(s =~= front);
        assert(front + trim_end(text) =~= front);
    } else {
        assert(s.last() == text.last());
        if is_ws(text.last()) {
            assert(s.drop_last() =~= front + text.drop_last());
            lemma_trim_back(front, text.drop_last());
        }
    }
}

/// Nothing is trimmed in front of a text that does not start with white space.
pub proof fn lemma_trim_front(s: Seq<char>)
    ensures
        s.len() > 0 && !is_ws(s[0]) ==> trim(s) == trim_end(s),
{
}

/// A line break is trimmed.
pub proof fn lemma_trim_newline(s: Seq<char>)
    ensures
        trim_end(s + "\n"@) == trim_end(s),
{
    reveal_strlit("\n");
    assert((s + "\n"@).drop_last() =~= s);
    assert((s + "\n"@).last() == '\n');
    assert(is_ws('\n'));
}

/// The role of a singer whose name stands for one.
pub open spec fn role_of(singer: Seq<char>) -> ActorRole {
    if singer == "v2"@ {
        ActorRole::Vocal2
    } else if singer == "v1000"@ {
        ActorRole::Chorus
    } else if singer == "x-bg"@ {
        ActorRole::Background
    } else {
        ActorRole::Vocal1
    }
}

/// Whether a name stands for a role when it is written: the three singers and the
/// background voice.
pub open spec fn is_voice(singer: Seq<char>) -> bool {
    singer == "v1"@ || singer == "v2"@ || singer == "v1000"@ || singer == "x-bg"@
}

/// A text without white space is one word.
pub proof fn lemma_one_word(s: Seq<char>)
    requires
        s.len() > 0,
        forall|k: int| 0 <= k < s.len() ==> !is_ws(#[trigger] s[k]),
    ensures
        words(s) == seq![s],
{
    lemma_word_len(s);
    assert(trim_start(s) == s);
    assert(word_len(s) == s.len());
    assert(s.subrange(0, s.len() as int) =~= s);
    let e = s.subrange(s.len() as int, s.len() as int);
    assert(trim_start(e).len() == 0);
    assert(words(e) =~= Seq::<Seq<char>>::empty());
    assert(seq![s] + words(e) =~= seq![s]);
}

/// A short text holds no song part.
pub proof fn lemma_no_song_part(s: Seq<char>, i: int)
    requires
        s.len() < 17,
        0 <= i,
    ensures
        first_song_part(s, i) == s.len(),
    decreases s.len() - i,
{
    reveal_strlit("itunes:song-part=");
    if i < s.len() {
        assert(song_part_at(s, i) is None);
        lemma_no_song_part(s, i + 1);
    }
}

/// What is read of the actor field of a singer.
pub proof fn lemma_singer(singer: Seq<char>, line_num: nat)
    requires
        is_voice(singer),
    ensures
        is_field(singer),
        actor(singer, "orig"@, line_num) == Ok::<ActorView, ErrorView>(
            ActorView {
                role: Some(role_of(singer)),
                is_background: singer == "x-bg"@,
                lang_code: None,
                is_marker: false,
                song_part: None,
            },
        ),
{
    reveal_strlit("v1");
    reveal_strlit("v2");
    reveal_strlit("v1000");
    reveal_strlit("orig");
    reveal_strlit("ts");
    reveal_strlit("trans");
    reveal_strlit("bg-ts");
    reveal_strlit("x-mark");
    reveal_strlit("x-duet");
    reveal_strlit("x-anti");
    reveal_strlit("x-bg");
    reveal_strlit("左");
    reveal_strlit("右");
    reveal_strlit("背");
    reveal_strlit("合");
    assert(singer.len() == 2 || singer.len() == 5 || singer.len() == 4);
    assert("v1"@[1] == '1' && "v2"@[1] == '2');
    assert("x-duet"@.len() == 6 && "x-anti"@.len() == 6 && "x-mark"@.len() == 6);
    assert(singer[0] == 'v' || singer == "x-bg"@);
    assert(forall|k: int| 0 <= k < singer.len() ==> !is_ws(#[trigger] singer[k]));
    lemma_no_song_part(singer, 0);
    lemma_one_word(singer);
    lemma_trim_line(singer);
    let tags = words(singer);
    assert(tags[0] == singer);
    assert(tag_role(singer) == Some(role_of(singer)));
    assert(names_role(tags, role_of(singer)));
    assert("orig"@[0] == 'o' && "ts"@[0] == 't' && "trans"@[0] == 't' && "bg-ts"@[0] == 'b');
    if tags.contains("x-mark"@) {
        let k = choose|k: int| 0 <= k < tags.len() && tags[k] == "x-mark"@;
        assert(k == 0);
    }
}

/// Whether reading an event line with this style, after `l`, leads to `m`.
#[verifier::opaque]
pub open spec fn reads_as(
    l: LoadView,
    line_num: nat,
    line: Seq<char>,
    style: Seq<char>,
    m: LoadView,
) -> bool {
    &&& event_fields(trim(line)) is Some
    &&& event_fields(trim(line))->0.style == style
    &&& event_fields(trim(line))->0.effect == Seq::<char>::empty()
    &&& after_event(l, line_num, event_fields(trim(line))->0, style, Seq::empty()) == Ok::<
        LoadView,
        ErrorView,
    >(m)
}

/// `l` with one more line that is sung.
pub open spec fn with_sung(
    l: LoadView,
    line_num: nat,
    start: nat,
    end: nat,
    role: ActorRole,
    syllables: Seq<SyllableView>,
) -> LoadView {
    LoadView {
        data: AssDataView {
            lines: l.data.lines.push(
                LineView {
                    line_num,
                    start,
                    end,
                    content: Some(
                        ContentView::LyricLine {
                            role,
                            syllables,
                            bg_translation: None,
                            bg_romanization: None,
                        },
                    ),
                    song_part: None,
                },
            ),
            ..l.data
        },
        last_main: if role == ActorRole::Background {
            l.last_main
        } else {
            Some(l.data.lines.len())
        },
        last_bg: if role == ActorRole::Background {
            Some(l.data.lines.len())
        } else {
            l.last_bg
        },
    }
}

/// A written line of plain syllables of a singer is read as a line of that
/// singer's role with those syllables, with the times that rounding to
/// centiseconds gives.
pub proof fn law_sung_line_round_trip(
    l: LoadView,
    line_num: nat,
    syllables: Seq<SyllableView>,
    singer: Seq<char>,
)
    requires
        is_voice(singer),
        syllables.len() > 0,
        all_plain(syllables),
        can_round(syllables[0].start),
        can_round(syllables.last().end),
    ensures
        reads_as(
            l,
            line_num,
            sung_line(syllables, singer, false),
            "orig"@,
            with_sung(
                l,
                line_num,
                10 * centiseconds(syllables[0].start),
                written_end(syllables, syllables.len(), 10 * centiseconds(syllables[0].start)),
                role_of(singer),
                written(syllables, syllables.len(), 10 * centiseconds(syllables[0].start)),
            ),
        ),
{
    reveal(reads_as);
    let first = syllables[0].start;
    let last = syllables.last().end;
    let start = 10 * centiseconds(first);
    let text = karaoke_line(syllables, false);
    lemma_singer(singer, line_num);
    reveal_strlit("orig");
    lemma_trim_line("orig"@);
    law_karaoke_round_trip(syllables, start, line_num);
    assert(text.len() > 0) by {
        if text.len() == 0 {
            assert(text =~= Seq::<char>::empty());
            lemma_nothing_sung(start, line_num);
            assert(written(syllables, syllables.len(), start).len() > 0);
        }
    }
    lemma_trim_end(karaoke_prefix(syllables, syllables.len(), false));
    assert(trim_end(text) == text);
    law_event_round_trip(first, last, "orig"@, singer, text);
    law_time_round_trip(first, line_num);
    law_time_round_trip(last, line_num);
    reveal_strlit("ts");
    reveal_strlit("trans");
    reveal_strlit("bg-ts");
    reveal_strlit("roma");
    reveal_strlit("bg-roma");
    assert("orig"@[0] == 'o' && "ts"@[0] == 't' && "trans"@[0] == 't' && "bg-ts"@[0] == 'b'
        && "roma"@[0] == 'r' && "bg-roma"@[0] == 'b');
}

/// An empty karaoke text has no syllable.
proof fn lemma_nothing_sung(start: nat, line_num: nat)
    ensures
        karaoke(Seq::empty(), start, line_num).syllables.len() == 0,
{
    let s = Seq::<char>::empty();
    lemma_karaoke_from_end(
        s,
        0,
        0,
        KaraokeView { syllables: Seq::empty(), end: start, error: None },
        line_num,
    );
}

/// A written line of plain syllables with exact times is read as a line with the
/// very same syllables and end; only a space behind the last syllable is lost.
pub proof fn law_sung_line_exact(
    l: LoadView,
    line_num: nat,
    syllables: Seq<SyllableView>,
    singer: Seq<char>,
)
    requires
        is_voice(singer),
        all_plain(syllables),
        is_exact(syllables),
    ensures
        reads_as(
            l,
            line_num,
            sung_line(syllables, singer, false),
            "orig"@,
            with_sung(
                l,
                line_num,
                syllables[0].start,
                syllables.last().end,
                role_of(singer),
                without_last_space(syllables),
            ),
        ),
{
    assert(syllables[0].start % 10 == 0);
    assert(10 * centiseconds(syllables[0].start) == syllables[0].start);
    assert(syllables.last() == syllables[syllables.len() - 1]);
    law_sung_line_round_trip(l, line_num, syllables, singer);
    law_karaoke_exact(syllables, line_num);
    law_karaoke_round_trip(syllables, syllables[0].start, line_num);
}

/// Whether a text can be the language of a translation: one word, without the
/// characters that part fields and directives.
pub open spec fn is_language(code: Seq<char>) -> bool {
    &&& code.len() > 0
    &&& forall|k: int|
        0 <= k < code.len() ==> !is_ws(#[trigger] code[k]) && code[k] != ',' && code[k] != '='
}

/// The actor field of a translation.
pub open spec fn language_field(lang: Option<Seq<char>>) -> Seq<char> {
    match lang {
        Some(code) => "x-lang:"@ + code,
        None => Seq::empty(),
    }
}

/// The language that is read of a translation.
pub open spec fn language_read(lang: Option<Seq<char>>) -> Seq<char> {
    match lang {
        Some(code) => code,
        None => "zh-CN"@,
    }
}

/// A text without an equals sign holds no song part.
proof fn lemma_no_directive(s: Seq<char>, i: int)
    requires
        0 <= i,
        forall|k: int| 0 <= k < s.len() ==> #[trigger] s[k] != '=',
    ensures
        i <= s.len() ==> first_song_part(s, i) == s.len(),
    decreases s.len() - i,
{
    reveal_strlit("itunes:song-part=");
    if i < s.len() {
        if stands_at(s, "itunes:song-part="@, i) {
            assert(s.subrange(i, i + 17)[16] == '=');
            assert(s[i + 16] == '=');
        }
        assert(song_part_at(s, i) is None);
        lemma_no_directive(s, i + 1);
    }
}

/// What is read of the actor field of a translation.
pub proof fn lemma_language(lang: Option<Seq<char>>, style: Seq<char>, line_num: nat)
    requires
        lang is Some ==> is_language(lang->0),
        style == "ts"@ || style == "bg-ts"@,
    ensures
        is_field(language_field(lang)),
        actor(language_field(lang), style, line_num) == Ok::<ActorView, ErrorView>(
            ActorView {
                role: None,
                is_background: false,
                lang_code: if style == "ts"@ {
                    Some(language_read(lang))
                } else {
                    lang
                },
                is_marker: false,
                song_part: None,
            },
        ),
{
    reveal_strlit("ts");
    reveal_strlit("trans");
    reveal_strlit("orig");
    reveal_strlit("default");
    reveal_strlit("x-lang:");
    reveal_strlit("x-mark");
    reveal_strlit("bg-ts");
    let field = language_field(lang);
    assert("ts"@.len() == 2 && "bg-ts"@.len() == 5 && "trans"@.len() == 5);
    assert("bg-ts"@[0] == 'b' && "trans"@[0] == 't');
    assert("ts"@[0] == 't' && "orig"@[0] == 'o' && "default"@[0] == 'd');
    match lang {
        Some(code) => {
            assert forall|k: int| 0 <= k < field.len() implies !is_ws(#[trigger] field[k])
                && field[k] != ',' && field[k] != '=' by {
                if k >= 7 {
                    assert(field[k] == code[k - 7]);
                } else {
                    assert(field[k] == "x-lang:"@[k]);
                }
            }
            lemma_no_directive(field, 0);
            lemma_one_word(field);
            lemma_trim_line(field);
            let tags = words(field);
            assert(tags == seq![field]);
            assert(tags.last() == field);
            assert(field.subrange(0, 7) =~= "x-lang:"@);
            assert(stands_at(field, "x-lang:"@, 0));
            assert(field.subrange(7, field.len() as int) =~= code);
            assert(last_lang(tags) == Some(code));
            if tags.contains("x-mark"@) {
                let k = choose|k: int| 0 <= k < tags.len() && tags[k] == "x-mark"@;
                assert(k == 0);
                assert(field[2] == 'l');
                assert("x-mark"@[2] == 'm');
            }
        },
        None => {
            lemma_no_directive(field, 0);
            lemma_no_words();
        },
    }
}

/// An empty text has no words, and is a field.
pub proof fn lemma_no_words()
    ensures
        words(Seq::<char>::empty()) == Seq::<Seq<char>>::empty(),
        is_field(Seq::<char>::empty()),
        last_lang(Seq::<Seq<char>>::empty()) is None,
{
    let e = Seq::<char>::empty();
    assert(trim_start(e).len() == 0);
    assert(words(e) =~= Seq::<Seq<char>>::empty());
    assert(trim(e) =~= e);
}

/// Whether the last main line that was read starts at `start`.
pub open spec fn follows_main(l: LoadView, start: nat) -> bool {
    match l.last_main {
        Some(i) => i < l.data.lines.len() && l.data.lines[i as int].start == start,
        None => false,
    }
}

/// `l` with the translation of its last main line.
pub open spec fn with_translation(
    l: LoadView,
    line_num: nat,
    start: nat,
    end: nat,
    lang: Seq<char>,
    text: Seq<char>,
) -> LoadView {
    LoadView {
        data: AssDataView {
            lines: l.data.lines.push(
                LineView {
                    line_num,
                    start,
                    end,
                    content: Some(ContentView::MainTranslation { lang_code: Some(lang), text }),
                    song_part: None,
                },
            ),
            detected_translation_language: first_language(
                l.data.detected_translation_language,
                Some(lang),
            ),
            ..l.data
        },
        ..l
    }
}

/// `l` with the romanization of its last main line.
pub open spec fn with_romanization(
    l: LoadView,
    line_num: nat,
    start: nat,
    end: nat,
    text: Seq<char>,
) -> LoadView {
    LoadView {
        data: AssDataView {
            lines: l.data.lines.push(
                LineView {
                    line_num,
                    start,
                    end,
                    content: Some(ContentView::MainRomanization { text }),
                    song_part: None,
                },
            ),
            ..l.data
        },
        ..l
    }
}

/// A written translation that starts with its main line is read as the translation
/// of that line, in its language.
pub proof fn law_translation_round_trip(
    l: LoadView,
    line_num: nat,
    start: nat,
    end: nat,
    lang: Option<Seq<char>>,
    text: Seq<char>,
)
    requires
        can_round(start),
        can_round(end),
        lang is Some ==> is_language(lang->0),
        trim_end(text) == text,
        follows_main(l, 10 * centiseconds(start)),
    ensures
        reads_as(
            l,
            line_num,
            dialogue(start, end, "ts"@, language_field(lang), text),
            "ts"@,
            with_translation(
                l,
                line_num,
                10 * centiseconds(start),
                10 * centiseconds(end),
                language_read(lang),
                text,
            ),
        ),
{
    reveal(reads_as);
    lemma_language(lang, "ts"@, line_num);
    reveal_strlit("ts");
    lemma_trim_line("ts"@);
    law_event_round_trip(start, end, "ts"@, language_field(lang), text);
    law_time_round_trip(start, line_num);
    law_time_round_trip(end, line_num);
}

/// A written romanization that starts with its main line is read as the
/// romanization of that line.
pub proof fn law_romanization_round_trip(
    l: LoadView,
    line_num: nat,
    start: nat,
    end: nat,
    text: Seq<char>,
)
    requires
        can_round(start),
        can_round(end),
        trim_end(text) == text,
        follows_main(l, 10 * centiseconds(start)),
    ensures
        reads_as(
            l,
            line_num,
            dialogue(start, end, "roma"@, Seq::empty(), text),
            "roma"@,
            with_romanization(
                l,
                line_num,
                10 * centiseconds(start),
                10 * centiseconds(end),
                text,
            ),
        ),
{
    reveal(reads_as);
    reveal_strlit("roma");
    reveal_strlit("ts");
    reveal_strlit("trans");
    reveal_strlit("bg-ts");
    reveal_strlit("orig");
    reveal_strlit("default");
    assert("roma"@[0] == 'r' && "ts"@[0] == 't' && "trans"@[0] == 't' && "bg-ts"@[0] == 'b'
        && "orig"@[0] == 'o' && "default"@[0] == 'd');
    lemma_trim_line("roma"@);
    lemma_no_words();
    lemma_no_directive(Seq::empty(), 0);
    law_event_round_trip(start, end, "roma"@, Seq::empty(), text);
    law_time_round_trip(start, line_num);
    law_time_round_trip(end, line_num);
}

/// Whether the last background line that was read starts at `start`.
pub open spec fn follows_background(l: LoadView, start: nat) -> bool {
    match l.last_bg {
        Some(i) => i < l.data.lines.len() && l.data.lines[i as int].start == start,
        None => false,
    }
}

/// `l` with the translation of its last background line.
pub open spec fn with_background_translation(
    l: LoadView,
    lang: Option<Seq<char>>,
    text: Seq<char>,
) -> LoadView {
    let i = l.last_bg->0 as int;
    LoadView {
        data: AssDataView {
            lines: l.data.lines.update(
                i,
                LineView {
                    content: with_bg_translation(l.data.lines[i].content, lang, text),
                    ..l.data.lines[i]
                },
            ),
            detected_translation_language: first_language(
                l.data.detected_translation_language,
                lang,
            ),
            ..l.data
        },
        ..l
    }
}

/// `l` with the romanization of its last background line.
pub open spec fn with_background_romanization(l: LoadView, text: Seq<char>) -> LoadView {
    let i = l.last_bg->0 as int;
    LoadView {
        data: AssDataView {
            lines: l.data.lines.update(
                i,
                LineView {
                    content: with_bg_romanization(l.data.lines[i].content, text),
                    ..l.data.lines[i]
                },
            ),
            ..l.data
        },
        ..l
    }
}

/// A written translation of a background line that starts with it is read as the
/// translation of that line, in its language.
pub proof fn law_background_translation_round_trip(
    l: LoadView,
    line_num: nat,
    start: nat,
    end: nat,
    lang: Option<Seq<char>>,
    text: Seq<char>,
)
    requires
        can_round(start),
        can_round(end),
        lang is Some ==> is_language(lang->0),
        trim_end(text) == text,
        follows_background(l, 10 * centiseconds(start)),
    ensures
        reads_as(
            l,
            line_num,
            dialogue(start, end, "bg-ts"@, language_field(lang), text),
            "bg-ts"@,
            with_background_translation(l, lang, text),
        ),
{
    reveal(reads_as);
    lemma_language(lang, "bg-ts"@, line_num);
    reveal_strlit("bg-ts");
    reveal_strlit("ts");
    reveal_strlit("trans");
    assert("bg-ts"@[0] == 'b' && "ts"@[0] == 't' && "trans"@[0] == 't');
    lemma_trim_line("bg-ts"@);
    law_event_round_trip(start, end, "bg-ts"@, language_field(lang), text);
    law_time_round_trip(start, line_num);
    law_time_round_trip(end, line_num);
}

/// A written romanization of a background line that starts with it is read as the
/// romanization of that line.
pub proof fn law_background_romanization_round_trip(
    l: LoadView,
    line_num: nat,
    start: nat,
    end: nat,
    text: Seq<char>,
)
    requires
        can_round(start),
        can_round(end),
        trim_end(text) == text,
        follows_background(l, 10 * centiseconds(start)),
    ensures
        reads_as(
            l,
            line_num,
            dialogue(start, end, "bg-roma"@, Seq::empty(), text),
            "bg-roma"@,
            with_background_romanization(l, text),
        ),
{
    reveal(reads_as);
    reveal_strlit("bg-roma");
    reveal_strlit("roma");
    reveal_strlit("ts");
    reveal_strlit("trans");
    reveal_strlit("bg-ts");
    reveal_strlit("orig");
    reveal_strlit("default");
    assert("bg-roma"@.len() == 7 && "default"@.len() == 7);
    assert("bg-roma"@[0] == 'b' && "default"@[0] == 'd');
    lemma_trim_line("bg-roma"@);
    lemma_no_words();
    lemma_no_directive(Seq::empty(), 0);
    law_event_round_trip(start, end, "bg-roma"@, Seq::empty(), text);
    law_time_round_trip(start, line_num);
    law_time_round_trip(end, line_num);
}

} // verus!
