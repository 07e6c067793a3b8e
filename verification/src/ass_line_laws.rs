//! What each kind of event adds to what has been read of an ASS file.

use vstd::prelude::*;

use crate::ass_parser::{
    actor, after_event, after_line, ass_time, event_fields, file_lines, karaoke, load_lines,
    EventView, LoadView,
};
use crate::text::{eq_ignore_case, lemma_next_of, lower_case, next_of, trim};
use crate::types::{
    lemma_with_pair, with_pair, ActorView, AssDataView, ContentView, ErrorView, LineView,
};
use crate::text_laws::law_split;

verus! {

/// Whether an event counts, given its style and effect in lower case. Those of the
/// styles of lyrics, translations and romanizations do only where they have no
/// effect, or that of karaoke.
pub open spec fn counts(style_lower: Seq<char>, effect_lower: Seq<char>) -> bool {
    ||| effect_lower.len() == 0
    ||| effect_lower == "karaoke"@
    ||| {
        &&& style_lower != "orig"@
        &&& style_lower != "default"@
        &&& style_lower != "ts"@
        &&& style_lower != "trans"@
        &&& style_lower != "roma"@
        &&& style_lower != "bg-ts"@
        &&& style_lower != "bg-roma"@
    }
}

/// An event that does not count changes nothing, whatever stands in it. Of the
/// others the start is read first, then the end, then the actor, and the first of
/// them that cannot be read is the error.
pub proof fn law_events_that_count(
    l: LoadView,
    n: nat,
    e: EventView,
    style_lower: Seq<char>,
    effect_lower: Seq<char>,
)
    ensures
        ({
            let r = after_event(l, n, e, style_lower, effect_lower);
            let start = ass_time(e.start, n);
            let end = ass_time(e.end, n);
            let who = actor(e.actor, e.style, n);
            &&& !counts(style_lower, effect_lower) ==> r == Ok::<LoadView, ErrorView>(l)
            &&& counts(style_lower, effect_lower) ==> {
                &&& start is Err ==> r == Err::<LoadView, ErrorView>(start->Err_0)
                &&& start is Ok && end is Err ==> r == Err::<LoadView, ErrorView>(end->Err_0)
                &&& start is Ok && end is Ok && who is Err ==> r == Err::<LoadView, ErrorView>(
                    who->Err_0,
                )
            }
        }),
{
}

/// Whether an event counts and has these times and this actor.
pub open spec fn reads(
    e: EventView,
    n: nat,
    style_lower: Seq<char>,
    effect_lower: Seq<char>,
    start: nat,
    end: nat,
    a: ActorView,
) -> bool {
    &&& counts(style_lower, effect_lower)
    &&& ass_time(e.start, n) == Ok::<nat, ErrorView>(start)
    &&& ass_time(e.end, n) == Ok::<nat, ErrorView>(end)
    &&& actor(e.actor, e.style, n) == Ok::<ActorView, ErrorView>(a)
}

/// The markers after an event: one more, with the number of the line and its text,
/// where its actor says so.
pub open spec fn marked(l: LoadView, n: nat, e: EventView, a: ActorView) -> Seq<
    (nat, Seq<char>),
> {
    if a.is_marker {
        l.data.markers.push((n, e.text))
    } else {
        l.data.markers
    }
}

/// Whether line `i` is there and starts at `start`.
pub open spec fn starts_at(l: LoadView, i: Option<nat>, start: nat) -> bool {
    i is Some && i->0 < l.data.lines.len() && l.data.lines[i->0 as int].start == start
}

/// The styles are different ones.
proof fn lemma_styles()
    ensures
        "orig"@ != "default"@,
        "orig"@ != "ts"@,
        "orig"@ != "trans"@,
        "orig"@ != "roma"@,
        "orig"@ != "bg-ts"@,
        "orig"@ != "bg-roma"@,
        "orig"@ != "meta"@,
        "default"@ != "ts"@,
        "default"@ != "trans"@,
        "default"@ != "roma"@,
        "default"@ != "bg-ts"@,
        "default"@ != "bg-roma"@,
        "default"@ != "meta"@,
        "ts"@ != "trans"@,
        "ts"@ != "roma"@,
        "ts"@ != "bg-ts"@,
        "ts"@ != "bg-roma"@,
        "ts"@ != "meta"@,
        "trans"@ != "roma"@,
        "trans"@ != "bg-ts"@,
        "trans"@ != "bg-roma"@,
        "trans"@ != "meta"@,
        "roma"@ != "bg-ts"@,
        "roma"@ != "bg-roma"@,
        "roma"@ != "meta"@,
        "bg-ts"@ != "bg-roma"@,
        "bg-ts"@ != "meta"@,
        "bg-roma"@ != "meta"@,
{
    reveal_strlit("orig");
    reveal_strlit("default");
    reveal_strlit("ts");
    reveal_strlit("trans");
    reveal_strlit("roma");
    reveal_strlit("bg-ts");
    reveal_strlit("bg-roma");
    reveal_strlit("meta");
    assert("orig"@.len() == 4 && "roma"@.len() == 4 && "meta"@.len() == 4);
    assert("orig"@[0] == 'o' && "roma"@[0] == 'r' && "meta"@[0] == 'm');
    assert("default"@.len() == 7 && "bg-roma"@.len() == 7);
    assert("default"@[0] == 'd' && "bg-roma"@[0] == 'b');
    assert("trans"@.len() == 5 && "bg-ts"@.len() == 5 && "ts"@.len() == 2);
    assert("trans"@[0] == 't' && "bg-ts"@[0] == 'b');
}

/// A dialogue of lyrics becomes a line at its end: with the number and the start of
/// the event, the singer that the actor names, the syllables of its text and the end
/// that these give. Translations and romanizations that follow belong to it, as
/// those of a background line or of a main line. Nothing is added where there is no
/// syllable, and a text that cannot be read is the error.
pub proof fn law_lyric_event(
    l: LoadView,
    n: nat,
    e: EventView,
    style_lower: Seq<char>,
    effect_lower: Seq<char>,
    start: nat,
    end: nat,
    a: ActorView,
)
    requires
        e.style == "orig"@ || e.style == "default"@,
        reads(e, n, style_lower, effect_lower, start, end, a),
    ensures
        ({
            let r = after_event(l, n, e, style_lower, effect_lower);
            let k = karaoke(e.text, start, n);
            let x = r->Ok_0;
            &&& a.role is Some
            &&& e.is_dialogue && k.error is Some ==> r == Err::<LoadView, ErrorView>(k.error->0)
            &&& !(e.is_dialogue && k.error is Some) ==> r is Ok && x.data.markers == marked(
                l,
                n,
                e,
                a,
            ) && x.data == (AssDataView { lines: x.data.lines, markers: x.data.markers, ..l.data })
            &&& !e.is_dialogue || (k.error is None && k.syllables.len() == 0) ==> x.data.lines
                == l.data.lines && x.last_main == l.last_main && x.last_bg == l.last_bg
            &&& e.is_dialogue && k.error is None && k.syllables.len() > 0 ==> {
                &&& x.data.lines == l.data.lines.push(
                    LineView {
                        line_num: n,
                        start,
                        end: k.end,
                        content: Some(
                            ContentView::LyricLine {
                                role: a.role->0,
                                syllables: k.syllables,
                                bg_translation: None,
                                bg_romanization: None,
                            },
                        ),
                        song_part: a.song_part,
                    },
                )
                &&& a.is_background ==> x.last_bg == Some(l.data.lines.len()) && x.last_main
                    == l.last_main
                &&& !a.is_background ==> x.last_main == Some(l.data.lines.len()) && x.last_bg
                    == l.last_bg
            }
        }),
{
    lemma_styles();
}

/// A translation that starts with the last main line becomes a line at its end, with
/// its own times, language and text, and its language is that of the file where none
/// is known yet. Another translation is not kept.
pub proof fn law_translation_event(
    l: LoadView,
    n: nat,
    e: EventView,
    style_lower: Seq<char>,
    effect_lower: Seq<char>,
    start: nat,
    end: nat,
    a: ActorView,
)
    requires
        e.style == "ts"@ || e.style == "trans"@,
        reads(e, n, style_lower, effect_lower, start, end, a),
    ensures
        ({
            let r = after_event(l, n, e, style_lower, effect_lower);
            let x = r->Ok_0;
            let known = l.data.detected_translation_language;
            let found = x.data.detected_translation_language;
            &&& r is Ok
            &&& x.data.markers == marked(l, n, e, a)
            &&& x.last_main == l.last_main
            &&& x.last_bg == l.last_bg
            &&& x.data == (AssDataView {
                lines: x.data.lines,
                markers: x.data.markers,
                detected_translation_language: found,
                ..l.data
            })
            &&& !starts_at(l, l.last_main, start) ==> x.data.lines == l.data.lines && found == known
            &&& starts_at(l, l.last_main, start) ==> {
                &&& x.data.lines == l.data.lines.push(
                    LineView {
                        line_num: n,
                        start,
                        end,
                        content: Some(
                            ContentView::MainTranslation { lang_code: a.lang_code, text: e.text },
                        ),
                        song_part: a.song_part,
                    },
                )
                &&& known is Some ==> found == known
                &&& known is None && a.lang_code is Some && a.lang_code->0.len() > 0 ==> found
                    == a.lang_code
                &&& known is None && (a.lang_code is None || a.lang_code->0.len() == 0) ==> found
                    is None
            }
        }),
{
    lemma_styles();
}

/// A romanization that starts with the last main line becomes a line at its end,
/// with its own times and text. Another romanization is not kept.
pub proof fn law_romanization_event(
    l: LoadView,
    n: nat,
    e: EventView,
    style_lower: Seq<char>,
    effect_lower: Seq<char>,
    start: nat,
    end: nat,
    a: ActorView,
)
    requires
        e.style == "roma"@,
        reads(e, n, style_lower, effect_lower, start, end, a),
    ensures
        ({
            let r = after_event(l, n, e, style_lower, effect_lower);
            let x = r->Ok_0;
            &&& r is Ok
            &&& x.data.markers == marked(l, n, e, a)
            &&& x.last_main == l.last_main
            &&& x.last_bg == l.last_bg
            &&& x.data == (AssDataView {
                lines: x.data.lines,
                markers: x.data.markers,
                ..l.data
            })
            &&& !starts_at(l, l.last_main, start) ==> x.data.lines == l.data.lines
            &&& starts_at(l, l.last_main, start) ==> x.data.lines == l.data.lines.push(
                LineView {
                    line_num: n,
                    start,
                    end,
                    content: Some(ContentView::MainRomanization { text: e.text }),
                    song_part: a.song_part,
                },
            )
        }),
{
    lemma_styles();
}

/// A translation or romanization of the background voice that starts with the last
/// background line is added to that line and leaves the rest of it as it is. Another
/// is not kept.
pub proof fn law_background_event(
    l: LoadView,
    n: nat,
    e: EventView,
    style_lower: Seq<char>,
    effect_lower: Seq<char>,
    start: nat,
    end: nat,
    a: ActorView,
)
    requires
        e.style == "bg-ts"@ || e.style == "bg-roma"@,
        reads(e, n, style_lower, effect_lower, start, end, a),
    ensures
        ({
            let r = after_event(l, n, e, style_lower, effect_lower);
            let x = r->Ok_0;
            let i = l.last_bg->0 as int;
            let was = l.data.lines[i];
            let is = x.data.lines[i];
            let known = l.data.detected_translation_language;
            let found = x.data.detected_translation_language;
            &&& r is Ok
            &&& x.data.markers == marked(l, n, e, a)
            &&& x.last_main == l.last_main
            &&& x.last_bg == l.last_bg
            &&& x.data == (AssDataView {
                lines: x.data.lines,
                markers: x.data.markers,
                detected_translation_language: found,
                ..l.data
            })
            &&& !starts_at(l, l.last_bg, start) ==> x.data.lines == l.data.lines && found == known
            &&& e.style == "bg-roma"@ ==> found == known
            &&& starts_at(l, l.last_bg, start) ==> {
                &&& x.data.lines.len() == l.data.lines.len()
                &&& forall|k: int|
                    0 <= k < l.data.lines.len() && k != i ==> #[trigger] x.data.lines[k]
                        == l.data.lines[k]
                &&& is.line_num == was.line_num
                &&& is.start == was.start
                &&& is.end == was.end
                &&& is.song_part == was.song_part
                &&& was.content is Some && was.content->0 is LyricLine ==> {
                    &&& is.content is Some
                    &&& is.content->0 is LyricLine
                    &&& is.content->0->role == was.content->0->role
                    &&& is.content->0->syllables == was.content->0->syllables
                    &&& e.style == "bg-ts"@ ==> {
                        &&& is.content->0->bg_translation == Some((a.lang_code, e.text))
                        &&& is.content->0->bg_romanization == was.content->0->bg_romanization
                        &&& known is Some ==> found == known
                        &&& known is None && a.lang_code is Some && a.lang_code->0.len() > 0
                            ==> found == a.lang_code
                        &&& known is None && (a.lang_code is None || a.lang_code->0.len() == 0)
                            ==> found is None
                    }
                    &&& e.style == "bg-roma"@ ==> {
                        &&& is.content->0->bg_romanization == Some(e.text)
                        &&& is.content->0->bg_translation == was.content->0->bg_translation
                    }
                }
            }
        }),
{
    lemma_styles();
}

/// A comment of the style `meta` at time zero gives metadata: what stands before the
/// first colon is the key, what stands behind it is the value, both without white
/// space at their ends. Every entry is kept in order. The language is that of the
/// last entry `lang` in any case, the songwriters are those of all entries
/// `songwriter`, in order, the names of the singers those of the last `v1` and `v2`,
/// and the id that of the last `appleMusicId`; of all but the id only entries with a
/// value count.
pub proof fn law_metadata_event(
    l: LoadView,
    n: nat,
    e: EventView,
    style_lower: Seq<char>,
    effect_lower: Seq<char>,
    a: ActorView,
    before: Seq<char>,
    behind: Seq<char>,
)
    requires
        e.style == "meta"@,
        !e.is_dialogue,
        reads(e, n, style_lower, effect_lower, 0, 0, a),
        e.text == before + ":"@ + behind,
        forall|k: int| 0 <= k < before.len() ==> #[trigger] before[k] != ':',
        trim(before).len() > 0,
    ensures
        ({
            let r = after_event(l, n, e, style_lower, effect_lower);
            let x = r->Ok_0;
            let key = trim(before);
            let value = trim(behind);
            &&& r is Ok
            &&& x.data.markers == marked(l, n, e, a)
            &&& x.last_main == l.last_main
            &&& x.last_bg == l.last_bg
            &&& x.data.lines == l.data.lines
            &&& x.data.detected_translation_language == l.data.detected_translation_language
            &&& x.data.metadata == l.data.metadata.push((key, value))
            &&& x.data.songwriters == (if key == "songwriter"@ && value.len() > 0 {
                l.data.songwriters.push(value)
            } else {
                l.data.songwriters
            })
            &&& x.data.apple_music_id == (if key == "appleMusicId"@ {
                value
            } else {
                l.data.apple_music_id
            })
            &&& x.data.language_code == (if eq_ignore_case(key, "lang"@) && value.len() > 0 {
                Some(value)
            } else {
                l.data.language_code
            })
            &&& (key == "v1"@ || key == "v2"@) && value.len() > 0 ==> {
                &&& x.data.agent_names.contains((key, value))
                &&& forall|p: (Seq<char>, Seq<char>)|
                    p.0 != key ==> (#[trigger] x.data.agent_names.contains(p)
                        <==> l.data.agent_names.contains(p))
            }
            &&& !((key == "v1"@ || key == "v2"@) && value.len() > 0) ==> x.data.agent_names
                == l.data.agent_names
        }),
{
    lemma_styles();
    lemma_key_and_value(e.text, before, behind);
    lemma_named(l.data.agent_names, trim(before), trim(behind));
}

/// A comment of the style `meta` whose key is blank gives no metadata.
pub proof fn law_blank_key(
    l: LoadView,
    n: nat,
    e: EventView,
    style_lower: Seq<char>,
    effect_lower: Seq<char>,
    a: ActorView,
    before: Seq<char>,
    behind: Seq<char>,
)
    requires
        e.style == "meta"@,
        !e.is_dialogue,
        reads(e, n, style_lower, effect_lower, 0, 0, a),
        e.text == before + ":"@ + behind,
        forall|k: int| 0 <= k < before.len() ==> #[trigger] before[k] != ':',
        trim(before).len() == 0,
    ensures
        ({
            let r = after_event(l, n, e, style_lower, effect_lower);
            &&& r is Ok
            &&& r->Ok_0.data.markers == marked(l, n, e, a)
            &&& r->Ok_0 == (LoadView {
                data: AssDataView { markers: r->Ok_0.data.markers, ..l.data },
                ..l
            })
        }),
{
    lemma_styles();
    lemma_key_and_value(e.text, before, behind);
}

/// What stands before the first colon and behind it.
proof fn lemma_key_and_value(text: Seq<char>, before: Seq<char>, behind: Seq<char>)
    requires
        text == before + ":"@ + behind,
        forall|k: int| 0 <= k < before.len() ==> #[trigger] before[k] != ':',
    ensures
        ({
            let colon = next_of(text, seq![':'], 0);
            &&& colon < text.len()
            &&& text.subrange(0, colon) == before
            &&& text.subrange(colon + 1, text.len() as int) == behind
        }),
{
    reveal_strlit(":");
    let colon = next_of(text, seq![':'], 0);
    lemma_next_of(text, seq![':'], 0);
    assert(seq![':'][0] == ':');
    assert(text[before.len() as int] == ':');
    assert(seq![':'].contains(text[before.len() as int]));
    if colon < before.len() {
        assert(text[colon] == before[colon]);
        let k = choose|k: int| 0 <= k < seq![':'].len() && seq![':'][k] == text[colon];
        assert(k == 0);
    }
    assert(colon == before.len());
    assert(text.subrange(0, colon) =~= before);
    assert(text.subrange(colon + 1, text.len() as int) =~= behind);
}

/// A name that is set is there, and the others stay.
pub proof fn lemma_named(
    pairs: Seq<(Seq<char>, Seq<char>)>,
    key: Seq<char>,
    value: Seq<char>,
)
    ensures
        with_pair(pairs, key, value).contains((key, value)),
        forall|p: (Seq<char>, Seq<char>)|
            p.0 != key ==> (#[trigger] with_pair(pairs, key, value).contains(p) <==> pairs.contains(
                p,
            )),
{
    let at = lemma_place(pairs, key, 0);
    lemma_with_pair(pairs, key, value, at);
    let now = with_pair(pairs, key, value);
    assert(now[at] == (key, value));
    assert forall|p: (Seq<char>, Seq<char>)| p.0 != key implies (#[trigger] now.contains(p)
        <==> pairs.contains(p)) by {
        if pairs.contains(p) {
            let k = choose|k: int| 0 <= k < pairs.len() && pairs[k] == p;
            assert(now[k] == p);
        }
        if now.contains(p) {
            let k = choose|k: int| 0 <= k < now.len() && now[k] == p;
            assert(pairs[k] == p);
        }
    }
}

/// Where a key stands, or the end of the list.
pub proof fn lemma_place(pairs: Seq<(Seq<char>, Seq<char>)>, key: Seq<char>, from: int) -> (at: int)
    requires
        0 <= from <= pairs.len(),
    ensures
        from <= at <= pairs.len(),
        forall|k: int| from <= k < at ==> (#[trigger] pairs[k]).0 != key,
        at < pairs.len() ==> pairs[at].0 == key,
    decreases pairs.len() - from,
{
    if from == pairs.len() || pairs[from].0 == key {
        from
    } else {
        lemma_place(pairs, key, from + 1)
    }
}

/// An event of the style `meta` that is a dialogue, or that is not at time zero, or
/// whose text has no colon gives no metadata. Neither does one of a style that has
/// no meaning. It can still be a marker.
pub proof fn law_events_without_meaning(
    l: LoadView,
    n: nat,
    e: EventView,
    style_lower: Seq<char>,
    effect_lower: Seq<char>,
    start: nat,
    end: nat,
    a: ActorView,
)
    requires
        reads(e, n, style_lower, effect_lower, start, end, a),
        e.style != "orig"@,
        e.style != "default"@,
        e.style != "ts"@,
        e.style != "trans"@,
        e.style != "roma"@,
        e.style != "bg-ts"@,
        e.style != "bg-roma"@,
        e.style == "meta"@ ==> e.is_dialogue || start != 0 || end != 0 || forall|k: int|
            0 <= k < e.text.len() ==> #[trigger] e.text[k] != ':',
    ensures
        ({
            let r = after_event(l, n, e, style_lower, effect_lower);
            &&& r is Ok
            &&& r->Ok_0.data.markers == marked(l, n, e, a)
            &&& r->Ok_0 == (LoadView {
                data: AssDataView { markers: r->Ok_0.data.markers, ..l.data },
                ..l
            })
        }),
{
    let ds = seq![':'];
    lemma_next_of(e.text, ds, 0);
    let colon = next_of(e.text, ds, 0);
    if colon < e.text.len() {
        let k = choose|k: int| 0 <= k < ds.len() && ds[k] == e.text[colon];
        assert(k == 0);
        assert(e.text[colon] == ':');
    }
}

/// A line of a file is read as an event where it is one, without the white space round it,
/// and otherwise says nothing. What style and effect an event has is told in lower case.
pub proof fn law_line_is_read(l: LoadView, n: nat, raw: Seq<char>)
    ensures
        ({
            let e = event_fields(trim(raw));
            &&& e is None ==> after_line(l, n, raw) == Ok::<LoadView, ErrorView>(l)
            &&& e is Some ==> after_line(l, n, raw) == after_event(
                l,
                n,
                e->0,
                lower_case(e->0.style),
                lower_case(e->0.effect),
            )
        }),
{
}

/// The lines of a file stand between its line feeds. They are read in order, each with its
/// number, the first with one, and the first that cannot be read ends the reading.
pub proof fn law_lines_in_order(lines: Seq<Seq<char>>, n: nat, a: Seq<char>, b: Seq<char>)
    requires
        n < lines.len(),
        forall|k: int| 0 <= k < a.len() ==> #[trigger] a[k] != '\n',
    ensures
        load_lines(lines, n) is Ok ==> load_lines(lines, n + 1) == after_line(
            load_lines(lines, n)->Ok_0,
            n + 1,
            lines[n as int],
        ),
        load_lines(lines, n) is Err ==> load_lines(lines, n + 1) == load_lines(lines, n),
        load_lines(lines, 0) is Ok,
        ({
            let l = load_lines(lines, 0)->Ok_0;
            &&& l.data.lines.len() == 0
            &&& l.data.metadata.len() == 0
            &&& l.data.markers.len() == 0
            &&& l.data.songwriters.len() == 0
            &&& l.data.agent_names.len() == 0
            &&& l.data.apple_music_id.len() == 0
            &&& l.data.language_code is None
            &&& l.data.detected_translation_language is None
            &&& l.last_main is None
            &&& l.last_bg is None
        }),
        file_lines(a) == seq![a],
        file_lines(a.push('\n') + b) == seq![a] + file_lines(b),
{
    let ds = seq!['\n'];
    assert(ds[0] == '\n');
    assert(ds.contains('\n'));
    assert forall|k: int| 0 <= k < a.len() implies !ds.contains(#[trigger] a[k]) by {
        if ds.contains(a[k]) {
            let m = choose|m: int| 0 <= m < ds.len() && ds[m] == a[k];
            assert(m == 0);
        }
    }
    law_split(a, '\n', b, ds);
}

} // verus!
