//! What stands in a written ASS file, said of the paragraphs that it is written from.

use vstd::prelude::*;

use crate::ass_generator::{
    actor_name, ass_file, ass_time_text, bare_bg_text, duration_cs, events, karaoke_line,
    karaoke_prefix, paragraph_lines, romanization_line, sung_line, syllable_piece, translation_line,
    ASS_HEADER,
};
use crate::text::{dec, dec2, lemma_concat4, trim_end};
use crate::types::{
    opt_view, paragraph_views, text_lang_view, ttml_views, BackgroundSection, TtmlParagraph,
    TtmlSyllable,
};

verus! {

/// A time is written as hours, minutes, seconds and hundredths of a second, where
/// the last are the nearest; a half counts up.
pub proof fn law_written_time(h: nat, m: nat, s: nat, c: nat, ms: nat)
    requires
        m < 60,
        s < 60,
        c < 100,
        ms + 5 >= 3_600_000 * h + 60_000 * m + 1000 * s + 10 * c,
        ms < 3_600_000 * h + 60_000 * m + 1000 * s + 10 * c + 5,
    ensures
        ass_time_text(ms) == dec(h) + ":"@ + dec2(m) + ":"@ + dec2(s) + "."@ + dec2(c),
{
    let cs = (ms + 5) / 10;
    assert(cs == 360_000 * h + 6000 * m + 100 * s + c);
    assert(cs / 360_000 == h);
    assert(cs / 6000 == 60 * h + m);
    assert(cs / 6000 % 60 == m);
    assert(cs / 100 == 60 * (60 * h + m) + s);
    assert(cs / 100 % 60 == s);
    assert(cs % 100 == c);
}

/// An event as it is written.
pub open spec fn event_line(
    start: u64,
    end: u64,
    style: Seq<char>,
    actor: Seq<char>,
    text: Seq<char>,
) -> Seq<char> {
    "Dialogue: 0,"@ + ass_time_text(start as nat) + ","@ + ass_time_text(end as nat) + ","@ + style
        + ","@ + actor + ",0,0,0,,"@ + text + "\n"@
}

/// The lines of sung syllables: one from the start of the first to the end of the
/// last, where there is anything to sing.
pub open spec fn sung(v: Seq<TtmlSyllable>, who: Seq<char>, background: bool) -> Seq<char> {
    let text = karaoke_line(ttml_views(v), background);
    if v.len() > 0 && text.len() > 0 {
        event_line(v[0].start_ms, v.last().end_ms, "orig"@, who, text)
    } else {
        Seq::empty()
    }
}

/// The line of a translation, with the tag of its language where it is known.
pub open spec fn translated(
    start: u64,
    end: u64,
    style: Seq<char>,
    t: Option<(String, Option<String>)>,
) -> Seq<char> {
    if t is Some && (t->0).0@.len() > 0 {
        event_line(
            start,
            end,
            style,
            if (t->0).1 is Some {
                "x-lang:"@ + (t->0).1->0@
            } else {
                Seq::empty()
            },
            (t->0).0@,
        )
    } else {
        Seq::empty()
    }
}

/// The line of a romanization.
pub open spec fn romanized(start: u64, end: u64, style: Seq<char>, t: Option<String>) -> Seq<char> {
    if t is Some && t->0@.len() > 0 {
        event_line(start, end, style, Seq::empty(), t->0@)
    } else {
        Seq::empty()
    }
}

/// How a singer is written.
pub open spec fn written_singer(agent: Seq<char>, who: Seq<char>) -> bool {
    &&& agent == "v1"@ || agent == "V1"@ || agent.len() == 0 ==> who == "v1"@
    &&& agent == "v2"@ || agent == "V2"@ ==> who == "v2"@
    &&& agent == "v1000"@ || agent == "chorus"@ ==> who == "v1000"@
    &&& agent != "v1"@ && agent != "V1"@ && agent.len() > 0 && agent != "v2"@ && agent != "V2"@
        && agent != "v1000"@ && agent != "chorus"@ ==> who == agent
}

/// The lines of the background voice of a paragraph.
pub open spec fn behind(b: BackgroundSection) -> Seq<char> {
    sung(b.syllables@, "x-bg"@, true) + translated(b.start_ms, b.end_ms, "bg-ts"@, b.translation)
        + romanized(b.start_ms, b.end_ms, "bg-roma"@, b.romanization)
}

/// A paragraph adds to a file the line of its main voice, under the name of its
/// singer, the lines of its background voice, its translation and its romanization,
/// in this order, each where it is there and not empty. The styles are `orig` for what
/// is sung, `ts` and `roma` for the main voice and `bg-ts` and `bg-roma` for the
/// background voice.
pub proof fn law_written_paragraph(paragraphs: Seq<TtmlParagraph>, i: int)
    requires
        0 <= i < paragraphs.len(),
    ensures
        ({
            let list = paragraph_views(paragraphs);
            let p = paragraphs[i];
            exists|who: Seq<char>|
                {
                    &&& written_singer(p.agent@, who)
                    &&& events(list, (i + 1) as nat) == events(list, i as nat) + #[trigger] sung(
                        p.main_syllables@,
                        who,
                        false,
                    ) + (if p.background_section is Some {
                        behind(p.background_section->0)
                    } else {
                        Seq::empty()
                    }) + translated(p.p_start_ms, p.p_end_ms, "ts"@, p.translation) + romanized(
                        p.p_start_ms,
                        p.p_end_ms,
                        "roma"@,
                        p.romanization,
                    )
                }
        }),
{
    let list = paragraph_views(paragraphs);
    let p = paragraphs[i];
    assert(list[i] == p@);
    lemma_agents();
    let who = actor_name(p.agent@);
    assert(p.agent@.len() == 0 ==> p.agent@ =~= ""@);
    assert(written_singer(p.agent@, who));
    let m = sung(p.main_syllables@, who, false);
    let b = if p.background_section is Some {
        behind(p.background_section->0)
    } else {
        Seq::empty()
    };
    let t = translated(p.p_start_ms, p.p_end_ms, "ts"@, p.translation);
    let r = romanized(p.p_start_ms, p.p_end_ms, "roma"@, p.romanization);
    lemma_lines(p);
    lemma_concat4(events(list, i as nat), m, b, t, r);
}

/// The lines of a paragraph.
proof fn lemma_lines(p: TtmlParagraph)
    ensures
        paragraph_lines(p@) == sung(p.main_syllables@, actor_name(p.agent@), false) + (
        if p.background_section is Some {
            behind(p.background_section->0)
        } else {
            Seq::empty()
        }) + translated(p.p_start_ms, p.p_end_ms, "ts"@, p.translation) + romanized(
            p.p_start_ms,
            p.p_end_ms,
            "roma"@,
            p.romanization,
        ),
{
    lemma_sung(p.main_syllables@, actor_name(p.agent@), false);
    lemma_texts(p.p_start_ms, p.p_end_ms, "ts"@, p.translation, "roma"@, p.romanization);
    if p.background_section is Some {
        let b = p.background_section->0;
        lemma_sung(b.syllables@, "x-bg"@, true);
        lemma_texts(b.start_ms, b.end_ms, "bg-ts"@, b.translation, "bg-roma"@, b.romanization);
    }
}

/// The lines of a translation and a romanization.
proof fn lemma_texts(
    start: u64,
    end: u64,
    style: Seq<char>,
    t: Option<(String, Option<String>)>,
    other: Seq<char>,
    r: Option<String>,
)
    ensures
        translation_line(start as nat, end as nat, style, text_lang_view(t)) == translated(
            start,
            end,
            style,
            t,
        ),
        romanization_line(start as nat, end as nat, other, opt_view(r)) == romanized(
            start,
            end,
            other,
            r,
        ),
{
}

/// The names of singers are different ones.
proof fn lemma_agents()
    ensures
        ""@.len() == 0,
        "v1"@ != "v2"@,
        "V1"@ != "v2"@,
        "v1"@ != "V2"@,
        "V1"@ != "V2"@,
        "v1"@ != "v1000"@,
        "v1"@ != "chorus"@,
        "V1"@ != "v1000"@,
        "V1"@ != "chorus"@,
        "v2"@ != "v1000"@,
        "v2"@ != "chorus"@,
        "V2"@ != "v1000"@,
        "V2"@ != "chorus"@,
        "v1"@.len() > 0 && "V1"@.len() > 0 && "v2"@.len() > 0 && "V2"@.len() > 0,
        "v1000"@.len() > 0 && "chorus"@.len() > 0,
{
    reveal_strlit("");
    reveal_strlit("v1");
    reveal_strlit("V1");
    reveal_strlit("v2");
    reveal_strlit("V2");
    reveal_strlit("v1000");
    reveal_strlit("chorus");
    assert("v1"@[1] == '1' && "V1"@[1] == '1' && "v2"@[1] == '2' && "V2"@[1] == '2');
    assert("v1"@.len() == 2 && "V1"@.len() == 2 && "v2"@.len() == 2 && "V2"@.len() == 2);
    assert("v1000"@.len() == 5 && "chorus"@.len() == 6);
}

/// The lines of sung syllables.
proof fn lemma_sung(v: Seq<TtmlSyllable>, who: Seq<char>, background: bool)
    ensures
        sung_line(ttml_views(v), who, background) == sung(v, who, background),
{
    let list = ttml_views(v);
    assert(list.len() == v.len());
    if v.len() > 0 {
        assert(list[0] == v[0]@);
        assert(list.last() == v.last()@);
    }
}

/// Hundredths of a second, the nearest to `ms`.
pub open spec fn nearest_cs(ms: int) -> int {
    (ms + 5) / 10
}

/// A tag of this many hundredths of a second, where there are any.
pub open spec fn timed(cs: int) -> Seq<char> {
    if cs > 0 {
        "{\\k"@ + dec(cs as nat) + "}"@
    } else {
        Seq::empty()
    }
}

/// A syllable in a karaoke text, where `before` is the time that has been reached:
/// a tag for the time till it starts, a tag for its own time, which is one hundredth
/// at least where it lasts at all, its text and a space where one follows.
pub open spec fn written_syllable(s: TtmlSyllable, before: u64, background: bool) -> Seq<char> {
    let gap = if s.start_ms > before {
        nearest_cs(s.start_ms - before)
    } else {
        0
    };
    let own = if s.end_ms <= s.start_ms {
        0
    } else if s.end_ms - s.start_ms < 5 {
        1
    } else {
        nearest_cs(s.end_ms - s.start_ms)
    };
    timed(gap) + timed(own) + (if background {
        bare_bg_text(s.text@)
    } else {
        s.text@
    }) + (if s.ends_with_space {
        " "@
    } else {
        Seq::empty()
    })
}

/// Whether neither the gaps nor the syllables last 2^32 hundredths of a second.
pub open spec fn short_times(v: Seq<TtmlSyllable>) -> bool {
    forall|k: int|
        0 <= k < v.len() ==> (#[trigger] v[k]).start_ms < 0x9_ffff_fff0 && v[k].end_ms
            < 0x9_ffff_fff0
}

/// The syllables of a karaoke text, each written after the end of the one before.
pub open spec fn written_syllables(v: Seq<TtmlSyllable>, background: bool) -> Seq<Seq<char>> {
    Seq::new(
        v.len(),
        |k: int|
            written_syllable(
                v[k],
                if k == 0 {
                    v[0].start_ms
                } else {
                    v[k - 1].end_ms
                },
                background,
            ),
    )
}

/// The first syllables.
proof fn lemma_written(v: Seq<TtmlSyllable>, background: bool, n: nat)
    requires
        n <= v.len(),
        short_times(v),
    ensures
        karaoke_prefix(ttml_views(v), n, background) == written_syllables(v, background).take(
            n as int,
        ).flatten_alt(),
    decreases n,
{
    let w = written_syllables(v, background);
    if n > 0 {
        lemma_written(v, background, (n - 1) as nat);
        assert(w.take(n as int).drop_last() =~= w.take(n - 1));
        let list = ttml_views(v);
        assert(list[n - 1] == v[n - 1]@);
        assert(list[0] == v[0]@);
        let before = if n == 1 {
            v[0].start_ms
        } else {
            v[n - 2].end_ms
        };
        if n > 1 {
            assert(list[n - 2] == v[n - 2]@);
        }
        assert(v[n - 1].start_ms < 0x9_ffff_fff0);
        lemma_piece(v[n - 1], before, background);
        assert(w[n - 1] == written_syllable(v[n - 1], before, background));
    }
}

/// One syllable.
proof fn lemma_piece(s: TtmlSyllable, before: u64, background: bool)
    requires
        s.start_ms < 0x9_ffff_fff0,
        s.end_ms < 0x9_ffff_fff0,
    ensures
        syllable_piece(s@, before as nat, background) == written_syllable(s, before, background),
{
    if s.start_ms > before {
        let d = s.start_ms - before;
        assert((d + 5) / 10 < 0x1_0000_0000);
    }
    if s.end_ms > s.start_ms {
        let d = s.end_ms - s.start_ms;
        assert((d + 5) / 10 < 0x1_0000_0000);
    }
}

/// The text of a line that is sung is that of its syllables in order, without the
/// white space at its end.
pub proof fn law_written_karaoke(v: Seq<TtmlSyllable>, background: bool)
    requires
        short_times(v),
    ensures
        karaoke_line(ttml_views(v), background) == trim_end(
            written_syllables(v, background).flatten(),
        ),
{
    let w = written_syllables(v, background);
    lemma_written(v, background, v.len());
    assert(ttml_views(v).len() == v.len());
    assert(w.take(w.len() as int) =~= w);
    w.lemma_flatten_and_flatten_alt_are_equivalent();
}

/// A file is the header, the lines of metadata and the lines of the paragraphs, and
/// there are no lines without paragraphs.
pub proof fn law_written_file(paragraphs: Seq<TtmlParagraph>, metadata: Seq<char>)
    ensures
        ({
            let list = paragraph_views(paragraphs);
            &&& ass_file(list, metadata) == ASS_HEADER@ + metadata + events(list, list.len())
            &&& events(list, 0) == Seq::<char>::empty()
            &&& list.len() == paragraphs.len()
        }),
{
}

/// A duration is written in the nearest hundredths of a second, halves up, of which the
/// lowest 32 bits are kept.
pub proof fn law_written_duration(ms: nat, cs: nat, k: nat)
    requires
        cs < 0x1_0000_0000,
        ms + 5 >= 10 * (cs + k * 0x1_0000_0000),
        ms + 5 < 10 * (cs + k * 0x1_0000_0000) + 10,
    ensures
        duration_cs(ms) == cs,
{
    let all = cs + k * 0x1_0000_0000;
    assert((ms + 5) / 10 == all);
    assert(all % 0x1_0000_0000 == cs);
}

} // verus!
