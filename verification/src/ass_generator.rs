//! Writes ASS files.

use vstd::prelude::*;

use crate::text::{
    dec, dec2, has_char, lemma_assoc, push_dec, push_dec2, str_eq, string_of, to_chars, trim,
    trim_end, trimmed, trimmed_end,
};
use crate::types::{
    paragraph_views, ttml_views, BackgroundSection, BackgroundView, ConvertError, ParagraphView,
    SyllableView, TtmlParagraph, TtmlSyllable,
};

verus! {

/// The part of every file in front of its events.
pub const ASS_HEADER: &'static str = "[Script Info]\nScriptType: v4.00+\nPlayResX: 1920\nPlayResY: 1440\n\n[V4+ Styles]\nFormat: Name, Fontname, Fontsize, PrimaryColour, SecondaryColour, OutlineColour, BackColour, Bold, Italic, Underline, StrikeOut, ScaleX, ScaleY, Spacing, Angle, BorderStyle, Outline, Shadow, Alignment, MarginL, MarginR, MarginV, Encoding\nStyle: Default,Arial,100,&H00FFFFFF,&H000000FF,&H00000000,&H00000000,0,0,0,0,100,100,0,0,1,2,1,2,10,10,10,1\nStyle: orig,Arial,100,&H00FFFFFF,&H000000FF,&H00000000,&H00000000,0,0,0,0,100,100,0,0,1,2,1,2,10,10,10,1\nStyle: ts,Arial,60,&H00D3D3D3,&H000000FF,&H00000000,&H00000000,0,0,0,0,100,100,0,0,1,1,1,2,10,10,60,1\nStyle: roma,Arial,60,&H00D3D3D3,&H000000FF,&H00000000,&H00000000,0,0,0,0,100,100,0,0,1,1,1,2,10,10,60,1\nStyle: bg-ts,Arial,55,&H00A0A0A0,&H000000FF,&H00000000,&H00000000,0,0,0,0,100,100,0,0,1,1,1,2,10,10,80,1\nStyle: bg-roma,Arial,55,&H00A0A0A0,&H000000FF,&H00000000,&H00000000,0,0,0,0,100,100,0,0,1,1,1,2,10,10,80,1\nStyle: meta,Arial,50,&H00C0C0C0,&H000000FF,&H00000000,&H00000000,0,0,0,0,100,100,0,0,1,1,0,1,0,0,0,1\n\n[Events]\nFormat: Layer, Start, End, Style, Name, MarginL, MarginR, MarginV, Effect, Text\n";

// ---------------------------------------------------------------------------
// Times and durations
// ---------------------------------------------------------------------------

/// Whether a time or duration can be rounded to centiseconds in 64 bits.
pub open spec fn can_round(ms: nat) -> bool {
    ms + 5 <= u64::MAX
}

/// Milliseconds rounded to centiseconds, halves up.
pub open spec fn centiseconds(ms: nat) -> nat {
    (ms + 5) / 10
}

/// A time as `H:MM:SS.CC`.
pub open spec fn ass_time_text(ms: nat) -> Seq<char> {
    let cs = centiseconds(ms);
    dec(cs / 360_000) + ":"@ + dec2(cs / 6000 % 60) + ":"@ + dec2(cs / 100 % 60) + "."@ + dec2(
        cs % 100,
    )
}

/// Writes a time as `H:MM:SS.CC`, rounded to centiseconds.
pub fn format_ass_time(ms: u64) -> (r: String)
    requires
        can_round(ms as nat),
    ensures
        r@ == ass_time_text(ms as nat),
{
    let total_cs: u64 = (ms + 5) / 10;
    let cs: u64 = total_cs % 100;
    let total_seconds: u64 = total_cs / 100;
    let seconds: u64 = total_seconds % 60;
    let total_minutes: u64 = total_seconds / 60;
    let minutes: u64 = total_minutes % 60;
    let hours: u64 = total_minutes / 60;
    let mut out = String::new();
    push_dec(&mut out, hours);
    out.append(":");
    push_dec2(&mut out, minutes);
    out.append(":");
    push_dec2(&mut out, seconds);
    out.append(".");
    push_dec2(&mut out, cs);
    proof {
        assert(hours == total_cs / 360_000);
        assert(minutes == total_cs / 6000 % 60);
        assert(out@ =~= ass_time_text(ms as nat));
    }
    out
}

/// A duration in centiseconds, as its lowest 32 bits.
pub open spec fn duration_cs(ms: nat) -> nat {
    centiseconds(ms) % 0x1_0000_0000
}

/// Rounds a duration to centiseconds and keeps the lowest 32 bits.
pub fn round_duration_to_cs(duration_ms: u64) -> (r: u32)
    requires
        can_round(duration_ms as nat),
    ensures
        r == duration_cs(duration_ms as nat),
{
    ((duration_ms + 5) / 10 % 0x1_0000_0000) as u32
}

// ---------------------------------------------------------------------------
// Background texts
// ---------------------------------------------------------------------------

/// `s` without the characters of `ds` at its front.
pub open spec fn without_front(s: Seq<char>, ds: Seq<char>) -> Seq<char>
    decreases s.len(),
{
    if s.len() > 0 && ds.contains(s[0]) {
        without_front(s.subrange(1, s.len() as int), ds)
    } else {
        s
    }
}

/// `s` without the characters of `ds` at its end.
pub open spec fn without_back(s: Seq<char>, ds: Seq<char>) -> Seq<char>
    decreases s.len(),
{
    if s.len() > 0 && ds.contains(s.last()) {
        without_back(s.drop_last(), ds)
    } else {
        s
    }
}

/// A background text without the parentheses round it and white space at its
/// ends.
pub open spec fn bare_bg_text(s: Seq<char>) -> Seq<char> {
    trim(without_back(without_front(trim(s), seq!['(', '（']), seq![')', '）']))
}

/// Strips characters from the front.
fn strip_front<'a>(s: &'a [char], ds: &[char]) -> (r: &'a [char])
    ensures
        r@ == without_front(s@, ds@),
{
    let mut i: usize = 0;
    proof {
        assert(s@.subrange(0, s@.len() as int) =~= s@);
    }
    while i < s.len() && has_char(ds, s[i])
        invariant
            i <= s.len(),
            without_front(s@, ds@) == without_front(s@.subrange(i as int, s@.len() as int), ds@),
        decreases s.len() - i,
    {
        proof {
            let t = s@.subrange(i as int, s@.len() as int);
            assert(t.subrange(1, t.len() as int) =~= s@.subrange(i + 1, s@.len() as int));
        }
        i += 1;
    }
    vstd::slice::slice_subrange(s, i, s.len())
}

/// Strips characters from the end.
pub(crate) fn strip_back<'a>(s: &'a [char], ds: &[char]) -> (r: &'a [char])
    ensures
        r@ == without_back(s@, ds@),
{
    let mut n: usize = s.len();
    proof {
        assert(s@.subrange(0, n as int) =~= s@);
    }
    while n > 0 && has_char(ds, s[n - 1])
        invariant
            n <= s.len(),
            without_back(s@, ds@) == without_back(s@.subrange(0, n as int), ds@),
        decreases n,
    {
        proof {
            assert(s@.subrange(0, n as int).drop_last() =~= s@.subrange(0, n - 1));
        }
        n -= 1;
    }
    vstd::slice::slice_subrange(s, 0, n)
}

/// Takes the parentheses round a background text away.
pub fn clean_parentheses_from_bg_text(text: &str) -> (r: String)
    ensures
        r@ == bare_bg_text(text@),
{
    let v = to_chars(text);
    let open: [char; 2] = ['(', '（'];
    let close: [char; 2] = [')', '）'];
    proof {
        assert(open@ =~= seq!['(', '（']);
        assert(close@ =~= seq![')', '）']);
    }
    string_of(trimmed(strip_back(strip_front(trimmed(v.as_slice()), &open), &close)))
}

// ---------------------------------------------------------------------------
// Karaoke texts
// ---------------------------------------------------------------------------

/// The karaoke tag of a duration.
pub open spec fn tag(cs: nat) -> Seq<char> {
    "{\\k"@ + dec(cs) + "}"@
}

/// `a - b`, or zero where `b` is larger.
pub open spec fn minus(a: nat, b: nat) -> nat {
    if a >= b {
        (a - b) as nat
    } else {
        0
    }
}

/// The centiseconds that a syllable is written with: at least one where it lasts
/// at all.
pub open spec fn syllable_cs(s: SyllableView) -> nat {
    let ms = minus(s.end, s.start);
    if duration_cs(ms) == 0 && ms > 0 {
        1
    } else {
        duration_cs(ms)
    }
}

/// The text of a syllable, cleaned in a background line.
pub open spec fn syllable_text(s: SyllableView, background: bool) -> Seq<char> {
    if background {
        bare_bg_text(s.text)
    } else {
        s.text
    }
}

/// The time that a line has reached before its syllable `i`.
pub open spec fn reached(syllables: Seq<SyllableView>, i: int) -> nat {
    if i <= 0 {
        syllables[0].start
    } else {
        syllables[i - 1].end
    }
}

/// The karaoke tag of a duration, or nothing where it is zero.
pub open spec fn tag_if_any(cs: nat) -> Seq<char> {
    if cs > 0 {
        tag(cs)
    } else {
        Seq::empty()
    }
}

/// A space, or nothing.
pub open spec fn space_if(space: bool) -> Seq<char> {
    if space {
        " "@
    } else {
        Seq::empty()
    }
}

/// A syllable with the gap before it.
pub open spec fn syllable_piece(s: SyllableView, before: nat, background: bool) -> Seq<char> {
    tag_if_any(duration_cs(minus(s.start, before))) + tag_if_any(syllable_cs(s)) + syllable_text(
        s,
        background,
    ) + space_if(s.space)
}

/// The first `n` syllables as a karaoke text.
pub open spec fn karaoke_prefix(syllables: Seq<SyllableView>, n: nat, background: bool) -> Seq<char>
    decreases n,
{
    if n == 0 {
        Seq::empty()
    } else {
        karaoke_prefix(syllables, (n - 1) as nat, background) + syllable_piece(
            syllables[n - 1],
            reached(syllables, n - 1),
            background,
        )
    }
}

/// The syllables as a karaoke text.
pub open spec fn karaoke_line(syllables: Seq<SyllableView>, background: bool) -> Seq<char> {
    trim_end(karaoke_prefix(syllables, syllables.len(), background))
}

/// An event line.
pub open spec fn dialogue(
    start: nat,
    end: nat,
    style: Seq<char>,
    actor: Seq<char>,
    text: Seq<char>,
) -> Seq<char> {
    "Dialogue: 0,"@ + ass_time_text(start) + ","@ + ass_time_text(end) + ","@ + style + ","@ + actor
        + ",0,0,0,,"@ + text + "\n"@
}

/// The event line of sung syllables: none where there is nothing to show.
pub open spec fn sung_line(syllables: Seq<SyllableView>, actor: Seq<char>, background: bool) -> Seq<
    char,
> {
    if syllables.len() == 0 || karaoke_line(syllables, background).len() == 0 {
        Seq::empty()
    } else {
        dialogue(
            syllables[0].start,
            syllables.last().end,
            "orig"@,
            actor,
            karaoke_line(syllables, background),
        )
    }
}

/// Whether the duration of syllable `i` and of the gap before it can be rounded.
pub open spec fn syllable_rounds(syllables: Seq<SyllableView>, i: int) -> bool {
    can_round(minus(syllables[i].start, reached(syllables, i))) && can_round(
        minus(syllables[i].end, syllables[i].start),
    )
}

/// Whether the times of sung syllables can be rounded.
pub open spec fn sung_rounds(syllables: Seq<SyllableView>) -> bool {
    syllables.len() > 0 ==> {
        &&& can_round(syllables[0].start)
        &&& can_round(syllables.last().end)
        &&& forall|i: int|
            0 <= i < syllables.len() ==> #[trigger] syllable_rounds(syllables, i)
    }
}

/// The actor field for a singer.
pub open spec fn actor_name(agent: Seq<char>) -> Seq<char> {
    if agent == "v2"@ || agent == "V2"@ {
        "v2"@
    } else if agent == "v1000"@ || agent == "chorus"@ {
        "v1000"@
    } else if agent == "v1"@ || agent == "V1"@ || agent == ""@ {
        "v1"@
    } else {
        agent
    }
}

/// The event line of a translation: none without a text.
pub open spec fn translation_line(
    start: nat,
    end: nat,
    style: Seq<char>,
    t: Option<(Seq<char>, Option<Seq<char>>)>,
) -> Seq<char> {
    match t {
        Some((text, lang)) => if text.len() == 0 {
            Seq::empty()
        } else {
            dialogue(
                start,
                end,
                style,
                match lang {
                    Some(code) => "x-lang:"@ + code,
                    None => Seq::empty(),
                },
                text,
            )
        },
        None => Seq::empty(),
    }
}

/// The event line of a romanization: none without a text.
pub open spec fn romanization_line(
    start: nat,
    end: nat,
    style: Seq<char>,
    t: Option<Seq<char>>,
) -> Seq<char> {
    match t {
        Some(text) => if text.len() == 0 {
            Seq::empty()
        } else {
            dialogue(start, end, style, Seq::empty(), text)
        },
        None => Seq::empty(),
    }
}

/// The event lines of a background voice.
pub open spec fn background_lines(b: BackgroundView) -> Seq<char> {
    sung_line(b.syllables, "x-bg"@, true) + translation_line(b.start, b.end, "bg-ts"@, b.translation)
        + romanization_line(b.start, b.end, "bg-roma"@, b.romanization)
}

/// The event lines of a paragraph.
pub open spec fn paragraph_lines(p: ParagraphView) -> Seq<char> {
    sung_line(p.syllables, actor_name(p.agent), false) + match p.background {
        Some(b) => background_lines(b),
        None => Seq::empty(),
    } + translation_line(p.start, p.end, "ts"@, p.translation) + romanization_line(
        p.start,
        p.end,
        "roma"@,
        p.romanization,
    )
}

/// Whether there is a translation or romanization to write.
pub open spec fn has_texts(
    translation: Option<(Seq<char>, Option<Seq<char>>)>,
    romanization: Option<Seq<char>>,
) -> bool {
    (translation is Some && (translation->0).0.len() > 0) || (romanization is Some
        && romanization->0.len() > 0)
}

/// Whether the times that a background voice is written with can be rounded.
pub open spec fn background_rounds(b: BackgroundView) -> bool {
    &&& sung_rounds(b.syllables)
    &&& has_texts(b.translation, b.romanization) ==> can_round(b.start) && can_round(b.end)
}

/// Whether the times that a paragraph is written with can be rounded.
pub open spec fn paragraph_rounds(p: ParagraphView) -> bool {
    &&& sung_rounds(p.syllables)
    &&& has_texts(p.translation, p.romanization) ==> can_round(p.start) && can_round(p.end)
    &&& match p.background {
        Some(b) => background_rounds(b),
        None => true,
    }
}

/// The event lines of the first `n` paragraphs.
pub open spec fn events(paragraphs: Seq<ParagraphView>, n: nat) -> Seq<char>
    decreases n,
{
    if n == 0 {
        Seq::empty()
    } else {
        events(paragraphs, (n - 1) as nat) + paragraph_lines(paragraphs[n - 1])
    }
}

/// A whole file: the header, the metadata and the events.
pub open spec fn ass_file(paragraphs: Seq<ParagraphView>, metadata_lines: Seq<char>) -> Seq<char> {
    ASS_HEADER@ + metadata_lines + events(paragraphs, paragraphs.len())
}

/// Appends a karaoke tag, unless the duration is zero.
fn push_tag(out: &mut String, cs: u32)
    ensures
        final(out)@ == old(out)@ + tag_if_any(cs as nat),
{
    if cs > 0 {
        out.append("{\\k");
        push_dec(out, cs as u64);
        out.append("}");
    }
    proof {
        assert(out@ =~= old(out)@ + tag_if_any(cs as nat));
    }
}

/// Appends a syllable with the gap before it.
fn push_syllable(out: &mut String, s: &TtmlSyllable, before: u64, background: bool)
    requires
        can_round(minus(s@.start, before as nat)),
        can_round(minus(s@.end, s@.start)),
    ensures
        final(out)@ == old(out)@ + syllable_piece(s@, before as nat, background),
{
    let gap = round_duration_to_cs(s.start_ms.saturating_sub(before));
    push_tag(out, gap);
    let ms = s.end_ms.saturating_sub(s.start_ms);
    let rounded = round_duration_to_cs(ms);
    let cs: u32 = if rounded == 0 && ms > 0 {
        1
    } else {
        rounded
    };
    push_tag(out, cs);
    if background {
        out.append(clean_parentheses_from_bg_text(s.text.as_str()).as_str());
    } else {
        out.append(s.text.as_str());
    }
    let ghost so_far = out@;
    if s.ends_with_space {
        out.append(" ");
    }
    proof {
        assert(out@ =~= so_far + space_if(s.ends_with_space));
        crate::text::lemma_concat4(
            old(out)@,
            tag_if_any(gap as nat),
            tag_if_any(cs as nat),
            syllable_text(s@, background),
            space_if(s.ends_with_space),
        );
    }
}

/// Builds the karaoke text of a line.
fn build_karaoke(syllables: &Vec<TtmlSyllable>, background: bool) -> (r: String)
    requires
        sung_rounds(ttml_views(syllables@)),
    ensures
        r@ == karaoke_line(ttml_views(syllables@), background),
{
    let mut out = String::new();
    let ghost list = ttml_views(syllables@);
    let mut i: usize = 0;
    while i < syllables.len()
        invariant
            i <= syllables.len(),
            list == ttml_views(syllables@),
            sung_rounds(list),
            out@ == karaoke_prefix(list, i as nat, background),
        decreases syllables.len() - i,
    {
        let before: u64 = if i == 0 {
            syllables[0].start_ms
        } else {
            syllables[i - 1].end_ms
        };
        proof {
            assert(list[i as int] == syllables@[i as int]@);
            assert(before == reached(list, i as int));
            assert(syllable_rounds(list, i as int));
        }
        push_syllable(&mut out, &syllables[i], before, background);
        i += 1;
    }
    let v = to_chars(out.as_str());
    string_of(trimmed_end(v.as_slice()))
}

/// Appends an event line.
fn push_dialogue(out: &mut String, start: u64, end: u64, style: &str, actor: &str, text: &str)
    requires
        can_round(start as nat),
        can_round(end as nat),
    ensures
        final(out)@ == old(out)@ + dialogue(start as nat, end as nat, style@, actor@, text@),
{
    out.append("Dialogue: 0,");
    out.append(format_ass_time(start).as_str());
    out.append(",");
    out.append(format_ass_time(end).as_str());
    out.append(",");
    out.append(style);
    out.append(",");
    out.append(actor);
    out.append(",0,0,0,,");
    out.append(text);
    out.append("\n");
    proof {
        assert(out@ =~= old(out)@ + dialogue(start as nat, end as nat, style@, actor@, text@));
    }
}

/// Appends the event line of sung syllables.
fn push_sung(out: &mut String, syllables: &Vec<TtmlSyllable>, actor: &str, background: bool)
    requires
        sung_rounds(ttml_views(syllables@)),
    ensures
        final(out)@ == old(out)@ + sung_line(ttml_views(syllables@), actor@, background),
{
    if syllables.len() > 0 {
        let text = build_karaoke(syllables, background);
        if !text.as_str().is_empty() {
            let ghost list = ttml_views(syllables@);
            let n: usize = syllables.len() - 1;
            proof {
                assert(list[0] == syllables@[0]@);
                assert(list.last() == syllables@[n as int]@);
            }
            push_dialogue(
                out,
                syllables[0].start_ms,
                syllables[n].end_ms,
                "orig",
                actor,
                text.as_str(),
            );
            return ;
        }
    }
    proof {
        assert(out@ =~= old(out)@ + Seq::<char>::empty());
    }
}

/// Appends the event line of a translation.
fn push_translation(
    out: &mut String,
    start: u64,
    end: u64,
    style: &str,
    t: &Option<(String, Option<String>)>,
)
    requires
        t is Some && (t->0).0@.len() > 0 ==> can_round(start as nat) && can_round(end as nat),
    ensures
        final(out)@ == old(out)@ + translation_line(
            start as nat,
            end as nat,
            style@,
            crate::types::text_lang_view(*t),
        ),
{
    match t {
        Some(p) => if !p.0.as_str().is_empty() {
            let mut actor = String::new();
            match &p.1 {
                Some(code) => {
                    actor.append("x-lang:");
                    actor.append(code.as_str());
                    proof {
                        assert(actor@ =~= "x-lang:"@ + code@);
                    }
                },
                None => {},
            }
            push_dialogue(out, start, end, style, actor.as_str(), p.0.as_str());
            return ;
        },
        None => {},
    }
    proof {
        assert(out@ =~= old(out)@ + Seq::<char>::empty());
    }
}

/// Appends the event line of a romanization.
fn push_romanization(out: &mut String, start: u64, end: u64, style: &str, t: &Option<String>)
    requires
        t is Some && t->0@.len() > 0 ==> can_round(start as nat) && can_round(end as nat),
    ensures
        final(out)@ == old(out)@ + romanization_line(
            start as nat,
            end as nat,
            style@,
            crate::types::opt_view(*t),
        ),
{
    match t {
        Some(text) => if !text.as_str().is_empty() {
            let empty = String::new();
            push_dialogue(out, start, end, style, empty.as_str(), text.as_str());
            return ;
        },
        None => {},
    }
    proof {
        assert(out@ =~= old(out)@ + Seq::<char>::empty());
    }
}

/// Appends the actor field for a singer.
fn actor_for(agent: &String) -> (r: String)
    ensures
        r@ == actor_name(agent@),
{
    let a = agent.as_str();
    if str_eq(a, "v2") || str_eq(a, "V2") {
        "v2".to_owned()
    } else if str_eq(a, "v1000") || str_eq(a, "chorus") {
        "v1000".to_owned()
    } else if str_eq(a, "v1") || str_eq(a, "V1") || str_eq(a, "") {
        "v1".to_owned()
    } else {
        agent.clone()
    }
}

/// Appends the event lines of a background voice, if there is one.
fn push_background(out: &mut String, section: &Option<BackgroundSection>)
    requires
        match section {
            Some(b) => background_rounds(b@),
            None => true,
        },
    ensures
        final(out)@ == old(out)@ + match section {
            Some(b) => background_lines(b@),
            None => Seq::empty(),
        },
{
    match section {
        Some(b) => {
            push_sung(out, &b.syllables, "x-bg", true);
            push_translation(out, b.start_ms, b.end_ms, "bg-ts", &b.translation);
            push_romanization(out, b.start_ms, b.end_ms, "bg-roma", &b.romanization);
            proof {
                crate::text::lemma_concat3(
                    old(out)@,
                    sung_line(b@.syllables, "x-bg"@, true),
                    translation_line(b@.start, b@.end, "bg-ts"@, b@.translation),
                    romanization_line(b@.start, b@.end, "bg-roma"@, b@.romanization),
                );
            }
        },
        None => {
            proof {
                assert(out@ =~= old(out)@ + Seq::<char>::empty());
            }
        },
    }
}

/// Appends the event lines of a paragraph.
fn push_paragraph(out: &mut String, p: &TtmlParagraph)
    requires
        paragraph_rounds(p@),
    ensures
        final(out)@ == old(out)@ + paragraph_lines(p@),
{
    let actor = actor_for(&p.agent);
    push_sung(out, &p.main_syllables, actor.as_str(), false);
    push_background(out, &p.background_section);
    push_translation(out, p.p_start_ms, p.p_end_ms, "ts", &p.translation);
    push_romanization(out, p.p_start_ms, p.p_end_ms, "roma", &p.romanization);
    proof {
        crate::text::lemma_concat4(
            old(out)@,
            sung_line(p@.syllables, actor_name(p@.agent), false),
            match p@.background {
                Some(b) => background_lines(b),
                None => Seq::empty(),
            },
            translation_line(p@.start, p@.end, "ts"@, p@.translation),
            romanization_line(p@.start, p@.end, "roma"@, p@.romanization),
        );
    }
}

/// Writes paragraphs as an ASS file; `metadata_lines` stands in front of the
/// events.
pub fn generate_ass(paragraphs: Vec<TtmlParagraph>, metadata_lines: &str) -> (r: Result<
    String,
    ConvertError,
>)
    requires
        forall|i: int| 0 <= i < paragraphs@.len() ==> paragraph_rounds(#[trigger] paragraphs@[i]@),
    ensures
        r is Ok,
        r->Ok_0@ == ass_file(paragraph_views(paragraphs@), metadata_lines@),
{
    let mut out = String::new();
    out.append(ASS_HEADER);
    out.append(metadata_lines);
    let ghost head = out@;
    let ghost list = paragraph_views(paragraphs@);
    proof {
        assert(out@ =~= head + events(list, 0));
        assert(head =~= ASS_HEADER@ + metadata_lines@);
    }
    let mut i: usize = 0;
    while i < paragraphs.len()
        invariant
            i <= paragraphs.len(),
            list == paragraph_views(paragraphs@),
            forall|i: int|
                0 <= i < paragraphs@.len() ==> paragraph_rounds(#[trigger] paragraphs@[i]@),
            out@ == head + events(list, i as nat),
        decreases paragraphs.len() - i,
    {
        push_paragraph(&mut out, &paragraphs[i]);
        proof {
            assert(list[i as int] == paragraphs@[i as int]@);
            assert(out@ =~= head + (events(list, i as nat) + paragraph_lines(list[i as int])));
        }
        i += 1;
    }
    Ok(out)
}

/// The events of joined lists of paragraphs, as far as the second list is written.
proof fn lemma_joined_events(a: Seq<ParagraphView>, b: Seq<ParagraphView>, n: nat)
    requires
        n <= b.len(),
    ensures
        events(a + b, a.len() + n) == events(a, a.len()) + events(b, n),
    decreases n,
{
    if n == 0 {
        lemma_events_in_front(a, b, a.len());
        assert(events(a, a.len()) + events(b, 0) =~= events(a, a.len()));
    } else {
        lemma_joined_events(a, b, (n - 1) as nat);
        assert((a + b)[a.len() + n - 1] == b[n - 1]);
        let x = events(a, a.len());
        let y = events(b, (n - 1) as nat);
        let z = paragraph_lines(b[n - 1]);
        lemma_assoc(x, y, z);
        assert(events(b, n) == y + z);
        assert(events(a + b, a.len() + n) == events(a + b, (a.len() + n - 1) as nat) + z);
    }
}

/// The events of the first paragraphs do not depend on those behind them.
proof fn lemma_events_in_front(a: Seq<ParagraphView>, b: Seq<ParagraphView>, n: nat)
    requires
        n <= a.len(),
    ensures
        events(a + b, n) == events(a, n),
    decreases n,
{
    if n > 0 {
        lemma_events_in_front(a, b, (n - 1) as nat);
        assert((a + b)[n - 1] == a[n - 1]);
    }
}

/// Writing joined lists of paragraphs gives the events of the one and then those of
/// the other.
pub proof fn law_joined_paragraphs_are_written_one_after_the_other(
    a: Seq<ParagraphView>,
    b: Seq<ParagraphView>,
    metadata_lines: Seq<char>,
)
    ensures
        events(a + b, (a + b).len()) == events(a, a.len()) + events(b, b.len()),
        ass_file(a + b, metadata_lines) == ass_file(a, metadata_lines) + events(b, b.len()),
{
    lemma_joined_events(a, b, b.len());
    let h = ASS_HEADER@ + metadata_lines;
    let x = events(a, a.len());
    let y = events(b, b.len());
    lemma_assoc(h, x, y);
}

} // verus!
