//! Turns parsed lyrics into the lines that the player shows.

use vstd::prelude::*;

use super::protocol::{
    lyric_line_views, word_views, LyricLine, LyricLineView, LyricWord, NullString, WordView,
};
use super::types::{
    source_views, LyricSection, RomanizationEntry, SectionView, SourceLine, SourceLineView,
    TranslationEntry,
};
use crate::text::{eq_ignore_case, equal_ignoring_case, str_eq, to_chars};
use crate::types::{opt_view, SyllableView, TtmlSyllable};

verus! {

/// The word of a syllable: its text, with a space where one follows.
pub open spec fn word_of(s: SyllableView) -> WordView {
    WordView {
        start: s.start as u64,
        end: s.end as u64,
        word: if s.space {
            s.text + " "@
        } else {
            s.text
        },
    }
}

/// The words of syllables.
pub open spec fn words_of(v: Seq<SyllableView>) -> Seq<WordView> {
    Seq::new(v.len(), |i: int| word_of(v[i]))
}

/// Whether a translation is in the language that is preferred.
pub open spec fn is_preferred(t: (Seq<char>, Option<Seq<char>>)) -> bool {
    match t.1 {
        Some(lang) => eq_ignore_case(lang, "zh-CN"@),
        None => false,
    }
}

/// The first preferred translation at or after `i`, or the number of
/// translations.
pub open spec fn first_preferred(v: Seq<(Seq<char>, Option<Seq<char>>)>, i: int) -> int
    decreases v.len() - i,
{
    if i < 0 || i >= v.len() {
        v.len() as int
    } else if is_preferred(v[i]) {
        i
    } else {
        first_preferred(v, i + 1)
    }
}

/// The translation that is shown: the first preferred one, else the first, else
/// none.
pub open spec fn shown_translation(v: Seq<(Seq<char>, Option<Seq<char>>)>) -> Seq<char> {
    let i = first_preferred(v, 0);
    if i < v.len() {
        v[i].0
    } else if v.len() > 0 {
        v[0].0
    } else {
        Seq::empty()
    }
}

/// The romanization that is shown: the first, if there is one.
pub open spec fn shown_romanization(v: Seq<Seq<char>>) -> Seq<char> {
    if v.len() > 0 {
        v[0]
    } else {
        Seq::empty()
    }
}

/// The line of a section.
pub open spec fn line_of(s: SectionView, is_bg: bool, is_duet: bool) -> LyricLineView {
    LyricLineView {
        start: s.start,
        end: s.end,
        words: words_of(s.syllables),
        translated: shown_translation(s.translations),
        roman: shown_romanization(s.romanizations),
        is_bg,
        is_duet,
    }
}

/// The lines of a line: the main voice, and the background voice where there is
/// one.
pub open spec fn lines_of(l: SourceLineView, is_duet: bool) -> Seq<LyricLineView> {
    match l.background {
        Some(b) => seq![line_of(l.main, false, is_duet), line_of(b, true, is_duet)],
        None => seq![line_of(l.main, false, is_duet)],
    }
}

/// Whether the line is sung by a single singer: one that is named and is not the
/// chorus.
pub open spec fn has_singer(l: SourceLineView) -> bool {
    l.agent is Some && l.agent->0 != "v1000"@
}

/// The singers of the first `n` lines in the order in which they first appear.
pub open spec fn singers(lines: Seq<SourceLineView>, n: nat) -> Seq<Seq<char>>
    decreases n,
{
    if n == 0 {
        Seq::empty()
    } else {
        let before = singers(lines, (n - 1) as nat);
        let l = lines[n - 1];
        if has_singer(l) && !before.contains(l.agent->0) {
            before.push(l.agent->0)
        } else {
            before
        }
    }
}

/// Whether a line is shown on the side of the second voice: the singers take
/// turns in the order in which they first appear, and lines without a single
/// singer are not.
pub open spec fn is_duet_line(lines: Seq<SourceLineView>, i: int) -> bool {
    has_singer(lines[i]) && singers(lines, (i + 1) as nat).index_of(lines[i].agent->0) % 2 == 1
}

/// The lines of the first `n` lines.
pub open spec fn protocol_lines(lines: Seq<SourceLineView>, n: nat) -> Seq<LyricLineView>
    decreases n,
{
    if n == 0 {
        Seq::empty()
    } else {
        protocol_lines(lines, (n - 1) as nat) + lines_of(lines[n - 1], is_duet_line(lines, n - 1))
    }
}

/// No singer is listed twice, and every listed singer sings.
pub proof fn lemma_singers(lines: Seq<SourceLineView>, n: nat)
    ensures
        singers(lines, n).no_duplicates(),
    decreases n,
{
    if n > 0 {
        lemma_singers(lines, (n - 1) as nat);
    }
}

/// A singer keeps the place that it first took.
pub proof fn lemma_singers_stay(lines: Seq<SourceLineView>, n: nat, m: nat)
    requires
        n <= m,
    ensures
        singers(lines, n).len() <= singers(lines, m).len(),
        forall|k: int|
            0 <= k < singers(lines, n).len() ==> #[trigger] singers(lines, n)[k] == singers(
                lines,
                m,
            )[k],
    decreases m,
{
    if n < m {
        lemma_singers_stay(lines, n, (m - 1) as nat);
    }
}

/// All lines of one singer are on the same side.
pub proof fn law_same_singer_same_side(lines: Seq<SourceLineView>, i: int, j: int)
    requires
        0 <= i <= j < lines.len(),
        has_singer(lines[i]),
        lines[i].agent == lines[j].agent,
    ensures
        is_duet_line(lines, i) == is_duet_line(lines, j),
{
    let name = lines[i].agent->0;
    let a = singers(lines, (i + 1) as nat);
    let b = singers(lines, (j + 1) as nat);
    lemma_singers(lines, (i + 1) as nat);
    lemma_singers(lines, (j + 1) as nat);
    lemma_singers_stay(lines, (i + 1) as nat, (j + 1) as nat);
    assert(a.contains(name)) by {
        let before = singers(lines, i as nat);
        if !before.contains(name) {
            assert(a.last() == name);
        }
    }
    let k = a.index_of(name);
    assert(a[k] == name && 0 <= k < a.len());
    assert(b[k] == name);
    assert(b.index_of(name) == k);
}

/// The words of a line.
fn make_words(syllables: &Vec<TtmlSyllable>) -> (r: Vec<LyricWord>)
    ensures
        word_views(r@) == words_of(crate::types::ttml_views(syllables@)),
{
    let mut out: Vec<LyricWord> = Vec::new();
    let mut i: usize = 0;
    while i < syllables.len()
        invariant
            i <= syllables.len(),
            out@.len() == i,
            forall|k: int|
                0 <= k < i ==> (#[trigger] out@[k])@ == word_of(syllables@[k]@),
        decreases syllables.len() - i,
    {
        let s = &syllables[i];
        let mut text = s.text.clone();
        if s.ends_with_space {
            text.append(" ");
        }
        out.push(
            LyricWord { start_time: s.start_ms, end_time: s.end_ms, word: NullString(text) },
        );
        i += 1;
    }
    proof {
        assert(word_views(out@) =~= words_of(crate::types::ttml_views(syllables@)));
    }
    out
}

/// The translation that is shown.
fn pick_translation(v: &Vec<TranslationEntry>) -> (r: String)
    ensures
        r@ == shown_translation(
            Seq::new(v@.len(), |i: int| (v@[i].text@, opt_view(v@[i].lang))),
        ),
{
    let ghost all = Seq::new(v@.len(), |i: int| (v@[i].text@, opt_view(v@[i].lang)));
    let preferred = to_chars("zh-CN");
    let mut i: usize = 0;
    while i < v.len()
        invariant
            i <= v.len(),
            all == Seq::new(v@.len(), |i: int| (v@[i].text@, opt_view(v@[i].lang))),
            preferred@ == "zh-CN"@,
            first_preferred(all, 0) == first_preferred(all, i as int),
        decreases v.len() - i,
    {
        match &v[i].lang {
            Some(lang) => {
                let l = to_chars(lang.as_str());
                if equal_ignoring_case(l.as_slice(), preferred.as_slice()) {
                    return v[i].text.clone();
                }
            },
            None => {},
        }
        i += 1;
    }
    if v.len() > 0 {
        v[0].text.clone()
    } else {
        String::new()
    }
}

/// The romanization that is shown.
fn pick_romanization(v: &Vec<RomanizationEntry>) -> (r: String)
    ensures
        r@ == shown_romanization(Seq::new(v@.len(), |i: int| v@[i].text@)),
{
    if v.len() > 0 {
        v[0].text.clone()
    } else {
        String::new()
    }
}

/// The words, the translation and the romanization that are shown of a section.
pub fn extract_line_components(section: &LyricSection) -> (r: (Vec<LyricWord>, String, String))
    ensures
        word_views(r.0@) == words_of(section@.syllables),
        r.1@ == shown_translation(section@.translations),
        r.2@ == shown_romanization(section@.romanizations),
{
    (
        make_words(&section.syllables),
        pick_translation(&section.translations),
        pick_romanization(&section.romanizations),
    )
}

/// The line of a section.
fn make_line(section: &LyricSection, is_bg: bool, is_duet: bool) -> (r: LyricLine)
    ensures
        r@ == line_of(section@, is_bg, is_duet),
{
    let (words, translated, roman) = extract_line_components(section);
    LyricLine {
        start_time: section.start_ms,
        end_time: section.end_ms,
        words,
        translated_lyric: NullString(translated),
        roman_lyric: NullString(roman),
        is_bg,
        is_duet,
    }
}

/// The place of a singer in the list.
fn singer_place(singers: &Vec<String>, name: &String) -> (r: Option<usize>)
    requires
        crate::text::views(singers@).no_duplicates(),
    ensures
        match r {
            Some(i) => crate::text::views(singers@).contains(name@) && crate::text::views(
                singers@,
            ).index_of(name@) == i,
            None => !crate::text::views(singers@).contains(name@),
        },
{
    let ghost all = crate::text::views(singers@);
    let mut i: usize = 0;
    while i < singers.len()
        invariant
            i <= singers.len(),
            all == crate::text::views(singers@),
            all.no_duplicates(),
            forall|k: int| 0 <= k < i ==> #[trigger] all[k] != name@,
        decreases singers.len() - i,
    {
        if singers[i] == *name {
            proof {
                assert(all[i as int] == name@);
                let k = all.index_of(name@);
                assert(all[k] == name@);
            }
            return Some(i);
        }
        i += 1;
    }
    None
}

/// Turns parsed lyrics into the lines that the player shows: per line the main
/// voice and then the background voice. Singers take turns on the two sides in
/// the order in which they first appear.
pub fn convert_to_protocol_lyrics(source: &Vec<SourceLine>) -> (r: Vec<LyricLine>)
    ensures
        lyric_line_views(r@) == protocol_lines(source_views(source@), source@.len()),
{
    let ghost lines = source_views(source@);
    let mut out: Vec<LyricLine> = Vec::new();
    let mut known: Vec<String> = Vec::new();
    proof {
        assert(lyric_line_views(out@) =~= protocol_lines(lines, 0));
        assert(crate::text::views(known@) =~= singers(lines, 0));
    }
    let mut i: usize = 0;
    while i < source.len()
        invariant
            i <= source.len(),
            lines == source_views(source@),
            lyric_line_views(out@) == protocol_lines(lines, i as nat),
            crate::text::views(known@) == singers(lines, i as nat),
        decreases source.len() - i,
    {
        let l = &source[i];
        let ghost known_before = known@;
        proof {
            assert(lines[i as int] == l@);
            lemma_singers(lines, i as nat);
            lemma_singers(lines, (i + 1) as nat);
        }
        let mut is_duet = false;
        match &l.agent {
            Some(name) => {
                if !str_eq(name.as_str(), "v1000") {
                    match singer_place(&known, name) {
                        Some(k) => {
                            is_duet = k % 2 == 1;
                        },
                        None => {
                            let k = known.len();
                            is_duet = k % 2 == 1;
                            known.push(name.clone());
                            proof {
                                assert(crate::text::views(known@) =~= crate::text::views(
                                    known_before,
                                ).push(name@));
                                let all = singers(lines, (i + 1) as nat);
                                assert(all[k as int] == name@);
                                assert(all[all.index_of(name@)] == name@);
                            }
                        },
                    }
                }
            },
            None => {},
        }
        proof {
            assert(is_duet == is_duet_line(lines, i as int));
        }
        let ghost out_before = out@;
        out.push(make_line(&l.main, false, is_duet));
        match &l.background {
            Some(b) => {
                out.push(make_line(b, true, is_duet));
            },
            None => {},
        }
        proof {
            assert(lyric_line_views(out@) =~= lyric_line_views(out_before) + lines_of(
                lines[i as int],
                is_duet,
            ));
        }
        i += 1;
    }
    out
}

} // verus!
