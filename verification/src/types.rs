//! The data that the lyric parsers, generators and processors share.

use vstd::prelude::*;

use crate::text::{views, IntProblem};

verus! {

/// The view of an optional string.
pub open spec fn opt_view(o: Option<String>) -> Option<Seq<char>> {
    match o {
        Some(s) => Some(s@),
        None => None,
    }
}

/// A copy of an optional string.
pub fn clone_opt(o: &Option<String>) -> (r: Option<String>)
    ensures
        opt_view(r) == opt_view(*o),
{
    match o {
        Some(s) => Some(s.clone()),
        None => None,
    }
}

// ---------------------------------------------------------------------------
// Errors
// ---------------------------------------------------------------------------

/// Why a lyric text could not be read.
#[derive(Debug, Clone)]
pub enum ConvertError {
    /// The text on this line is not an ASS time.
    InvalidAssTime(usize, String),
    /// A number cannot be read, for the reason given.
    ParseInt(IntProblem),
    /// A karaoke tag on this line is not valid.
    InvalidAssKaraoke(usize, String),
    /// The actor field of this line names more than one role.
    ConflictingActorTags { line_num: usize, tags: Vec<String> },
    /// A text is not the expected JSON.
    JsonParse(String),
    /// A JSON document does not have the expected shape.
    InvalidJsonStructure(String),
    /// Another failure.
    Internal(String),
}

/// A `ConvertError` with its texts as sequences.
pub enum ErrorView {
    InvalidAssTime(nat, Seq<char>),
    ParseInt(IntProblem),
    InvalidAssKaraoke(nat, Seq<char>),
    ConflictingActorTags(nat, Seq<Seq<char>>),
    JsonParse(Seq<char>),
    InvalidJsonStructure(Seq<char>),
    Internal(Seq<char>),
}

impl View for ConvertError {
    type V = ErrorView;

    open spec fn view(&self) -> ErrorView {
        match self {
            ConvertError::InvalidAssTime(n, s) => ErrorView::InvalidAssTime(*n as nat, s@),
            ConvertError::ParseInt(p) => ErrorView::ParseInt(*p),
            ConvertError::InvalidAssKaraoke(n, s) => ErrorView::InvalidAssKaraoke(*n as nat, s@),
            ConvertError::ConflictingActorTags { line_num, tags } => {
                ErrorView::ConflictingActorTags(*line_num as nat, views(tags@))
            },
            ConvertError::JsonParse(s) => ErrorView::JsonParse(s@),
            ConvertError::InvalidJsonStructure(s) => ErrorView::InvalidJsonStructure(s@),
            ConvertError::Internal(s) => ErrorView::Internal(s@),
        }
    }
}

// ---------------------------------------------------------------------------
// ASS
// ---------------------------------------------------------------------------

/// Who sings a line.
#[derive(Debug, Clone, Copy, PartialEq, Eq, Structural)]
pub enum ActorRole {
    Vocal1,
    Vocal2,
    Background,
    Chorus,
}

/// A syllable with its time span in milliseconds.
#[derive(Debug, Clone)]
pub struct AssSyllable {
    pub text: String,
    pub start_ms: u64,
    pub end_ms: u64,
    pub ends_with_space: bool,
}

/// An `AssSyllable` over mathematical values.
pub struct SyllableView {
    pub text: Seq<char>,
    pub start: nat,
    pub end: nat,
    pub space: bool,
}

impl View for AssSyllable {
    type V = SyllableView;

    open spec fn view(&self) -> SyllableView {
        SyllableView {
            text: self.text@,
            start: self.start_ms as nat,
            end: self.end_ms as nat,
            space: self.ends_with_space,
        }
    }
}

/// The views of a list of syllables.
pub open spec fn syllable_views(v: Seq<AssSyllable>) -> Seq<SyllableView> {
    Seq::new(v.len(), |i: int| v[i]@)
}

/// What the actor field of a line says.
#[derive(Debug, Clone)]
pub struct ParsedActor {
    pub role: Option<ActorRole>,
    pub is_background: bool,
    pub lang_code: Option<String>,
    pub is_marker: bool,
    pub song_part: Option<String>,
}

/// A `ParsedActor` over mathematical values.
pub struct ActorView {
    pub role: Option<ActorRole>,
    pub is_background: bool,
    pub lang_code: Option<Seq<char>>,
    pub is_marker: bool,
    pub song_part: Option<Seq<char>>,
}

impl View for ParsedActor {
    type V = ActorView;

    open spec fn view(&self) -> ActorView {
        ActorView {
            role: self.role,
            is_background: self.is_background,
            lang_code: opt_view(self.lang_code),
            is_marker: self.is_marker,
            song_part: opt_view(self.song_part),
        }
    }
}

/// What a line of an ASS file holds.
#[derive(Debug, Clone)]
pub enum AssLineContent {
    /// A sung line, with the translation and romanization of a background line.
    LyricLine {
        role: ActorRole,
        syllables: Vec<AssSyllable>,
        bg_translation: Option<(Option<String>, String)>,
        bg_romanization: Option<String>,
    },
    /// The translation of the main line before it.
    MainTranslation { lang_code: Option<String>, text: String },
    /// The romanization of the main line before it.
    MainRomanization { text: String },
}

/// An `AssLineContent` over mathematical values.
pub enum ContentView {
    LyricLine {
        role: ActorRole,
        syllables: Seq<SyllableView>,
        bg_translation: Option<(Option<Seq<char>>, Seq<char>)>,
        bg_romanization: Option<Seq<char>>,
    },
    MainTranslation { lang_code: Option<Seq<char>>, text: Seq<char> },
    MainRomanization { text: Seq<char> },
}

/// The view of a translation with its optional language.
pub open spec fn lang_text_view(o: Option<(Option<String>, String)>) -> Option<
    (Option<Seq<char>>, Seq<char>),
> {
    match o {
        Some(p) => Some((opt_view(p.0), p.1@)),
        None => None,
    }
}

impl View for AssLineContent {
    type V = ContentView;

    open spec fn view(&self) -> ContentView {
        match self {
            AssLineContent::LyricLine { role, syllables, bg_translation, bg_romanization } => {
                ContentView::LyricLine {
                    role: *role,
                    syllables: syllable_views(syllables@),
                    bg_translation: lang_text_view(*bg_translation),
                    bg_romanization: opt_view(*bg_romanization),
                }
            },
            AssLineContent::MainTranslation { lang_code, text } => {
                ContentView::MainTranslation { lang_code: opt_view(*lang_code), text: text@ }
            },
            AssLineContent::MainRomanization { text } => {
                ContentView::MainRomanization { text: text@ }
            },
        }
    }
}

/// A line of an ASS file with its number and time span.
#[derive(Debug, Clone)]
pub struct AssLineInfo {
    pub line_num: usize,
    pub start_ms: u64,
    pub end_ms: u64,
    pub content: Option<AssLineContent>,
    pub song_part: Option<String>,
}

/// An `AssLineInfo` over mathematical values.
pub struct LineView {
    pub line_num: nat,
    pub start: nat,
    pub end: nat,
    pub content: Option<ContentView>,
    pub song_part: Option<Seq<char>>,
}

impl View for AssLineInfo {
    type V = LineView;

    open spec fn view(&self) -> LineView {
        LineView {
            line_num: self.line_num as nat,
            start: self.start_ms as nat,
            end: self.end_ms as nat,
            content: match self.content {
                Some(c) => Some(c@),
                None => None,
            },
            song_part: opt_view(self.song_part),
        }
    }
}

/// The views of a list of lines.
pub open spec fn line_views(v: Seq<AssLineInfo>) -> Seq<LineView> {
    Seq::new(v.len(), |i: int| v[i]@)
}

/// A key with its value.
#[derive(Debug, Clone)]
pub struct AssMetadata {
    pub key: String,
    pub value: String,
}

/// The views of a list of metadata entries.
pub open spec fn meta_views(v: Seq<AssMetadata>) -> Seq<(Seq<char>, Seq<char>)> {
    Seq::new(v.len(), |i: int| (v[i].key@, v[i].value@))
}

/// The number of a line that holds a marker, and the marker's text.
pub type MarkerInfo = (usize, String);

/// The views of a list of markers.
pub open spec fn marker_views(v: Seq<(usize, String)>) -> Seq<(nat, Seq<char>)> {
    Seq::new(v.len(), |i: int| (v[i].0 as nat, v[i].1@))
}

/// The views of a list of pairs of strings.
pub open spec fn pair_views(v: Seq<(String, String)>) -> Seq<(Seq<char>, Seq<char>)> {
    Seq::new(v.len(), |i: int| (v[i].0@, v[i].1@))
}

/// `pairs` with the value of `key` set: replaced where the key is present, added
/// at the end where it is not.
pub open spec fn with_pair(
    pairs: Seq<(Seq<char>, Seq<char>)>,
    key: Seq<char>,
    value: Seq<char>,
) -> Seq<(Seq<char>, Seq<char>)>
    decreases pairs.len(),
{
    if pairs.len() == 0 {
        seq![(key, value)]
    } else if pairs[0].0 == key {
        pairs.update(0, (key, value))
    } else {
        seq![pairs[0]] + with_pair(pairs.subrange(1, pairs.len() as int), key, value)
    }
}

/// Where `with_pair` writes.
pub proof fn lemma_with_pair(
    pairs: Seq<(Seq<char>, Seq<char>)>,
    key: Seq<char>,
    value: Seq<char>,
    i: int,
)
    requires
        0 <= i <= pairs.len(),
        forall|k: int| 0 <= k < i ==> (#[trigger] pairs[k]).0 != key,
        i < pairs.len() ==> pairs[i].0 == key,
    ensures
        with_pair(pairs, key, value) == if i < pairs.len() {
            pairs.update(i, (key, value))
        } else {
            pairs.push((key, value))
        },
    decreases pairs.len(),
{
    if pairs.len() == 0 {
        assert(with_pair(pairs, key, value) =~= pairs.push((key, value)));
    } else if i == 0 {
    } else {
        let rest = pairs.subrange(1, pairs.len() as int);
        assert forall|k: int| 0 <= k < i - 1 implies (#[trigger] rest[k]).0 != key by {
            assert(rest[k] == pairs[k + 1]);
        }
        lemma_with_pair(rest, key, value, i - 1);
        let w = with_pair(pairs, key, value);
        if i < pairs.len() {
            assert(w =~= pairs.update(i, (key, value)));
        } else {
            assert(w =~= pairs.push((key, value)));
        }
    }
}

/// Sets the value of `key`.
pub fn set_pair(pairs: &mut Vec<(String, String)>, key: String, value: String)
    ensures
        pair_views(final(pairs)@) == with_pair(pair_views(old(pairs)@), key@, value@),
{
    let mut i: usize = 0;
    while i < pairs.len()
        invariant
            i <= pairs.len(),
            *pairs == *old(pairs),
            forall|k: int| 0 <= k < i ==> (#[trigger] pair_views(pairs@)[k]).0 != key@,
        decreases pairs.len() - i,
    {
        if pairs[i].0 == key {
            proof {
                lemma_with_pair(pair_views(pairs@), key@, value@, i as int);
            }
            let ghost before = pairs@;
            pairs[i] = (key, value);
            proof {
                assert(pair_views(pairs@) =~= pair_views(before).update(
                    i as int,
                    (key@, value@),
                ));
            }
            return ;
        }
        i += 1;
    }
    proof {
        lemma_with_pair(pair_views(pairs@), key@, value@, i as int);
    }
    let ghost before = pairs@;
    pairs.push((key, value));
    proof {
        assert(pair_views(pairs@) =~= pair_views(before).push((key@, value@)));
    }
}

/// Everything that an ASS file says.
#[derive(Debug, Clone)]
pub struct ProcessedAssData {
    pub lines: Vec<AssLineInfo>,
    pub metadata: Vec<AssMetadata>,
    pub markers: Vec<MarkerInfo>,
    pub apple_music_id: String,
    pub songwriters: Vec<String>,
    pub language_code: Option<String>,
    /// The names of the singers by their short names; no short name occurs twice.
    pub agent_names: Vec<(String, String)>,
    pub detected_translation_language: Option<String>,
}

/// A `ProcessedAssData` over mathematical values.
pub struct AssDataView {
    pub lines: Seq<LineView>,
    pub metadata: Seq<(Seq<char>, Seq<char>)>,
    pub markers: Seq<(nat, Seq<char>)>,
    pub apple_music_id: Seq<char>,
    pub songwriters: Seq<Seq<char>>,
    pub language_code: Option<Seq<char>>,
    pub agent_names: Seq<(Seq<char>, Seq<char>)>,
    pub detected_translation_language: Option<Seq<char>>,
}

impl View for ProcessedAssData {
    type V = AssDataView;

    open spec fn view(&self) -> AssDataView {
        AssDataView {
            lines: line_views(self.lines@),
            metadata: meta_views(self.metadata@),
            markers: marker_views(self.markers@),
            apple_music_id: self.apple_music_id@,
            songwriters: views(self.songwriters@),
            language_code: opt_view(self.language_code),
            agent_names: pair_views(self.agent_names@),
            detected_translation_language: opt_view(self.detected_translation_language),
        }
    }
}

// ---------------------------------------------------------------------------
// TTML
// ---------------------------------------------------------------------------

/// A syllable of a paragraph.
#[derive(Debug, Clone)]
pub struct TtmlSyllable {
    pub text: String,
    pub start_ms: u64,
    pub end_ms: u64,
    pub ends_with_space: bool,
}

impl View for TtmlSyllable {
    type V = SyllableView;

    open spec fn view(&self) -> SyllableView {
        SyllableView {
            text: self.text@,
            start: self.start_ms as nat,
            end: self.end_ms as nat,
            space: self.ends_with_space,
        }
    }
}

/// The views of a list of syllables.
pub open spec fn ttml_views(v: Seq<TtmlSyllable>) -> Seq<SyllableView> {
    Seq::new(v.len(), |i: int| v[i]@)
}

/// The background voice of a paragraph.
#[derive(Debug, Clone)]
pub struct BackgroundSection {
    pub start_ms: u64,
    pub end_ms: u64,
    pub syllables: Vec<TtmlSyllable>,
    /// A translation with its language.
    pub translation: Option<(String, Option<String>)>,
    pub romanization: Option<String>,
}

/// A `BackgroundSection` over mathematical values.
pub struct BackgroundView {
    pub start: nat,
    pub end: nat,
    pub syllables: Seq<SyllableView>,
    pub translation: Option<(Seq<char>, Option<Seq<char>>)>,
    pub romanization: Option<Seq<char>>,
}

/// The view of a translation with its language.
pub open spec fn text_lang_view(o: Option<(String, Option<String>)>) -> Option<
    (Seq<char>, Option<Seq<char>>),
> {
    match o {
        Some(p) => Some((p.0@, opt_view(p.1))),
        None => None,
    }
}

impl View for BackgroundSection {
    type V = BackgroundView;

    open spec fn view(&self) -> BackgroundView {
        BackgroundView {
            start: self.start_ms as nat,
            end: self.end_ms as nat,
            syllables: ttml_views(self.syllables@),
            translation: text_lang_view(self.translation),
            romanization: opt_view(self.romanization),
        }
    }
}

/// A paragraph: a line of lyrics with its background voice, translation and
/// romanization.
#[derive(Debug, Clone)]
pub struct TtmlParagraph {
    pub p_start_ms: u64,
    pub p_end_ms: u64,
    pub agent: String,
    pub main_syllables: Vec<TtmlSyllable>,
    pub background_section: Option<BackgroundSection>,
    pub translation: Option<(String, Option<String>)>,
    pub romanization: Option<String>,
}

/// A `TtmlParagraph` over mathematical values.
pub struct ParagraphView {
    pub start: nat,
    pub end: nat,
    pub agent: Seq<char>,
    pub syllables: Seq<SyllableView>,
    pub background: Option<BackgroundView>,
    pub translation: Option<(Seq<char>, Option<Seq<char>>)>,
    pub romanization: Option<Seq<char>>,
}

impl View for TtmlParagraph {
    type V = ParagraphView;

    open spec fn view(&self) -> ParagraphView {
        ParagraphView {
            start: self.p_start_ms as nat,
            end: self.p_end_ms as nat,
            agent: self.agent@,
            syllables: ttml_views(self.main_syllables@),
            background: match self.background_section {
                Some(b) => Some(b@),
                None => None,
            },
            translation: text_lang_view(self.translation),
            romanization: opt_view(self.romanization),
        }
    }
}

/// The views of a list of paragraphs.
pub open spec fn paragraph_views(v: Seq<TtmlParagraph>) -> Seq<ParagraphView> {
    Seq::new(v.len(), |i: int| v[i]@)
}

/// A number of 64 bits as a signed one: numbers from 2^63 on wrap round.
pub open spec fn wrapped(n: u64) -> int {
    if n <= i64::MAX {
        n as int
    } else {
        n - 0x1_0000_0000_0000_0000
    }
}

/// A number of 64 bits as a signed one.
pub(crate) fn to_signed(n: u64) -> (r: i64)
    ensures
        r == wrapped(n),
{
    if n <= i64::MAX as u64 {
        n as i64
    } else {
        -((u64::MAX - n) as i64) - 1
    }
}

} // verus!
