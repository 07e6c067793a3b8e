//! Converts lyrics between Chinese scripts.

use vstd::prelude::*;

use crate::types::{
    opt_view, paragraph_views, text_lang_view, ttml_views, BackgroundSection, BackgroundView,
    ParagraphView, SyllableView, TtmlParagraph, TtmlSyllable,
};

verus! {

/// What `OpenCC::from_config_name` and `OpenCC::convert`, one after the other, make
/// of `text` with the configuration `config`; nothing where there is no such
/// configuration.
pub uninterp spec fn opencc_text(text: Seq<char>, config: Seq<char>) -> Option<Seq<char>>;

/// `ferrous_opencc::OpenCC::from_config_name` looks a configuration up among
/// those built into the crate, and `OpenCC::convert` converts a text with it.
/// The result depends on the text and on the configuration's name alone; there
/// is none where the configuration cannot be made.
#[verifier::external_body]
fn opencc_convert(text: &str, config: &str) -> (r: Option<String>)
    ensures
        opt_view(r) == opencc_text(text@, config@),
{
    ferrous_opencc::OpenCC::from_config_name(config).ok().map(|c| c.convert(text))
}

/// A text as it is converted: unchanged where there is no such configuration.
pub open spec fn converted(text: Seq<char>, config: Seq<char>) -> Seq<char> {
    match opencc_text(text, config) {
        Some(s) => s,
        None => text,
    }
}

/// The converted text, or the text where it could not be converted.
pub fn or_unchanged(text: &str, converted: Option<String>) -> (r: String)
    ensures
        r@ == match converted {
            Some(s) => s@,
            None => text@,
        },
{
    match converted {
        Some(s) => s,
        None => text.to_owned(),
    }
}

/// Converts a text with the configuration of this name; the text is left
/// unchanged where there is no such configuration.
pub fn convert(text: &str, config_name: &str) -> (r: String)
    ensures
        r@ == converted(text@, config_name@),
{
    or_unchanged(text, opencc_convert(text, config_name))
}

/// How texts are converted.
#[derive(Debug, Clone)]
pub struct ChineseConversionOptions {
    /// The name of the configuration; nothing is converted without one.
    pub config_name: Option<String>,
}

/// The syllables with converted texts.
pub open spec fn converted_syllables(v: Seq<SyllableView>, config: Seq<char>) -> Seq<SyllableView> {
    Seq::new(
        v.len(),
        |i: int| SyllableView { text: converted(v[i].text, config), ..v[i] },
    )
}

/// The translation with its text converted.
pub open spec fn converted_translation(
    t: Option<(Seq<char>, Option<Seq<char>>)>,
    config: Seq<char>,
) -> Option<(Seq<char>, Option<Seq<char>>)> {
    match t {
        Some((text, lang)) => Some((converted(text, config), lang)),
        None => None,
    }
}

/// The background voice with its texts converted.
pub open spec fn converted_background(b: BackgroundView, config: Seq<char>) -> BackgroundView {
    BackgroundView {
        syllables: converted_syllables(b.syllables, config),
        translation: converted_translation(b.translation, config),
        ..b
    }
}

/// The paragraph with its texts converted: those of the syllables and of the
/// translations. Romanizations stay.
pub open spec fn converted_paragraph(p: ParagraphView, config: Seq<char>) -> ParagraphView {
    ParagraphView {
        syllables: converted_syllables(p.syllables, config),
        translation: converted_translation(p.translation, config),
        background: match p.background {
            Some(b) => Some(converted_background(b, config)),
            None => None,
        },
        ..p
    }
}

/// The configuration that is asked for.
pub open spec fn wanted_config(config_name: Option<Seq<char>>) -> Option<Seq<char>> {
    match config_name {
        Some(name) => if name.len() > 0 {
            Some(name)
        } else {
            None
        },
        None => None,
    }
}

/// The paragraphs as they are converted.
pub open spec fn processed(v: Seq<ParagraphView>, config_name: Option<Seq<char>>) -> Seq<
    ParagraphView,
> {
    match wanted_config(config_name) {
        Some(config) => Seq::new(v.len(), |i: int| converted_paragraph(v[i], config)),
        None => v,
    }
}

/// Converts the texts of syllables.
fn convert_syllables(syllables: &mut Vec<TtmlSyllable>, config: &str)
    ensures
        ttml_views(final(syllables)@) == converted_syllables(
            ttml_views(old(syllables)@),
            config@,
        ),
{
    let ghost all = ttml_views(syllables@);
    let mut i: usize = 0;
    while i < syllables.len()
        invariant
            i <= syllables.len(),
            syllables@.len() == all.len(),
            forall|k: int|
                0 <= k < i ==> (#[trigger] syllables@[k])@ == (SyllableView {
                    text: converted(all[k].text, config@),
                    ..all[k]
                }),
            forall|k: int| i <= k < all.len() ==> (#[trigger] syllables@[k])@ == all[k],
        decreases syllables.len() - i,
    {
        let text = convert(syllables[i].text.as_str(), config);
        syllables[i].text = text;
        i += 1;
    }
    proof {
        assert(ttml_views(syllables@) =~= converted_syllables(all, config@));
    }
}

/// Converts the text of a translation.
fn convert_translation(t: &mut Option<(String, Option<String>)>, config: &str)
    ensures
        text_lang_view(*final(t)) == converted_translation(text_lang_view(*old(t)), config@),
{
    match t {
        Some(p) => {
            let text = convert(p.0.as_str(), config);
            p.0 = text;
        },
        None => {},
    }
}

/// Converts the texts of a background voice.
fn convert_background(b: &mut BackgroundSection, config: &str)
    ensures
        final(b)@ == converted_background(old(b)@, config@),
{
    convert_syllables(&mut b.syllables, config);
    convert_translation(&mut b.translation, config);
}

/// Converts the texts of a paragraph.
fn convert_paragraph(p: &mut TtmlParagraph, config: &str)
    ensures
        final(p)@ == converted_paragraph(old(p)@, config@),
{
    convert_syllables(&mut p.main_syllables, config);
    convert_translation(&mut p.translation, config);
    match &mut p.background_section {
        Some(b) => {
            convert_background(b, config);
        },
        None => {},
    }
}

/// Converts the texts of paragraphs.
#[derive(Debug)]
pub struct ChineseConversionProcessor;

impl Default for ChineseConversionProcessor {
    fn default() -> (r: ChineseConversionProcessor)
        ensures
            r == ChineseConversionProcessor,
    {
        ChineseConversionProcessor
    }
}

impl ChineseConversionProcessor {
    /// A processor.
    pub fn new() -> (r: ChineseConversionProcessor)
        ensures
            r == ChineseConversionProcessor,
    {
        ChineseConversionProcessor
    }

    /// Converts the texts of all paragraphs, where a configuration is asked for.
    pub fn process(&self, paragraphs: &mut Vec<TtmlParagraph>, options: &ChineseConversionOptions)
        ensures
            paragraph_views(final(paragraphs)@) == processed(
                paragraph_views(old(paragraphs)@),
                opt_view(options.config_name),
            ),
    {
        let config: &str = match &options.config_name {
            Some(name) => {
                if name.as_str().is_empty() {
                    return ;
                }
                name.as_str()
            },
            None => {
                return ;
            },
        };
        let ghost all = paragraph_views(paragraphs@);
        let mut i: usize = 0;
        while i < paragraphs.len()
            invariant
                i <= paragraphs.len(),
                paragraphs@.len() == all.len(),
                forall|k: int|
                    0 <= k < i ==> (#[trigger] paragraphs@[k])@ == converted_paragraph(
                        all[k],
                        config@,
                    ),
                forall|k: int| i <= k < all.len() ==> (#[trigger] paragraphs@[k])@ == all[k],
            decreases paragraphs.len() - i,
        {
            convert_paragraph(&mut paragraphs[i], config);
            i += 1;
        }
        proof {
            assert(paragraph_views(paragraphs@) =~= processed(all, opt_view(options.config_name)));
        }
    }
}

/// Whether two lists of syllables have the same times and spaces.
pub open spec fn same_timing(a: Seq<SyllableView>, b: Seq<SyllableView>) -> bool {
    &&& a.len() == b.len()
    &&& forall|i: int|
        0 <= i < a.len() ==> (#[trigger] a[i]).start == b[i].start && a[i].end == b[i].end
            && a[i].space == b[i].space
}

/// Conversion changes texts only: the number of paragraphs, their times, their
/// singers, their romanizations and the timing of their syllables stay.
pub proof fn law_conversion_keeps_timing(
    v: Seq<ParagraphView>,
    config_name: Option<Seq<char>>,
    i: int,
)
    requires
        0 <= i < v.len(),
    ensures
        ({
            let r = processed(v, config_name);
            &&& r.len() == v.len()
            &&& r[i].start == v[i].start && r[i].end == v[i].end
            &&& r[i].agent == v[i].agent
            &&& r[i].romanization == v[i].romanization
            &&& same_timing(r[i].syllables, v[i].syllables)
            &&& r[i].background is Some <==> v[i].background is Some
            &&& v[i].background is Some ==> same_timing(
                r[i].background->0.syllables,
                v[i].background->0.syllables,
            ) && r[i].background->0.romanization == v[i].background->0.romanization
        }),
{
}

/// Without a configuration that exists, nothing is changed.
pub proof fn law_unknown_config_changes_nothing(v: Seq<ParagraphView>, config: Seq<char>)
    requires
        forall|text: Seq<char>| opencc_text(text, config) is None,
    ensures
        processed(v, Some(config)) == v,
{
    if config.len() > 0 {
        assert forall|i: int| 0 <= i < v.len() implies converted_paragraph(v[i], config)
            == v[i] by {
            let p = v[i];
            assert(converted_syllables(p.syllables, config) =~= p.syllables);
            if p.background is Some {
                let b = p.background->0;
                assert(converted_syllables(b.syllables, config) =~= b.syllables);
            }
        }
        assert(processed(v, Some(config)) =~= v);
    }
}

} // verus!
