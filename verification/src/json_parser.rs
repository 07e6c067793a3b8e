//! Reads the lyrics in the JSON documents of Apple Music.

use vstd::prelude::*;

use crate::text::{lowercase, str_eq, lower_case, views};
use crate::types::{
    meta_views, opt_view, pair_views, set_pair, with_pair, AssMetadata, ConvertError, ErrorView,
    TtmlParagraph,
};

verus! {

/// An entry of a document.
#[derive(Debug, Clone)]
pub struct AppleMusicData {
    pub id: String,
    pub data_type: String,
    pub ttml: String,
    pub play_params_id: String,
    pub play_params_catalog_id: String,
}

/// What the TTML text of an entry says.
#[derive(Debug, Clone)]
pub struct ParsedTtml {
    pub paragraphs: Vec<TtmlParagraph>,
    pub metadata: Vec<AssMetadata>,
    pub is_line_timed: bool,
    pub detected_formatted: bool,
    pub detected_translation_language: Option<String>,
}

/// Everything that a document says.
#[derive(Debug)]
pub struct ParsedJsonDataBundle {
    pub paragraphs: Vec<TtmlParagraph>,
    pub apple_music_id: String,
    pub language_code: Option<String>,
    pub songwriters: Vec<String>,
    /// The names of the singers by their short names; no short name occurs twice.
    pub agent_names: Vec<(String, String)>,
    pub general_metadata: Vec<AssMetadata>,
    pub is_line_timed: bool,
    pub raw_ttml_string: String,
    pub detected_formatted_ttml: bool,
    pub _detected_source_translation_language: Option<String>,
}

impl Default for ParsedJsonDataBundle {
    fn default() -> (r: ParsedJsonDataBundle)
        ensures
            r.paragraphs@.len() == 0,
            r.apple_music_id@.len() == 0,
            r.language_code is None,
            r.songwriters@.len() == 0,
            r.agent_names@.len() == 0,
            r.general_metadata@.len() == 0,
            !r.is_line_timed,
            r.raw_ttml_string@.len() == 0,
            !r.detected_formatted_ttml,
            r._detected_source_translation_language is None,
    {
        ParsedJsonDataBundle {
            paragraphs: Vec::new(),
            apple_music_id: String::new(),
            language_code: None,
            songwriters: Vec::new(),
            agent_names: Vec::new(),
            general_metadata: Vec::new(),
            is_line_timed: false,
            raw_ttml_string: String::new(),
            detected_formatted_ttml: false,
            _detected_source_translation_language: None,
        }
    }
}

/// What metadata says once it has been sorted.
pub struct SortedView {
    pub apple_music_id: Seq<char>,
    pub language_code: Option<Seq<char>>,
    pub songwriters: Seq<Seq<char>>,
    pub agent_names: Seq<(Seq<char>, Seq<char>)>,
    pub general: Seq<(Seq<char>, Seq<char>)>,
}

/// `s` with one more entry, given its key in lower case. Only the first language
/// counts, and an id only where none is known.
pub open spec fn with_entry(
    s: SortedView,
    entry: (Seq<char>, Seq<char>),
    key_lower: Seq<char>,
) -> SortedView {
    if key_lower == "lang"@ && s.language_code is None {
        SortedView { language_code: Some(entry.1), ..s }
    } else if key_lower == "songwriter"@ {
        SortedView { songwriters: s.songwriters.push(entry.1), ..s }
    } else if key_lower == "v1"@ || key_lower == "v2"@ || key_lower == "v1000"@ {
        SortedView { agent_names: with_pair(s.agent_names, entry.0, entry.1), ..s }
    } else if key_lower == "applemusicid"@ {
        if s.apple_music_id.len() == 0 {
            SortedView { apple_music_id: entry.1, ..s }
        } else {
            s
        }
    } else {
        SortedView { general: s.general.push(entry), ..s }
    }
}

/// The first `n` entries sorted, where `lower` gives the keys in lower case.
pub open spec fn sorted(
    entries: Seq<(Seq<char>, Seq<char>)>,
    lower: Seq<Seq<char>>,
    id: Seq<char>,
    n: nat,
) -> SortedView
    decreases n,
{
    if n == 0 {
        SortedView {
            apple_music_id: id,
            language_code: None,
            songwriters: Seq::empty(),
            agent_names: Seq::empty(),
            general: Seq::empty(),
        }
    } else {
        with_entry(sorted(entries, lower, id, (n - 1) as nat), entries[n - 1], lower[n - 1])
    }
}

/// The keys of entries in lower case.
pub open spec fn lower_keys(entries: Seq<(Seq<char>, Seq<char>)>) -> Seq<Seq<char>> {
    Seq::new(entries.len(), |i: int| lower_case(entries[i].0))
}

/// The id of an entry: its own, else the one in the catalogue, else that of the
/// item that is played.
pub open spec fn entry_id(d: AppleMusicData) -> Seq<char> {
    if d.id@.len() > 0 {
        d.id@
    } else if d.play_params_catalog_id@.len() > 0 {
        d.play_params_catalog_id@
    } else {
        d.play_params_id@
    }
}

/// Why the entries of a document cannot be used, if they cannot: the first must
/// be there and hold syllable lyrics.
pub open spec fn structure_problem(data: Seq<AppleMusicData>) -> Option<ErrorView> {
    if data.len() == 0 {
        Some(ErrorView::InvalidJsonStructure("JSON 'data' 为空。"@))
    } else if data[0].data_type@ != "syllable-lyrics"@ {
        Some(
            ErrorView::InvalidJsonStructure(
                "期望的 data_type 是 'syllable-lyrics', 但找到的是 '"@ + data[0].data_type@
                    + "'"@,
            ),
        )
    } else {
        None
    }
}

/// The TTML text of a document.
pub fn ttml_of(data: &Vec<AppleMusicData>) -> (r: Result<String, ConvertError>)
    ensures
        match r {
            Ok(ttml) => structure_problem(data@) is None && ttml@ == data@[0].ttml@,
            Err(e) => structure_problem(data@) == Some(e@),
        },
{
    if data.len() == 0 {
        return Err(ConvertError::InvalidJsonStructure("JSON 'data' 为空。".to_owned()));
    }
    if !str_eq(data[0].data_type.as_str(), "syllable-lyrics") {
        let mut e = "期望的 data_type 是 'syllable-lyrics', 但找到的是 '".to_owned();
        e.append(data[0].data_type.as_str());
        e.append("'");
        return Err(ConvertError::InvalidJsonStructure(e));
    }
    Ok(data[0].ttml.clone())
}

/// The keys of metadata in lower case.
fn keys_in_lower_case(entries: &Vec<AssMetadata>) -> (r: Vec<String>)
    ensures
        views(r@) == lower_keys(meta_views(entries@)),
{
    let mut out: Vec<String> = Vec::new();
    let mut i: usize = 0;
    while i < entries.len()
        invariant
            i <= entries.len(),
            out@.len() == i,
            forall|k: int| 0 <= k < i ==> (#[trigger] out@[k])@ == lower_case(entries@[k].key@),
        decreases entries.len() - i,
    {
        out.push(lowercase(entries[i].key.as_str()));
        i += 1;
    }
    proof {
        assert(views(out@) =~= lower_keys(meta_views(entries@)));
    }
    out
}

/// Sorts the metadata of a document, given its keys in lower case, and puts
/// everything together. `id` is the id that is known so far.
pub fn assemble(ttml: ParsedTtml, keys_lower: &Vec<String>, id: String, raw_ttml: String) -> (r:
    ParsedJsonDataBundle)
    requires
        keys_lower@.len() == ttml.metadata@.len(),
    ensures
        ({
            let entries = meta_views(ttml.metadata@);
            let s = sorted(entries, views(keys_lower@), id@, entries.len());
            &&& r.paragraphs == ttml.paragraphs
            &&& r.apple_music_id@ == s.apple_music_id
            &&& opt_view(r.language_code) == s.language_code
            &&& views(r.songwriters@) == s.songwriters
            &&& pair_views(r.agent_names@) == s.agent_names
            &&& meta_views(r.general_metadata@) == s.general
            &&& r.is_line_timed == ttml.is_line_timed
            &&& r.raw_ttml_string == raw_ttml
            &&& r.detected_formatted_ttml == ttml.detected_formatted
            &&& r._detected_source_translation_language == ttml.detected_translation_language
        }),
{
    let ghost entries = meta_views(ttml.metadata@);
    let ghost lower = views(keys_lower@);
    let mut apple_music_id = id;
    let mut language_code: Option<String> = None;
    let mut songwriters: Vec<String> = Vec::new();
    let mut agent_names: Vec<(String, String)> = Vec::new();
    let mut general: Vec<AssMetadata> = Vec::new();
    let mut i: usize = 0;
    proof {
        let s = sorted(entries, lower, id@, 0);
        assert(views(songwriters@) =~= s.songwriters);
        assert(pair_views(agent_names@) =~= s.agent_names);
        assert(meta_views(general@) =~= s.general);
    }
    while i < ttml.metadata.len()
        invariant
            i <= ttml.metadata.len(),
            keys_lower@.len() == ttml.metadata@.len(),
            entries == meta_views(ttml.metadata@),
            lower == views(keys_lower@),
            apple_music_id@ == sorted(entries, lower, id@, i as nat).apple_music_id,
            opt_view(language_code) == sorted(entries, lower, id@, i as nat).language_code,
            views(songwriters@) == sorted(entries, lower, id@, i as nat).songwriters,
            pair_views(agent_names@) == sorted(entries, lower, id@, i as nat).agent_names,
            meta_views(general@) == sorted(entries, lower, id@, i as nat).general,
        decreases ttml.metadata.len() - i,
    {
        let item = &ttml.metadata[i];
        let key = keys_lower[i].as_str();
        proof {
            assert(entries[i as int] == (item.key@, item.value@));
            assert(lower[i as int] == key@);
        }
        if str_eq(key, "lang") && language_code.is_none() {
            language_code = Some(item.value.clone());
        } else if str_eq(key, "songwriter") {
            let ghost before = songwriters@;
            songwriters.push(item.value.clone());
            proof {
                assert(views(songwriters@) =~= views(before).push(item.value@));
            }
        } else if str_eq(key, "v1") || str_eq(key, "v2") || str_eq(key, "v1000") {
            set_pair(&mut agent_names, item.key.clone(), item.value.clone());
        } else if str_eq(key, "applemusicid") {
            if apple_music_id.as_str().is_empty() {
                apple_music_id = item.value.clone();
            }
        } else {
            let ghost before = general@;
            general.push(AssMetadata { key: item.key.clone(), value: item.value.clone() });
            proof {
                assert(meta_views(general@) =~= meta_views(before).push(
                    (item.key@, item.value@),
                ));
            }
        }
        i += 1;
    }
    ParsedJsonDataBundle {
        paragraphs: ttml.paragraphs,
        apple_music_id,
        language_code,
        songwriters,
        agent_names,
        general_metadata: general,
        is_line_timed: ttml.is_line_timed,
        raw_ttml_string: raw_ttml,
        detected_formatted_ttml: ttml.detected_formatted,
        _detected_source_translation_language: ttml.detected_translation_language,
    }
}

/// Puts together what a document says, given its entries and what the TTML text
/// of the first entry says, or why that text could not be read.
pub fn load_from_data(data: &Vec<AppleMusicData>, ttml: Result<ParsedTtml, String>) -> (r: Result<
    ParsedJsonDataBundle,
    ConvertError,
>)
    ensures
        match r {
            Err(e) => e@ == match structure_problem(data@) {
                Some(x) => x,
                None => ErrorView::Internal("无法解析JSON中的TTML内容: "@ + ttml->Err_0@),
            } && (structure_problem(data@) is Some || ttml is Err),
            Ok(b) => ({
                let entries = meta_views(ttml->Ok_0.metadata@);
                let s = sorted(entries, lower_keys(entries), entry_id(data@[0]), entries.len());
                &&& structure_problem(data@) is None
                &&& ttml is Ok
                &&& b.paragraphs == ttml->Ok_0.paragraphs
                &&& b.apple_music_id@ == s.apple_music_id
                &&& opt_view(b.language_code) == s.language_code
                &&& views(b.songwriters@) == s.songwriters
                &&& pair_views(b.agent_names@) == s.agent_names
                &&& meta_views(b.general_metadata@) == s.general
                &&& b.is_line_timed == ttml->Ok_0.is_line_timed
                &&& b.raw_ttml_string@ == data@[0].ttml@
                &&& b.detected_formatted_ttml == ttml->Ok_0.detected_formatted
                &&& b._detected_source_translation_language
                    == ttml->Ok_0.detected_translation_language
            }),
        },
{
    let raw = match ttml_of(data) {
        Ok(raw) => raw,
        Err(e) => {
            return Err(e);
        },
    };
    let first = &data[0];
    let id = if !first.id.as_str().is_empty() {
        first.id.clone()
    } else if !first.play_params_catalog_id.as_str().is_empty() {
        first.play_params_catalog_id.clone()
    } else {
        first.play_params_id.clone()
    };
    match ttml {
        Ok(t) => {
            let keys = keys_in_lower_case(&t.metadata);
            proof {
                assert(views(keys@).len() == meta_views(t.metadata@).len());
            }
            Ok(assemble(t, &keys, id, raw))
        },
        Err(msg) => {
            let mut e = "无法解析JSON中的TTML内容: ".to_owned();
            e.append(msg.as_str());
            Err(ConvertError::Internal(e))
        },
    }
}

} // verus!
