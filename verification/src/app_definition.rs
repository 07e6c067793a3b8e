//! What the application knows: the lyrics that are edited, the panels that are
//! shown, and the search for lyrics.

use vstd::prelude::*;

use crate::amll_lyrics_fetcher::types::metadata_views;
use crate::app_settings::AppSettings;
use crate::formats::LyricFormat;
use crate::text::views;
use crate::types::{marker_views, opt_view, MarkerInfo};

verus! {

// ---------------------------------------------------------------------------
// Panels
// ---------------------------------------------------------------------------

/// Which panels are shown, and how.
#[derive(Debug, Clone, Copy, PartialEq, Eq, Structural)]
pub struct UiState {
    pub show_bottom_log_panel: bool,
    /// Whether a warning has been logged that the user has not seen.
    pub new_trigger_log_exists: bool,
    pub show_romanization_lrc_panel: bool,
    pub show_translation_lrc_panel: bool,
    pub wrap_text: bool,
    pub show_settings_window: bool,
    pub show_amll_connector_sidebar: bool,
    pub show_metadata_panel: bool,
    pub show_markers_panel: bool,
    pub show_search_window: bool,
}

impl UiState {
    /// The panels at the start: the connector's where it is enabled.
    pub fn new(settings: &AppSettings) -> (r: UiState)
        ensures
            r == (UiState {
                show_bottom_log_panel: false,
                new_trigger_log_exists: false,
                show_romanization_lrc_panel: false,
                show_translation_lrc_panel: false,
                wrap_text: true,
                show_settings_window: false,
                show_amll_connector_sidebar: settings.amll_connector_enabled,
                show_metadata_panel: false,
                show_markers_panel: false,
                show_search_window: false,
            }),
    {
        UiState {
            show_bottom_log_panel: false,
            new_trigger_log_exists: false,
            show_romanization_lrc_panel: false,
            show_translation_lrc_panel: false,
            wrap_text: true,
            show_settings_window: false,
            show_amll_connector_sidebar: settings.amll_connector_enabled,
            show_metadata_panel: false,
            show_markers_panel: false,
            show_search_window: false,
        }
    }
}

// ---------------------------------------------------------------------------
// Lyrics
// ---------------------------------------------------------------------------

/// A metadata entry that the user can edit.
#[derive(Debug, Clone)]
pub struct EditableMetadataEntry {
    pub key: String,
    pub value: String,
    /// Whether the entry stays when a new song is loaded.
    pub is_pinned: bool,
    pub is_from_file: bool,
    /// What tells the entry's widgets apart.
    pub id: String,
}

/// An `EditableMetadataEntry` over mathematical values.
pub struct EntryView {
    pub key: Seq<char>,
    pub value: Seq<char>,
    pub pinned: bool,
    pub from_file: bool,
    pub id: Seq<char>,
}

impl View for EditableMetadataEntry {
    type V = EntryView;

    open spec fn view(&self) -> EntryView {
        EntryView {
            key: self.key@,
            value: self.value@,
            pinned: self.is_pinned,
            from_file: self.is_from_file,
            id: self.id@,
        }
    }
}

/// The views of a list of entries.
pub open spec fn entries_view(v: Seq<EditableMetadataEntry>) -> Seq<EntryView> {
    Seq::new(v.len(), |i: int| v[i]@)
}

/// A line of an LRC text: its time stamp as it is written, and its text; or the
/// line as it stands.
#[derive(Debug, Clone, PartialEq)]
pub enum LrcLine {
    Parsed { time_tag: String, text: Option<String> },
    Raw { original_text: String },
}

/// An `LrcLine` over mathematical values.
pub enum LrcLineView {
    Parsed { time_tag: Seq<char>, text: Option<Seq<char>> },
    Raw { original_text: Seq<char> },
}

impl View for LrcLine {
    type V = LrcLineView;

    open spec fn view(&self) -> LrcLineView {
        match self {
            LrcLine::Parsed { time_tag, text } => {
                LrcLineView::Parsed { time_tag: time_tag@, text: opt_view(*text) }
            },
            LrcLine::Raw { original_text } => {
                LrcLineView::Raw { original_text: original_text@ }
            },
        }
    }
}

/// The views of a list of LRC lines.
pub open spec fn lrc_views(v: Seq<LrcLine>) -> Seq<LrcLineView> {
    Seq::new(v.len(), |i: int| v[i]@)
}

/// The views of an optional list of LRC lines.
pub open spec fn opt_lrc_views(o: Option<Vec<LrcLine>>) -> Option<Seq<LrcLineView>> {
    match o {
        Some(v) => Some(lrc_views(v@)),
        None => None,
    }
}

/// A song that a search has found.
#[derive(Debug, Clone, PartialEq)]
pub struct SearchResult {
    pub title: String,
    pub artists: Vec<String>,
    pub provider_name: String,
    pub provider_id: String,
}

/// A `SearchResult` over mathematical values.
pub struct FoundView {
    pub title: Seq<char>,
    pub artists: Seq<Seq<char>>,
    pub provider_name: Seq<char>,
    pub provider_id: Seq<char>,
}

impl View for SearchResult {
    type V = FoundView;

    open spec fn view(&self) -> FoundView {
        FoundView {
            title: self.title@,
            artists: views(self.artists@),
            provider_name: self.provider_name@,
            provider_id: self.provider_id@,
        }
    }
}

/// The views of a list of songs.
pub open spec fn found_views(v: Seq<SearchResult>) -> Seq<FoundView> {
    Seq::new(v.len(), |i: int| v[i]@)
}

/// Lyrics that have been fetched.
#[derive(Debug, Clone, PartialEq)]
pub struct FetchedLyrics {
    /// The text as it was fetched.
    pub content: String,
    pub source_format: LyricFormat,
}

/// The result of a conversion: the text, and the metadata that the lyrics hold.
#[derive(Debug, Clone, PartialEq)]
pub struct ConversionOutput {
    pub output_lyrics: String,
    pub raw_metadata: Vec<(String, Vec<String>)>,
}

/// What a conversion starts from.
#[derive(Debug, Clone, PartialEq)]
pub struct ConversionInput {
    pub main_text: String,
    pub source_format: LyricFormat,
    pub target_format: LyricFormat,
    /// A translation in simplified Chinese, as LRC.
    pub translation: Option<String>,
    /// A romanization of Japanese, as LRC.
    pub romanization: Option<String>,
    /// Metadata that the user has edited.
    pub metadata_overrides: Option<Vec<(String, Vec<String>)>>,
    /// The configuration for converting between Chinese scripts.
    pub chinese_config: Option<String>,
}

/// A `ConversionInput` over mathematical values.
pub struct InputView {
    pub main_text: Seq<char>,
    pub source_format: LyricFormat,
    pub target_format: LyricFormat,
    pub translation: Option<Seq<char>>,
    pub romanization: Option<Seq<char>>,
    pub overrides: Option<Seq<(Seq<char>, Seq<Seq<char>>)>>,
    pub chinese_config: Option<Seq<char>>,
}

impl View for ConversionInput {
    type V = InputView;

    open spec fn view(&self) -> InputView {
        InputView {
            main_text: self.main_text@,
            source_format: self.source_format,
            target_format: self.target_format,
            translation: opt_view(self.translation),
            romanization: opt_view(self.romanization),
            overrides: match self.metadata_overrides {
                Some(v) => Some(metadata_views(v@)),
                None => None,
            },
            chinese_config: opt_view(self.chinese_config),
        }
    }
}

/// The lyrics that are edited.
#[derive(Debug, Clone)]
pub struct LyricState {
    pub input_text: String,
    pub output_text: String,
    pub display_translation_lrc_output: String,
    pub display_romanization_lrc_output: String,
    /// Whether the lyrics have been read.
    pub has_parsed_data: bool,
    pub loaded_translation_lrc: Option<Vec<LrcLine>>,
    pub loaded_romanization_lrc: Option<Vec<LrcLine>>,
    pub editable_metadata: Vec<EditableMetadataEntry>,
    pub metadata_is_user_edited: bool,
    pub metadata_source_is_download: bool,
    pub current_markers: Vec<MarkerInfo>,
    pub source_format: LyricFormat,
    pub target_format: LyricFormat,
    pub conversion_in_progress: bool,
    pub search_in_progress: bool,
    pub search_query: String,
    pub search_results: Vec<SearchResult>,
    pub download_in_progress: bool,
}

/// A `LyricState` over mathematical values.
pub struct LyricsView {
    pub input: Seq<char>,
    pub output: Seq<char>,
    pub translation: Seq<char>,
    pub romanization: Seq<char>,
    pub parsed: bool,
    pub loaded_translation: Option<Seq<LrcLineView>>,
    pub loaded_romanization: Option<Seq<LrcLineView>>,
    pub metadata: Seq<EntryView>,
    pub user_edited: bool,
    pub from_download: bool,
    pub markers: Seq<(nat, Seq<char>)>,
    pub source: LyricFormat,
    pub target: LyricFormat,
    pub converting: bool,
    pub searching: bool,
    pub query: Seq<char>,
    pub results: Seq<FoundView>,
    pub downloading: bool,
}

impl View for LyricState {
    type V = LyricsView;

    open spec fn view(&self) -> LyricsView {
        LyricsView {
            input: self.input_text@,
            output: self.output_text@,
            translation: self.display_translation_lrc_output@,
            romanization: self.display_romanization_lrc_output@,
            parsed: self.has_parsed_data,
            loaded_translation: opt_lrc_views(self.loaded_translation_lrc),
            loaded_romanization: opt_lrc_views(self.loaded_romanization_lrc),
            metadata: entries_view(self.editable_metadata@),
            user_edited: self.metadata_is_user_edited,
            from_download: self.metadata_source_is_download,
            markers: marker_views(self.current_markers@),
            source: self.source_format,
            target: self.target_format,
            converting: self.conversion_in_progress,
            searching: self.search_in_progress,
            query: self.search_query@,
            results: found_views(self.search_results@),
            downloading: self.download_in_progress,
        }
    }
}

/// No lyrics.
pub open spec fn no_lyrics() -> LyricsView {
    LyricsView {
        input: Seq::empty(),
        output: Seq::empty(),
        translation: Seq::empty(),
        romanization: Seq::empty(),
        parsed: false,
        loaded_translation: None,
        loaded_romanization: None,
        metadata: Seq::empty(),
        user_edited: false,
        from_download: false,
        markers: Seq::empty(),
        source: LyricFormat::Lrc,
        target: LyricFormat::Ttml,
        converting: false,
        searching: false,
        query: Seq::empty(),
        results: Seq::empty(),
        downloading: false,
    }
}

impl LyricState {
    /// No lyrics.
    pub fn new() -> (r: LyricState)
        ensures
            r@ == no_lyrics(),
    {
        let r = LyricState {
            input_text: String::new(),
            output_text: String::new(),
            display_translation_lrc_output: String::new(),
            display_romanization_lrc_output: String::new(),
            has_parsed_data: false,
            loaded_translation_lrc: None,
            loaded_romanization_lrc: None,
            editable_metadata: Vec::new(),
            metadata_is_user_edited: false,
            metadata_source_is_download: false,
            current_markers: Vec::new(),
            source_format: LyricFormat::Lrc,
            target_format: LyricFormat::Ttml,
            conversion_in_progress: false,
            search_in_progress: false,
            search_query: String::new(),
            search_results: Vec::new(),
            download_in_progress: false,
        };
        proof {
            assert(r@.metadata =~= no_lyrics().metadata);
            assert(r@.markers =~= no_lyrics().markers);
            assert(r@.results =~= no_lyrics().results);
        }
        r
    }
}

/// The upload of lyrics to the database.
#[derive(Debug, Clone, PartialEq)]
pub struct TtmlDbUploadState {
    pub in_progress: bool,
    pub last_paste_url: Option<String>,
}

impl TtmlDbUploadState {
    /// No upload.
    pub fn new() -> (r: TtmlDbUploadState)
        ensures
            r == (TtmlDbUploadState { in_progress: false, last_paste_url: None }),
    {
        TtmlDbUploadState { in_progress: false, last_paste_url: None }
    }
}

} // verus!
