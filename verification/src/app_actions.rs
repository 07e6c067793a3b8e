//! What the user can ask of the application.

use vstd::prelude::*;

use crate::app_definition::{ConversionOutput, FetchedLyrics, LrcLine, SearchResult};
use crate::app_settings::AppSettings;
use crate::formats::LyricFormat;

verus! {

/// What can be asked of files.
#[derive(Debug, Clone, Copy, PartialEq, Eq, Structural)]
pub enum FileAction {
    Open,
    Save,
    LoadTranslationLrc,
    LoadRomanizationLrc,
}

/// A panel of the window.
#[derive(Debug, Clone, Copy, PartialEq, Eq, Structural)]
pub enum PanelType {
    Settings,
    Metadata,
    Search,
    Log,
    Markers,
    Translation,
    Romanization,
    AmllConnector,
}

/// What can be asked of the window.
#[derive(Debug, Clone, Copy, PartialEq, Eq, Structural)]
pub enum UIAction {
    SetPanelVisibility(PanelType, bool),
    SetWrapText(bool),
    ShowPanel(PanelType),
    HidePanel(PanelType),
    ClearLogs,
}

/// What can be asked of the settings.
#[derive(Debug, Clone)]
pub enum SettingsAction {
    Save(AppSettings),
    Cancel,
    Reset,
}

/// What can be asked of the connection to the player.
#[derive(Debug, Clone, Copy, PartialEq, Eq, Structural)]
pub enum AmllConnectorAction {
    Connect,
    Disconnect,
    Retry,
}

/// What an LRC text beside the lyrics is.
#[derive(Debug, Clone, Copy, PartialEq, Eq, Structural)]
pub enum LrcContentType {
    Translation,
    Romanization,
}

/// What can be asked of the lyrics, and what comes back from work on them.
#[derive(Debug)]
pub enum LyricsAction {
    Convert,
    ConvertCompleted(Result<ConversionOutput, String>),
    /// Convert with this configuration between Chinese scripts.
    ConvertChinese(String),
    Search,
    SearchCompleted(Result<Vec<SearchResult>, String>),
    Download(SearchResult),
    DownloadCompleted(Result<FetchedLyrics, String>),
    SourceFormatChanged(LyricFormat),
    TargetFormatChanged(LyricFormat),
    /// The chosen formats have been saved, or not, for the reason given.
    SourceFormatSaved(Option<String>),
    TargetFormatSaved(Option<String>),
    MetadataChanged,
    AddMetadata,
    DeleteMetadata(usize),
    UpdateMetadataKey(usize, String),
    UpdateMetadataValue(usize, String),
    ToggleMetadataPinned(usize),
    LoadFetchedResult(FetchedLyrics),
    /// The LRC text has been edited; its lines, where they could be read.
    LrcInputChanged(Option<Vec<LrcLine>>, LrcContentType),
    MainInputChanged,
    ClearAllData,
}

} // verus!
