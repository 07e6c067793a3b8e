//! What the connector is told and what it reports.

use vstd::prelude::*;

use super::protocol::ClientMessage;
use crate::types::{opt_view, ttml_views, SyllableView, TtmlSyllable};

verus! {

/// How the connector reaches the player.
#[derive(Debug, Clone, PartialEq)]
pub struct AMLLConnectorConfig {
    /// Whether the connector is to be used at all.
    pub enabled: bool,
    /// The address of the player's WebSocket server.
    pub websocket_url: String,
}

impl Default for AMLLConnectorConfig {
    fn default() -> (r: AMLLConnectorConfig)
        ensures
            !r.enabled,
            r.websocket_url@ == "ws://localhost:11444"@,
    {
        AMLLConnectorConfig { enabled: false, websocket_url: "ws://localhost:11444".to_owned() }
    }
}

impl AMLLConnectorConfig {
    /// A copy of the configuration.
    pub fn copy(&self) -> (r: AMLLConnectorConfig)
        ensures
            r == *self,
    {
        AMLLConnectorConfig { enabled: self.enabled, websocket_url: self.websocket_url.clone() }
    }
}

/// The state of the connection to the player.
#[derive(Debug, Clone, PartialEq)]
pub enum WebsocketStatus {
    Disconnected,
    Connecting,
    Connected,
    /// The connection failed, for the reason given.
    Error(String),
}

/// A `WebsocketStatus` over mathematical values.
pub enum StatusView {
    Disconnected,
    Connecting,
    Connected,
    Error(Seq<char>),
}

impl View for WebsocketStatus {
    type V = StatusView;

    open spec fn view(&self) -> StatusView {
        match self {
            WebsocketStatus::Disconnected => StatusView::Disconnected,
            WebsocketStatus::Connecting => StatusView::Connecting,
            WebsocketStatus::Connected => StatusView::Connected,
            WebsocketStatus::Error(s) => StatusView::Error(s@),
        }
    }
}

impl Default for WebsocketStatus {
    fn default() -> (r: WebsocketStatus)
        ensures
            r == WebsocketStatus::Disconnected,
    {
        WebsocketStatus::Disconnected
    }
}

/// A media session of the system.
#[derive(Debug, Clone, PartialEq, Eq, Hash)]
pub struct SmtcSessionInfo {
    /// What identifies the session.
    pub session_id: String,
    /// The model id of the application that the session belongs to.
    pub source_app_user_model_id: String,
    /// The name that is shown for the session.
    pub display_name: String,
}

/// How a playlist repeats.
#[derive(Debug, Clone, Copy, PartialEq, Eq, Structural)]
pub enum RepeatMode {
    Off,
    One,
    All,
}

/// What is being played.
#[derive(Debug, Clone, PartialEq)]
pub struct NowPlayingInfo {
    pub title: Option<String>,
    pub artist: Option<String>,
    pub album_title: Option<String>,
    pub duration_ms: Option<u64>,
    pub position_ms: Option<u64>,
    /// When the position was reported, on a clock that never goes back.
    pub position_report_time: Option<u64>,
    pub is_playing: Option<bool>,
    pub is_shuffle_active: Option<bool>,
    pub repeat_mode: Option<RepeatMode>,
    pub cover_data: Option<Vec<u8>>,
    pub cover_data_hash: Option<u64>,
}

/// The view of an optional list of bytes.
pub open spec fn opt_bytes(o: Option<Vec<u8>>) -> Option<Seq<u8>> {
    match o {
        Some(b) => Some(b@),
        None => None,
    }
}

/// A `NowPlayingInfo` over mathematical values.
pub struct PlayingView {
    pub title: Option<Seq<char>>,
    pub artist: Option<Seq<char>>,
    pub album_title: Option<Seq<char>>,
    pub duration_ms: Option<u64>,
    pub position_ms: Option<u64>,
    pub position_report_time: Option<u64>,
    pub is_playing: Option<bool>,
    pub is_shuffle_active: Option<bool>,
    pub repeat_mode: Option<RepeatMode>,
    pub cover_data: Option<Seq<u8>>,
    pub cover_data_hash: Option<u64>,
}

impl View for NowPlayingInfo {
    type V = PlayingView;

    open spec fn view(&self) -> PlayingView {
        PlayingView {
            title: opt_view(self.title),
            artist: opt_view(self.artist),
            album_title: opt_view(self.album_title),
            duration_ms: self.duration_ms,
            position_ms: self.position_ms,
            position_report_time: self.position_report_time,
            is_playing: self.is_playing,
            is_shuffle_active: self.is_shuffle_active,
            repeat_mode: self.repeat_mode,
            cover_data: opt_bytes(self.cover_data),
            cover_data_hash: self.cover_data_hash,
        }
    }
}

impl NowPlayingInfo {
    /// Nothing is known of what is being played.
    pub fn nothing() -> (r: NowPlayingInfo)
        ensures
            r@ == (PlayingView {
                title: None,
                artist: None,
                album_title: None,
                duration_ms: None,
                position_ms: None,
                position_report_time: None,
                is_playing: None,
                is_shuffle_active: None,
                repeat_mode: None,
                cover_data: None,
                cover_data_hash: None,
            }),
    {
        NowPlayingInfo {
            title: None,
            artist: None,
            album_title: None,
            duration_ms: None,
            position_ms: None,
            position_report_time: None,
            is_playing: None,
            is_shuffle_active: None,
            repeat_mode: None,
            cover_data: None,
            cover_data_hash: None,
        }
    }

    /// A copy of what is known.
    pub fn copy(&self) -> (r: NowPlayingInfo)
        ensures
            r@ == self@,
    {
        NowPlayingInfo {
            title: crate::types::clone_opt(&self.title),
            artist: crate::types::clone_opt(&self.artist),
            album_title: crate::types::clone_opt(&self.album_title),
            duration_ms: self.duration_ms,
            position_ms: self.position_ms,
            position_report_time: self.position_report_time,
            is_playing: self.is_playing,
            is_shuffle_active: self.is_shuffle_active,
            repeat_mode: self.repeat_mode,
            cover_data: clone_bytes(&self.cover_data),
            cover_data_hash: self.cover_data_hash,
        }
    }
}

/// A copy of an optional list of bytes.
pub fn clone_bytes(o: &Option<Vec<u8>>) -> (r: Option<Vec<u8>>)
    ensures
        opt_bytes(r) == opt_bytes(*o),
{
    match o {
        Some(b) => Some(vstd::slice::slice_to_vec(b.as_slice())),
        None => None,
    }
}

/// Whether two optional strings are equal.
pub fn opt_eq(a: &Option<String>, b: &Option<String>) -> (r: bool)
    ensures
        r == (opt_view(*a) == opt_view(*b)),
{
    match a {
        Some(x) => match b {
            Some(y) => *x == *y,
            None => false,
        },
        None => match b {
            Some(_) => false,
            None => true,
        },
    }
}

/// Whether two optional lists of bytes are equal.
pub fn opt_bytes_eq(a: &Option<Vec<u8>>, b: &Option<Vec<u8>>) -> (r: bool)
    ensures
        r == (opt_bytes(*a) == opt_bytes(*b)),
{
    match a {
        Some(x) => match b {
            Some(y) => bytes_eq(x, y),
            None => false,
        },
        None => match b {
            Some(_) => false,
            None => true,
        },
    }
}

/// Whether two lists of bytes are equal.
fn bytes_eq(a: &Vec<u8>, b: &Vec<u8>) -> (r: bool)
    ensures
        r == (a@ == b@),
{
    if a.len() != b.len() {
        return false;
    }
    let mut i: usize = 0;
    while i < a.len()
        invariant
            i <= a.len(),
            a.len() == b.len(),
            forall|k: int| 0 <= k < i ==> a@[k] == b@[k],
        decreases a.len() - i,
    {
        if a[i] != b[i] {
            return false;
        }
        i += 1;
    }
    proof {
        assert(a@ =~= b@);
    }
    true
}

/// What a media session is asked to do.
#[derive(Debug, Clone, Copy, PartialEq, Eq, Structural)]
pub enum SmtcControlCommand {
    Pause,
    Play,
    SkipNext,
    SkipPrevious,
    /// Go to a position in milliseconds.
    SeekTo(u64),
    /// Set the volume; the bits are those of a 64-bit floating-point number.
    SetVolume(u64),
}

// ---------------------------------------------------------------------------
// Lyrics
// ---------------------------------------------------------------------------

/// A translation with its language.
#[derive(Debug, Clone)]
pub struct TranslationEntry {
    pub text: String,
    pub lang: Option<String>,
}

/// A romanization.
#[derive(Debug, Clone)]
pub struct RomanizationEntry {
    pub text: String,
}

/// Sung syllables with their translations and romanizations.
#[derive(Debug, Clone)]
pub struct LyricSection {
    pub start_ms: u64,
    pub end_ms: u64,
    pub syllables: Vec<TtmlSyllable>,
    pub translations: Vec<TranslationEntry>,
    pub romanizations: Vec<RomanizationEntry>,
}

/// A `LyricSection` over mathematical values.
pub struct SectionView {
    pub start: u64,
    pub end: u64,
    pub syllables: Seq<SyllableView>,
    pub translations: Seq<(Seq<char>, Option<Seq<char>>)>,
    pub romanizations: Seq<Seq<char>>,
}

impl View for LyricSection {
    type V = SectionView;

    open spec fn view(&self) -> SectionView {
        SectionView {
            start: self.start_ms,
            end: self.end_ms,
            syllables: ttml_views(self.syllables@),
            translations: Seq::new(
                self.translations@.len(),
                |i: int| (self.translations@[i].text@, opt_view(self.translations@[i].lang)),
            ),
            romanizations: Seq::new(
                self.romanizations@.len(),
                |i: int| self.romanizations@[i].text@,
            ),
        }
    }
}

/// A line of parsed lyrics: its singer, its main voice and its background voice.
#[derive(Debug, Clone)]
pub struct SourceLine {
    pub agent: Option<String>,
    pub main: LyricSection,
    pub background: Option<LyricSection>,
}

/// A `SourceLine` over mathematical values.
pub struct SourceLineView {
    pub agent: Option<Seq<char>>,
    pub main: SectionView,
    pub background: Option<SectionView>,
}

impl View for SourceLine {
    type V = SourceLineView;

    open spec fn view(&self) -> SourceLineView {
        SourceLineView {
            agent: opt_view(self.agent),
            main: self.main@,
            background: match self.background {
                Some(b) => Some(b@),
                None => None,
            },
        }
    }
}

/// The views of a list of lines.
pub open spec fn source_views(v: Seq<SourceLine>) -> Seq<SourceLineView> {
    Seq::new(v.len(), |i: int| v[i]@)
}

/// How the connector works besides its connection.
#[derive(Debug, Clone, Copy, PartialEq, Eq, Structural)]
pub struct ActorSettings {
    /// Whether texts are turned into simplified Chinese before a search.
    pub enable_t2s_conversion: bool,
}

/// What the application tells the connector.
#[derive(Debug, Clone)]
pub enum ConnectorCommand {
    UpdateConfig(AMLLConnectorConfig),
    UpdateActorSettings(ActorSettings),
    SendLyric(Vec<SourceLine>),
    SendClientMessage(ClientMessage),
    SendCover(Vec<u8>),
    Shutdown,
    DisconnectWebsocket,
}

} // verus!
