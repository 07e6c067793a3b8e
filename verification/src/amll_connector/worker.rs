//! The connector's decisions: which messages go to the player, and when the
//! client that talks to it is started and stopped.

use vstd::prelude::*;

use super::protocol::{Artist, ArtistView, ClientMessage, ClientView, NullString};
use super::translation::{convert_to_protocol_lyrics, protocol_lines};
use super::types::{
    opt_bytes, opt_bytes_eq, opt_eq, source_views, AMLLConnectorConfig, ActorSettings,
    ConnectorCommand, NowPlayingInfo, PlayingView, WebsocketStatus,
};
use crate::text::{begins_with, stands_at, to_chars};
use crate::types::opt_view;

verus! {

/// The views of a list of messages.
pub open spec fn message_views(v: Seq<ClientMessage>) -> Seq<ClientView> {
    Seq::new(v.len(), |i: int| v[i]@)
}

// ---------------------------------------------------------------------------
// Messages about a track
// ---------------------------------------------------------------------------

/// A text, or the empty text where there is none.
pub open spec fn or_empty(o: Option<Seq<char>>) -> Seq<char> {
    match o {
        Some(s) => s,
        None => Seq::empty(),
    }
}

/// The message that names a song.
pub open spec fn music_info(info: PlayingView) -> ClientView {
    ClientView::SetMusicInfo {
        music_id: Seq::empty(),
        music_name: or_empty(info.title),
        album_id: Seq::empty(),
        album_name: or_empty(info.album_title),
        artists: match info.artist {
            Some(name) => seq![ArtistView { id: Seq::empty(), name }],
            None => Seq::empty(),
        },
        duration: match info.duration_ms {
            Some(d) => d,
            None => 0,
        },
    }
}

/// The message with a cover: none where there is no cover or it is empty.
pub open spec fn cover_messages(cover: Option<Seq<u8>>) -> Seq<ClientView> {
    match cover {
        Some(data) => if data.len() > 0 {
            seq![ClientView::SetMusicAlbumCoverImageData { data }]
        } else {
            Seq::empty()
        },
        None => Seq::empty(),
    }
}

/// The message that says whether a song is playing: none where that is not
/// known.
pub open spec fn play_state_messages(is_playing: Option<bool>) -> Seq<ClientView> {
    match is_playing {
        Some(true) => seq![ClientView::OnResumed],
        Some(false) => seq![ClientView::OnPaused],
        None => Seq::empty(),
    }
}

/// The message with a position: none where it is not known.
pub open spec fn progress_message(position: Option<u64>) -> Seq<ClientView> {
    match position {
        Some(progress) => seq![ClientView::OnPlayProgress { progress }],
        None => Seq::empty(),
    }
}

/// The messages about a new song.
pub open spec fn new_song_messages(info: PlayingView) -> Seq<ClientView> {
    seq![music_info(info)] + cover_messages(info.cover_data)
}

/// Whether the cover is another one than before.
pub open spec fn cover_changed(info: PlayingView, last: Option<PlayingView>) -> bool {
    info.cover_data is Some && info.cover_data != (match last {
        Some(l) => l.cover_data,
        None => None,
    })
}

/// Whether playing has started or stopped.
pub open spec fn state_changed(info: PlayingView, last: Option<PlayingView>) -> bool {
    info.is_playing != (match last {
        Some(l) => l.is_playing,
        None => None,
    })
}

/// The messages about the song that is already known to the player.
pub open spec fn progress_messages(info: PlayingView, last: Option<PlayingView>) -> Seq<ClientView> {
    (if cover_changed(info, last) {
        cover_messages(info.cover_data)
    } else {
        Seq::empty()
    }) + (if state_changed(info, last) {
        play_state_messages(info.is_playing)
    } else {
        Seq::empty()
    }) + progress_message(info.position_ms)
}

/// Whether this is another song than before: its title or its artist differs.
pub open spec fn is_new_song(info: PlayingView, last: Option<PlayingView>) -> bool {
    match last {
        Some(l) => l.title != info.title || l.artist != info.artist,
        None => true,
    }
}

/// The view of an optional track.
pub open spec fn opt_playing(o: Option<NowPlayingInfo>) -> Option<PlayingView> {
    match o {
        Some(i) => Some(i@),
        None => None,
    }
}

/// The text, or the empty one.
fn text_or_empty(o: &Option<String>) -> (r: NullString)
    ensures
        r@ == or_empty(opt_view(*o)),
{
    match o {
        Some(s) => NullString(s.clone()),
        None => NullString(String::new()),
    }
}

/// The message that names a song.
pub fn music_info_message(info: &NowPlayingInfo) -> (r: ClientMessage)
    ensures
        r@ == music_info(info@),
{
    let mut artists: Vec<Artist> = Vec::new();
    match &info.artist {
        Some(name) => {
            artists.push(Artist { id: NullString(String::new()), name: NullString(name.clone()) });
        },
        None => {},
    }
    let r = ClientMessage::SetMusicInfo {
        music_id: NullString(String::new()),
        music_name: text_or_empty(&info.title),
        album_id: NullString(String::new()),
        album_name: text_or_empty(&info.album_title),
        artists,
        duration: match info.duration_ms {
            Some(d) => d,
            None => 0,
        },
    };
    proof {
        let list = super::protocol::artist_views(artists@);
        match info@.artist {
            Some(name) => {
                assert(list =~= seq![ArtistView { id: Seq::empty(), name }]);
            },
            None => {
                assert(list =~= Seq::<ArtistView>::empty());
            },
        }
    }
    r
}

/// Adds the message with a cover.
fn push_cover(out: &mut Vec<ClientMessage>, cover: &Option<Vec<u8>>)
    ensures
        message_views(final(out)@) == message_views(old(out)@) + cover_messages(opt_bytes(*cover)),
{
    match cover {
        Some(data) => {
            if data.len() > 0 {
                out.push(
                    ClientMessage::SetMusicAlbumCoverImageData {
                        data: vstd::slice::slice_to_vec(data.as_slice()),
                    },
                );
            }
        },
        None => {},
    }
    proof {
        assert(message_views(out@) =~= message_views(old(out)@) + cover_messages(
            opt_bytes(*cover),
        ));
    }
}

/// The messages about a new song: its data, and its cover where it has one.
pub fn handle_new_song(info: &NowPlayingInfo) -> (r: Vec<ClientMessage>)
    ensures
        message_views(r@) == new_song_messages(info@),
{
    let mut out: Vec<ClientMessage> = Vec::new();
    out.push(music_info_message(info));
    proof {
        assert(message_views(out@) =~= seq![music_info(info@)]);
    }
    push_cover(&mut out, &info.cover_data);
    out
}

/// The messages about the song that is already known to the player, and whether
/// anything that is shown has changed.
pub fn handle_progress_update(info: &NowPlayingInfo, last: &Option<NowPlayingInfo>) -> (r: (
    Vec<ClientMessage>,
    bool,
))
    ensures
        message_views(r.0@) == progress_messages(info@, opt_playing(*last)),
        r.1 == (cover_changed(info@, opt_playing(*last)) || state_changed(
            info@,
            opt_playing(*last),
        )),
{
    let mut out: Vec<ClientMessage> = Vec::new();
    let cover_is_new = info.cover_data.is_some() && match last {
        Some(l) => !opt_bytes_eq(&info.cover_data, &l.cover_data),
        None => true,
    };
    let state_is_new = match last {
        Some(l) => info.is_playing != l.is_playing,
        None => info.is_playing.is_some(),
    };
    if cover_is_new {
        push_cover(&mut out, &info.cover_data);
    }
    if state_is_new {
        match info.is_playing {
            Some(true) => {
                out.push(ClientMessage::OnResumed);
            },
            Some(false) => {
                out.push(ClientMessage::OnPaused);
            },
            None => {},
        }
    }
    match info.position_ms {
        Some(progress) => {
            out.push(ClientMessage::OnPlayProgress { progress });
        },
        None => {},
    }
    proof {
        assert(message_views(out@) =~= progress_messages(info@, opt_playing(*last)));
    }
    (out, cover_is_new || state_is_new)
}

// ---------------------------------------------------------------------------
// The address of the player
// ---------------------------------------------------------------------------

/// Why an address cannot be used, if it cannot.
pub open spec fn url_problem(url: Seq<char>) -> Option<Seq<char>> {
    if url.len() == 0 {
        Some("WebSocket URL 不能为空"@)
    } else if !stands_at(url, "ws://"@, 0) && !stands_at(url, "wss://"@, 0) {
        Some("无效的 WebSocket URL 格式: "@ + url)
    } else {
        None
    }
}

/// Checks the address of a player: it starts with `ws://` or `wss://`.
pub fn check_websocket_url(url: &str) -> (r: Result<(), String>)
    ensures
        match r {
            Ok(_) => url_problem(url@) is None,
            Err(e) => url_problem(url@) == Some(e@),
        },
{
    if url.is_empty() {
        return Err("WebSocket URL 不能为空".to_owned());
    }
    let u = to_chars(url);
    if !begins_with(u.as_slice(), "ws://") && !begins_with(u.as_slice(), "wss://") {
        let mut e = "无效的 WebSocket URL 格式: ".to_owned();
        e.append(url);
        return Err(e);
    }
    Ok(())
}

// ---------------------------------------------------------------------------
// The actor
// ---------------------------------------------------------------------------

/// What the connector knows.
#[derive(Debug, Clone)]
pub struct ActorState {
    pub config: AMLLConnectorConfig,
    pub actor_settings: ActorSettings,
    /// Whether there is a client, running or not.
    pub has_client: bool,
    pub last_track_info: Option<NowPlayingInfo>,
}

/// An `ActorState` over mathematical values.
pub struct ActorView {
    pub enabled: bool,
    pub url: Seq<char>,
    pub actor_settings: ActorSettings,
    pub has_client: bool,
    pub last_track: Option<PlayingView>,
}

impl View for ActorState {
    type V = ActorView;

    open spec fn view(&self) -> ActorView {
        ActorView {
            enabled: self.config.enabled,
            url: self.config.websocket_url@,
            actor_settings: self.actor_settings,
            has_client: self.has_client,
            last_track: opt_playing(self.last_track_info),
        }
    }
}

/// What the connector is to do.
#[derive(Debug, Clone, PartialEq)]
pub enum ActorAction {
    /// Stop the client and forget it.
    StopClient,
    /// Start a client for this address.
    StartClient(String),
    /// Report that there is no connection.
    ReportDisconnected,
    /// Send a message through the client.
    Send(ClientMessage),
    /// End the connector.
    Exit,
}

/// An `ActorAction` over mathematical values.
pub enum ActionView {
    StopClient,
    StartClient(Seq<char>),
    ReportDisconnected,
    Send(ClientView),
    Exit,
}

impl View for ActorAction {
    type V = ActionView;

    open spec fn view(&self) -> ActionView {
        match self {
            ActorAction::StopClient => ActionView::StopClient,
            ActorAction::StartClient(url) => ActionView::StartClient(url@),
            ActorAction::ReportDisconnected => ActionView::ReportDisconnected,
            ActorAction::Send(m) => ActionView::Send(m@),
            ActorAction::Exit => ActionView::Exit,
        }
    }
}

/// The views of a list of actions.
pub open spec fn action_views(v: Seq<ActorAction>) -> Seq<ActionView> {
    Seq::new(v.len(), |i: int| v[i]@)
}

/// What the system reports about media sessions.
#[derive(Debug, Clone, PartialEq)]
pub enum MediaEvent {
    TrackChanged(NowPlayingInfo),
    SessionsChanged,
    SelectedSessionVanished,
    Other,
}

/// Stops the client that there is.
pub open spec fn stop_actions(has_client: bool) -> Seq<ActionView> {
    if has_client {
        seq![ActionView::StopClient]
    } else {
        Seq::empty()
    }
}

/// Starts a client where the address can be used, and reports that there is no
/// connection where it cannot.
pub open spec fn start_actions(url: Seq<char>) -> Seq<ActionView> {
    if url_problem(url) is None {
        seq![ActionView::StartClient(url)]
    } else {
        seq![ActionView::ReportDisconnected]
    }
}

/// The state with another configuration and, where asked for, another client.
pub open spec fn after_config(
    s: ActorView,
    enabled: bool,
    url: Seq<char>,
    running: bool,
) -> (ActorView, Seq<ActionView>) {
    let is_running = s.has_client && running;
    let next = ActorView { enabled, url, ..s };
    if enabled && (!is_running || url != s.url) {
        (
            ActorView { has_client: url_problem(url) is None, ..next },
            stop_actions(s.has_client) + start_actions(url),
        )
    } else if !enabled && is_running {
        (ActorView { has_client: false, ..next }, stop_actions(true))
    } else {
        (next, Seq::empty())
    }
}

/// Sends a message where there is a client.
pub open spec fn send_actions(has_client: bool, m: ClientView) -> Seq<ActionView> {
    if has_client {
        seq![ActionView::Send(m)]
    } else {
        Seq::empty()
    }
}

/// What a command leads to, where `running` says whether the client, if there is
/// one, still runs.
pub open spec fn after_command(s: ActorView, command: ConnectorCommand, running: bool) -> (
    ActorView,
    Seq<ActionView>,
) {
    match command {
        ConnectorCommand::UpdateConfig(c) => after_config(
            s,
            c.enabled,
            c.websocket_url@,
            running,
        ),
        ConnectorCommand::UpdateActorSettings(settings) => (
            ActorView { actor_settings: settings, ..s },
            Seq::empty(),
        ),
        ConnectorCommand::SendLyric(lines) => (
            s,
            send_actions(
                s.has_client,
                ClientView::SetLyric {
                    data: protocol_lines(source_views(lines@), lines@.len()),
                },
            ),
        ),
        ConnectorCommand::SendClientMessage(m) => (s, send_actions(s.has_client, m@)),
        ConnectorCommand::SendCover(data) => (
            s,
            if data@.len() > 0 {
                send_actions(
                    s.has_client,
                    ClientView::SetMusicAlbumCoverImageData { data: data@ },
                )
            } else {
                Seq::empty()
            },
        ),
        ConnectorCommand::DisconnectWebsocket => (
            ActorView { has_client: false, ..s },
            stop_actions(s.has_client) + seq![ActionView::ReportDisconnected],
        ),
        ConnectorCommand::Shutdown => (
            ActorView { has_client: false, ..s },
            stop_actions(s.has_client) + seq![ActionView::Exit],
        ),
    }
}

/// The messages that a track leads to.
pub open spec fn track_messages(s: ActorView, info: PlayingView) -> Seq<ClientView> {
    if !s.has_client {
        Seq::empty()
    } else if is_new_song(info, s.last_track) {
        new_song_messages(info)
    } else {
        progress_messages(info, s.last_track)
    }
}

/// Whether what is shown has changed with a track.
pub open spec fn track_repaints(s: ActorView, info: PlayingView) -> bool {
    is_new_song(info, s.last_track) || (s.has_client && (cover_changed(info, s.last_track)
        || state_changed(info, s.last_track)))
}

impl ActorState {
    /// A connector with this configuration that has started its client where it
    /// is enabled.
    pub fn start(config: AMLLConnectorConfig) -> (r: (ActorState, Vec<ActorAction>))
        ensures
            r.0@ == (ActorView {
                enabled: config.enabled,
                url: config.websocket_url@,
                actor_settings: ActorSettings { enable_t2s_conversion: false },
                has_client: config.enabled && url_problem(config.websocket_url@) is None,
                last_track: None,
            }),
            action_views(r.1@) == if config.enabled {
                start_actions(config.websocket_url@)
            } else {
                Seq::empty()
            },
    {
        let mut actions: Vec<ActorAction> = Vec::new();
        let mut has_client = false;
        if config.enabled {
            has_client = push_start(&mut actions, &config.websocket_url);
        }
        proof {
            assert(action_views(actions@) =~= if config.enabled {
                start_actions(config.websocket_url@)
            } else {
                Seq::empty()
            });
        }
        (
            ActorState {
                config,
                actor_settings: ActorSettings { enable_t2s_conversion: false },
                has_client,
                last_track_info: None,
            },
            actions,
        )
    }

    /// Decides what a command of the application leads to. `client_is_running`
    /// says whether the client, if there is one, still runs.
    pub fn handle_app_command(&mut self, command: ConnectorCommand, client_is_running: bool) -> (r:
        Vec<ActorAction>)
        ensures
            final(self)@ == after_command(old(self)@, command, client_is_running).0,
            action_views(r@) == after_command(old(self)@, command, client_is_running).1,
    {
        let mut actions: Vec<ActorAction> = Vec::new();
        let has_client = self.has_client;
        let ghost before = self@;
        let ghost expected = after_command(before, command, client_is_running).1;
        match command {
            ConnectorCommand::UpdateConfig(config) => {
                let is_running = has_client && client_is_running;
                let url_changed = !crate::text::str_eq(
                    config.websocket_url.as_str(),
                    self.config.websocket_url.as_str(),
                );
                self.config = config;
                if self.config.enabled && (!is_running || url_changed) {
                    push_stop(&mut actions, has_client);
                    self.has_client = push_start(&mut actions, &self.config.websocket_url);
                } else if !self.config.enabled && is_running {
                    push_stop(&mut actions, true);
                    self.has_client = false;
                }
            },
            ConnectorCommand::UpdateActorSettings(settings) => {
                self.actor_settings = settings;
            },
            ConnectorCommand::SendLyric(lines) => {
                if has_client {
                    let data = convert_to_protocol_lyrics(&lines);
                    actions.push(ActorAction::Send(ClientMessage::SetLyric { data }));
                }
            },
            ConnectorCommand::SendClientMessage(m) => {
                if has_client {
                    actions.push(ActorAction::Send(m));
                }
            },
            ConnectorCommand::SendCover(data) => {
                if has_client && data.len() > 0 {
                    actions.push(
                        ActorAction::Send(ClientMessage::SetMusicAlbumCoverImageData { data }),
                    );
                }
            },
            ConnectorCommand::DisconnectWebsocket => {
                push_stop(&mut actions, has_client);
                self.has_client = false;
                actions.push(ActorAction::ReportDisconnected);
            },
            ConnectorCommand::Shutdown => {
                push_stop(&mut actions, has_client);
                self.has_client = false;
                actions.push(ActorAction::Exit);
            },
        }
        proof {
            assert(action_views(actions@) =~= expected);
        }
        actions
    }

    /// Decides what a report about media sessions leads to: the messages to send
    /// through the client, and whether what is shown has changed.
    pub fn handle_smtc_update(&mut self, event: MediaEvent) -> (r: (Vec<ClientMessage>, bool))
        ensures
            final(self)@ == (ActorView {
                last_track: match event {
                    MediaEvent::TrackChanged(info) => Some(info@),
                    MediaEvent::SessionsChanged => None,
                    MediaEvent::SelectedSessionVanished => None,
                    MediaEvent::Other => old(self)@.last_track,
                },
                ..old(self)@
            }),
            message_views(r.0@) == match event {
                MediaEvent::TrackChanged(info) => track_messages(old(self)@, info@),
                _ => Seq::empty(),
            },
            r.1 == match event {
                MediaEvent::TrackChanged(info) => track_repaints(old(self)@, info@),
                MediaEvent::Other => false,
                _ => true,
            },
    {
        match event {
            MediaEvent::TrackChanged(info) => {
                let new_song = match &self.last_track_info {
                    Some(l) => !opt_eq(&l.title, &info.title) || !opt_eq(&l.artist, &info.artist),
                    None => true,
                };
                let mut messages: Vec<ClientMessage> = Vec::new();
                let mut repaint = new_song;
                if self.has_client {
                    if new_song {
                        messages = handle_new_song(&info);
                    } else {
                        let (list, changed) = handle_progress_update(&info, &self.last_track_info);
                        messages = list;
                        repaint = changed;
                    }
                } else {
                    proof {
                        assert(message_views(messages@) =~= Seq::<ClientView>::empty());
                    }
                }
                self.last_track_info = Some(info);
                (messages, repaint)
            },
            MediaEvent::SessionsChanged => {
                self.last_track_info = None;
                (no_messages(), true)
            },
            MediaEvent::SelectedSessionVanished => {
                self.last_track_info = None;
                (no_messages(), true)
            },
            MediaEvent::Other => (no_messages(), false),
        }
    }
}

/// No messages.
fn no_messages() -> (r: Vec<ClientMessage>)
    ensures
        message_views(r@) == Seq::<ClientView>::empty(),
{
    let r: Vec<ClientMessage> = Vec::new();
    proof {
        assert(message_views(r@) =~= Seq::<ClientView>::empty());
    }
    r
}

/// Adds the stop of a client.
fn push_stop(actions: &mut Vec<ActorAction>, has_client: bool)
    ensures
        action_views(final(actions)@) == action_views(old(actions)@) + stop_actions(has_client),
{
    if has_client {
        actions.push(ActorAction::StopClient);
    }
    proof {
        assert(action_views(actions@) =~= action_views(old(actions)@) + stop_actions(has_client));
    }
}

/// Adds the start of a client, or the report that there is none, and says which.
fn push_start(actions: &mut Vec<ActorAction>, url: &String) -> (r: bool)
    ensures
        action_views(final(actions)@) == action_views(old(actions)@) + start_actions(url@),
        r == (url_problem(url@) is None),
{
    let ok = check_websocket_url(url.as_str()).is_ok();
    if ok {
        actions.push(ActorAction::StartClient(url.clone()));
    } else {
        actions.push(ActorAction::ReportDisconnected);
    }
    proof {
        assert(action_views(actions@) =~= action_views(old(actions)@) + start_actions(url@));
    }
    ok
}

/// Whether progress is to be reported often: while the player is connected.
pub fn wants_frequent_progress(status: &WebsocketStatus) -> (r: bool)
    ensures
        r == (*status is Connected),
{
    match status {
        WebsocketStatus::Connected => true,
        _ => false,
    }
}

/// A connector that is not enabled never keeps a running client, whatever it is
/// told about its configuration.
pub proof fn law_disabled_has_no_running_client(s: ActorView, c: AMLLConnectorConfig, running: bool)
    requires
        !c.enabled,
    ensures
        ({
            let r = after_command(s, ConnectorCommand::UpdateConfig(c), running);
            r.0.has_client ==> !running
        }),
{
}

/// Only one client exists at a time: a client is started only where there is
/// none, or where the one there is has been stopped first.
pub proof fn law_one_client(s: ActorView, command: ConnectorCommand, running: bool, i: int)
    requires
        0 <= i < after_command(s, command, running).1.len(),
        after_command(s, command, running).1[i] is StartClient,
    ensures
        s.has_client ==> i > 0 && after_command(s, command, running).1[i - 1] is StopClient,
{
}

/// Sending the same track again leads to nothing but its position.
pub proof fn law_same_track_only_progress(s: ActorView, info: PlayingView)
    requires
        s.last_track == Some(info),
        s.has_client,
    ensures
        track_messages(s, info) == progress_message(info.position_ms),
        !track_repaints(s, info),
{
    assert(track_messages(s, info) =~= progress_message(info.position_ms));
}

} // verus!
