//! Follows what the system plays, and keeps lyrics in the local cache.

use vstd::prelude::*;

use crate::amll_connector::protocol::{ClientMessage, ClientView};
use crate::amll_connector::smtc_handler::{session_views, SessionView};
use crate::amll_connector::types::{
    clone_bytes, opt_eq, NowPlayingInfo, PlayingView, SmtcSessionInfo, StatusView, WebsocketStatus,
};
use crate::amll_connector::worker::{
    is_new_song, message_views, music_info, music_info_message, opt_playing,
};
use crate::text::{
    dec, is_ascii_digit, is_blank, join, join_strings, push_dec, split_any, split_at_any,
    split_at_str, split_str, str_is_blank, string_of, to_chars, trim, trim_str, trimmed, views,
};
use crate::types::{opt_view, to_signed, wrapped};

verus! {

// ---------------------------------------------------------------------------
// Artist and album
// ---------------------------------------------------------------------------

/// What stands between artist and album where a player reports both as the
/// artist.
pub open spec fn artist_separator() -> Seq<char> {
    " — "@
}

/// Texts without the white space at their ends.
pub open spec fn trimmed_all(v: Seq<Seq<char>>) -> Seq<Seq<char>> {
    Seq::new(v.len(), |i: int| trim(v[i]))
}

/// The artist and the album that a reported artist holds. Where nothing stands
/// before the separator, the text is taken as the artist as it is.
pub open spec fn split_artist(artist: Option<Seq<char>>) -> (Option<Seq<char>>, Option<Seq<char>>) {
    match artist {
        None => (None, None),
        Some(text) => {
            let parts = trimmed_all(split_str(text, artist_separator()));
            if parts[0].len() == 0 {
                (Some(text), None)
            } else {
                let album = join(parts.subrange(1, parts.len() as int), artist_separator());
                (
                    Some(parts[0]),
                    if album.len() > 0 {
                        Some(album)
                    } else {
                        None
                    },
                )
            }
        },
    }
}

/// Texts without the white space at their ends.
fn trim_all(v: &Vec<String>) -> (r: Vec<String>)
    ensures
        views(r@) == trimmed_all(views(v@)),
{
    let mut out: Vec<String> = Vec::new();
    let mut i: usize = 0;
    while i < v.len()
        invariant
            i <= v.len(),
            out@.len() == i,
            forall|k: int| 0 <= k < i ==> (#[trigger] out@[k])@ == trim(v@[k]@),
        decreases v.len() - i,
    {
        out.push(trim_str(v[i].as_str()));
        i += 1;
    }
    proof {
        assert(views(out@) =~= trimmed_all(views(v@)));
    }
    out
}

/// A split text has at least one part.
proof fn lemma_split_str_not_empty(s: Seq<char>, p: Seq<char>)
    requires
        p.len() > 0,
    ensures
        split_str(s, p).len() > 0,
{
}

/// Takes apart the artist that a player reports.
pub fn split_artist_and_album(artist: &Option<String>) -> (r: (Option<String>, Option<String>))
    ensures
        opt_view(r.0) == split_artist(opt_view(*artist)).0,
        opt_view(r.1) == split_artist(opt_view(*artist)).1,
{
    match artist {
        None => (None, None),
        Some(text) => {
            proof {
                reveal_strlit(" — ");
                lemma_split_str_not_empty(text@, " — "@);
            }
            let raw = split_at_str(text.as_str(), " — ");
            let parts = trim_all(&raw);
            let ghost all = views(parts@);
            proof {
                assert(views(raw@).len() == raw@.len());
                assert(all.len() == parts@.len());
                assert(all[0] == parts@[0]@);
            }
            if parts[0].as_str().is_empty() {
                return (Some(text.clone()), None);
            }
            let rest = vstd::slice::slice_subrange(parts.as_slice(), 1, parts.len());
            let album = join_strings(rest, " — ");
            proof {
                assert(views(rest@) =~= all.subrange(1, all.len() as int));
            }
            let first = parts[0].clone();
            if album.as_str().is_empty() {
                (Some(first), None)
            } else {
                (Some(first), Some(album))
            }
        },
    }
}

// ---------------------------------------------------------------------------
// The position
// ---------------------------------------------------------------------------

/// The position with the offset of the time line taken off: not before the start
/// of the song, and not behind its end where that is known.
pub open spec fn adjusted_position(position: u64, offset: i64, duration: Option<u64>) -> int {
    let p = wrapped(position) - offset;
    let q = if p < 0 {
        0
    } else {
        p
    };
    if duration is Some && duration->0 > 0 && wrapped(duration->0) < q {
        duration->0 as int
    } else {
        q
    }
}

/// Whether the offset can be taken off in 64 bits.
pub open spec fn can_adjust(position: u64, offset: i64) -> bool {
    i64::MIN <= wrapped(position) - offset <= i64::MAX
}

/// Takes the offset of the time line off a position.
pub fn adjust_position(position: u64, offset: i64, duration: Option<u64>) -> (r: u64)
    requires
        can_adjust(position, offset),
    ensures
        r == adjusted_position(position, offset, duration),
{
    let p: i64 = to_signed(position) - offset;
    let q: i64 = if p < 0 {
        0
    } else {
        p
    };
    match duration {
        Some(d) => if d > 0 && to_signed(d) < q {
            d
        } else {
            q as u64
        },
        None => q as u64,
    }
}

/// What a report says once artist and album have been told apart, the position
/// has been adjusted and the time of the report is known.
pub open spec fn normalized(info: PlayingView, offset: i64, now: u64) -> PlayingView {
    let (artist, album) = split_artist(info.artist);
    PlayingView {
        artist,
        album_title: if album is Some && (info.album_title is None || info.album_title->0.len()
            == 0) {
            album
        } else {
            info.album_title
        },
        position_ms: match info.position_ms {
            Some(p) => Some(adjusted_position(p, offset, info.duration_ms) as u64),
            None => None,
        },
        position_report_time: match info.position_report_time {
            Some(t) => Some(t),
            None => Some(now),
        },
        ..info
    }
}

/// Whether the position of a report can be adjusted.
pub open spec fn report_fits(info: PlayingView, offset: i64) -> bool {
    info.position_ms is Some ==> can_adjust(info.position_ms->0, offset)
}

/// Brings a report into shape.
pub fn normalize(info: NowPlayingInfo, offset: i64, now: u64) -> (r: NowPlayingInfo)
    requires
        report_fits(info@, offset),
    ensures
        r@ == normalized(info@, offset, now),
{
    let (artist, album) = split_artist_and_album(&info.artist);
    let lacks_album = match &info.album_title {
        Some(a) => a.as_str().is_empty(),
        None => true,
    };
    let album_title = if album.is_some() && lacks_album {
        album
    } else {
        info.album_title
    };
    let position_ms = match info.position_ms {
        Some(p) => Some(adjust_position(p, offset, info.duration_ms)),
        None => None,
    };
    let position_report_time = match info.position_report_time {
        Some(t) => Some(t),
        None => Some(now),
    };
    NowPlayingInfo {
        title: info.title,
        artist,
        album_title,
        duration_ms: info.duration_ms,
        position_ms,
        position_report_time,
        is_playing: info.is_playing,
        is_shuffle_active: info.is_shuffle_active,
        repeat_mode: info.repeat_mode,
        cover_data: info.cover_data,
        cover_data_hash: info.cover_data_hash,
    }
}

// ---------------------------------------------------------------------------
// A report
// ---------------------------------------------------------------------------

/// What the application knows of what is being played.
#[derive(Debug, Clone)]
pub struct PlayerState {
    pub last_true_info: Option<NowPlayingInfo>,
    /// What the position is reckoned from between two reports.
    pub current_media_info: Option<NowPlayingInfo>,
    pub last_smtc_position_ms: u64,
    pub last_smtc_position_report_time: Option<u64>,
    pub is_currently_playing_sensed_by_smtc: bool,
    pub current_song_duration_ms: u64,
    pub smtc_time_offset_ms: i64,
    pub available_smtc_sessions: Vec<SmtcSessionInfo>,
    pub selected_smtc_session_id: Option<String>,
    pub status: WebsocketStatus,
}

/// A `PlayerState` over mathematical values.
pub struct PlayerView {
    pub last_true: Option<PlayingView>,
    pub current: Option<PlayingView>,
    pub position: u64,
    pub report_time: Option<u64>,
    pub playing: bool,
    pub duration: u64,
    pub offset: i64,
    pub sessions: Seq<SessionView>,
    pub selected: Option<Seq<char>>,
    pub status: StatusView,
}

impl View for PlayerState {
    type V = PlayerView;

    open spec fn view(&self) -> PlayerView {
        PlayerView {
            last_true: opt_playing(self.last_true_info),
            current: opt_playing(self.current_media_info),
            position: self.last_smtc_position_ms,
            report_time: self.last_smtc_position_report_time,
            playing: self.is_currently_playing_sensed_by_smtc,
            duration: self.current_song_duration_ms,
            offset: self.smtc_time_offset_ms,
            sessions: session_views(self.available_smtc_sessions@),
            selected: opt_view(self.selected_smtc_session_id),
            status: self.status@,
        }
    }
}

/// Whether a report says that a song plays.
pub open spec fn plays(info: PlayingView) -> bool {
    info.is_playing == Some(true)
}

/// When the position of a report counts from: while a song plays on and the same
/// position is reported again, from the earlier report.
pub open spec fn counted_from(info: PlayingView, last: Option<PlayingView>) -> Option<u64> {
    match last {
        Some(l) => if plays(info) && plays(l) && info.position_ms is Some && info.position_ms
            == l.position_ms {
            l.position_report_time
        } else {
            info.position_report_time
        },
        None => info.position_report_time,
    }
}

/// Whether the cover is another one than before.
pub open spec fn hash_changed(info: PlayingView, last: Option<PlayingView>) -> bool {
    match last {
        Some(l) => l.cover_data_hash != info.cover_data_hash,
        None => info.cover_data_hash is Some,
    }
}

/// Whether the player is to be told the song's data again.
pub open spec fn info_changed(info: PlayingView, last: Option<PlayingView>) -> bool {
    is_new_song(info, last) || (last is Some && (last->0.album_title != info.album_title
        || last->0.duration_ms != info.duration_ms))
}

/// What is known after a report that has been brought into shape.
pub open spec fn after_report(p: PlayerView, info: PlayingView) -> PlayerView {
    let kept = PlayingView { position_report_time: counted_from(info, p.last_true), ..info };
    PlayerView {
        last_true: Some(kept),
        current: Some(kept),
        position: match info.position_ms {
            Some(x) => x,
            None => 0,
        },
        report_time: kept.position_report_time,
        playing: plays(info),
        duration: match info.duration_ms {
            Some(d) => d,
            None => 0,
        },
        ..p
    }
}

/// The messages that a report leads to.
pub open spec fn report_messages(p: PlayerView, info: PlayingView) -> Seq<ClientView> {
    let position = after_report(p, info).position;
    (if info_changed(info, p.last_true) {
        seq![music_info(info)]
    } else {
        Seq::empty()
    }) + (if plays(info) != p.playing {
        seq![
            if plays(info) {
                ClientView::OnResumed
            } else {
                ClientView::OnPaused
            },
            ClientView::OnPlayProgress { progress: position },
        ]
    } else {
        Seq::empty()
    }) + (if hash_changed(info, p.last_true) {
        seq![
            ClientView::SetMusicAlbumCoverImageData {
                data: match info.cover_data {
                    Some(d) => d,
                    None => Seq::empty(),
                },
            },
        ]
    } else {
        Seq::empty()
    })
}

/// What the application's own server tells its clients.
#[derive(Debug, Clone, Copy, PartialEq, Eq, Structural)]
pub enum ServerUpdate {
    /// Title, artist and lyrics.
    PlaybackInfo,
    /// The position.
    Time(u64),
}

/// What the application's own server tells its clients after a report.
pub open spec fn server_updates(p: PlayerView, info: PlayingView) -> Seq<ServerUpdate> {
    let position = after_report(p, info).position;
    if is_new_song(info, p.last_true) {
        seq![ServerUpdate::PlaybackInfo]
    } else {
        (if plays(info) && position > 0 {
            seq![ServerUpdate::Time(position)]
        } else {
            Seq::empty()
        }) + (if plays(info) != p.playing {
            seq![ServerUpdate::PlaybackInfo]
        } else {
            Seq::empty()
        })
    }
}

/// Whether lyrics are searched for after a report.
pub open spec fn starts_search(p: PlayerView, info: PlayingView) -> bool {
    is_new_song(info, p.last_true) && info.title is Some && !is_blank(info.title->0)
}

/// What the application does after a report.
#[derive(Debug, Clone)]
pub struct ReportStep {
    /// The report, brought into shape.
    pub info: NowPlayingInfo,
    pub server_updates: Vec<ServerUpdate>,
    pub messages: Vec<ClientMessage>,
    /// Whether lyrics are searched for.
    pub start_search: bool,
}

/// What handling a report depends on.
#[derive(Debug, Clone, Copy, PartialEq, Eq, Structural)]
pub struct ReportEnvironment {
    pub connector_enabled: bool,
    /// Whether the connector can be told anything.
    pub connector_reachable: bool,
    /// Whether the application's own server runs.
    pub server_enabled: bool,
}

impl PlayerState {
    /// The connector has been stopped: there is no connection, and nothing is known
    /// to be playing.
    pub fn worker_stopped(&mut self)
        ensures
            final(self)@ == (PlayerView {
                status: StatusView::Disconnected,
                current: None,
                ..old(self)@
            }),
    {
        self.status = WebsocketStatus::Disconnected;
        self.current_media_info = None;
    }

    /// What the application's own server tells its clients when the position has
    /// been reckoned between two reports.
    pub fn simulated_progress(&self, time_ms: u64, server_enabled: bool) -> (r: Option<ServerUpdate>)
        ensures
            r == if server_enabled && self@.playing {
                Some(ServerUpdate::Time(time_ms))
            } else {
                None
            },
    {
        if server_enabled && self.is_currently_playing_sensed_by_smtc {
            Some(ServerUpdate::Time(time_ms))
        } else {
            None
        }
    }

    /// Handles a report of what the system plays.
    pub fn smtc_track_changed(
        &mut self,
        report: NowPlayingInfo,
        now: u64,
        env: &ReportEnvironment,
    ) -> (r: ReportStep)
        requires
            report_fits(report@, old(self).smtc_time_offset_ms),
        ensures
            ({
                let p = old(self)@;
                let info = normalized(report@, p.offset, now);
                &&& r.info@ == info
                &&& final(self)@ == after_report(p, info)
                &&& r.server_updates@ == if env.server_enabled {
                    server_updates(p, info)
                } else {
                    Seq::empty()
                }
                &&& message_views(r.messages@) == if env.connector_enabled
                    && env.connector_reachable {
                    report_messages(p, info)
                } else {
                    Seq::empty()
                }
                &&& r.start_search == (env.connector_enabled && starts_search(p, info))
            }),
    {
        let ghost p = self@;
        let info = normalize(report, self.smtc_time_offset_ms, now);
        let ghost shaped = info@;
        let new_song = match &self.last_true_info {
            Some(l) => !opt_eq(&l.title, &info.title) || !opt_eq(&l.artist, &info.artist),
            None => true,
        };
        let changed_cover = match &self.last_true_info {
            Some(l) => l.cover_data_hash != info.cover_data_hash,
            None => info.cover_data_hash.is_some(),
        };
        let changed_info = new_song || match &self.last_true_info {
            Some(l) => !opt_eq(&l.album_title, &info.album_title) || l.duration_ms
                != info.duration_ms,
            None => false,
        };
        let playing = match info.is_playing {
            Some(true) => true,
            _ => false,
        };
        let report_time = match &self.last_true_info {
            Some(l) => {
                let was_playing = match l.is_playing {
                    Some(true) => true,
                    _ => false,
                };
                if playing && was_playing && info.position_ms.is_some() && info.position_ms
                    == l.position_ms {
                    l.position_report_time
                } else {
                    info.position_report_time
                }
            },
            None => info.position_report_time,
        };
        let state_changed = playing != self.is_currently_playing_sensed_by_smtc;
        let position: u64 = match info.position_ms {
            Some(x) => x,
            None => 0,
        };
        let mut server_list: Vec<ServerUpdate> = Vec::new();
        if env.server_enabled {
            if new_song {
                server_list.push(ServerUpdate::PlaybackInfo);
            } else {
                if playing && position > 0 {
                    server_list.push(ServerUpdate::Time(position));
                }
                if state_changed {
                    server_list.push(ServerUpdate::PlaybackInfo);
                }
            }
            proof {
                assert(server_list@ =~= server_updates(p, shaped));
            }
        }
        let mut messages: Vec<ClientMessage> = Vec::new();
        if env.connector_enabled && env.connector_reachable {
            if changed_info {
                messages.push(music_info_message(&info));
            }
            if state_changed {
                if playing {
                    messages.push(ClientMessage::OnResumed);
                } else {
                    messages.push(ClientMessage::OnPaused);
                }
                messages.push(ClientMessage::OnPlayProgress { progress: position });
            }
            if changed_cover {
                let data: Vec<u8> = match clone_bytes(&info.cover_data) {
                    Some(d) => d,
                    None => Vec::new(),
                };
                proof {
                    assert(data@ =~= match shaped.cover_data {
                        Some(d) => d,
                        None => Seq::empty(),
                    });
                }
                messages.push(ClientMessage::SetMusicAlbumCoverImageData { data });
            }
            proof {
                assert(message_views(messages@) =~= report_messages(p, shaped));
            }
        } else {
            proof {
                assert(message_views(messages@) =~= Seq::<ClientView>::empty());
            }
        }
        let has_title = match &info.title {
            Some(t) => !str_is_blank(t.as_str()),
            None => false,
        };
        let mut kept = info.copy();
        kept.position_report_time = report_time;
        let duration: u64 = match info.duration_ms {
            Some(d) => d,
            None => 0,
        };
        self.current_media_info = Some(kept.copy());
        self.last_true_info = Some(kept);
        self.last_smtc_position_ms = position;
        self.last_smtc_position_report_time = report_time;
        self.is_currently_playing_sensed_by_smtc = playing;
        self.current_song_duration_ms = duration;
        ReportStep {
            info,
            server_updates: server_list,
            messages,
            start_search: env.connector_enabled && new_song && has_title,
        }
    }
}

/// A report that is repeated, with nothing changed, leads to no search and to no
/// message.
pub proof fn law_repeated_report_is_quiet(p: PlayerView, info: PlayingView)
    ensures
        ({
            let q = after_report(p, info);
            &&& report_messages(q, info) == Seq::<ClientView>::empty()
            &&& !starts_search(q, info)
        }),
{
    let q = after_report(p, info);
    assert(report_messages(q, info) =~= Seq::<ClientView>::empty());
}

/// While a song plays on and the same position is reported again and again, the
/// position counts from the first of these reports.
pub proof fn law_stuck_position_counts_on(p: PlayerView, info: PlayingView, later: u64)
    requires
        plays(info),
        info.position_ms is Some,
    ensures
        ({
            let q = after_report(p, info);
            let again = PlayingView { position_report_time: Some(later), ..info };
            after_report(q, again).report_time == q.report_time
        }),
{
}

// ---------------------------------------------------------------------------
// The connection
// ---------------------------------------------------------------------------

/// What the application does when the state of the connection has changed.
#[derive(Debug, Clone)]
pub struct StatusStep {
    pub start_timer: bool,
    pub stop_timer: bool,
    /// What the player is told.
    pub messages: Vec<ClientMessage>,
    /// Whether the lyrics are sent.
    pub send_lyrics: bool,
}

impl PlayerState {
    /// Handles a change of the connection to the player. A new connection is told
    /// whether a song plays, and gets the lyrics where there are any.
    pub fn websocket_status_changed(
        &mut self,
        status: WebsocketStatus,
        connector_reachable: bool,
        has_output: bool,
    ) -> (r: StatusStep)
        ensures
            final(self)@ == (PlayerView { status: status@, ..old(self)@ }),
            ({
                let connected = status is Connected && !(old(self).status is Connected);
                &&& r.start_timer == connected
                &&& r.stop_timer == !(status is Connected)
                &&& message_views(r.messages@) == if connected && connector_reachable {
                    seq![
                        if old(self).is_currently_playing_sensed_by_smtc {
                            ClientView::OnResumed
                        } else {
                            ClientView::OnPaused
                        },
                    ]
                } else {
                    Seq::empty()
                }
                &&& r.send_lyrics == (connected && connector_reachable && has_output)
            }),
    {
        let now_connected = match &status {
            WebsocketStatus::Connected => true,
            _ => false,
        };
        let was_connected = match &self.status {
            WebsocketStatus::Connected => true,
            _ => false,
        };
        let connected = now_connected && !was_connected;
        let mut messages: Vec<ClientMessage> = Vec::new();
        if connected && connector_reachable {
            if self.is_currently_playing_sensed_by_smtc {
                messages.push(ClientMessage::OnResumed);
            } else {
                messages.push(ClientMessage::OnPaused);
            }
        }
        proof {
            assert(message_views(messages@) =~= if connected && connector_reachable {
                seq![
                    if self.is_currently_playing_sensed_by_smtc {
                        ClientView::OnResumed
                    } else {
                        ClientView::OnPaused
                    },
                ]
            } else {
                Seq::empty()
            });
        }
        self.status = status;
        StatusStep {
            start_timer: connected,
            stop_timer: !now_connected,
            messages,
            send_lyrics: connected && connector_reachable && has_output,
        }
    }

    /// Takes over the list of sessions; a selected session that is not in it is
    /// selected no longer.
    pub fn session_list_changed(&mut self, sessions: Vec<SmtcSessionInfo>)
        ensures
            final(self)@ == (PlayerView {
                sessions: session_views(sessions@),
                selected: match old(self)@.selected {
                    Some(id) => if exists|i: int|
                        0 <= i < sessions@.len() && (#[trigger] sessions@[i]).session_id@ == id {
                        Some(id)
                    } else {
                        None
                    },
                    None => None,
                },
                ..old(self)@
            }),
    {
        let mut gone = false;
        match &self.selected_smtc_session_id {
            Some(id) => {
                gone = true;
                let mut i: usize = 0;
                while i < sessions.len()
                    invariant
                        i <= sessions.len(),
                        gone == !(exists|k: int|
                            0 <= k < i && (#[trigger] sessions@[k]).session_id@ == id@),
                    decreases sessions.len() - i,
                {
                    if sessions[i].session_id == *id {
                        gone = false;
                        proof {
                            assert(sessions@[i as int].session_id@ == id@);
                        }
                    }
                    i += 1;
                }
            },
            None => {},
        }
        if gone {
            self.selected_smtc_session_id = None;
        }
        self.available_smtc_sessions = sessions;
    }

    /// Notes that a session has gone. Where it was the selected one, gives the
    /// message about it, which names what stands before the first `!` of its id.
    pub fn session_vanished(&mut self, session_id: &String) -> (r: Option<String>)
        ensures
            ({
                let was_selected = old(self)@.selected == Some(session_id@);
                &&& final(self)@ == (PlayerView {
                    selected: if was_selected {
                        None
                    } else {
                        old(self)@.selected
                    },
                    ..old(self)@
                })
                &&& opt_view(r) == if was_selected {
                    Some("源应用 \""@ + split_any(session_id@, seq!['!'])[0] + "\" 已关闭"@)
                } else {
                    None
                }
            }),
    {
        let was_selected = match &self.selected_smtc_session_id {
            Some(id) => *id == *session_id,
            None => false,
        };
        if !was_selected {
            return None;
        }
        self.selected_smtc_session_id = None;
        let v = to_chars(session_id.as_str());
        let mark: [char; 1] = ['!'];
        proof {
            assert(mark@ =~= seq!['!']);
        }
        let parts = split_at_any(v.as_slice(), &mark);
        let mut m = "源应用 \"".to_owned();
        proof {
            assert(split_any(session_id@, seq!['!']).len() > 0);
            assert(parts@[0]@ == split_any(session_id@, seq!['!'])[0]);
        }
        crate::text::push_chars(&mut m, parts[0].as_slice());
        m.append("\" 已关闭");
        Some(m)
    }
}

// ---------------------------------------------------------------------------
// The local cache
// ---------------------------------------------------------------------------

/// Whether `char::is_alphanumeric` holds of `c`.
pub uninterp spec fn alphanumeric(c: char) -> bool;

/// `char::is_alphanumeric` tells letters and numbers of all scripts. The result
/// depends on the character alone; of the ASCII characters it holds of letters
/// and digits.
#[verifier::external_body]
fn is_alphanumeric(c: char) -> (r: bool)
    ensures
        r == alphanumeric(c),
        '\u{80}' > c ==> r == (is_ascii_digit(c) || 'a' <= c <= 'z' || 'A' <= c <= 'Z'),
{
    c.is_alphanumeric()
}

/// Whether a character is kept in a file name.
pub open spec fn is_name_char(c: char) -> bool {
    c == ' ' || c == ',' || c == '-' || if '\u{80}' > c {
        is_ascii_digit(c) || 'a' <= c <= 'z' || 'A' <= c <= 'Z'
    } else {
        alphanumeric(c)
    }
}

/// The first `n` characters that are kept in a file name.
pub open spec fn name_chars(s: Seq<char>, n: nat) -> Seq<char>
    decreases n,
{
    if n == 0 {
        Seq::empty()
    } else {
        let before = name_chars(s, (n - 1) as nat);
        if is_name_char(s[n - 1]) {
            before.push(s[n - 1])
        } else {
            before
        }
    }
}

/// The artists that a reported artist names.
pub open spec fn cached_artists(artist: Option<Seq<char>>) -> Seq<Seq<char>> {
    match artist {
        Some(text) => trimmed_all(split_any(text, seq!['/', ';', '、'])),
        None => Seq::empty(),
    }
}

/// The name of the file that lyrics are cached in: artists and title without the
/// characters that do not belong in a name, and the time in milliseconds.
pub open spec fn cache_file_name(artists: Seq<Seq<char>>, title: Seq<char>, millis: nat) -> Seq<char> {
    let full = join(artists, ", "@) + " - "@ + title;
    name_chars(full, full.len()) + "_"@ + dec(millis) + ".ttml"@
}

/// The artists that a reported artist names.
pub fn split_cached_artists(artist: &Option<String>) -> (r: Vec<String>)
    ensures
        views(r@) == cached_artists(opt_view(*artist)),
{
    match artist {
        Some(text) => {
            let v = to_chars(text.as_str());
            let ds: [char; 3] = ['/', ';', '、'];
            proof {
                assert(ds@ =~= seq!['/', ';', '、']);
            }
            let parts = split_at_any(v.as_slice(), &ds);
            let ghost all = split_any(text@, seq!['/', ';', '、']);
            let mut out: Vec<String> = Vec::new();
            let mut i: usize = 0;
            while i < parts.len()
                invariant
                    i <= parts.len(),
                    parts@.len() == all.len(),
                    forall|k: int| 0 <= k < parts@.len() ==> #[trigger] parts@[k]@ == all[k],
                    out@.len() == i,
                    forall|k: int| 0 <= k < i ==> (#[trigger] out@[k])@ == trim(all[k]),
                decreases parts.len() - i,
            {
                proof {
                    assert(parts@[i as int]@ == all[i as int]);
                }
                out.push(string_of(trimmed(parts[i].as_slice())));
                i += 1;
            }
            proof {
                assert(views(out@) =~= trimmed_all(all));
            }
            out
        },
        None => {
            let out: Vec<String> = Vec::new();
            proof {
                assert(views(out@) =~= Seq::<Seq<char>>::empty());
            }
            out
        },
    }
}

/// The name of the file that lyrics are cached in.
pub fn make_cache_file_name(artists: &Vec<String>, title: &str, millis: u64) -> (r: String)
    ensures
        r@ == cache_file_name(views(artists@), title@, millis as nat),
{
    let mut full = join_strings(artists.as_slice(), ", ");
    full.append(" - ");
    full.append(title);
    let v = to_chars(full.as_str());
    let mut out = String::new();
    let mut i: usize = 0;
    while i < v.len()
        invariant
            i <= v.len(),
            out@ == name_chars(v@, i as nat),
        decreases v.len() - i,
    {
        let c = v[i];
        if c == ' ' || c == ',' || c == '-' || is_alphanumeric(c) {
            out.push(c);
        }
        i += 1;
    }
    out.append("_");
    push_dec(&mut out, millis);
    out.append(".ttml");
    out
}

/// An entry of the local cache.
#[derive(Debug, Clone, PartialEq)]
pub struct LocalLyricCacheEntry {
    pub smtc_title: String,
    pub smtc_artists: Vec<String>,
    pub ttml_filename: String,
    pub original_source_format: Option<String>,
}

/// The entry that lyrics are cached under, given the time in milliseconds and the
/// format that they were fetched in; nothing where the song has no title.
pub fn make_cache_entry(
    info: &NowPlayingInfo,
    millis: u64,
    fetched_format: Option<crate::formats::LyricFormat>,
) -> (r: Option<LocalLyricCacheEntry>)
    ensures
        match r {
            None => info.title is None,
            Some(e) => ({
                &&& info.title is Some
                &&& e.smtc_title@ == info.title->0@
                &&& views(e.smtc_artists@) == cached_artists(opt_view(info.artist))
                &&& e.ttml_filename@ == cache_file_name(
                    views(e.smtc_artists@),
                    info.title->0@,
                    millis as nat,
                )
                &&& opt_view(e.original_source_format) == match fetched_format {
                    Some(f) => Some(crate::formats::format_name(f)),
                    None => None,
                }
            }),
        },
{
    match &info.title {
        None => None,
        Some(title) => {
            let artists = split_cached_artists(&info.artist);
            let file = make_cache_file_name(&artists, title.as_str(), millis);
            Some(
                LocalLyricCacheEntry {
                    smtc_title: title.clone(),
                    smtc_artists: artists,
                    ttml_filename: file,
                    original_source_format: match fetched_format {
                        Some(f) => Some(f.name().to_owned()),
                        None => None,
                    },
                },
            )
        },
    }
}

} // verus!
