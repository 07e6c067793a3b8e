use std::collections::hash_map::DefaultHasher;
use std::hash::{Hash, Hasher};

use unilyric::amll_connector::amll_connector_manager::{
    ensure_running, progress_tick, start_commands, StartCommand, WorkerAction,
};
use unilyric::amll_connector::audio_capture::{
    add_to_channels, adjust_channels, check_format, interleave, resampler_chunk_frames,
    samples_from_bytes, samples_to_bytes, take_chunk,
};
use unilyric::amll_connector::capture_step::{CaptureAction, CaptureEvent, CaptureState};
use unilyric::amll_connector::protocol::{ClientMessage, NullString, ServerMessage};
use unilyric::amll_connector::smtc_handler::{
    calculate_cover_hash, list_sessions, session_display_name, session_request, ticks_to_ms,
    Session, SessionChange, SessionControls, SessionRequest, SessionSwitch, SharedPlayerState, SmtcState,
    MAX_COVER_SIZE_BYTES,
};
use unilyric::amll_connector::translation::{convert_to_protocol_lyrics, extract_line_components};
use unilyric::amll_connector::types::{
    AMLLConnectorConfig, ActorSettings, ConnectorCommand, LyricSection, NowPlayingInfo,
    RomanizationEntry, SmtcControlCommand, SourceLine, TranslationEntry, WebsocketStatus,
};
use unilyric::amll_connector::websocket_client::{
    classify, connect_timeout_message, Attempts, Connection, Heartbeat, Incoming,
    LifecycleEndReason, NextStep, Reaction, APP_PONG_TIMEOUT_NS, MIN_VOLUME_SET_INTERVAL_NS,
    SEEK_DEBOUNCE_NS,
};
use unilyric::amll_connector::worker::{
    check_websocket_url, handle_new_song, handle_progress_update, music_info_message,
    wants_frequent_progress, ActorAction, ActorState, MediaEvent,
};
use unilyric::types::TtmlSyllable;

const SECOND: u64 = 1_000_000_000;

fn config(enabled: bool, url: &str) -> AMLLConnectorConfig {
    AMLLConnectorConfig { enabled, websocket_url: url.to_string() }
}

fn song(title: &str, artist: &str) -> NowPlayingInfo {
    NowPlayingInfo {
        title: Some(title.to_string()),
        artist: Some(artist.to_string()),
        ..NowPlayingInfo::nothing()
    }
}

#[test]
fn the_connector_is_disabled_at_first() {
    assert_eq!(AMLLConnectorConfig::default(), config(false, "ws://localhost:11444"));
    assert_eq!(WebsocketStatus::default(), WebsocketStatus::Disconnected);
}

#[test]
fn addresses_are_checked() {
    assert_eq!(check_websocket_url("ws://a"), Ok(()));
    assert_eq!(check_websocket_url("wss://a"), Ok(()));
    assert_eq!(check_websocket_url(""), Err("WebSocket URL 不能为空".to_string()));
    assert_eq!(
        check_websocket_url("http://a"),
        Err("无效的 WebSocket URL 格式: http://a".to_string())
    );
}

#[test]
fn an_enabled_connector_starts_a_client() {
    let (s, actions) = ActorState::start(config(true, "ws://a"));
    assert!(s.has_client);
    assert_eq!(actions, vec![ActorAction::StartClient("ws://a".to_string())]);
    let (off, none) = ActorState::start(config(false, "ws://a"));
    assert!(!off.has_client);
    assert!(none.is_empty());
}

#[test]
fn another_address_needs_another_client() {
    let (mut s, _) = ActorState::start(config(true, "ws://a"));
    let same = s.handle_app_command(ConnectorCommand::UpdateConfig(config(true, "ws://a")), true);
    assert!(same.is_empty());
    let other = s.handle_app_command(ConnectorCommand::UpdateConfig(config(true, "ws://b")), true);
    assert_eq!(
        other,
        vec![ActorAction::StopClient, ActorAction::StartClient("ws://b".to_string())]
    );
    let bad = s.handle_app_command(ConnectorCommand::UpdateConfig(config(true, "b")), true);
    assert_eq!(bad, vec![ActorAction::StopClient, ActorAction::ReportDisconnected]);
    assert!(!s.has_client);
}

#[test]
fn a_disabled_connector_stops_its_client() {
    let (mut s, _) = ActorState::start(config(true, "ws://a"));
    let a = s.handle_app_command(ConnectorCommand::UpdateConfig(config(false, "ws://a")), true);
    assert_eq!(a, vec![ActorAction::StopClient]);
    assert!(!s.has_client && !s.config.enabled);
}

#[test]
fn commands_reach_the_client() {
    let (mut s, _) = ActorState::start(config(true, "ws://a"));
    let sent = s.handle_app_command(ConnectorCommand::SendClientMessage(ClientMessage::OnPaused), true);
    assert_eq!(sent, vec![ActorAction::Send(ClientMessage::OnPaused)]);
    assert!(s.handle_app_command(ConnectorCommand::SendCover(vec![]), true).is_empty());
    assert_eq!(
        s.handle_app_command(ConnectorCommand::SendCover(vec![1]), true),
        vec![ActorAction::Send(ClientMessage::SetMusicAlbumCoverImageData { data: vec![1] })]
    );
    let settings = ActorSettings { enable_t2s_conversion: true };
    assert!(s.handle_app_command(ConnectorCommand::UpdateActorSettings(settings), true).is_empty());
    assert_eq!(s.actor_settings, settings);
    assert_eq!(
        s.handle_app_command(ConnectorCommand::DisconnectWebsocket, true),
        vec![ActorAction::StopClient, ActorAction::ReportDisconnected]
    );
    assert!(s
        .handle_app_command(ConnectorCommand::SendClientMessage(ClientMessage::Ping), true)
        .is_empty());
    assert_eq!(
        s.handle_app_command(ConnectorCommand::Shutdown, true),
        vec![ActorAction::Exit]
    );
}

#[test]
fn lyrics_are_sent_as_lines() {
    let (mut s, _) = ActorState::start(config(true, "ws://a"));
    let a = s.handle_app_command(ConnectorCommand::SendLyric(vec![]), true);
    assert_eq!(a, vec![ActorAction::Send(ClientMessage::SetLyric { data: vec![] })]);
}

#[test]
fn new_songs_are_named() {
    let mut info = song("T", "A");
    info.album_title = Some("B".to_string());
    info.duration_ms = Some(7);
    info.cover_data = Some(vec![1, 2]);
    match music_info_message(&info) {
        ClientMessage::SetMusicInfo { music_name, album_name, artists, duration, .. } => {
            assert_eq!(music_name, NullString::new("T"));
            assert_eq!(album_name, NullString::new("B"));
            assert_eq!(artists[0].name, NullString::new("A"));
            assert_eq!(duration, 7);
        }
        _ => panic!("music info is owed"),
    }
    let messages = handle_new_song(&info);
    assert_eq!(messages.len(), 2);
    assert_eq!(messages[1], ClientMessage::SetMusicAlbumCoverImageData { data: vec![1, 2] });
}

#[test]
fn only_changes_are_sent() {
    let mut info = song("T", "A");
    info.is_playing = Some(true);
    info.position_ms = Some(5);
    let (messages, repaint) = handle_progress_update(&info, &None);
    assert_eq!(
        messages,
        vec![ClientMessage::OnResumed, ClientMessage::OnPlayProgress { progress: 5 }]
    );
    assert!(repaint);
    let (again, quiet) = handle_progress_update(&info, &Some(info.clone()));
    assert_eq!(again, vec![ClientMessage::OnPlayProgress { progress: 5 }]);
    assert!(!quiet);
}

#[test]
fn tracks_are_followed() {
    let (mut s, _) = ActorState::start(config(true, "ws://a"));
    let (first, repaint) = s.handle_smtc_update(MediaEvent::TrackChanged(song("T", "A")));
    assert_eq!(first.len(), 1);
    assert!(repaint);
    let mut later = song("T", "A");
    later.position_ms = Some(9);
    let (second, quiet) = s.handle_smtc_update(MediaEvent::TrackChanged(later));
    assert_eq!(second, vec![ClientMessage::OnPlayProgress { progress: 9 }]);
    assert!(!quiet);
}

#[test]
fn progress_is_frequent_while_connected() {
    assert!(wants_frequent_progress(&WebsocketStatus::Connected));
    assert!(!wants_frequent_progress(&WebsocketStatus::Connecting));
}

#[test]
fn bytes_are_classified() {
    assert_eq!(classify(&[1, 0]), Incoming::Server(ServerMessage::Pong));
    assert_eq!(classify(&[7, 0]), Incoming::Ignored);
    assert_eq!(classify(&[0xff, 0xff]), Incoming::Malformed);
}

#[test]
fn repeated_seeks_are_followed_once() {
    let mut c = Connection::new();
    let seek = ServerMessage::SeekPlayProgress { progress: 1000 };
    assert_eq!(c.on_message(seek, 0), Reaction::Control(SmtcControlCommand::SeekTo(1000)));
    assert_eq!(c.on_message(seek, SEEK_DEBOUNCE_NS - 1), Reaction::Nothing);
    assert_eq!(
        c.on_message(seek, SEEK_DEBOUNCE_NS),
        Reaction::Control(SmtcControlCommand::SeekTo(1000))
    );
    assert_eq!(c.on_message(ServerMessage::Pause, SEEK_DEBOUNCE_NS), Reaction::Pause);
    assert_eq!(
        c.on_message(seek, SEEK_DEBOUNCE_NS + 1),
        Reaction::Control(SmtcControlCommand::SeekTo(1000))
    );
}

#[test]
fn volumes_are_throttled_and_in_range() {
    let mut c = Connection::new();
    let half = ServerMessage::SetVolume { volume: (0.5f64).to_bits() };
    let loud = ServerMessage::SetVolume { volume: (1.5f64).to_bits() };
    let negative = ServerMessage::SetVolume { volume: (-0.1f64).to_bits() };
    let nan = ServerMessage::SetVolume { volume: f64::NAN.to_bits() };
    let full = ServerMessage::SetVolume { volume: (1.0f64).to_bits() };
    assert_eq!(
        c.on_message(half, 0),
        Reaction::Control(SmtcControlCommand::SetVolume((0.5f64).to_bits()))
    );
    assert_eq!(c.on_message(half, MIN_VOLUME_SET_INTERVAL_NS - 1), Reaction::Nothing);
    assert_eq!(c.on_message(loud, SECOND), Reaction::Nothing);
    assert_eq!(c.on_message(negative, 2 * SECOND), Reaction::Nothing);
    assert_eq!(c.on_message(nan, 3 * SECOND), Reaction::Nothing);
    assert_eq!(
        c.on_message(full, 4 * SECOND),
        Reaction::Control(SmtcControlCommand::SetVolume((1.0f64).to_bits()))
    );
}

#[test]
fn other_messages_are_answered() {
    let mut c = Connection::new();
    assert_eq!(c.on_message(ServerMessage::Ping, 0), Reaction::AnswerPing);
    assert_eq!(c.on_message(ServerMessage::Resume, 0), Reaction::Resume);
    assert_eq!(
        c.on_message(ServerMessage::ForwardSong, 0),
        Reaction::Control(SmtcControlCommand::SkipNext)
    );
    assert_eq!(
        c.on_message(ServerMessage::BackwardSong, 0),
        Reaction::Control(SmtcControlCommand::SkipPrevious)
    );
}

#[test]
fn heartbeats_must_be_answered() {
    let mut c = Connection::new();
    assert_eq!(c.on_tick(0), Heartbeat::SendPing);
    c.ping_sent(0);
    assert_eq!(c.on_tick(APP_PONG_TIMEOUT_NS - 1), Heartbeat::Nothing);
    assert_eq!(c.on_tick(APP_PONG_TIMEOUT_NS + 1), Heartbeat::TimedOut);
    c.on_message(ServerMessage::Pong, 5);
    assert_eq!(c.on_tick(6), Heartbeat::SendPing);
}

#[test]
fn attempts_end() {
    let mut a = Attempts::new();
    let failed = LifecycleEndReason::InitialConnectFailed("x".to_string());
    assert_eq!(
        a.ended(&failed),
        (vec![WebsocketStatus::Error("x".to_string())], NextStep::Retry)
    );
    assert_eq!(
        a.ended(&LifecycleEndReason::PongTimeout),
        (vec![WebsocketStatus::Error("心跳响应超时".to_string())], NextStep::Retry)
    );
    let (statuses, next) = a.ended(&LifecycleEndReason::StreamFailure("y".to_string()));
    assert_eq!(next, NextStep::WaitForShutdown);
    assert_eq!(
        statuses,
        vec![
            WebsocketStatus::Error("连接流错误: y".to_string()),
            WebsocketStatus::Error("已达最大重连次数 (3)".to_string())
        ]
    );
    a.connected();
    assert_eq!(a.consecutive_failures, 0);
    assert_eq!(
        a.ended(&LifecycleEndReason::ShutdownSignalReceived),
        (vec![WebsocketStatus::Disconnected], NextStep::Stop)
    );
    assert_eq!(
        a.ended(&LifecycleEndReason::CriticalChannelFailure("z".to_string())).1,
        NextStep::Stop
    );
    assert_eq!(
        a.ended(&LifecycleEndReason::ServerClosed).0,
        vec![WebsocketStatus::Error("服务器关闭了连接".to_string())]
    );
    assert_eq!(connect_timeout_message(), "连接超时 (超过 10 秒)");
}

#[test]
fn cover_hashes_are_those_of_std() {
    let data: Vec<u8> = vec![1, 2, 3, 255];
    let mut h = DefaultHasher::new();
    data.as_slice().hash(&mut h);
    assert_eq!(calculate_cover_hash(&data), h.finish());
    let mut e = DefaultHasher::new();
    let empty: &[u8] = &[];
    empty.hash(&mut e);
    assert_eq!(calculate_cover_hash(&[]), e.finish());
}

#[test]
fn sessions_are_listed() {
    assert_eq!(session_display_name("Vendor.App!Player"), "Player");
    assert_eq!(session_display_name("spotify.exe"), "spotify.exe");
    let l = list_sessions(&vec!["a!b".to_string()]);
    assert_eq!(l[0].session_id, "a!b");
    assert_eq!(l[0].display_name, "b");
    assert_eq!(l[0].source_app_user_model_id, "a!b");
}

#[test]
fn the_wanted_session_is_followed() {
    let mut s = SmtcState::new();
    let ids = vec!["a".to_string(), "b".to_string()];
    let system = Session::Named("a".to_string());
    assert_eq!(s.sessions_changed(&ids, &system), (None, SessionSwitch::SwitchTo(system.clone())));
    assert_eq!(s.sessions_changed(&ids, &system), (None, SessionSwitch::Keep));
    s.select_session("b".to_string());
    assert_eq!(
        s.sessions_changed(&ids, &system).1,
        SessionSwitch::SwitchTo(Session::Named("b".to_string()))
    );
    let (gone, switch) = s.sessions_changed(&vec!["a".to_string()], &system);
    assert_eq!(gone.as_deref(), Some("b"));
    assert_eq!(switch, SessionSwitch::SwitchTo(system));
    assert_eq!(s.sessions_changed(&vec![], &Session::Absent).1, SessionSwitch::Reset);
}

#[test]
fn requests_are_in_ticks() {
    assert_eq!(
        session_request(SmtcControlCommand::SeekTo(3), true),
        SessionRequest::ChangePosition(30_000)
    );
    assert_eq!(session_request(SmtcControlCommand::SetVolume(1), false), SessionRequest::Nothing);
    assert_eq!(session_request(SmtcControlCommand::SetVolume(1), true), SessionRequest::EaseVolume(1));
    assert_eq!(session_request(SmtcControlCommand::Play, false), SessionRequest::Play);
    assert_eq!(ticks_to_ms(30_009), 3);
    assert_eq!(ticks_to_ms(-10_000), (-1i64) as u64);
    assert_eq!(ticks_to_ms(i64::MIN), (i64::MIN / 10_000) as u64);
}

#[test]
fn session_state_is_kept() {
    let controls = SessionControls {
        can_pause: true,
        can_play: true,
        can_skip_next: false,
        can_skip_previous: false,
        can_seek: true,
    };
    let mut p = SharedPlayerState {
        title: String::new(),
        artist: String::new(),
        album: String::new(),
        song_duration_ms: 10,
        last_known_position_ms: 1,
        last_known_position_report_time: None,
        is_playing: false,
        controls,
        cover_data: None,
        cover_data_hash: None,
    };
    p.playback_changed(true, 4, 100, None);
    assert_eq!((p.is_playing, p.last_known_position_ms), (true, 4));
    p.playback_changed(true, 9, 200, None);
    assert_eq!(p.last_known_position_ms, 4);
    p.timeline_changed(6, 0, 300);
    assert_eq!((p.last_known_position_ms, p.song_duration_ms), (6, 10));
    p.media_properties_changed("t".to_string(), "a".to_string(), "b".to_string());
    assert_eq!(p.title, "t");
    assert!(p.cover_read(vec![1]));
    assert_eq!(p.cover_data_hash, Some(calculate_cover_hash(&[1])));
    assert!(!p.cover_read(vec![0; MAX_COVER_SIZE_BYTES + 1]));
    assert_eq!(p.cover_data, Some(vec![1]));
    p.cover_removed();
    assert_eq!((p.cover_data, p.cover_data_hash), (None, None));
}

#[test]
fn workers_are_kept_while_healthy() {
    assert_eq!(ensure_running(false, &WebsocketStatus::Connected, true), WorkerAction::Stop);
    assert_eq!(ensure_running(true, &WebsocketStatus::Connected, true), WorkerAction::Keep);
    assert_eq!(ensure_running(true, &WebsocketStatus::Connecting, true), WorkerAction::Keep);
    assert_eq!(ensure_running(true, &WebsocketStatus::Disconnected, true), WorkerAction::Restart);
    assert_eq!(ensure_running(true, &WebsocketStatus::Connected, false), WorkerAction::Restart);
    assert_eq!(
        start_commands(true, &Some("s".to_string())),
        vec![
            StartCommand::StartAudioVisualization,
            StartCommand::SelectSmtcSession("s".to_string())
        ]
    );
    assert!(start_commands(false, &None).is_empty());
}

#[test]
fn positions_are_reckoned() {
    let mut info = song("T", "A");
    assert_eq!(progress_tick(&Some(info.clone()), 0), None);
    info.is_playing = Some(true);
    info.position_ms = Some(1000);
    info.position_report_time = Some(SECOND);
    info.duration_ms = Some(2000);
    assert_eq!(
        progress_tick(&Some(info.clone()), SECOND + SECOND / 2),
        Some((1500, vec![ClientMessage::OnPlayProgress { progress: 1500 }]))
    );
    assert_eq!(
        progress_tick(&Some(info), 5 * SECOND),
        Some((2000, vec![ClientMessage::OnPaused, ClientMessage::OnPlayProgress { progress: 2000 }]))
    );
    assert_eq!(progress_tick(&None, 0), None);
}

fn section(text: &str, translations: Vec<TranslationEntry>) -> LyricSection {
    LyricSection {
        start_ms: 1,
        end_ms: 2,
        syllables: vec![TtmlSyllable {
            text: text.to_string(),
            start_ms: 1,
            end_ms: 2,
            ends_with_space: true,
        }],
        translations,
        romanizations: vec![RomanizationEntry { text: "r".to_string() }],
    }
}

fn translation(text: &str, lang: Option<&str>) -> TranslationEntry {
    TranslationEntry { text: text.to_string(), lang: lang.map(|l| l.to_string()) }
}

#[test]
fn chinese_translations_are_preferred() {
    let (words, translated, roman) = extract_line_components(&section(
        "a",
        vec![translation("en", Some("en")), translation("zh", Some("ZH-cn"))],
    ));
    assert_eq!(words[0].word, NullString::new("a "));
    assert_eq!((translated.as_str(), roman.as_str()), ("zh", "r"));
    let (_, first, _) = extract_line_components(&section("a", vec![translation("x", None)]));
    assert_eq!(first, "x");
    let (_, none, _) = extract_line_components(&section("a", vec![]));
    assert_eq!(none, "");
}

#[test]
fn singers_take_sides() {
    let line = |agent: Option<&str>, bg: bool| SourceLine {
        agent: agent.map(|a| a.to_string()),
        main: section("m", vec![]),
        background: if bg { Some(section("b", vec![])) } else { None },
    };
    let out = convert_to_protocol_lyrics(&vec![
        line(Some("v1"), false),
        line(Some("v2"), true),
        line(Some("v1000"), false),
        line(Some("v3"), false),
        line(None, false),
        line(Some("v2"), false),
    ]);
    let sides: Vec<(bool, bool)> = out.iter().map(|l| (l.is_bg, l.is_duet)).collect();
    assert_eq!(
        sides,
        vec![
            (false, false),
            (false, true),
            (true, true),
            (false, false),
            (false, false),
            (false, false),
            (false, true)
        ]
    );
}

#[test]
fn audio_formats_are_checked() {
    assert_eq!(check_format(3, false, 32), Ok(()));
    assert_eq!(check_format(0xfffe, true, 32), Ok(()));
    assert!(check_format(0xfffe, false, 32).is_err());
    assert_eq!(
        check_format(1, false, 16),
        Err("不支持的原始音频格式: 标签=1, 位深度=16. 程序期望捕获 32 位 IEEE 浮点数格式的音频。".to_string())
    );
    assert_eq!(resampler_chunk_frames(48_000, 128), 4800);
    assert_eq!(resampler_chunk_frames(1000, 128), 256);
}

#[test]
fn samples_keep_their_bits() {
    let mut bytes: Vec<u8> = Vec::new();
    for x in [0.25f32, -1.0, 0.5, 7.0] {
        bytes.extend_from_slice(&x.to_le_bytes());
    }
    bytes.push(1);
    let samples = samples_from_bytes(&bytes, 2);
    assert_eq!(samples, vec![0.25f32.to_bits(), (-1.0f32).to_bits(), 0.5f32.to_bits(), 7.0f32.to_bits()]);
    assert_eq!(samples_from_bytes(&bytes[..12], 2).len(), 2);
    assert_eq!(samples_to_bytes(&vec![0x0102, 3]), vec![2, 1, 3, 0]);
}

#[test]
fn channels_are_separated_and_joined() {
    let samples = vec![1, 2, 3, 4, 5, 6];
    let mut planar: Vec<Vec<u32>> = vec![vec![], vec![]];
    add_to_channels(&mut planar, &samples);
    assert_eq!(planar, vec![vec![1, 3, 5], vec![2, 4, 6]]);
    assert_eq!(interleave(&planar, 3), samples);
    assert_eq!(take_chunk(&mut planar, 4), None);
    assert_eq!(take_chunk(&mut planar, 2), Some(vec![vec![1, 3], vec![2, 4]]));
    assert_eq!(planar, vec![vec![5], vec![6]]);
}

#[test]
fn channels_are_adjusted() {
    assert_eq!(adjust_channels(vec![1, 2, 3, 4, 5, 6], 3, 2), vec![1, 2, 4, 5]);
    assert_eq!(adjust_channels(vec![1, 2], 1, 2), vec![1, 1, 2, 2]);
    assert_eq!(adjust_channels(vec![1, 2], 2, 2), vec![1, 2]);
}

#[test]
fn requests_need_a_session() {
    let mut s = SmtcState::new();
    assert_eq!(s.control(SmtcControlCommand::Play), SessionRequest::Nothing);
    s.monitored = Session::Unnamed;
    assert_eq!(s.control(SmtcControlCommand::Play), SessionRequest::Play);
    assert_eq!(s.control(SmtcControlCommand::SetVolume(1)), SessionRequest::Nothing);
    s.monitored = Session::Named("a".to_string());
    assert_eq!(s.control(SmtcControlCommand::SetVolume(1)), SessionRequest::EaseVolume(1));
}

#[test]
fn changes_of_a_session_are_reported() {
    let mut p = SharedPlayerState::empty();
    let texts = SessionChange::MediaProperties {
        title: Some("愛".to_string()),
        artist: Some("鄧麗君".to_string()),
        album: None,
    };
    let r = p.apply(texts).unwrap();
    // Texts are kept in simplified Chinese; one that could not be read is empty.
    assert_eq!(r.title.as_deref(), Some("爱"));
    assert_eq!(r.artist.as_deref(), Some("邓丽君"));
    assert_eq!(r.album_title.as_deref(), Some(""));
    assert_eq!((r.is_playing, r.position_ms, r.duration_ms), (Some(false), Some(0), Some(0)));
    let t = p.apply(SessionChange::Timeline { position_ms: 5, duration_ms: 90, now: 3 }).unwrap();
    assert_eq!((t.position_ms, t.duration_ms), (Some(5), Some(90)));
    assert_eq!(t.position_report_time, Some(3));
    let playing = SessionChange::Playback {
        is_playing: true,
        estimated_position_ms: 7,
        now: 4,
        controls: None,
    };
    let q = p.apply(playing).unwrap();
    assert_eq!((q.is_playing, q.position_ms), (Some(true), Some(7)));
    let c = p.apply(SessionChange::CoverRead(vec![1, 2])).unwrap();
    assert_eq!(c.cover_data, Some(vec![1, 2]));
    assert_eq!(c.cover_data_hash, Some(calculate_cover_hash(&[1, 2])));
    assert_eq!(p.apply(SessionChange::CoverRead(vec![0; MAX_COVER_SIZE_BYTES + 1])), None);
    assert_eq!(p.apply(SessionChange::CoverRemoved).unwrap().cover_data, None);
    let lost = p.apply(SessionChange::SessionLost).unwrap();
    assert_eq!(p, SharedPlayerState::empty());
    assert_eq!((lost.title.as_deref(), lost.is_playing), (Some(""), Some(false)));
    p.title = "x".to_string();
    p.reset_to_empty();
    assert_eq!(p, SharedPlayerState::empty());
}

fn packet(samples: &[u32]) -> CaptureEvent {
    let bytes = samples.iter().flat_map(|s| s.to_le_bytes()).collect();
    CaptureEvent::Packet { silent: false, bytes }
}

#[test]
fn audio_at_the_right_rate_is_sent_as_captured() {
    let mut c = CaptureState::start(48_000, 2, 0);
    assert_eq!(c.step(packet(&[1, 2, 3, 4])), CaptureAction::Send(vec![1, 2, 3, 4]));
    assert_eq!(c.step(packet(&[])), CaptureAction::Wait);
    let silence = CaptureEvent::Packet { silent: true, bytes: vec![0; 16] };
    assert_eq!(c.step(silence), CaptureAction::Wait);
    assert_eq!(c.step(CaptureEvent::Stopped), CaptureAction::End);
}

#[test]
fn other_audio_is_resampled_in_chunks() {
    let mut c = CaptureState::start(44_100, 2, 2);
    assert_eq!(c.step(packet(&[1, 2])), CaptureAction::Wait);
    assert_eq!(
        c.step(packet(&[3, 4, 5, 6, 7, 8])),
        CaptureAction::Resample(vec![vec![1, 3], vec![2, 4]])
    );
    assert_eq!(
        c.step(CaptureEvent::Resampled { planar: vec![vec![10, 11], vec![20, 21]], frames: 1 }),
        CaptureAction::Resample(vec![vec![5, 7], vec![6, 8]])
    );
    assert_eq!(
        c.step(CaptureEvent::Resampled { planar: vec![vec![12], vec![22]], frames: 1 }),
        CaptureAction::Send(vec![10, 20, 12, 22])
    );
    let silence = CaptureEvent::Packet { silent: true, bytes: vec![0; 16] };
    assert_eq!(c.step(silence), CaptureAction::Wait);
    assert_eq!(c.step(packet(&[9, 10])), CaptureAction::Wait);
    assert_eq!(
        c.step(CaptureEvent::Stopped),
        CaptureAction::Resample(vec![vec![9], vec![10]])
    );
    assert_eq!(
        c.step(CaptureEvent::Resampled { planar: vec![vec![1], vec![2]], frames: 1 }),
        CaptureAction::Send(vec![1, 2])
    );
    assert!(c.finishing);
}

#[test]
fn a_failed_resampler_forgets_what_waits() {
    let mut c = CaptureState::start(44_100, 1, 2);
    assert_eq!(c.step(packet(&[1, 2, 3, 4, 5])), CaptureAction::Resample(vec![vec![1, 2]]));
    assert_eq!(
        c.step(CaptureEvent::Resampled { planar: vec![vec![9]], frames: 1 }),
        CaptureAction::Resample(vec![vec![3, 4]])
    );
    // What has been resampled before is still sent.
    assert_eq!(c.step(CaptureEvent::ResampleFailed), CaptureAction::Send(vec![9]));
    assert_eq!(c.pending, vec![Vec::<u32>::new()]);
    assert_eq!(c.step(CaptureEvent::ResampleFailed), CaptureAction::Wait);
    assert_eq!(c.step(CaptureEvent::Stopped), CaptureAction::End);
}
