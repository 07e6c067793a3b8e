use unilyric::amll_connector::protocol::ClientMessage;
use unilyric::amll_connector::types::{
    AMLLConnectorConfig, ConnectorCommand, NowPlayingInfo, SmtcSessionInfo, WebsocketStatus,
};
use unilyric::app_actions::{
    AmllConnectorAction, LrcContentType, LyricsAction, PanelType, UIAction,
};
use unilyric::app_definition::{
    ConversionOutput, EditableMetadataEntry, FetchedLyrics, LrcLine, LyricState, SearchResult,
    TtmlDbUploadState, UiState,
};
use unilyric::app_events::{
    adjust_position, make_cache_entry, make_cache_file_name, normalize, split_artist_and_album,
    split_cached_artists, LocalLyricCacheEntry, PlayerState, ReportEnvironment, ServerUpdate,
};
use unilyric::app_fetch_core::{
    artists_match, convert_request, find_in_cache, is_track_match, search_mode, AutoFetchResult,
    AutoFetchState, AutoSearchStatus, FetchEffect, SearchMode, SearchRequest,
};
use unilyric::app_handlers::{
    selected_session, settings_not_saved, settings_saved, ActionResult, LyricsEffect,
    LyricsEnvironment, UiEffect,
};
use unilyric::app_settings::AppSettings;
use unilyric::app_ui::{
    cover_image_name, format_step, kept_target, known_or, lrc_offers, markers_text, offers, rebuild_lrc,
    search_hint, search_result_label, search_status_text, selected_session_label, shorten_label,
    target_after_change, toggle_provider, why_not_target, FormatFollowUp, OfferState,
    SearchHint,
};
use unilyric::app_update::{
    clipboard_notice, connector_command, issue_notice, process_log_messages, result_notice,
    track_reported, ClipboardOutcome, LogEntry, LogLevel, NoticeKind, ReportKind,
    TtmlDbUploadUserAction,
};
use unilyric::formats::{AutoSearchSource, LyricFormat};

fn text(s: &str) -> Option<String> {
    Some(s.to_string())
}

fn song(title: &str, artist: &str) -> NowPlayingInfo {
    NowPlayingInfo { title: text(title), artist: text(artist), ..NowPlayingInfo::nothing() }
}

fn env() -> LyricsEnvironment {
    LyricsEnvironment {
        helper_available: true,
        connector_enabled: true,
        random: 41,
        numbers: vec![7, 8],
    }
}

fn ui() -> UiState {
    UiState::new(&AppSettings::default())
}

// --- lyrics ---------------------------------------------------------------

#[test]
fn one_conversion_at_a_time() {
    let mut s = LyricState::new();
    s.input_text = "[00:01.00]a".to_string();
    let (r, effects) = s.handle_lyrics_action(LyricsAction::Convert, &env());
    assert_eq!(r, ActionResult::Success);
    assert_eq!(effects.len(), 1);
    match &effects[0] {
        LyricsEffect::Convert(input) => {
            assert_eq!(input.main_text, "[00:01.00]a");
            assert_eq!(input.chinese_config, None);
        }
        _ => panic!("a conversion is owed"),
    }
    assert!(s.conversion_in_progress);
    let (_, again) = s.handle_lyrics_action(LyricsAction::Convert, &env());
    assert!(again.is_empty());
    let (busy, _) =
        s.handle_lyrics_action(LyricsAction::ConvertChinese("s2t.json".to_string()), &env());
    assert_eq!(busy, ActionResult::Warning("转换正在进行中".to_string()));
}

#[test]
fn nothing_cannot_be_converted() {
    let mut s = LyricState::new();
    let (r, _) =
        s.handle_lyrics_action(LyricsAction::ConvertChinese("s2t.json".to_string()), &env());
    assert_eq!(r, ActionResult::Warning("没有歌词内容可以转换".to_string()));
    s.input_text = "x".to_string();
    let (_, effects) =
        s.handle_lyrics_action(LyricsAction::ConvertChinese("s2t.json".to_string()), &env());
    assert!(matches!(
        &effects[0],
        LyricsEffect::Convert(i) if i.chinese_config.as_deref() == Some("s2t.json")
    ));
}

#[test]
fn conversions_fill_the_output() {
    let mut s = LyricState::new();
    let output = ConversionOutput {
        output_lyrics: "out".to_string(),
        raw_metadata: vec![("title".to_string(), vec!["T".to_string()])],
    };
    let (r, effects) = s.handle_lyrics_action(LyricsAction::ConvertCompleted(Ok(output)), &env());
    assert_eq!(r, ActionResult::Success);
    assert_eq!(effects, vec![LyricsEffect::SendToPlayer]);
    assert_eq!(s.output_text, "out");
    assert_eq!(s.editable_metadata.len(), 1);
    assert_eq!(s.editable_metadata[0].key, "title");
    assert!(s.editable_metadata[0].is_from_file);
    let (e, _) =
        s.handle_lyrics_action(LyricsAction::ConvertCompleted(Err("bad".to_string())), &env());
    assert_eq!(e, ActionResult::Error("转换失败: bad".to_string()));
    assert_eq!(s.output_text, "");
}

#[test]
fn searches_and_downloads() {
    let mut s = LyricState::new();
    s.search_query = "q".to_string();
    let (_, e) = s.handle_lyrics_action(LyricsAction::Search, &env());
    assert_eq!(e, vec![LyricsEffect::Search("q".to_string())]);
    assert_eq!(search_hint(&s), SearchHint::Searching);
    let (w, _) = s.handle_lyrics_action(LyricsAction::Search, &env());
    assert_eq!(w, ActionResult::Warning("搜索正在进行中".to_string()));
    s.handle_lyrics_action(LyricsAction::SearchCompleted(Ok(vec![])), &env());
    assert_eq!(search_hint(&s), SearchHint::NoResults);
    let found = SearchResult {
        title: "T".to_string(),
        artists: vec!["A".to_string(), "B".to_string()],
        provider_name: "P".to_string(),
        provider_id: "1".to_string(),
    };
    assert_eq!(search_result_label(&found), "T - A/B (P)");
    let (_, d) = s.handle_lyrics_action(LyricsAction::Download(found), &env());
    assert_eq!(
        d,
        vec![LyricsEffect::Download {
            provider_name: "P".to_string(),
            provider_id: "1".to_string()
        }]
    );
    let lyrics = FetchedLyrics { content: "c".to_string(), source_format: LyricFormat::Qrc };
    let (_, l) = s.handle_lyrics_action(LyricsAction::DownloadCompleted(Ok(lyrics)), &env());
    assert_eq!(l[0], LyricsEffect::HideSearchWindow);
    assert_eq!(l[1], LyricsEffect::NoteFetchedFormat(LyricFormat::Qrc));
    assert_eq!((s.input_text.as_str(), s.source_format), ("c", LyricFormat::Qrc));
    let none = LyricsEnvironment { helper_available: false, ..env() };
    let (x, _) = s.handle_lyrics_action(LyricsAction::Search, &none);
    assert_eq!(x, ActionResult::Error("LyricsHelper 未初始化".to_string()));
    let (y, _) =
        s.handle_lyrics_action(LyricsAction::SearchCompleted(Err("e".to_string())), &env());
    assert_eq!(y, ActionResult::Error("搜索失败: e".to_string()));
    let (z, _) =
        s.handle_lyrics_action(LyricsAction::DownloadCompleted(Err("e".to_string())), &env());
    assert_eq!(z, ActionResult::Error("下载失败: e".to_string()));
}

#[test]
fn loaded_results_are_noted() {
    let mut s = LyricState::new();
    let lyrics = FetchedLyrics { content: "c".to_string(), source_format: LyricFormat::Krc };
    let (r, e) = s.handle_lyrics_action(LyricsAction::LoadFetchedResult(lyrics), &env());
    assert_eq!(r, ActionResult::Success);
    assert_eq!(e[0], LyricsEffect::NoteLoaded(LyricFormat::Krc));
    assert!(matches!(e[1], LyricsEffect::Convert(_)));
}

#[test]
fn metadata_is_edited() {
    let mut s = LyricState::new();
    s.handle_lyrics_action(LyricsAction::AddMetadata, &env());
    assert_eq!(s.editable_metadata[0].key, "新键_41");
    assert_eq!(s.editable_metadata[0].id, "new_editable_meta_entry_41");
    s.handle_lyrics_action(LyricsAction::UpdateMetadataKey(0, "k".to_string()), &env());
    s.handle_lyrics_action(LyricsAction::UpdateMetadataValue(0, "v".to_string()), &env());
    s.handle_lyrics_action(LyricsAction::ToggleMetadataPinned(0), &env());
    assert_eq!(s.editable_metadata[0].key, "k");
    assert_eq!(s.editable_metadata[0].value, "v");
    assert!(s.editable_metadata[0].is_pinned && s.metadata_is_user_edited);
    let (r, _) = s.handle_lyrics_action(LyricsAction::DeleteMetadata(5), &env());
    assert_eq!(r, ActionResult::Error("无效的元数据索引".to_string()));
    s.handle_lyrics_action(LyricsAction::ClearAllData, &env());
    // Pinned metadata stays.
    assert_eq!(s.editable_metadata.len(), 1);
    s.handle_lyrics_action(LyricsAction::DeleteMetadata(0), &env());
    assert!(s.editable_metadata.is_empty());
}

#[test]
fn unpinned_metadata_goes_with_the_song() {
    let mut s = LyricState::new();
    let entry = |key: &str, pinned: bool| EditableMetadataEntry {
        key: key.to_string(),
        value: String::new(),
        is_pinned: pinned,
        is_from_file: true,
        id: key.to_string(),
    };
    s.editable_metadata = vec![entry("a", true), entry("b", false)];
    s.clear_lyrics_state_for_new_song();
    assert_eq!(s.editable_metadata.len(), 1);
    assert_eq!(s.editable_metadata[0].key, "a");
    assert!(!s.editable_metadata[0].is_from_file);
}

#[test]
fn formats_are_saved_then_converted() {
    let mut s = LyricState::new();
    s.input_text = "x".to_string();
    let (_, e) = s.handle_lyrics_action(LyricsAction::SourceFormatChanged(LyricFormat::Yrc), &env());
    assert_eq!(e, vec![LyricsEffect::SaveFormats]);
    assert_eq!(s.source_format, LyricFormat::Yrc);
    let (w, _) = s.handle_lyrics_action(LyricsAction::SourceFormatSaved(text("no")), &env());
    assert_eq!(w, ActionResult::Warning("保存源格式设置失败: no".to_string()));
    let (_, c) = s.handle_lyrics_action(LyricsAction::TargetFormatSaved(None), &env());
    assert_eq!(c.len(), 1);
}

// --- panels and settings ---------------------------------------------------

#[test]
fn panels_are_shown_and_hidden() {
    let mut u = ui();
    assert_eq!(u.handle_ui_action(UIAction::ShowPanel(PanelType::Search)), UiEffect::Nothing);
    assert!(u.show_search_window);
    u.handle_ui_action(UIAction::HidePanel(PanelType::Search));
    assert_eq!(u, ui());
    u.new_trigger_log_exists = true;
    u.handle_ui_action(UIAction::SetPanelVisibility(PanelType::Log, true));
    assert!(u.show_bottom_log_panel && !u.new_trigger_log_exists);
    assert_eq!(
        u.handle_ui_action(UIAction::ShowPanel(PanelType::Settings)),
        UiEffect::EditSettings
    );
    assert_eq!(u.handle_ui_action(UIAction::ClearLogs), UiEffect::ClearLogs);
    u.handle_ui_action(UIAction::SetWrapText(false));
    assert!(!u.wrap_text);
    u.show_amll_connector_sidebar = true;
    u.settle_sidebar(false);
    assert!(!u.show_amll_connector_sidebar);
}

#[test]
fn saved_settings_reach_the_connector() {
    let mut s = AppSettings::default();
    s.amll_connector_enabled = true;
    s.smtc_time_offset_ms = 3;
    let old = AMLLConnectorConfig::default();
    let step = settings_saved(&s, true, &old, false);
    assert!(step.actor_settings.enable_t2s_conversion);
    assert!(step.send_config && step.connector_config.enabled);
    assert_eq!(step.audio_visualization, Some(true));
    assert_eq!(step.smtc_time_offset_ms, 3);
    let same = settings_saved(&s, false, &step.connector_config, true);
    assert!(!same.actor_settings.enable_t2s_conversion);
    assert!(!same.send_config);
    assert_eq!(same.audio_visualization, None);
    assert_eq!(
        settings_not_saved(&"why".to_string()),
        ActionResult::Error("保存设置失败: why".to_string())
    );
    assert_eq!(selected_session(&String::new()), None);
    assert_eq!(selected_session(&"a".to_string()), text("a"));
}

#[test]
fn targets_depend_on_the_source() {
    assert_eq!(why_not_target(LyricFormat::Lrc, false, LyricFormat::Ttml), None);
    assert_eq!(
        why_not_target(LyricFormat::Lrc, false, LyricFormat::Ass).as_deref(),
        Some("LRC源格式只能输出为LQE, SPL, TTML 或 LRC")
    );
    assert_eq!(
        why_not_target(LyricFormat::Ttml, true, LyricFormat::Krc).as_deref(),
        Some("\"TTML\" 为逐行格式，无法转换为逐字格式 \"KRC\"")
    );
    assert_eq!(why_not_target(LyricFormat::Ttml, false, LyricFormat::Krc), None);
    assert_eq!(kept_target(LyricFormat::Lrc, LyricFormat::Ass), LyricFormat::Lrc);
    assert_eq!(kept_target(LyricFormat::Ttml, LyricFormat::Ass), LyricFormat::Ass);
    assert_eq!(target_after_change(true, LyricFormat::Ass), LyricFormat::Lrc);
    assert_eq!(target_after_change(false, LyricFormat::Ass), LyricFormat::Ass);
}

#[test]
fn frames_of_the_toolbar() {
    use_frame(LyricFormat::Ttml, LyricFormat::Ass, None, None, false);
    // A source that is LRC takes its target along.
    let r = format_step(LyricFormat::Ttml, LyricFormat::Ass, Some(LyricFormat::Lrc), None, false, true);
    assert_eq!((r.source, r.target), (LyricFormat::Lrc, LyricFormat::Lrc));
    assert_eq!(r.saved, Some((LyricFormat::Lrc, LyricFormat::Lrc)));
    assert_eq!(r.follow_up, FormatFollowUp::Convert);
    // A target that is not offered cannot be chosen.
    let n = format_step(LyricFormat::Lrc, LyricFormat::Spl, None, Some(LyricFormat::Krc), false, true);
    assert_eq!((n.target, n.saved, n.follow_up), (LyricFormat::Spl, None, FormatFollowUp::Nothing));
    // A target that had to be replaced is by itself no change.
    let k = format_step(LyricFormat::Lrc, LyricFormat::Ass, None, None, false, true);
    assert_eq!((k.target, k.saved), (LyricFormat::Lrc, None));
    // Line-timed lyrics are written as LRC after a change of either format; what is
    // saved is what was chosen.
    let t = format_step(LyricFormat::Ttml, LyricFormat::Ttml, None, Some(LyricFormat::Lqe), true, false);
    assert_eq!((t.target, t.saved), (LyricFormat::Lrc, Some((LyricFormat::Ttml, LyricFormat::Lqe))));
    assert_eq!(t.follow_up, FormatFollowUp::Clear);
    for source in LyricFormat::available_formats() {
        for target in LyricFormat::available_formats() {
            for clicked in LyricFormat::available_formats() {
                use_frame(source, target, Some(clicked), None, true);
                use_frame(source, target, None, Some(clicked), false);
                use_frame(LyricFormat::Lrc, target, Some(source), Some(clicked), true);
            }
        }
    }
}

fn use_frame(
    source: LyricFormat,
    target: LyricFormat,
    clicked_source: Option<LyricFormat>,
    clicked_target: Option<LyricFormat>,
    line_timed: bool,
) {
    let r = format_step(source, target, clicked_source, clicked_target, line_timed, true);
    if r.source == LyricFormat::Lrc {
        assert!(matches!(
            r.target,
            LyricFormat::Lqe | LyricFormat::Spl | LyricFormat::Lrc | LyricFormat::Ttml
        ));
    }
}

#[test]
fn offers_depend_on_the_lyrics() {
    let s = OfferState {
        has_input: true,
        has_output: true,
        has_parsed_data: false,
        has_parsed_lines: false,
        converting: false,
        connector_enabled: true,
        has_media_info: true,
        was_fetched: false,
    };
    let o = offers(s);
    assert!(o.load_lrc && o.use_output && o.convert_chinese && o.send_to_player && o.clear);
    assert!(!o.save_to_cache);
    let busy = offers(OfferState { converting: true, ..s });
    assert!(!busy.load_lrc && !busy.use_output && !busy.send_to_player);
    let mut l = LyricState::new();
    l.has_parsed_data = true;
    l.display_romanization_lrc_output = " ".to_string();
    assert!(lrc_offers(&l, LrcContentType::Translation, false).import);
    let r = lrc_offers(&l, LrcContentType::Romanization, false);
    assert!(!r.import && !r.clear && r.copy);
}

#[test]
fn texts_of_the_window() {
    let lines = vec![
        LrcLine::Parsed { time_tag: "[00:01.00]".to_string(), text: text("a") },
        LrcLine::Parsed { time_tag: "[00:02.00]".to_string(), text: None },
        LrcLine::Raw { original_text: String::new() },
    ];
    assert_eq!(rebuild_lrc(&lines), "[00:01.00]a\n[00:02.00]\n");
    assert_eq!(rebuild_lrc(&vec![]), "");
    assert_eq!(
        markers_text(&vec![(3, "x".to_string()), (14, "y".to_string())]),
        "ASS 行 3: x\nASS 行 14: y"
    );
    assert_eq!(shorten_label("short"), "short");
    let long = "字".repeat(51);
    assert_eq!(shorten_label(&long), format!("{}...", "字".repeat(50)));
    assert_eq!(search_status_text(&AutoSearchStatus::NotAttempted), "未尝试");
    assert_eq!(search_status_text(&AutoSearchStatus::Error("e".to_string())), "错误");
    assert_eq!(known_or(&None), "未知");
    assert_eq!(known_or(&text("a")), "a");
    assert_eq!(cover_image_name(Some(7), &[1]), "smtc_cover_hash_7");
    let a = cover_image_name(None, &[5; 20]);
    assert_eq!(a, cover_image_name(None, &[5; 16]));
    assert!(a.starts_with("smtc_cover_data_partial_hash_"));
}

#[test]
fn sessions_have_labels() {
    let s = vec![SmtcSessionInfo {
        session_id: "a!b".to_string(),
        source_app_user_model_id: "a!b".to_string(),
        display_name: "b".to_string(),
    }];
    assert_eq!(selected_session_label(&text("a!b"), &s), "b");
    assert_eq!(selected_session_label(&text("c"), &s), "自动 (选择 'c' 已失效)");
    assert_eq!(selected_session_label(&None, &s), "自动 (系统默认)");
}

#[test]
fn providers_are_ticked() {
    let mut v = vec!["a".to_string()];
    toggle_provider(&mut v, "b".to_string(), true);
    assert_eq!(v, vec!["a".to_string(), "b".to_string()]);
    toggle_provider(&mut v, "a".to_string(), false);
    assert_eq!(v, vec!["b".to_string()]);
}

// --- files -----------------------------------------------------------------

#[test]
fn files_are_loaded() {
    let mut s = LyricState::new();
    s.load_file("x".to_string(), &text("QRC"));
    assert_eq!((s.input_text.as_str(), s.source_format), ("x", LyricFormat::Qrc));
    s.load_file("y".to_string(), &text("txt"));
    assert_eq!((s.input_text.as_str(), s.source_format), ("y", LyricFormat::Qrc));
    assert!(s.load_bytes("é".as_bytes().to_vec()));
    assert_eq!(s.input_text, "é");
    assert!(!s.load_bytes(vec![0xff]));
    assert_eq!(s.input_text, "é");
    s.load_lrc_file("t".to_string(), LrcContentType::Translation);
    s.load_lrc_file("r".to_string(), LrcContentType::Romanization);
    assert_eq!(s.display_translation_lrc_output, "t");
    assert_eq!(s.display_romanization_lrc_output, "r");
}

// --- what comes from elsewhere -----------------------------------------------

fn entry(level: LogLevel, message: &str) -> LogEntry {
    LogEntry { level, message: message.to_string() }
}

#[test]
fn the_log_is_bounded() {
    let mut u = ui();
    let mut buffer: Vec<LogEntry> = vec![];
    for i in 0..200 {
        buffer.push(entry(LogLevel::Info, &format!("{}", i)));
    }
    let first = process_log_messages(
        &mut buffer,
        vec![
            entry(LogLevel::Info, "i"),
            entry(LogLevel::Warn, "w"),
            entry(LogLevel::Error, "e"),
        ],
        &mut u,
    );
    assert_eq!(first, text("w"));
    assert!(u.new_trigger_log_exists);
    assert_eq!(buffer.len(), 200);
    assert_eq!(buffer[0].message, "3");
    assert_eq!(buffer[199].message, "e");
    let mut open = UiState { show_bottom_log_panel: true, ..ui() };
    process_log_messages(&mut buffer, vec![entry(LogLevel::Error, "e")], &mut open);
    assert!(!open.new_trigger_log_exists);
}

#[test]
fn reports_update_the_song() {
    let mut current = NowPlayingInfo::nothing();
    let mut f = AutoFetchState::new();
    assert_eq!(track_reported(&mut current, &song(" ", "A"), &mut f), ReportKind::Ignored);
    assert_eq!(track_reported(&mut current, &song("T", "A"), &mut f), ReportKind::NewSong);
    let mut more = song("T", "A");
    more.position_ms = Some(5);
    assert_eq!(track_reported(&mut current, &more, &mut f), ReportKind::SameSong);
    assert_eq!(current.position_ms, Some(5));
    more.position_ms = None;
    track_reported(&mut current, &more, &mut f);
    assert_eq!(current.position_ms, Some(5));
}

#[test]
fn search_results_are_kept() {
    let lyrics = FetchedLyrics { content: "c".to_string(), source_format: LyricFormat::Krc };
    let found = AutoFetchResult::Success { source: AutoSearchSource::Kugou, lyrics: lyrics.clone() };
    let mut f = AutoFetchState::new();
    f.netease_status = AutoSearchStatus::Searching;
    assert_eq!(f.handle_auto_fetch_result(found.clone(), true, true), FetchEffect::Load(lyrics.clone()));
    assert!(f.current_ui_populated);
    assert_eq!(f.kugou_status, AutoSearchStatus::Success(LyricFormat::Krc));
    assert_eq!(f.netease_status, AutoSearchStatus::NotFound);
    assert_eq!(f.last_kugou_result, Some(lyrics.clone()));
    assert_eq!(f.handle_auto_fetch_result(found.clone(), true, true), FetchEffect::Nothing);
    f.clear_last_fetch_results();
    assert_eq!((f.last_kugou_result.clone(), f.current_ui_populated), (None, false));
    assert_eq!(
        f.handle_auto_fetch_result(AutoFetchResult::NotFound, true, false),
        FetchEffect::NoLyrics { tell_player: true, tell_server_clients: false }
    );
    assert_eq!(
        f.handle_auto_fetch_result(AutoFetchResult::FetchError("e".to_string()), true, true),
        FetchEffect::Nothing
    );
    let mut g = AutoFetchState::new();
    assert_eq!(g.handle_auto_fetch_results(found.clone(), true), FetchEffect::Load(lyrics.clone()));
    assert!(!g.current_ui_populated);
    assert_eq!(g.auto_fetch_completed(found.clone()), Some(lyrics));
    g.lyrics_loaded(LyricFormat::Qrc);
    assert_eq!((g.current_ui_populated, g.last_source_format), (true, Some(LyricFormat::Qrc)));
    assert_eq!(g.auto_fetch_completed(found.clone()), None);
    // What is found after lyrics have been loaded is kept, and not loaded.
    assert_eq!(g.handle_auto_fetch_results(found, true), FetchEffect::Nothing);
    assert_eq!(
        g.handle_auto_fetch_results(AutoFetchResult::NotFound, false),
        FetchEffect::Nothing
    );
}

#[test]
fn uploads_end() {
    let mut u = TtmlDbUploadState::new();
    u.in_progress = true;
    assert_eq!(
        u.handle_upload_action(&TtmlDbUploadUserAction::InProgressUpdate("m".to_string())),
        Some(("m".to_string(), NoticeKind::Info))
    );
    assert!(u.in_progress);
    assert_eq!(
        u.handle_upload_action(&TtmlDbUploadUserAction::PasteReadyAndCopied {
            paste_url: "p".to_string(),
            github_issue_url_to_open: "g".to_string()
        }),
        None
    );
    assert_eq!((u.in_progress, u.last_paste_url.clone()), (false, text("p")));
    u.in_progress = true;
    assert_eq!(
        u.handle_upload_action(&TtmlDbUploadUserAction::Error("e".to_string())),
        Some(("上传失败: e".to_string(), NoticeKind::Error))
    );
    u.in_progress = true;
    u.handle_upload_action(&TtmlDbUploadUserAction::PreparationError("e".to_string()));
    assert!(!u.in_progress);
    assert_eq!(u.upload_disconnected(), None);
    u.in_progress = true;
    assert_eq!(
        u.upload_disconnected(),
        Some(("上传处理通道意外断开，操作可能未完成。", NoticeKind::Error))
    );
    assert_eq!(
        clipboard_notice(ClipboardOutcome::Copied),
        ("dpaste链接已复制到剪贴板!", NoticeKind::Success)
    );
    assert_eq!(clipboard_notice(ClipboardOutcome::NotCopied).1, NoticeKind::Warning);
    assert_eq!(clipboard_notice(ClipboardOutcome::NoClipboard).1, NoticeKind::Error);
    let (good, kind) = issue_notice(true, true, "URL");
    assert_eq!(kind, NoticeKind::Success);
    assert!(good.starts_with("dpaste链接已复制!\nGitHub Issue页面已打开。"));
    assert!(good.ends_with("\n\ndpaste链接: URL"));
    assert_eq!(issue_notice(false, true, "URL").1, NoticeKind::Warning);
    assert!(issue_notice(true, false, "URL").0.contains("但打开Issue页面失败。"));
}

#[test]
fn results_and_requests() {
    assert_eq!(result_notice(ActionResult::Success), None);
    assert_eq!(
        result_notice(ActionResult::Warning("w".to_string())),
        Some(("w".to_string(), NoticeKind::Warning, 3))
    );
    assert_eq!(
        result_notice(ActionResult::Error("e".to_string())),
        Some(("e".to_string(), NoticeKind::Error, 5))
    );
    let mut c = AMLLConnectorConfig::default();
    assert!(matches!(
        connector_command(AmllConnectorAction::Disconnect, &mut c),
        ConnectorCommand::DisconnectWebsocket
    ));
    assert!(!c.enabled);
    assert!(matches!(
        connector_command(AmllConnectorAction::Retry, &mut c),
        ConnectorCommand::UpdateConfig(k) if k.enabled
    ));
    assert!(c.enabled);
}

// --- what is being played ------------------------------------------------------

#[test]
fn artists_and_albums_are_told_apart() {
    assert_eq!(split_artist_and_album(&text("A — B — C")), (text("A"), text("B — C")));
    assert_eq!(split_artist_and_album(&text("A")), (text("A"), None));
    assert_eq!(split_artist_and_album(&None), (None, None));
    assert_eq!(adjust_position(1000, 200, None), 800);
    assert_eq!(adjust_position(100, 200, None), 0);
    assert_eq!(adjust_position(1000, -500, Some(1200)), 1200);
    assert_eq!(adjust_position(u64::MAX, 0, None), 0);
    let mut i = song("T", "A — B");
    i.position_ms = Some(10);
    let n = normalize(i, 4, 99);
    assert_eq!((n.artist, n.album_title), (text("A"), text("B")));
    assert_eq!((n.position_ms, n.position_report_time), (Some(6), Some(99)));
}

fn player() -> PlayerState {
    PlayerState {
        last_true_info: None,
        current_media_info: None,
        last_smtc_position_ms: 0,
        last_smtc_position_report_time: None,
        is_currently_playing_sensed_by_smtc: false,
        current_song_duration_ms: 0,
        smtc_time_offset_ms: 0,
        available_smtc_sessions: vec![],
        selected_smtc_session_id: text("s"),
        status: WebsocketStatus::Disconnected,
    }
}

#[test]
fn songs_are_followed() {
    let e = ReportEnvironment {
        connector_enabled: true,
        connector_reachable: true,
        server_enabled: true,
    };
    let mut p = player();
    let mut i = song("T", "A");
    i.is_playing = Some(true);
    i.position_ms = Some(1000);
    let first = p.smtc_track_changed(i.clone(), 5, &e);
    assert!(first.start_search);
    assert_eq!(first.server_updates, vec![ServerUpdate::PlaybackInfo]);
    assert_eq!(first.messages.len(), 3);
    assert_eq!(first.messages[1], ClientMessage::OnResumed);
    assert_eq!(first.messages[2], ClientMessage::OnPlayProgress { progress: 1000 });
    // The same position while the song plays on counts from the first report.
    let again = p.smtc_track_changed(i, 9, &e);
    assert!(!again.start_search && again.messages.is_empty());
    assert_eq!(p.last_smtc_position_report_time, Some(5));
    assert_eq!(p.simulated_progress(7, true), Some(ServerUpdate::Time(7)));
    assert_eq!(p.simulated_progress(7, false), None);
    let off = ReportEnvironment { connector_enabled: false, ..e };
    assert!(p.smtc_track_changed(song("U", "A"), 10, &off).messages.is_empty());
}

#[test]
fn sessions_vanish() {
    let mut p = player();
    let gone = p.session_vanished(&"s".to_string());
    assert_eq!(p.selected_smtc_session_id, None);
    assert!(gone.is_some());
    let mut q = player();
    assert_eq!(q.session_vanished(&"other".to_string()), None);
    assert_eq!(q.selected_smtc_session_id, text("s"));
    let mut r = player();
    r.session_list_changed(vec![]);
    assert_eq!(r.selected_smtc_session_id, None);
    let step = r.websocket_status_changed(WebsocketStatus::Connected, true, true);
    assert!(step.send_lyrics);
    assert_eq!(r.status, WebsocketStatus::Connected);
    r.current_media_info = Some(song("T", "A"));
    r.worker_stopped();
    assert_eq!((r.status, r.current_media_info), (WebsocketStatus::Disconnected, None));
}

#[test]
fn cache_entries_are_named() {
    assert_eq!(
        split_cached_artists(&text("A/B; C、D")),
        vec!["A".to_string(), "B".to_string(), "C".to_string(), "D".to_string()]
    );
    let name = make_cache_file_name(&vec!["A B".to_string()], "T?字", 12);
    assert!(name.ends_with(".ttml"));
    assert!(!name.contains('?') && name.contains('字') && name.contains("12"));
    let e = make_cache_entry(&song("T", "A"), 5, Some(LyricFormat::Qrc)).unwrap();
    assert_eq!(e.smtc_title, "T");
    assert_eq!(e.smtc_artists, vec!["A".to_string()]);
    assert_eq!(e.original_source_format.as_deref(), Some("QRC"));
    assert_eq!(make_cache_entry(&NowPlayingInfo::nothing(), 5, None), None);
}

#[test]
fn cached_songs_are_found() {
    let e = LocalLyricCacheEntry {
        smtc_title: "Song".to_string(),
        smtc_artists: vec!["ABBA".to_string(), "Cher".to_string()],
        ttml_filename: "f".to_string(),
        original_source_format: None,
    };
    assert!(is_track_match(&song("sONG ", "abba/cher"), &e));
    assert!(is_track_match(&song("Song", "Cher"), &e));
    assert!(!is_track_match(&song("Song", "Other"), &e));
    assert!(!is_track_match(&song("Sing", "Cher"), &e));
    assert!(artists_match(&vec![], &vec![]));
    assert!(!artists_match(&vec![], &vec!["a".to_string()]));
    assert_eq!(find_in_cache(&song("Song", "Cher"), &vec![e.clone()]), Some(0));
    assert_eq!(find_in_cache(&song("x", "Cher"), &vec![e.clone()]), None);
    let mut f = AutoFetchState::new();
    assert_eq!(f.search_local_cache(&song("Song", "Cher"), &vec![e]), Some(0));
    assert!(f.cached_file_read(text("gone"), true));
    assert_eq!(f.local_cache_status, AutoSearchStatus::Error("gone".to_string()));
}

#[test]
fn searches_start() {
    let mut f = AutoFetchState::new();
    assert_eq!(search_mode(true, &vec!["q".to_string()], true), SearchMode::Subset(vec!["q".to_string()]));
    assert_eq!(search_mode(false, &vec![], true), SearchMode::Parallel);
    assert_eq!(search_mode(false, &vec![], false), SearchMode::Ordered);
    assert_eq!(f.search_online(&song("无歌曲", "A"), true, SearchMode::Ordered), None);
    let r = f.search_online(&song(" T ", "A/B"), true, SearchMode::Ordered).unwrap();
    assert_eq!((r.title.as_str(), r.artists.len()), ("T", 2));
    assert_eq!(f.qqmusic_status, AutoSearchStatus::Searching);
    let m = f
        .trigger_manual_refetch_for_source(&song("T", "A"), AutoSearchSource::Netease, true)
        .unwrap();
    assert!(matches!(m.mode, SearchMode::Specific(_)));
    assert_eq!(
        f.trigger_manual_refetch_for_source(&song("T", "A"), AutoSearchSource::LocalCache, true),
        None
    );
    f.manual_refetch_failed(AutoSearchSource::Netease, None);
    assert_eq!(f.netease_status, AutoSearchStatus::NotFound);
    f.manual_refetch_failed(AutoSearchSource::Netease, text("e"));
    assert_eq!(f.netease_status, AutoSearchStatus::Error("e".to_string()));
    f.reset_statuses();
    assert_eq!(f.netease_status, AutoSearchStatus::NotAttempted);
    f.set_status(AutoSearchSource::AmllDb, AutoSearchStatus::NotFound);
    assert_eq!(f.amll_db_status, AutoSearchStatus::NotFound);
    f.set_status(AutoSearchSource::AmllDb, AutoSearchStatus::NotAttempted);
    assert_eq!(f.amll_db_status, AutoSearchStatus::NotAttempted);
}

#[test]
fn search_terms_are_converted() {
    let q = SearchRequest {
        title: "愛".to_string(),
        artists: vec!["鄧麗君".to_string()],
        mode: SearchMode::Ordered,
    };
    assert_eq!(convert_request(q.clone(), false), q);
    let s = convert_request(q, true);
    assert_eq!((s.title.as_str(), s.artists[0].as_str()), ("爱", "邓丽君"));
}
