use unilyric::app_settings::{
    has_string, set_values, split_list, AppSettings, ConfigFile, LevelFilter, LogSettings,
    WebsocketServerSettings,
};
use unilyric::formats::{
    search_order_to_string, string_to_search_order, AutoSearchSource, LyricFormat,
};

fn ini_of(text: &str) -> ini::Ini {
    ini::Ini::load_from_str(text).unwrap()
}

fn text_file(text: &str) -> ConfigFile {
    ConfigFile::Read(text.to_string())
}

#[test]
fn settings_by_default() {
    let s = AppSettings::default();
    assert!(!s.amll_connector_enabled);
    assert_eq!(s.amll_connector_websocket_url, "ws://localhost:11444");
    assert_eq!(s.last_source_format, LyricFormat::Ass);
    assert_eq!(s.last_target_format, LyricFormat::Ttml);
    assert_eq!(WebsocketServerSettings::default(), WebsocketServerSettings { enabled: true, port: 10086 });
    assert_eq!(
        LogSettings::default(),
        LogSettings {
            enable_file_log: false,
            file_log_level: LevelFilter::Info,
            console_log_level: LevelFilter::Info
        }
    );
    assert!(s.stripping_keywords.contains(&"作词".to_string()));
    assert!(!s.batch_translation_suffixes.is_empty());
}

#[test]
fn settings_are_read() {
    let s = AppSettings::from_ini(&ini_of(
        "[Logging]\nEnableFileLog=true\nFileLogLevel=dEbUg\nConsoleLogLevel=nonsense\n\
         [AmllConnector]\nEnabled=true\nWebSocketURL=ws://x\nSmtcTimeOffsetMs=-250\n\
         [WebsocketServer]\nEnabled=false\nPort=80000\n\
         [GeneralSettings]\nLastSourceFormat=qrc\nLastTargetFormat=?\n\
         [PinnedMetadata]\nartist=A;B\n",
    ));
    assert!(s.log_settings.enable_file_log);
    assert_eq!(s.log_settings.file_log_level, LevelFilter::Debug);
    assert_eq!(s.log_settings.console_log_level, LevelFilter::Info);
    assert!(s.amll_connector_enabled);
    assert_eq!(s.amll_connector_websocket_url, "ws://x");
    assert_eq!(s.smtc_time_offset_ms, -250);
    assert!(!s.websocket_server_settings.enabled);
    assert_eq!(s.websocket_server_settings.port, 10086);
    assert_eq!(s.last_source_format, LyricFormat::Qrc);
    assert_eq!(s.last_target_format, LyricFormat::Ttml);
    assert_eq!(s.pinned_metadata.len(), 1);
    assert_eq!(s.pinned_metadata[0].0, "artist");
}

#[test]
fn keywords_add_to_the_defaults() {
    let d = AppSettings::default();
    let s = AppSettings::from_ini(&ini_of("[LyricStripping]\nStrippingKeywords=作词;zzz\n"));
    assert_eq!(s.stripping_keywords.len(), d.stripping_keywords.len() + 1);
    assert_eq!(s.stripping_keywords.last().unwrap(), "zzz");
}

#[test]
fn a_missing_file_gives_the_defaults() {
    let (missing, save) = AppSettings::load(&ConfigFile::Missing);
    assert!(save);
    assert_eq!(missing.smtc_time_offset_ms, 0);
    let (_, no_place) = AppSettings::load(&ConfigFile::NoPlace);
    assert!(!no_place);
    let (read, _) =
        AppSettings::load(&text_file("[AmllConnector]\nSmtcTimeOffsetMs=7\n"));
    assert_eq!(read.smtc_time_offset_ms, 7);
    // A mark of the encoding in front of the text says nothing.
    let (marked, keep) = AppSettings::load(&text_file("\u{feff}[AmllConnector]\nEnabled=true\n"));
    assert!(marked.amll_connector_enabled && !keep);
    // Of two sections with one name the first counts.
    let (first, _) = AppSettings::load(&text_file(
        "[AmllConnector]\nSmtcTimeOffsetMs=1\n[AmllConnector]\nSmtcTimeOffsetMs=2\n",
    ));
    assert_eq!(first.smtc_time_offset_ms, 1);
    // A text that is not a file with settings gives the defaults, which are saved.
    let (bad, save_bad) = AppSettings::load(&text_file("[AmllConnector\nEnabled=true"));
    assert!(save_bad && !bad.amll_connector_enabled);
    let (_, save_none) = AppSettings::from_parsed(None);
    assert!(save_none);
    assert_eq!(AppSettings::load(&ConfigFile::Unreadable).1, true);
}

#[test]
fn saved_settings_are_read_back() {
    let mut s = AppSettings::default();
    s.log_settings.console_log_level = LevelFilter::Trace;
    s.smtc_time_offset_ms = -5;
    s.amll_connector_enabled = true;
    s.amll_connector_websocket_url = "wss://p:1".to_string();
    s.auto_search_source_order = vec![AutoSearchSource::Kugou, AutoSearchSource::QqMusic];
    s.last_selected_smtc_session_id = Some("app!x".to_string());
    s.websocket_server_settings = WebsocketServerSettings { enabled: false, port: 7 };
    s.last_source_format = LyricFormat::Lqe;
    s.batch_default_target_format = Some(LyricFormat::Krc);
    s.batch_output_directory = Some("/tmp/out".to_string());
    s.batch_translation_suffixes = vec!["_t".to_string(), "_u".to_string()];
    s.pinned_metadata = vec![("artist".to_string(), vec!["A".to_string()])];
    let conf = s.save();
    assert_eq!(conf.get_from(Some("Logging"), "ConsoleLogLevel"), Some("TRACE"));
    assert_eq!(conf.get_from(Some("AmllConnector"), "SmtcTimeOffsetMs"), Some("-5"));
    let t = AppSettings::from_ini(&conf);
    assert_eq!(t.log_settings, s.log_settings);
    assert_eq!(t.smtc_time_offset_ms, s.smtc_time_offset_ms);
    assert_eq!(t.amll_connector_websocket_url, s.amll_connector_websocket_url);
    assert_eq!(t.auto_search_source_order, s.auto_search_source_order);
    assert_eq!(t.last_selected_smtc_session_id, s.last_selected_smtc_session_id);
    assert_eq!(t.websocket_server_settings, s.websocket_server_settings);
    assert_eq!(t.last_source_format, s.last_source_format);
    assert_eq!(t.batch_default_target_format, s.batch_default_target_format);
    assert_eq!(t.batch_output_directory, s.batch_output_directory);
    assert_eq!(t.batch_translation_suffixes, s.batch_translation_suffixes);
    assert_eq!(t.pinned_metadata, s.pinned_metadata);
}

#[test]
fn lists_are_split() {
    assert_eq!(split_list(" a; ;b ", &[';']), vec!["a".to_string(), "b".to_string()]);
    let list = vec!["a".to_string()];
    assert!(has_string(&list, &"a".to_string()));
    assert!(!has_string(&list, &"b".to_string()));
    let mut pinned = vec![("k".to_string(), vec!["1".to_string()])];
    set_values(&mut pinned, "k".to_string(), vec!["2".to_string()]);
    set_values(&mut pinned, "l".to_string(), vec![]);
    assert_eq!(pinned.len(), 2);
    assert_eq!(pinned[0].1, vec!["2".to_string()]);
}

#[test]
fn formats_have_names() {
    for f in LyricFormat::available_formats() {
        assert_eq!(LyricFormat::from_name(f.name()), Some(f));
    }
    assert_eq!(LyricFormat::from_name("ttml"), Some(LyricFormat::Ttml));
    assert_eq!(LyricFormat::from_name("none"), None);
    assert_eq!(LyricFormat::from_extension("LRC"), Some(LyricFormat::Lrc));
    assert_eq!(LyricFormat::from_extension("txt"), None);
    assert_eq!(LyricFormat::Ass.to_extension_str(), "ass");
}

#[test]
fn search_orders_are_read_back() {
    let order = AutoSearchSource::default_order();
    assert_eq!(string_to_search_order(&search_order_to_string(&order)), order);
    let short = vec![AutoSearchSource::AmllDb, AutoSearchSource::LocalCache];
    assert_eq!(string_to_search_order(&search_order_to_string(&short)), short);
}

#[test]
fn single_settings_are_read_back_whatever_the_lists_are() {
    let mut s = AppSettings::default();
    s.stripping_keywords = vec![" x ;".to_string(), String::new()];
    s.pinned_metadata = vec![("k".to_string(), vec![]), ("k".to_string(), vec!["a;b".to_string()])];
    s.auto_search_source_order = vec![];
    s.smtc_time_offset_ms = i64::MIN;
    s.amll_connector_websocket_url = " ; =".to_string();
    s.enable_online_lyric_stripping = false;
    s.send_audio_data_to_player = false;
    s.always_search_all_sources = true;
    s.websocket_server_settings = WebsocketServerSettings { enabled: false, port: 65535 };
    let t = AppSettings::from_ini(&s.save());
    assert_eq!(t.smtc_time_offset_ms, i64::MIN);
    assert_eq!(t.amll_connector_websocket_url, " ; =");
    assert!(!t.enable_online_lyric_stripping && !t.send_audio_data_to_player);
    assert!(t.always_search_all_sources);
    assert_eq!(t.websocket_server_settings, s.websocket_server_settings);
}
