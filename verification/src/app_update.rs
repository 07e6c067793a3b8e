//! Takes in what has come from elsewhere since the last frame: log entries, media
//! reports, search results and the progress of uploads.

use vstd::prelude::*;

use crate::amll_connector::types::{
    clone_bytes, opt_eq, AMLLConnectorConfig, ConnectorCommand, NowPlayingInfo, PlayingView,
};
use crate::app_actions::AmllConnectorAction;
use crate::app_definition::{FetchedLyrics, TtmlDbUploadState, UiState};
use crate::app_fetch_core::{
    ended, found, to_load, AutoFetchResult, AutoFetchState, AutoSearchStatus, FetchEffect,
};
use crate::app_handlers::{ActionResult, ResultView};
use crate::text::{is_blank, str_is_blank};
use crate::types::opt_view;

verus! {

// ---------------------------------------------------------------------------
// The log
// ---------------------------------------------------------------------------

/// The most entries that the log shows.
pub const LOG_CAPACITY: usize = 200;

/// How grave a log entry is.
#[derive(Debug, Clone, Copy, PartialEq, Eq, Structural)]
pub enum LogLevel {
    Trace,
    Debug,
    Info,
    Warn,
    Error,
}

/// An entry of the log.
#[derive(Debug, Clone, PartialEq)]
pub struct LogEntry {
    pub level: LogLevel,
    pub message: String,
}

/// Whether an entry is a warning or an error.
pub open spec fn is_grave(e: LogEntry) -> bool {
    e.level == LogLevel::Warn || e.level == LogLevel::Error
}

/// The log with an entry added: the oldest entry goes where it is full.
pub open spec fn with_log_entry(buffer: Seq<LogEntry>, e: LogEntry) -> Seq<LogEntry> {
    if buffer.len() >= LOG_CAPACITY {
        buffer.remove(0).push(e)
    } else {
        buffer.push(e)
    }
}

/// The log with the first `n` entries added.
pub open spec fn with_log_entries(buffer: Seq<LogEntry>, entries: Seq<LogEntry>, n: nat) -> Seq<
    LogEntry,
>
    decreases n,
{
    if n == 0 {
        buffer
    } else {
        with_log_entry(with_log_entries(buffer, entries, (n - 1) as nat), entries[n - 1])
    }
}

/// The first grave entry at or after `i`, or the number of entries.
pub open spec fn first_grave(entries: Seq<LogEntry>, i: int) -> int
    decreases entries.len() - i,
{
    if i < 0 || i >= entries.len() {
        entries.len() as int
    } else if is_grave(entries[i]) {
        i
    } else {
        first_grave(entries, i + 1)
    }
}

/// Whether an entry is a warning or an error.
fn grave(e: &LogEntry) -> (r: bool)
    ensures
        r == is_grave(*e),
{
    e.level == LogLevel::Warn || e.level == LogLevel::Error
}

/// Adds entries to the log. Gives the message of the first that is a warning or
/// an error; the user is then pointed to the log, unless it is shown.
pub fn process_log_messages(
    buffer: &mut Vec<LogEntry>,
    entries: Vec<LogEntry>,
    ui: &mut UiState,
) -> (r: Option<String>)
    ensures
        final(buffer)@ == with_log_entries(old(buffer)@, entries@, entries@.len()),
        ({
            let i = first_grave(entries@, 0);
            &&& opt_view(r) == if i < entries@.len() {
                Some(entries@[i].message@)
            } else {
                None
            }
            &&& *final(ui) == if i < entries@.len() && !old(ui).show_bottom_log_panel {
                UiState { new_trigger_log_exists: true, ..*old(ui) }
            } else {
                *old(ui)
            }
        }),
{
    let ghost start = buffer@;
    let mut first: Option<String> = None;
    let mut i: usize = 0;
    while i < entries.len()
        invariant
            i <= entries.len(),
            buffer@ == with_log_entries(start, entries@, i as nat),
            first is None ==> first_grave(entries@, 0) == first_grave(entries@, i as int),
            first is Some ==> first_grave(entries@, 0) < entries@.len() && first->0@
                == entries@[first_grave(entries@, 0)].message@,
        decreases entries.len() - i,
    {
        if buffer.len() >= LOG_CAPACITY {
            buffer.remove(0);
        }
        if first.is_none() && grave(&entries[i]) {
            first = Some(entries[i].message.clone());
        }
        let level = entries[i].level;
        buffer.push(LogEntry { level, message: entries[i].message.clone() });
        i += 1;
    }
    if first.is_some() && !ui.show_bottom_log_panel {
        ui.new_trigger_log_exists = true;
    }
    first
}

/// A log that is not overfull stays so, and its newest entry is the one that was
/// added last.
pub proof fn law_log_is_bounded(buffer: Seq<LogEntry>, entries: Seq<LogEntry>, n: nat)
    requires
        buffer.len() <= LOG_CAPACITY,
        n <= entries.len(),
    ensures
        with_log_entries(buffer, entries, n).len() <= LOG_CAPACITY,
        n > 0 ==> with_log_entries(buffer, entries, n).last() == entries[n - 1],
    decreases n,
{
    if n > 0 {
        law_log_is_bounded(buffer, entries, (n - 1) as nat);
    }
}

// ---------------------------------------------------------------------------
// Media reports
// ---------------------------------------------------------------------------

/// What a report is taken as.
#[derive(Debug, Clone, Copy, PartialEq, Eq, Structural)]
pub enum ReportKind {
    /// It has no title and says nothing.
    Ignored,
    /// Another song.
    NewSong,
    /// More about the same song.
    SameSong,
}

/// What a report is taken as.
pub open spec fn report_kind(current: PlayingView, report: PlayingView) -> ReportKind {
    if report.title is None || is_blank(report.title->0) {
        ReportKind::Ignored
    } else if current.title != report.title || current.artist != report.artist {
        ReportKind::NewSong
    } else {
        ReportKind::SameSong
    }
}

/// What is new where something was reported.
pub open spec fn newer<T>(report: Option<T>, current: Option<T>) -> Option<T> {
    if report is Some {
        report
    } else {
        current
    }
}

/// What is known of a song after another report about it. The hash of the cover
/// changes with the cover.
pub open spec fn same_song_updated(current: PlayingView, report: PlayingView) -> PlayingView {
    PlayingView {
        position_ms: newer(report.position_ms, current.position_ms),
        position_report_time: newer(report.position_report_time, current.position_report_time),
        is_playing: newer(report.is_playing, current.is_playing),
        cover_data: newer(report.cover_data, current.cover_data),
        cover_data_hash: if report.cover_data is Some {
            report.cover_data_hash
        } else {
            current.cover_data_hash
        },
        duration_ms: newer(report.duration_ms, current.duration_ms),
        is_shuffle_active: newer(report.is_shuffle_active, current.is_shuffle_active),
        repeat_mode: newer(report.repeat_mode, current.repeat_mode),
        ..current
    }
}

/// Takes in a report of what is being played. For a new song, what was found for
/// the last one is forgotten, and lyrics are searched for.
pub fn track_reported(
    current: &mut NowPlayingInfo,
    report: &NowPlayingInfo,
    fetcher: &mut AutoFetchState,
) -> (r: ReportKind)
    ensures
        r == report_kind(old(current)@, report@),
        final(current)@ == match r {
            ReportKind::Ignored => old(current)@,
            ReportKind::NewSong => report@,
            ReportKind::SameSong => same_song_updated(old(current)@, report@),
        },
        *final(fetcher) == if r == ReportKind::NewSong {
            AutoFetchState {
                last_qq_result: None,
                last_kugou_result: None,
                last_netease_result: None,
                last_amll_db_result: None,
                last_musixmatch_result: None,
                current_ui_populated: false,
                ..*old(fetcher)
            }
        } else {
            *old(fetcher)
        },
{
    let blank = match &report.title {
        Some(t) => str_is_blank(t.as_str()),
        None => true,
    };
    if blank {
        return ReportKind::Ignored;
    }
    if !opt_eq(&current.title, &report.title) || !opt_eq(&current.artist, &report.artist) {
        *current = report.copy();
        fetcher.clear_last_fetch_results();
        return ReportKind::NewSong;
    }
    if report.position_ms.is_some() {
        current.position_ms = report.position_ms;
    }
    if report.position_report_time.is_some() {
        current.position_report_time = report.position_report_time;
    }
    if report.is_playing.is_some() {
        current.is_playing = report.is_playing;
    }
    if report.cover_data.is_some() {
        current.cover_data = clone_bytes(&report.cover_data);
        current.cover_data_hash = report.cover_data_hash;
    }
    if report.duration_ms.is_some() {
        current.duration_ms = report.duration_ms;
    }
    if report.is_shuffle_active.is_some() {
        current.is_shuffle_active = report.is_shuffle_active;
    }
    if report.repeat_mode.is_some() {
        current.repeat_mode = report.repeat_mode;
    }
    ReportKind::SameSong
}

// ---------------------------------------------------------------------------
// Search results
// ---------------------------------------------------------------------------

/// `f` when the search at the cache and at the four older providers has ended.
pub open spec fn older_ended(f: AutoFetchState, with_cache: bool) -> AutoFetchState {
    AutoFetchState {
        local_cache_status: if with_cache {
            ended(f.local_cache_status)
        } else {
            f.local_cache_status
        },
        qqmusic_status: ended(f.qqmusic_status),
        kugou_status: ended(f.kugou_status),
        netease_status: ended(f.netease_status),
        amll_db_status: ended(f.amll_db_status),
        ..f
    }
}

/// A status when the search has ended.
fn status_at_end(status: &AutoSearchStatus) -> (r: AutoSearchStatus)
    ensures
        r == ended(*status),
{
    match status {
        AutoSearchStatus::Searching => AutoSearchStatus::NotFound,
        AutoSearchStatus::NotAttempted => AutoSearchStatus::NotAttempted,
        AutoSearchStatus::NotFound => AutoSearchStatus::NotFound,
        AutoSearchStatus::Success(f) => AutoSearchStatus::Success(*f),
        AutoSearchStatus::Error(e) => AutoSearchStatus::Error(e.clone()),
    }
}

impl AutoFetchState {
    /// Ends the search at the four older providers, and at the cache where asked
    /// for.
    fn end_older(&mut self, with_cache: bool)
        ensures
            *final(self) == older_ended(*old(self), with_cache),
    {
        if with_cache {
            let status = status_at_end(&self.local_cache_status);
            self.local_cache_status = status;
        }
        let qq = status_at_end(&self.qqmusic_status);
        self.qqmusic_status = qq;
        let kugou = status_at_end(&self.kugou_status);
        self.kugou_status = kugou;
        let netease = status_at_end(&self.netease_status);
        self.netease_status = netease;
        let amll = status_at_end(&self.amll_db_status);
        self.amll_db_status = amll;
    }

    /// Takes in a search result in the course of a frame. Lyrics are handed on
    /// for loading where none have been loaded for the song. That they have been
    /// loaded is noted by `lyrics_loaded`, when they are.
    pub fn handle_auto_fetch_results(&mut self, result: AutoFetchResult, connector_ready: bool) -> (r:
        FetchEffect)
        ensures
            match result {
                AutoFetchResult::Success { source, lyrics } => {
                    &&& *final(self) == older_ended(found(*old(self), source, lyrics), true)
                    &&& r == match to_load(*old(self), result) {
                        Some(l) => FetchEffect::Load(l),
                        None => FetchEffect::Nothing,
                    }
                },
                AutoFetchResult::NotFound => {
                    &&& *final(self) == older_ended(*old(self), false)
                    &&& r == if !old(self).current_ui_populated && connector_ready {
                        FetchEffect::NoLyrics { tell_player: true, tell_server_clients: false }
                    } else {
                        FetchEffect::Nothing
                    }
                },
                AutoFetchResult::FetchError(_) => {
                    *final(self) == *old(self) && r == FetchEffect::Nothing
                },
            },
    {
        match result {
            AutoFetchResult::Success { source, lyrics } => {
                let kept = FetchedLyrics {
                    content: lyrics.content.clone(),
                    source_format: lyrics.source_format,
                };
                self.set_result(source, Some(kept));
                self.set_status(source, AutoSearchStatus::Success(lyrics.source_format));
                self.end_older(true);
                if self.current_ui_populated {
                    FetchEffect::Nothing
                } else {
                    FetchEffect::Load(lyrics)
                }
            },
            AutoFetchResult::NotFound => {
                self.end_older(false);
                if !self.current_ui_populated && connector_ready {
                    FetchEffect::NoLyrics { tell_player: true, tell_server_clients: false }
                } else {
                    FetchEffect::Nothing
                }
            },
            AutoFetchResult::FetchError(_) => FetchEffect::Nothing,
        }
    }
}

// ---------------------------------------------------------------------------
// Notices and requests
// ---------------------------------------------------------------------------

/// How a notice is shown.
#[derive(Debug, Clone, Copy, PartialEq, Eq, Structural)]
pub enum NoticeKind {
    Info,
    Success,
    Warning,
    Error,
}

/// The notice about what became of an action, and for how many seconds it is
/// shown. Success needs none.
pub fn result_notice(result: ActionResult) -> (r: Option<(String, NoticeKind, u32)>)
    ensures
        match result@ {
            ResultView::Success => r is None,
            ResultView::Warning(m) => r is Some && (r->0).0@ == m && (r->0).1
                == NoticeKind::Warning && (r->0).2 == 3,
            ResultView::Error(m) => r is Some && (r->0).0@ == m && (r->0).1 == NoticeKind::Error
                && (r->0).2 == 5,
        },
{
    match result {
        ActionResult::Success => None,
        ActionResult::Warning(m) => Some((m, NoticeKind::Warning, 3)),
        ActionResult::Error(m) => Some((m, NoticeKind::Error, 5)),
    }
}

/// The command to the connector for a request of the user. To connect is to
/// enable the connector.
pub fn connector_command(action: AmllConnectorAction, config: &mut AMLLConnectorConfig) -> (r:
    ConnectorCommand)
    ensures
        *final(config) == match action {
            AmllConnectorAction::Connect | AmllConnectorAction::Retry => AMLLConnectorConfig {
                enabled: true,
                ..*old(config)
            },
            AmllConnectorAction::Disconnect => *old(config),
        },
        r == match action {
            AmllConnectorAction::Connect
            | AmllConnectorAction::Retry => ConnectorCommand::UpdateConfig(*final(config)),
            AmllConnectorAction::Disconnect => ConnectorCommand::DisconnectWebsocket,
        },
{
    match action {
        AmllConnectorAction::Connect | AmllConnectorAction::Retry => {
            config.enabled = true;
            ConnectorCommand::UpdateConfig(config.copy())
        },
        AmllConnectorAction::Disconnect => ConnectorCommand::DisconnectWebsocket,
    }
}

// ---------------------------------------------------------------------------
// Uploads
// ---------------------------------------------------------------------------

/// What an upload to the database reports.
#[derive(Debug, Clone, PartialEq)]
pub enum TtmlDbUploadUserAction {
    /// The text has been pasted, and this page is to be opened.
    PasteReadyAndCopied { paste_url: String, github_issue_url_to_open: String },
    InProgressUpdate(String),
    PreparationError(String),
    Error(String),
}

/// What became of copying the link.
#[derive(Debug, Clone, Copy, PartialEq, Eq, Structural)]
pub enum ClipboardOutcome {
    Copied,
    /// The clipboard did not take the link.
    NotCopied,
    /// There is no clipboard.
    NoClipboard,
}

/// The notice about copying the link.
pub open spec fn clipboard_text(c: ClipboardOutcome) -> Seq<char> {
    match c {
        ClipboardOutcome::Copied => "dpaste链接已复制到剪贴板!"@,
        ClipboardOutcome::NotCopied => "无法自动复制dpaste链接到剪贴板，请手动复制。"@,
        ClipboardOutcome::NoClipboard => "无法访问系统剪贴板，请手动从通知中复制dpaste链接。"@,
    }
}

/// How the notice about copying the link is shown.
pub open spec fn clipboard_kind(c: ClipboardOutcome) -> NoticeKind {
    match c {
        ClipboardOutcome::Copied => NoticeKind::Success,
        ClipboardOutcome::NotCopied => NoticeKind::Warning,
        ClipboardOutcome::NoClipboard => NoticeKind::Error,
    }
}

/// The notice about copying the link.
pub fn clipboard_notice(c: ClipboardOutcome) -> (r: (&'static str, NoticeKind))
    ensures
        r.0@ == clipboard_text(c),
        r.1 == clipboard_kind(c),
{
    match c {
        ClipboardOutcome::Copied => ("dpaste链接已复制到剪贴板!", NoticeKind::Success),
        ClipboardOutcome::NotCopied => (
            "无法自动复制dpaste链接到剪贴板，请手动复制。",
            NoticeKind::Warning,
        ),
        ClipboardOutcome::NoClipboard => (
            "无法访问系统剪贴板，请手动从通知中复制dpaste链接。",
            NoticeKind::Error,
        ),
    }
}

/// Whether the link was copied, in the notice about the page.
pub open spec fn copied_text(copied: bool) -> Seq<char> {
    if copied {
        "dpaste链接已复制!"@
    } else {
        "请手动复制dpaste链接。"@
    }
}

/// The notice about the page that was opened, or could not be.
pub open spec fn issue_text(copied: bool, opened: bool, paste_url: Seq<char>) -> Seq<char> {
    let body = if opened {
        "\nGitHub Issue页面已打开。\n\n后续操作指引：\n1. (如果自动复制失败) 从本条通知或日志中复制 dpaste 链接。\n2. 返回已打开的GitHub Issue页面，将链接粘贴到“TTML歌词文件下载直链”。\n3. 填写其他部分（如果需要）并提交。"@
    } else {
        "\n但打开Issue页面失败。\n\n请手动：\n1. (如果上面复制失败) 从本条通知或日志中复制 dpaste 链接。\n2. 访问 https://github.com/Steve-xmh/amll-ttml-db/issues/new。\n3. 粘贴链接并填写表单提交。"@
    };
    copied_text(copied) + body + "\n\ndpaste链接: "@ + paste_url
}

/// The notice about the page: a success where the link was copied and the page
/// was opened.
pub fn issue_notice(copied: bool, opened: bool, paste_url: &str) -> (r: (String, NoticeKind))
    ensures
        r.0@ == issue_text(copied, opened, paste_url@),
        r.1 == if copied && opened {
            NoticeKind::Success
        } else {
            NoticeKind::Warning
        },
{
    let mut s = String::new();
    if copied {
        s.append("dpaste链接已复制!");
    } else {
        s.append("请手动复制dpaste链接。");
    }
    proof {
        assert(s@ =~= copied_text(copied));
    }
    if opened {
        s.append("\nGitHub Issue页面已打开。\n\n后续操作指引：\n1. (如果自动复制失败) 从本条通知或日志中复制 dpaste 链接。\n2. 返回已打开的GitHub Issue页面，将链接粘贴到“TTML歌词文件下载直链”。\n3. 填写其他部分（如果需要）并提交。");
    } else {
        s.append("\n但打开Issue页面失败。\n\n请手动：\n1. (如果上面复制失败) 从本条通知或日志中复制 dpaste 链接。\n2. 访问 https://github.com/Steve-xmh/amll-ttml-db/issues/new。\n3. 粘贴链接并填写表单提交。");
    }
    s.append("\n\ndpaste链接: ");
    s.append(paste_url);
    (
        s,
        if copied && opened {
            NoticeKind::Success
        } else {
            NoticeKind::Warning
        },
    )
}

impl TtmlDbUploadState {
    /// Takes in a report of an upload: an upload that has ended, well or not, is
    /// no longer under way, and the link of one that went well is kept. Gives the
    /// notice that is shown at once.
    pub fn handle_upload_action(&mut self, action: &TtmlDbUploadUserAction) -> (r: Option<
        (String, NoticeKind),
    >)
        ensures
            match action {
                TtmlDbUploadUserAction::InProgressUpdate(m) => {
                    &&& *final(self) == *old(self)
                    &&& r is Some && (r->0).0@ == m@ && (r->0).1 == NoticeKind::Info
                },
                TtmlDbUploadUserAction::PasteReadyAndCopied { paste_url, .. } => {
                    &&& !final(self).in_progress
                    &&& opt_view(final(self).last_paste_url) == Some(paste_url@)
                    &&& r is None
                },
                TtmlDbUploadUserAction::PreparationError(_) => {
                    &&& !final(self).in_progress
                    &&& final(self).last_paste_url == old(self).last_paste_url
                    &&& r is None
                },
                TtmlDbUploadUserAction::Error(e) => {
                    &&& !final(self).in_progress
                    &&& final(self).last_paste_url == old(self).last_paste_url
                    &&& r is Some && (r->0).0@ == "上传失败: "@ + e@ && (r->0).1
                        == NoticeKind::Error
                },
            },
    {
        match action {
            TtmlDbUploadUserAction::InProgressUpdate(m) => Some((m.clone(), NoticeKind::Info)),
            TtmlDbUploadUserAction::PasteReadyAndCopied { paste_url, .. } => {
                self.last_paste_url = Some(paste_url.clone());
                self.in_progress = false;
                None
            },
            TtmlDbUploadUserAction::PreparationError(_) => {
                self.in_progress = false;
                None
            },
            TtmlDbUploadUserAction::Error(e) => {
                self.in_progress = false;
                let mut s = "上传失败: ".to_owned();
                s.append(e.as_str());
                Some((s, NoticeKind::Error))
            },
        }
    }

    /// The upload can report no more: one that was under way has ended, and the
    /// user is told so.
    pub fn upload_disconnected(&mut self) -> (r: Option<(&'static str, NoticeKind)>)
        ensures
            !final(self).in_progress,
            final(self).last_paste_url == old(self).last_paste_url,
            match r {
                Some(n) => old(self).in_progress && n.0@ == "上传处理通道意外断开，操作可能未完成。"@
                    && n.1 == NoticeKind::Error,
                None => !old(self).in_progress,
            },
    {
        if self.in_progress {
            self.in_progress = false;
            Some(("上传处理通道意外断开，操作可能未完成。", NoticeKind::Error))
        } else {
            None
        }
    }
}

} // verus!
