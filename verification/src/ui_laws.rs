//! What the window offers and shows, and what it notes of what happens.

use vstd::prelude::*;

use crate::amll_connector::player_laws::same_song;
use crate::amll_connector::smtc_handler::SessionView;
use crate::amll_connector::types::NowPlayingInfo;
use crate::app_definition::{lrc_views, no_lyrics, LrcLine, LyricState};
use crate::app_fetch_core::AutoFetchState;
use crate::app_ui::{
    cover_image_id, format_frame, found_label, is_target, lrc_text, marker_text, marker_texts,
    session_at, session_label, shown_label, target_problem, without_name, FormatFollowUp,
};
use crate::app_update::{
    clipboard_kind, clipboard_text, first_grave, issue_text, older_ended, report_kind,
    same_song_updated, with_log_entries, with_log_entry, ClipboardOutcome, LogEntry, LogLevel,
    NoticeKind, ReportKind,
};
use crate::formats::{format_name, LyricFormat};
use crate::search_laws::ends_as;
use crate::text::{dec, join, trim};
use crate::types::opt_view;

verus! {

// ---------------------------------------------------------------------------
// Formats
// ---------------------------------------------------------------------------

/// From LRC only LQE, SPL, LRC and TTML can be written, and from lyrics that are timed
/// by line none of the formats that need syllables. All else can, and only what cannot
/// has a reason.
pub proof fn law_targets(source: LyricFormat, line_timed: bool, target: LyricFormat)
    ensures
        ({
            let by_syllable = target == LyricFormat::Ass || target == LyricFormat::Qrc || target
                == LyricFormat::Yrc || target == LyricFormat::Lys || target == LyricFormat::Krc;
            let from_lrc = target == LyricFormat::Lqe || target == LyricFormat::Spl || target
                == LyricFormat::Lrc || target == LyricFormat::Ttml;
            let can = if source == LyricFormat::Lrc {
                from_lrc
            } else {
                !(line_timed && by_syllable)
            };
            &&& is_target(source, line_timed, target) <==> can
            &&& target_problem(source, line_timed, target) is None <==> can
            &&& !can && source == LyricFormat::Lrc ==> target_problem(source, line_timed, target)
                == Some("LRC源格式只能输出为LQE, SPL, TTML 或 LRC"@)
            &&& !can && source != LyricFormat::Lrc ==> target_problem(source, line_timed, target)
                == Some(
                "\""@ + format_name(source) + "\" 为逐行格式，无法转换为逐字格式 \""@ + format_name(
                    target,
                ) + "\""@,
            )
        }),
{
}

/// What the choice of formats leads to: the formats that are clicked are chosen, a
/// target only where it can be written, and where LRC is chosen as the source a target
/// that cannot be written from it becomes LRC. Where something has been chosen it is
/// saved, and the text is converted, or what there is cleared where there is none; lyrics
/// that are timed by line are then written as LRC.
pub proof fn law_chosen_formats(
    source: LyricFormat,
    target: LyricFormat,
    clicked_source: Option<LyricFormat>,
    clicked_target: Option<LyricFormat>,
    line_timed: bool,
    has_text: bool,
)
    ensures
        ({
            let r = format_frame(
                source,
                target,
                clicked_source,
                clicked_target,
                line_timed,
                has_text,
            );
            let s = if clicked_source is Some {
                clicked_source->0
            } else {
                source
            };
            let kept = if s == LyricFormat::Lrc && !is_target(LyricFormat::Lrc, false, target) {
                LyricFormat::Lrc
            } else {
                target
            };
            let t = if clicked_target is Some && is_target(s, line_timed, clicked_target->0) {
                clicked_target->0
            } else {
                kept
            };
            let changed = s != source || t != kept;
            &&& r.source == s
            &&& !changed ==> r.target == t && r.saved is None && r.follow_up
                == FormatFollowUp::Nothing
            &&& changed ==> {
                &&& r.saved == Some((s, t))
                &&& r.target == (if line_timed {
                    LyricFormat::Lrc
                } else {
                    t
                })
                &&& r.follow_up == (if has_text {
                    FormatFollowUp::Convert
                } else {
                    FormatFollowUp::Clear
                })
            }
        }),
{
}

// ---------------------------------------------------------------------------
// Texts
// ---------------------------------------------------------------------------

/// Each line of an LRC text is its time and its text, or what stands in it, with a
/// line break behind it, in order.
pub proof fn law_lrc_lines(lines: Seq<LrcLine>, i: int)
    requires
        0 <= i < lines.len(),
    ensures
        ({
            let was = lrc_text(lrc_views(lines), i as nat);
            let now = lrc_text(lrc_views(lines), (i + 1) as nat);
            match lines[i] {
                LrcLine::Parsed { time_tag, text } => {
                    &&& text is Some ==> now == was + time_tag@ + text->0@ + "\n"@
                    &&& text is None ==> now == was + time_tag@ + "\n"@
                },
                LrcLine::Raw { original_text } => now == was + original_text@ + "\n"@,
            }
        }),
        lrc_text(lrc_views(lines), 0).len() == 0,
{
    let v = lrc_views(lines);
    assert(v[i] == lines[i]@);
    let was = lrc_text(v, i as nat);
    let now = lrc_text(v, (i + 1) as nat);
    match lines[i] {
        LrcLine::Parsed { time_tag, text } => {
            if text is Some {
                assert(now =~= was + time_tag@ + text->0@ + "\n"@);
            } else {
                assert(now =~= was + time_tag@ + "\n"@);
            }
        },
        LrcLine::Raw { original_text } => {
            assert(now =~= was + original_text@ + "\n"@);
        },
    }
}

/// What is shown of a marker, of a song that was found and of a cover.
pub proof fn law_labels(
    line: nat,
    text: Seq<char>,
    title: Seq<char>,
    artists: Seq<Seq<char>>,
    provider: Seq<char>,
    hash: Option<u64>,
    partial: u64,
)
    ensures
        marker_text((line, text)) == "ASS 行 "@ + dec(line) + ": "@ + text,
        found_label(title, artists, provider) == title + " - "@ + join(artists, "/"@) + " ("@
            + provider + ")"@,
        hash is Some ==> cover_image_id(hash, partial) == "smtc_cover_hash_"@ + dec(hash->0 as nat),
        hash is None ==> cover_image_id(hash, partial) == "smtc_cover_data_partial_hash_"@ + dec(
            partial as nat,
        ),
{
}

/// A label of up to fifty characters is shown whole, and of a longer one the first
/// fifty with three dots.
pub proof fn law_short_label(label: Seq<char>)
    ensures
        label.len() <= 50 ==> shown_label(label) == label,
        label.len() > 50 ==> shown_label(label).len() == 53 && shown_label(label).take(50)
            == label.take(50) && shown_label(label).skip(50) == "..."@,
{
    reveal_strlit("...");
    if label.len() > 50 {
        assert(shown_label(label).take(50) =~= label.take(50));
        assert(shown_label(label).skip(50) =~= "..."@);
    }
}

/// Where a session stands first.
proof fn lemma_session_at(sessions: Seq<SessionView>, id: Seq<char>, i: int)
    requires
        0 <= i <= sessions.len(),
    ensures
        i <= session_at(sessions, id, i) <= sessions.len(),
        session_at(sessions, id, i) < sessions.len() ==> sessions[session_at(
            sessions,
            id,
            i,
        )].session_id == id,
        forall|k: int|
            i <= k < session_at(sessions, id, i) ==> (#[trigger] sessions[k]).session_id != id,
    decreases sessions.len() - i,
{
    if i < sessions.len() && sessions[i].session_id != id {
        lemma_session_at(sessions, id, i + 1);
    }
}

/// The session that is selected is shown by its name, and one that is gone as such.
pub proof fn law_session_label(selected: Option<Seq<char>>, sessions: Seq<SessionView>)
    ensures
        selected is None ==> session_label(selected, sessions) == "自动 (系统默认)"@,
        selected is Some && (forall|k: int|
            0 <= k < sessions.len() ==> (#[trigger] sessions[k]).session_id != selected->0)
            ==> session_label(selected, sessions) == "自动 (选择 '"@ + selected->0
            + "' 已失效)"@,
        forall|k: int|
            selected is Some && 0 <= k < sessions.len() && (#[trigger] sessions[k]).session_id
                == selected->0 && (forall|m: int|
                0 <= m < k ==> (#[trigger] sessions[m]).session_id != selected->0)
                ==> session_label(selected, sessions) == sessions[k].display_name,
{
    if selected is Some {
        lemma_session_at(sessions, selected->0, 0);
        let i = session_at(sessions, selected->0, 0);
        assert forall|k: int|
            0 <= k < sessions.len() && (#[trigger] sessions[k]).session_id == selected->0 && (
            forall|m: int|
                0 <= m < k ==> (#[trigger] sessions[m]).session_id
                    != selected->0) implies session_label(selected, sessions)
            == sessions[k].display_name by {
            if i < k {
                assert(sessions[i].session_id != selected->0);
            }
            if k < i {
                assert(sessions[k].session_id != selected->0);
            }
            assert(i == k);
        }
    }
}

/// A name that is unticked goes, wherever it stands, and the others stay in order.
pub proof fn law_unticked(names: Seq<Seq<char>>, name: Seq<char>)
    ensures
        without_name(names, name) == names.filter(|x: Seq<char>| x != name),
    decreases names.len(),
{
    reveal(Seq::filter);
    if names.len() > 0 {
        law_unticked(names.drop_last(), name);
    }
}

// ---------------------------------------------------------------------------
// The log
// ---------------------------------------------------------------------------

/// The log holds the last two hundred entries in order: a new one stands at its end,
/// and the oldest goes where it is full.
pub proof fn law_log(buffer: Seq<LogEntry>, e: LogEntry)
    ensures
        ({
            let r = with_log_entry(buffer, e);
            &&& r.last() == e
            &&& buffer.len() < 200 ==> r.drop_last() == buffer
            &&& buffer.len() >= 200 ==> r.drop_last() == buffer.skip(1)
        }),
{
    let r = with_log_entry(buffer, e);
    if buffer.len() < 200 {
        assert(r.drop_last() =~= buffer);
    } else {
        assert(r.drop_last() =~= buffer.skip(1));
    }
}

/// The message that is shown is the first that is a warning or an error.
pub proof fn law_first_grave(entries: Seq<LogEntry>, i: int)
    requires
        0 <= i <= entries.len(),
    ensures
        ({
            let r = first_grave(entries, i);
            &&& i <= r <= entries.len()
            &&& r < entries.len() ==> entries[r].level == LogLevel::Warn || entries[r].level
                == LogLevel::Error
            &&& forall|k: int|
                i <= k < r ==> (#[trigger] entries[k]).level != LogLevel::Warn && entries[k].level
                    != LogLevel::Error
        }),
    decreases entries.len() - i,
{
    if i < entries.len() {
        law_first_grave(entries, i + 1);
    }
}

// ---------------------------------------------------------------------------
// Reports
// ---------------------------------------------------------------------------

/// A report without a title is not looked at. Another title or artist is a new song.
/// Of the same song what the report says takes the place of what was known, and what it
/// does not say stays; the hash of the cover goes with the cover.
pub proof fn law_report_of_song(current: NowPlayingInfo, report: NowPlayingInfo)
    ensures
        ({
            let untitled = report.title is None || trim(report.title->0@).len() == 0;
            let kind = report_kind(current@, report@);
            &&& untitled ==> kind == ReportKind::Ignored
            &&& !untitled && same_song(current, report) ==> kind == ReportKind::SameSong
            &&& !untitled && !same_song(current, report) ==> kind == ReportKind::NewSong
        }),
        ({
            let r = same_song_updated(current@, report@);
            &&& r.title == opt_view(current.title)
            &&& r.artist == opt_view(current.artist)
            &&& r.album_title == opt_view(current.album_title)
            &&& r.position_ms == (if report.position_ms is Some {
                report.position_ms
            } else {
                current.position_ms
            })
            &&& r.position_report_time == (if report.position_report_time is Some {
                report.position_report_time
            } else {
                current.position_report_time
            })
            &&& r.is_playing == (if report.is_playing is Some {
                report.is_playing
            } else {
                current.is_playing
            })
            &&& r.duration_ms == (if report.duration_ms is Some {
                report.duration_ms
            } else {
                current.duration_ms
            })
            &&& r.is_shuffle_active == (if report.is_shuffle_active is Some {
                report.is_shuffle_active
            } else {
                current.is_shuffle_active
            })
            &&& r.repeat_mode == (if report.repeat_mode is Some {
                report.repeat_mode
            } else {
                current.repeat_mode
            })
            &&& report.cover_data is Some ==> r.cover_data == Some(report.cover_data->0@)
                && r.cover_data_hash == report.cover_data_hash
            &&& report.cover_data is None ==> r.cover_data == current@.cover_data
                && r.cover_data_hash == current.cover_data_hash
        }),
{
}

/// When a search has ended, the providers that are still searched have found nothing,
/// and so has the local cache where it is asked for. What Musixmatch does stays.
pub proof fn law_older_search_ends(f: AutoFetchState, with_cache: bool)
    ensures
        ({
            let r = older_ended(f, with_cache);
            &&& ends_as(f.qqmusic_status, r.qqmusic_status)
            &&& ends_as(f.kugou_status, r.kugou_status)
            &&& ends_as(f.netease_status, r.netease_status)
            &&& ends_as(f.amll_db_status, r.amll_db_status)
            &&& r.musixmatch_status == f.musixmatch_status
            &&& with_cache ==> ends_as(f.local_cache_status, r.local_cache_status)
            &&& !with_cache ==> r.local_cache_status == f.local_cache_status
            &&& r == (AutoFetchState {
                local_cache_status: r.local_cache_status,
                qqmusic_status: r.qqmusic_status,
                kugou_status: r.kugou_status,
                netease_status: r.netease_status,
                amll_db_status: r.amll_db_status,
                ..f
            })
        }),
{
}

/// What is said of a link that was to be copied, and how grave it is.
pub proof fn law_clipboard_notice()
    ensures
        clipboard_text(ClipboardOutcome::Copied) == "dpaste链接已复制到剪贴板!"@,
        clipboard_kind(ClipboardOutcome::Copied) == NoticeKind::Success,
        clipboard_text(ClipboardOutcome::NotCopied)
            == "无法自动复制dpaste链接到剪贴板，请手动复制。"@,
        clipboard_kind(ClipboardOutcome::NotCopied) == NoticeKind::Warning,
        clipboard_text(ClipboardOutcome::NoClipboard)
            == "无法访问系统剪贴板，请手动从通知中复制dpaste链接。"@,
        clipboard_kind(ClipboardOutcome::NoClipboard) == NoticeKind::Error,
{
}

/// What is said of a link that was copied or not.
pub open spec fn said_of_link(copied: bool) -> Seq<char> {
    if copied {
        "dpaste链接已复制!"@
    } else {
        "请手动复制dpaste链接。"@
    }
}

/// What is said of a page that was opened or not.
pub open spec fn said_of_page(opened: bool) -> Seq<char> {
    if opened {
        "\nGitHub Issue页面已打开。"@
    } else {
        "\n但打开Issue页面失败。"@
    }
}

/// The notice of an upload says first whether the link was copied, then whether the page
/// was opened, and last the link.
pub proof fn law_issue_notice(copied: bool, opened: bool, url: Seq<char>)
    ensures
        exists|body: Seq<char>|
            issue_text(copied, opened, url) == said_of_link(copied) + #[trigger] (said_of_page(
                opened,
            ) + body) + "\n\ndpaste链接: "@ + url,
{
    let long = if opened {
        "\nGitHub Issue页面已打开。\n\n后续操作指引：\n1. (如果自动复制失败) 从本条通知或日志中复制 dpaste 链接。\n2. 返回已打开的GitHub Issue页面，将链接粘贴到“TTML歌词文件下载直链”。\n3. 填写其他部分（如果需要）并提交。"@
    } else {
        "\n但打开Issue页面失败。\n\n请手动：\n1. (如果上面复制失败) 从本条通知或日志中复制 dpaste 链接。\n2. 访问 https://github.com/Steve-xmh/amll-ttml-db/issues/new。\n3. 粘贴链接并填写表单提交。"@
    };
    let head = said_of_page(opened);
    reveal_strlit("\nGitHub Issue页面已打开。");
    reveal_strlit("\n但打开Issue页面失败。");
    reveal_strlit(
        "\nGitHub Issue页面已打开。\n\n后续操作指引：\n1. (如果自动复制失败) 从本条通知或日志中复制 dpaste 链接。\n2. 返回已打开的GitHub Issue页面，将链接粘贴到“TTML歌词文件下载直链”。\n3. 填写其他部分（如果需要）并提交。",
    );
    reveal_strlit(
        "\n但打开Issue页面失败。\n\n请手动：\n1. (如果上面复制失败) 从本条通知或日志中复制 dpaste 链接。\n2. 访问 https://github.com/Steve-xmh/amll-ttml-db/issues/new。\n3. 粘贴链接并填写表单提交。",
    );
    assert(long.take(head.len() as int) =~= head);
    let body = long.skip(head.len() as int);
    assert(long =~= head + body);
}

/// Each marker is shown with the number of its line and its text, one on each line.
pub proof fn law_marker_texts(v: Seq<(nat, Seq<char>)>, i: int)
    requires
        0 <= i < v.len(),
    ensures
        marker_texts(v).len() == v.len(),
        marker_texts(v)[i] == "ASS 行 "@ + dec(v[i].0) + ": "@ + v[i].1,
{
}

/// At the start there are no lyrics, LRC is read and TTML is written, and nothing is
/// being done.
pub proof fn law_no_lyrics(s: LyricState)
    requires
        s@ == no_lyrics(),
    ensures
        s.input_text@.len() == 0,
        s.output_text@.len() == 0,
        s.display_translation_lrc_output@.len() == 0,
        s.display_romanization_lrc_output@.len() == 0,
        !s.has_parsed_data,
        s.loaded_translation_lrc is None,
        s.loaded_romanization_lrc is None,
        s.editable_metadata@.len() == 0,
        !s.metadata_is_user_edited,
        !s.metadata_source_is_download,
        s.current_markers@.len() == 0,
        s.source_format == LyricFormat::Lrc,
        s.target_format == LyricFormat::Ttml,
        !s.conversion_in_progress,
        !s.search_in_progress,
        s.search_query@.len() == 0,
        s.search_results@.len() == 0,
        !s.download_in_progress,
{
    assert(s@.metadata.len() == s.editable_metadata@.len());
    assert(s@.markers.len() == s.current_markers@.len());
    assert(s@.results.len() == s.search_results@.len());
}

/// The log after a number of entries is the last two hundred of what it held and of them,
/// in order.
pub proof fn law_log_in_order(buffer: Seq<LogEntry>, entries: Seq<LogEntry>, n: nat)
    requires
        buffer.len() <= 200,
        n <= entries.len(),
    ensures
        ({
            let all = buffer + entries.take(n as int);
            with_log_entries(buffer, entries, n) == if all.len() <= 200 {
                all
            } else {
                all.skip(all.len() - 200)
            }
        }),
    decreases n,
{
    let all = buffer + entries.take(n as int);
    if n == 0 {
        assert(all =~= buffer);
    } else {
        law_log_in_order(buffer, entries, (n - 1) as nat);
        let was = buffer + entries.take(n - 1);
        let e = entries[n - 1];
        assert(all =~= was.push(e));
        let kept = with_log_entries(buffer, entries, (n - 1) as nat);
        let now = with_log_entries(buffer, entries, n);
        assert(now == with_log_entry(kept, e));
        if was.len() < 200 {
            assert(now =~= all);
        } else {
            assert(kept =~= was.skip(was.len() - 200));
            assert(now =~= all.skip(all.len() - 200));
        }
    }
}

} // verus!
