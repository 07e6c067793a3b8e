//! What each thing that the user asks of the lyrics does.

use vstd::prelude::*;

use crate::amll_lyrics_fetcher::types::metadata_views;
use crate::app_actions::{LrcContentType, LyricsAction, PanelType, UIAction};
use crate::app_definition::{
    found_views, opt_lrc_views, ConversionInput, ConversionOutput, EntryView, FetchedLyrics,
    InputView, LrcLine, LyricState, LyricsView, SearchResult, UiState,
};
use crate::app_handlers::{
    after_lyrics_action, after_ui_action, cleared, input_of, overrides_of, pinned_entries, synced,
    EffectView, LyricsEnvironment, ResultView,
};
use crate::app_settings::list_of;
use crate::formats::LyricFormat;
use crate::settings_reading_laws::{law_list, lemma_with_values};
use crate::text::{
    dec, is_blank, is_ws, join, lemma_trim_end, lemma_trim_start, trim, trim_end, trim_start,
};
use crate::types::opt_view;

verus! {

// ---------------------------------------------------------------------------
// Conversions
// ---------------------------------------------------------------------------

/// Whether a conversion is asked for what the user sees: the text, both formats, and
/// the translation and the romanization where they are not blank, with the metadata
/// where the user has edited them, and this configuration for Chinese.
pub open spec fn asks_for(i: InputView, s: LyricsView, chinese: Option<Seq<char>>) -> bool {
    &&& i.main_text == s.input
    &&& i.source_format == s.source
    &&& i.target_format == s.target
    &&& trim(s.translation).len() > 0 ==> i.translation == Some(s.translation)
    &&& trim(s.translation).len() == 0 ==> i.translation is None
    &&& trim(s.romanization).len() > 0 ==> i.romanization == Some(s.romanization)
    &&& trim(s.romanization).len() == 0 ==> i.romanization is None
    &&& !s.user_edited ==> i.overrides is None
    &&& i.overrides is Some ==> i.overrides->0.len() > 0 && i.overrides == Some(
        overrides_of(s.metadata, s.metadata.len()),
    )
    &&& s.user_edited && i.overrides is None ==> overrides_of(s.metadata, s.metadata.len()).len()
        == 0
    &&& i.chinese_config == chinese
}

/// Whether a conversion of `s` follows, as the last effect, where none is running and
/// the helper is there; `n` effects come before it.
pub open spec fn converts(
    s: LyricsView,
    helper: bool,
    t: LyricsView,
    effects: Seq<EffectView>,
    n: int,
) -> bool {
    &&& t == (LyricsView { converting: s.converting || helper, ..s })
    &&& s.converting || !helper ==> effects.len() == n
    &&& !s.converting && helper ==> {
        &&& effects.len() == n + 1
        &&& effects[n] is Convert
        &&& asks_for(effects[n]->Convert_0, s, None)
    }
}

/// The input of a conversion has the main text as its main text, the translation as
/// its translation and the romanization as its romanization.
pub proof fn law_conversion_input(s: LyricState, i: ConversionInput, chinese: Option<String>)
    requires
        i@ == input_of(s@, opt_view(chinese)),
    ensures
        i.main_text@ == s.input_text@,
        i.source_format == s.source_format,
        i.target_format == s.target_format,
        ({
            let t = s.display_translation_lrc_output@;
            &&& trim(t).len() > 0 ==> i.translation is Some && i.translation->0@ == t
            &&& trim(t).len() == 0 ==> i.translation is None
        }),
        ({
            let t = s.display_romanization_lrc_output@;
            &&& trim(t).len() > 0 ==> i.romanization is Some && i.romanization->0@ == t
            &&& trim(t).len() == 0 ==> i.romanization is None
        }),
        !s.metadata_is_user_edited ==> i.metadata_overrides is None,
        chinese is Some ==> i.chinese_config is Some && i.chinese_config->0@ == chinese->0@,
        chinese is None ==> i.chinese_config is None,
{
}

/// To convert asks for what the user sees.
pub proof fn law_convert(s: LyricsView, env: LyricsEnvironment)
    ensures
        ({
            let (t, r, effects) = after_lyrics_action(s, LyricsAction::Convert, env);
            r == ResultView::Success && converts(s, env.helper_available, t, effects, 0)
        }),
{
}

/// To convert between Chinese scripts asks for the same with the configuration, where
/// there is anything to convert and nothing is being converted.
pub proof fn law_convert_chinese(s: LyricsView, config: String, env: LyricsEnvironment)
    ensures
        ({
            let (t, r, effects) = after_lyrics_action(s, LyricsAction::ConvertChinese(config), env);
            let nothing = trim(s.input).len() == 0 && !s.parsed;
            &&& s.converting ==> t == s && effects.len() == 0 && r == ResultView::Warning(
                "转换正在进行中"@,
            )
            &&& !s.converting && nothing ==> t == s && effects.len() == 0 && r
                == ResultView::Warning("没有歌词内容可以转换"@)
            &&& !s.converting && !nothing ==> r == ResultView::Success
            &&& !s.converting && !nothing && !env.helper_available ==> t == s && effects.len() == 0
            &&& !s.converting && !nothing && env.helper_available ==> {
                &&& t == (LyricsView { converting: true, ..s })
                &&& effects.len() == 1
                &&& effects[0] is Convert
                &&& asks_for(effects[0]->Convert_0, s, Some(config@))
            }
        }),
{
}

/// A conversion that has ended gives its text as the output, and its metadata where
/// the user has not edited them. The lyrics are sent where the connector is on.
pub proof fn law_conversion_ends(
    s: LyricsView,
    o: ConversionOutput,
    e: String,
    env: LyricsEnvironment,
)
    ensures
        ({
            let (t, r, effects) = after_lyrics_action(
                s,
                LyricsAction::ConvertCompleted(Ok(o)),
                env,
            );
            &&& r == ResultView::Success
            &&& t == (LyricsView {
                output: o.output_lyrics@,
                parsed: true,
                converting: false,
                metadata: t.metadata,
                ..s
            })
            &&& s.user_edited ==> t.metadata == s.metadata
            &&& !s.user_edited ==> t.metadata == synced(
                s.metadata.filter(|x: EntryView| x.pinned),
                metadata_views(o.raw_metadata@),
                env.numbers@,
                o.raw_metadata@.len(),
            )
            &&& env.connector_enabled ==> effects == seq![EffectView::SendToPlayer]
            &&& !env.connector_enabled ==> effects.len() == 0
        }),
        ({
            let (t, r, effects) = after_lyrics_action(
                s,
                LyricsAction::ConvertCompleted(Err(e)),
                env,
            );
            &&& r == ResultView::Error("转换失败: "@ + e@)
            &&& t == (LyricsView { output: Seq::empty(), converting: false, ..s })
            &&& effects.len() == 0
        }),
{
    lemma_pinned(s.metadata, s.metadata.len());
    assert(s.metadata.take(s.metadata.len() as int) =~= s.metadata);
}

/// The pinned entries.
proof fn lemma_pinned(v: Seq<EntryView>, n: nat)
    requires
        n <= v.len(),
    ensures
        pinned_entries(v, n) == v.take(n as int).filter(|x: EntryView| x.pinned),
    decreases n,
{
    reveal(Seq::filter);
    let front = v.take(n as int);
    if n > 0 {
        lemma_pinned(v, (n - 1) as nat);
        assert(front.drop_last() =~= v.take(n - 1));
        assert(front.last() == v[n - 1]);
    }
}

/// The metadata of lyrics stand behind the pinned entries, but for those whose keys
/// are pinned: each with its key, its values with `; ` between them, as read from the
/// file and not pinned.
pub proof fn law_metadata_of_lyrics(
    pinned: Seq<EntryView>,
    raw: Seq<(Seq<char>, Seq<Seq<char>>)>,
    numbers: Seq<u64>,
    n: nat,
)
    requires
        n < raw.len(),
    ensures
        ({
            let was = synced(pinned, raw, numbers, n);
            let now = synced(pinned, raw, numbers, n + 1);
            let (key, values) = raw[n as int];
            let taken = exists|i: int| 0 <= i < pinned.len() && (#[trigger] pinned[i]).key == key;
            &&& taken ==> now == was
            &&& !taken ==> now == was.push(
                EntryView {
                    key,
                    value: join(values, "; "@),
                    pinned: false,
                    from_file: true,
                    id: "meta_entry_"@ + dec(numbers[n as int] as nat),
                },
            )
        }),
        synced(pinned, raw, numbers, 0) == pinned,
{
}

/// The metadata that the user has edited go into a conversion: each key that is not
/// blank, with the values that its text holds between semicolons, where there are any.
/// Where a key occurs more than once, the last counts.
pub proof fn law_edited_metadata(entries: Seq<EntryView>, n: nat)
    requires
        n < entries.len(),
    ensures
        ({
            let was = overrides_of(entries, n);
            let now = overrides_of(entries, n + 1);
            let e = entries[n as int];
            let values = list_of(e.value);
            let counts = trim(e.key).len() > 0 && values.len() > 0;
            &&& !counts ==> now == was
            &&& counts ==> now.contains((e.key, values)) && forall|p: (Seq<char>, Seq<Seq<char>>)|
                p.0 != e.key ==> (#[trigger] now.contains(p) <==> was.contains(p))
        }),
        overrides_of(entries, 0).len() == 0,
{
    let e = entries[n as int];
    lemma_with_values(overrides_of(entries, n), e.key, list_of(e.value));
    if is_blank(e.value) {
        lemma_blank_list(e.value);
    }
}

/// A blank text holds no values.
proof fn lemma_blank_list(s: Seq<char>)
    requires
        is_blank(s),
    ensures
        list_of(s).len() == 0,
{
    assert forall|k: int| 0 <= k < s.len() implies #[trigger] s[k] != ';' by {
        lemma_blank_char(s, k);
    }
    law_list(s, s);
}

/// A blank text holds only white space.
proof fn lemma_blank_char(s: Seq<char>, k: int)
    requires
        is_blank(s),
        0 <= k < s.len(),
    ensures
        is_ws(s[k]),
    decreases s.len(),
{
    let t = trim_start(s);
    lemma_trim_start(s);
    lemma_trim_end(t);
    if t.len() > 0 {
        lemma_trim_end_empty(t);
    }
    lemma_trim_start_empty(s, k);
}

/// A text that begins with another character than white space is not trimmed away.
proof fn lemma_trim_end_empty(t: Seq<char>)
    requires
        t.len() > 0,
        !is_ws(t[0]),
    ensures
        trim_end(t).len() > 0,
    decreases t.len(),
{
    if is_ws(t.last()) {
        assert(t.drop_last()[0] == t[0]);
        lemma_trim_end_empty(t.drop_last());
    }
}

/// A text that is trimmed away from its front is white space.
proof fn lemma_trim_start_empty(s: Seq<char>, k: int)
    requires
        trim_start(s).len() == 0,
        0 <= k < s.len(),
    ensures
        is_ws(s[k]),
    decreases s.len(),
{
    let rest = s.subrange(1, s.len() as int);
    if k > 0 {
        assert(rest[k - 1] == s[k]);
        lemma_trim_start_empty(rest, k - 1);
    }
}

// ---------------------------------------------------------------------------
// Search and download
// ---------------------------------------------------------------------------

/// A search is for the query, where none is running and the helper is there, and
/// forgets what was found before. What it finds is kept.
pub proof fn law_search_action(
    s: LyricsView,
    v: Vec<SearchResult>,
    e: String,
    env: LyricsEnvironment,
)
    ensures
        ({
            let (t, r, effects) = after_lyrics_action(s, LyricsAction::Search, env);
            &&& s.searching ==> t == s && effects.len() == 0 && r == ResultView::Warning(
                "搜索正在进行中"@,
            )
            &&& !s.searching && !env.helper_available ==> t == s && effects.len() == 0 && r
                == ResultView::Error("LyricsHelper 未初始化"@)
            &&& !s.searching && env.helper_available ==> {
                &&& r == ResultView::Success
                &&& effects == seq![EffectView::Search(s.query)]
                &&& t == (LyricsView { searching: true, results: Seq::empty(), ..s })
            }
        }),
        ({
            let (t, r, effects) = after_lyrics_action(
                s,
                LyricsAction::SearchCompleted(Ok(v)),
                env,
            );
            &&& r == ResultView::Success
            &&& effects.len() == 0
            &&& t == (LyricsView { searching: false, results: found_views(v@), ..s })
        }),
        ({
            let (t, r, effects) = after_lyrics_action(
                s,
                LyricsAction::SearchCompleted(Err(e)),
                env,
            );
            &&& r == ResultView::Error("搜索失败: "@ + e@)
            &&& effects.len() == 0
            &&& t == (LyricsView { searching: false, ..s })
        }),
{
}

/// A song that was found is downloaded by its provider and its id there, where no
/// download is running and the helper is there.
pub proof fn law_download_action(
    s: LyricsView,
    found: SearchResult,
    e: String,
    env: LyricsEnvironment,
)
    ensures
        ({
            let (t, r, effects) = after_lyrics_action(s, LyricsAction::Download(found), env);
            &&& s.downloading ==> t == s && effects.len() == 0 && r == ResultView::Warning(
                "下载正在进行中"@,
            )
            &&& !s.downloading && !env.helper_available ==> t == s && effects.len() == 0 && r
                == ResultView::Error("LyricsHelper 未初始化"@)
            &&& !s.downloading && env.helper_available ==> {
                &&& r == ResultView::Success
                &&& t == (LyricsView { downloading: true, ..s })
                &&& effects.len() == 1
                &&& effects[0] is Download
                &&& effects[0]->provider_name == found.provider_name@
                &&& effects[0]->provider_id == found.provider_id@
            }
        }),
        ({
            let (t, r, effects) = after_lyrics_action(
                s,
                LyricsAction::DownloadCompleted(Err(e)),
                env,
            );
            &&& r == ResultView::Error("下载失败: "@ + e@)
            &&& effects.len() == 0
            &&& t == (LyricsView { downloading: false, ..s })
        }),
{
}

/// What is left when all lyrics are cleared: the formats, what is being done, the
/// search, and the pinned metadata, which are then no longer from the file.
pub proof fn law_cleared(s: LyricsView, env: LyricsEnvironment)
    ensures
        ({
            let (t, r, effects) = after_lyrics_action(s, LyricsAction::ClearAllData, env);
            &&& r == ResultView::Success
            &&& effects.len() == 0
            &&& is_cleared(s, t)
            &&& t.input.len() == 0
            &&& t.source == s.source
            &&& t.from_download == s.from_download
            &&& t.downloading == s.downloading
            &&& t.converting == s.converting
        }),
{
    lemma_cleared(s);
}

/// Whether `t` is `s` without its lyrics.
pub open spec fn is_cleared(s: LyricsView, t: LyricsView) -> bool {
    &&& t.output.len() == 0
    &&& t.translation.len() == 0
    &&& t.romanization.len() == 0
    &&& !t.parsed
    &&& t.loaded_translation is None
    &&& t.loaded_romanization is None
    &&& t.markers.len() == 0
    &&& !t.user_edited
    &&& t.target == s.target
    &&& t.query == s.query
    &&& t.results == s.results
    &&& t.searching == s.searching
    &&& t.metadata == s.metadata.filter(|x: EntryView| x.pinned).map_values(
        |x: EntryView| EntryView { from_file: false, ..x },
    )
}

/// What is cleared.
proof fn lemma_cleared(s: LyricsView)
    ensures
        is_cleared(s, cleared(s)),
        cleared(s).input.len() == 0,
{
    lemma_pinned(s.metadata, s.metadata.len());
    assert(s.metadata.take(s.metadata.len() as int) =~= s.metadata);
    let p = pinned_entries(s.metadata, s.metadata.len());
    assert(cleared(s).metadata =~= p.map_values(
        |x: EntryView| EntryView { from_file: false, ..x },
    ));
}

/// Lyrics that have been downloaded, or that a search has brought, take the place of
/// all lyrics, in their own format, and are converted. The format is noted.
pub proof fn law_fetched_lyrics_are_shown(
    s: LyricsView,
    f: FetchedLyrics,
    env: LyricsEnvironment,
)
    ensures
        ({
            let (t, r, effects) = after_lyrics_action(
                s,
                LyricsAction::DownloadCompleted(Ok(f)),
                env,
            );
            &&& r == ResultView::Success
            &&& t.input == f.content@
            &&& t.source == f.source_format
            &&& t.from_download
            &&& !t.downloading
            &&& is_cleared(s, t)
            &&& effects.len() >= 2
            &&& effects[0] == EffectView::HideSearchWindow
            &&& effects[1] == EffectView::NoteFetchedFormat(f.source_format)
            &&& t.converting == (s.converting || env.helper_available)
            &&& converts(
                LyricsView { converting: s.converting, ..t },
                env.helper_available,
                t,
                effects,
                2,
            )
        }),
        ({
            let (t, r, effects) = after_lyrics_action(s, LyricsAction::LoadFetchedResult(f), env);
            &&& r == ResultView::Success
            &&& t.input == f.content@
            &&& t.source == f.source_format
            &&& t.from_download
            &&& t.downloading == s.downloading
            &&& is_cleared(s, t)
            &&& effects.len() >= 1
            &&& effects[0] == EffectView::NoteLoaded(f.source_format)
            &&& converts(
                LyricsView { converting: s.converting, ..t },
                env.helper_available,
                t,
                effects,
                1,
            )
        }),
{
    lemma_cleared(s);
    lemma_cleared(LyricsView { downloading: false, ..s });
}

// ---------------------------------------------------------------------------
// Edits
// ---------------------------------------------------------------------------

/// A format that is chosen is kept as that of the source or of the target and saved,
/// and what there is to convert is converted once it has been.
pub proof fn law_chosen_format(
    s: LyricsView,
    f: LyricFormat,
    e: String,
    env: LyricsEnvironment,
)
    ensures
        ({
            let (t, r, effects) = after_lyrics_action(s, LyricsAction::SourceFormatChanged(f), env);
            &&& r == ResultView::Success
            &&& t == (LyricsView { source: f, ..s })
            &&& effects == seq![EffectView::SaveFormats]
        }),
        ({
            let (t, r, effects) = after_lyrics_action(s, LyricsAction::TargetFormatChanged(f), env);
            &&& r == ResultView::Success
            &&& t == (LyricsView { target: f, ..s })
            &&& effects == seq![EffectView::SaveFormats]
        }),
        ({
            let (t, r, effects) = after_lyrics_action(
                s,
                LyricsAction::SourceFormatSaved(Some(e)),
                env,
            );
            &&& r == ResultView::Warning("保存源格式设置失败: "@ + e@)
            &&& t == s
            &&& effects.len() == 0
        }),
        ({
            let (t, r, effects) = after_lyrics_action(
                s,
                LyricsAction::TargetFormatSaved(Some(e)),
                env,
            );
            &&& r == ResultView::Warning("保存目标格式设置失败: "@ + e@)
            &&& t == s
            &&& effects.len() == 0
        }),
{
}

/// Where there is a text, it is converted when a format has been saved and when the
/// text has been edited. A blank text is not.
pub proof fn law_text_is_converted(s: LyricsView, action: LyricsAction, env: LyricsEnvironment)
    requires
        action is MainInputChanged || action == LyricsAction::SourceFormatSaved(None) || action
            == LyricsAction::TargetFormatSaved(None),
    ensures
        ({
            let (t, r, effects) = after_lyrics_action(s, action, env);
            &&& r == ResultView::Success
            &&& trim(s.input).len() == 0 ==> t == s && effects.len() == 0
            &&& trim(s.input).len() > 0 ==> converts(s, env.helper_available, t, effects, 0)
        }),
{
}

/// Metadata that the user adds, deletes, renames, changes or pins: only the entry at
/// that place changes, the metadata count as edited, and the lyrics are converted. A
/// place that is not there is an error.
pub proof fn law_metadata_edits(
    s: LyricsView,
    i: usize,
    text: String,
    env: LyricsEnvironment,
)
    ensures
        ({
            let (t, r, effects) = after_lyrics_action(s, LyricsAction::DeleteMetadata(i), env);
            is_edit(s, env, i, t, r, effects, s.metadata.remove(i as int))
        }),
        ({
            let (t, r, effects) = after_lyrics_action(
                s,
                LyricsAction::UpdateMetadataKey(i, text),
                env,
            );
            let e = s.metadata[i as int];
            is_edit(
                s,
                env,
                i,
                t,
                r,
                effects,
                s.metadata.update(i as int, EntryView { key: text@, from_file: false, ..e }),
            )
        }),
        ({
            let (t, r, effects) = after_lyrics_action(
                s,
                LyricsAction::UpdateMetadataValue(i, text),
                env,
            );
            let e = s.metadata[i as int];
            is_edit(
                s,
                env,
                i,
                t,
                r,
                effects,
                s.metadata.update(i as int, EntryView { value: text@, from_file: false, ..e }),
            )
        }),
        ({
            let (t, r, effects) = after_lyrics_action(
                s,
                LyricsAction::ToggleMetadataPinned(i),
                env,
            );
            let e = s.metadata[i as int];
            is_edit(
                s,
                env,
                i,
                t,
                r,
                effects,
                s.metadata.update(i as int, EntryView { pinned: !e.pinned, ..e }),
            )
        }),
        ({
            let (t, r, effects) = after_lyrics_action(s, LyricsAction::MetadataChanged, env);
            &&& r == ResultView::Success
            &&& effects.len() == 0
            &&& t == (LyricsView { user_edited: true, ..s })
        }),
{
}

/// Whether metadata have been edited at place `i`.
pub open spec fn is_edit(
    s: LyricsView,
    env: LyricsEnvironment,
    i: usize,
    t: LyricsView,
    r: ResultView,
    effects: Seq<EffectView>,
    metadata: Seq<EntryView>,
) -> bool {
    &&& i >= s.metadata.len() ==> t == s && effects.len() == 0 && r == ResultView::Error(
        "无效的元数据索引"@,
    )
    &&& i < s.metadata.len() ==> r == ResultView::Success && converts(
        LyricsView { metadata, user_edited: true, ..s },
        env.helper_available,
        t,
        effects,
        0,
    )
}

/// A new entry stands at the end, without a value, neither pinned nor from the file,
/// and leaves the others as they are.
pub proof fn law_new_entry(s: LyricsView, env: LyricsEnvironment)
    ensures
        ({
            let (t, r, effects) = after_lyrics_action(s, LyricsAction::AddMetadata, env);
            let n = s.metadata.len() + env.random;
            &&& r == ResultView::Success
            &&& t.metadata.len() == s.metadata.len() + 1
            &&& t.metadata.drop_last() == s.metadata
            &&& t.metadata.last().key == "新键_"@ + dec((n % 100) as nat)
            &&& t.metadata.last().id == "new_editable_meta_entry_"@ + dec(n as nat)
            &&& t.metadata.last().value.len() == 0
            &&& !t.metadata.last().pinned
            &&& !t.metadata.last().from_file
            &&& converts(
                LyricsView { metadata: t.metadata, user_edited: true, ..s },
                env.helper_available,
                t,
                effects,
                0,
            )
        }),
{
    let t = after_lyrics_action(s, LyricsAction::AddMetadata, env).0;
    assert(t.metadata.drop_last() =~= s.metadata);
}

/// The lines of an LRC text that has been edited are those of the translation or those
/// of the romanization, and the lyrics are converted.
pub proof fn law_lrc_is_edited(
    s: LyricsView,
    lines: Option<Vec<LrcLine>>,
    env: LyricsEnvironment,
)
    ensures
        ({
            let (t, r, effects) = after_lyrics_action(
                s,
                LyricsAction::LrcInputChanged(lines, LrcContentType::Translation),
                env,
            );
            &&& r == ResultView::Success
            &&& converts(
                LyricsView { loaded_translation: opt_lrc_views(lines), ..s },
                env.helper_available,
                t,
                effects,
                0,
            )
        }),
        ({
            let (t, r, effects) = after_lyrics_action(
                s,
                LyricsAction::LrcInputChanged(lines, LrcContentType::Romanization),
                env,
            );
            &&& r == ResultView::Success
            &&& converts(
                LyricsView { loaded_romanization: opt_lrc_views(lines), ..s },
                env.helper_available,
                t,
                effects,
                0,
            )
        }),
{
}

// ---------------------------------------------------------------------------
// Panels
// ---------------------------------------------------------------------------

/// Each panel is shown and hidden by its own name, and no other changes with it. Only
/// with the log it is noted that it has been seen, when it is shown or hidden by the
/// user.
pub proof fn law_panels(ui: UiState, visible: bool)
    ensures
        after_ui_action(ui, UIAction::SetPanelVisibility(PanelType::Settings, visible)) == (
        UiState { show_settings_window: visible, ..ui }),
        after_ui_action(ui, UIAction::SetPanelVisibility(PanelType::Metadata, visible)) == (
        UiState { show_metadata_panel: visible, ..ui }),
        after_ui_action(ui, UIAction::SetPanelVisibility(PanelType::Search, visible)) == (UiState {
            show_search_window: visible,
            ..ui
        }),
        after_ui_action(ui, UIAction::SetPanelVisibility(PanelType::Markers, visible)) == (
        UiState { show_markers_panel: visible, ..ui }),
        after_ui_action(ui, UIAction::SetPanelVisibility(PanelType::Translation, visible)) == (
        UiState { show_translation_lrc_panel: visible, ..ui }),
        after_ui_action(ui, UIAction::SetPanelVisibility(PanelType::Romanization, visible)) == (
        UiState { show_romanization_lrc_panel: visible, ..ui }),
        after_ui_action(ui, UIAction::SetPanelVisibility(PanelType::AmllConnector, visible)) == (
        UiState { show_amll_connector_sidebar: visible, ..ui }),
        after_ui_action(ui, UIAction::SetPanelVisibility(PanelType::Log, visible)) == (UiState {
            show_bottom_log_panel: visible,
            new_trigger_log_exists: ui.new_trigger_log_exists && !visible,
            ..ui
        }),
        after_ui_action(ui, UIAction::ShowPanel(PanelType::Log)) == (UiState {
            show_bottom_log_panel: true,
            ..ui
        }),
        after_ui_action(ui, UIAction::HidePanel(PanelType::Log)) == (UiState {
            show_bottom_log_panel: false,
            new_trigger_log_exists: false,
            ..ui
        }),
        after_ui_action(ui, UIAction::SetWrapText(visible)) == (UiState {
            wrap_text: visible,
            ..ui
        }),
        after_ui_action(ui, UIAction::ClearLogs) == ui,
        forall|p: PanelType|
            !(p is Log) ==> #[trigger] after_ui_action(ui, UIAction::ShowPanel(p))
                == after_ui_action(ui, UIAction::SetPanelVisibility(p, true)),
        forall|p: PanelType|
            !(p is Log) ==> #[trigger] after_ui_action(ui, UIAction::HidePanel(p))
                == after_ui_action(ui, UIAction::SetPanelVisibility(p, false)),
{
}

} // verus!
