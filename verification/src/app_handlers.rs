//! Handles what the user asks: conversions, searches, metadata, panels and
//! settings.

use vstd::prelude::*;

use crate::amll_connector::types::{AMLLConnectorConfig, ActorSettings};
use crate::amll_lyrics_fetcher::types::metadata_views;
use crate::app_actions::{LrcContentType, LyricsAction, PanelType, UIAction};
use crate::app_definition::{
    entries_view, found_views, opt_lrc_views, ConversionInput, ConversionOutput,
    EditableMetadataEntry, EntryView, FetchedLyrics, FoundView, InputView, LrcLine, LyricState,
    LyricsView, SearchResult, UiState,
};
use crate::app_settings::{filled_parts, split_list, with_values, AppSettings};
use crate::formats::LyricFormat;
use crate::text::{
    dec, is_blank, join, join_strings, push_dec, split_any, str_is_blank, views,
};
use crate::types::opt_view;

verus! {

/// What became of an action.
#[derive(Debug, Clone, PartialEq)]
pub enum ActionResult {
    Success,
    Warning(String),
    Error(String),
}

/// An `ActionResult` over mathematical values.
pub enum ResultView {
    Success,
    Warning(Seq<char>),
    Error(Seq<char>),
}

impl View for ActionResult {
    type V = ResultView;

    open spec fn view(&self) -> ResultView {
        match self {
            ActionResult::Success => ResultView::Success,
            ActionResult::Warning(s) => ResultView::Warning(s@),
            ActionResult::Error(s) => ResultView::Error(s@),
        }
    }
}

/// What the application does next about the lyrics.
#[derive(Debug, Clone, PartialEq)]
pub enum LyricsEffect {
    /// Start a conversion.
    Convert(ConversionInput),
    /// Save the chosen formats.
    SaveFormats,
    /// Search for a song with this title.
    Search(String),
    /// Fetch the lyrics of this song from this provider.
    Download { provider_name: String, provider_id: String },
    /// Send the lyrics to the player.
    SendToPlayer,
    /// Close the search window.
    HideSearchWindow,
    /// Note the format of the lyrics that were fetched.
    NoteFetchedFormat(LyricFormat),
    /// Note that lyrics in this format have been loaded for the song.
    NoteLoaded(LyricFormat),
}

/// A `LyricsEffect` over mathematical values.
pub enum EffectView {
    Convert(InputView),
    SaveFormats,
    Search(Seq<char>),
    Download { provider_name: Seq<char>, provider_id: Seq<char> },
    SendToPlayer,
    HideSearchWindow,
    NoteFetchedFormat(LyricFormat),
    NoteLoaded(LyricFormat),
}

impl View for LyricsEffect {
    type V = EffectView;

    open spec fn view(&self) -> EffectView {
        match self {
            LyricsEffect::Convert(i) => EffectView::Convert(i@),
            LyricsEffect::SaveFormats => EffectView::SaveFormats,
            LyricsEffect::Search(q) => EffectView::Search(q@),
            LyricsEffect::Download { provider_name, provider_id } => {
                EffectView::Download { provider_name: provider_name@, provider_id: provider_id@ }
            },
            LyricsEffect::SendToPlayer => EffectView::SendToPlayer,
            LyricsEffect::HideSearchWindow => EffectView::HideSearchWindow,
            LyricsEffect::NoteFetchedFormat(f) => EffectView::NoteFetchedFormat(*f),
            LyricsEffect::NoteLoaded(f) => EffectView::NoteLoaded(*f),
        }
    }
}

/// The views of a list of effects.
pub open spec fn effect_views(v: Seq<LyricsEffect>) -> Seq<EffectView> {
    Seq::new(v.len(), |i: int| v[i]@)
}

// ---------------------------------------------------------------------------
// Conversions
// ---------------------------------------------------------------------------

/// The values of a metadata entry: those between its semicolons.
pub open spec fn entry_values(e: EntryView) -> Seq<Seq<char>> {
    filled_parts(split_any(e.value, seq![';']))
}

/// The metadata in the first `n` entries that a conversion takes over. Entries
/// without a key or a value are left out, and of entries with one key the last
/// counts.
pub open spec fn overrides_of(entries: Seq<EntryView>, n: nat) -> Seq<(Seq<char>, Seq<Seq<char>>)>
    decreases n,
{
    if n == 0 {
        Seq::empty()
    } else {
        let before = overrides_of(entries, (n - 1) as nat);
        let e = entries[n - 1];
        if is_blank(e.key) || is_blank(e.value) || entry_values(e).len() == 0 {
            before
        } else {
            with_values(before, e.key, entry_values(e))
        }
    }
}

/// A text, unless it is blank.
pub open spec fn unless_blank(s: Seq<char>) -> Option<Seq<char>> {
    if is_blank(s) {
        None
    } else {
        Some(s)
    }
}

/// What a conversion of the lyrics starts from. Metadata is taken over only where
/// the user has edited it.
pub open spec fn input_of(s: LyricsView, chinese_config: Option<Seq<char>>) -> InputView {
    let overrides = overrides_of(s.metadata, s.metadata.len());
    InputView {
        main_text: s.input,
        source_format: s.source,
        target_format: s.target,
        translation: unless_blank(s.translation),
        romanization: unless_blank(s.romanization),
        overrides: if s.user_edited && overrides.len() > 0 {
            Some(overrides)
        } else {
            None
        },
        chinese_config,
    }
}

/// The lyrics after a conversion was asked for.
pub open spec fn after_trigger(s: LyricsView, helper: bool) -> LyricsView {
    LyricsView { converting: s.converting || helper, ..s }
}

/// What is done when a conversion is asked for: it is started, unless one is
/// under way or there is nothing to do it with.
pub open spec fn trigger_effects(s: LyricsView, helper: bool) -> Seq<EffectView> {
    if s.converting || !helper {
        Seq::empty()
    } else {
        seq![EffectView::Convert(input_of(s, None))]
    }
}

/// A text, unless it is blank.
fn copy_unless_blank(s: &String) -> (r: Option<String>)
    ensures
        opt_view(r) == unless_blank(s@),
{
    if str_is_blank(s.as_str()) {
        None
    } else {
        Some(s.clone())
    }
}

/// The values of a metadata entry.
fn values_of_entry(e: &EditableMetadataEntry) -> (r: Vec<String>)
    ensures
        views(r@) == entry_values(e@),
{
    let semicolon: [char; 1] = [';'];
    proof {
        assert(semicolon@ =~= seq![';']);
    }
    split_list(e.value.as_str(), &semicolon)
}

impl LyricState {
    /// The metadata that a conversion takes over.
    fn overrides(&self) -> (r: Vec<(String, Vec<String>)>)
        ensures
            metadata_views(r@) == overrides_of(self@.metadata, self@.metadata.len()),
    {
        let ghost all = self@.metadata;
        let mut out: Vec<(String, Vec<String>)> = Vec::new();
        proof {
            assert(metadata_views(out@) =~= overrides_of(all, 0));
        }
        let mut i: usize = 0;
        while i < self.editable_metadata.len()
            invariant
                i <= self.editable_metadata.len(),
                all == self@.metadata,
                metadata_views(out@) == overrides_of(all, i as nat),
            decreases self.editable_metadata.len() - i,
        {
            let e = &self.editable_metadata[i];
            proof {
                assert(all[i as int] == e@);
            }
            if !str_is_blank(e.key.as_str()) && !str_is_blank(e.value.as_str()) {
                let values = values_of_entry(e);
                proof {
                    assert(views(values@).len() == values@.len());
                }
                if values.len() > 0 {
                    crate::app_settings::set_values(&mut out, e.key.clone(), values);
                }
            }
            i += 1;
        }
        out
    }

    /// What a conversion of the lyrics starts from.
    pub fn conversion_input(&self, chinese_config: Option<String>) -> (r: ConversionInput)
        ensures
            r@ == input_of(self@, opt_view(chinese_config)),
    {
        let mut metadata_overrides: Option<Vec<(String, Vec<String>)>> = None;
        if self.metadata_is_user_edited {
            let list = self.overrides();
            proof {
                assert(metadata_views(list@).len() == list@.len());
            }
            if list.len() > 0 {
                metadata_overrides = Some(list);
            }
        }
        ConversionInput {
            main_text: self.input_text.clone(),
            source_format: self.source_format,
            target_format: self.target_format,
            translation: copy_unless_blank(&self.display_translation_lrc_output),
            romanization: copy_unless_blank(&self.display_romanization_lrc_output),
            metadata_overrides,
            chinese_config,
        }
    }

    /// Asks for a conversion. `helper_available` says whether there is something
    /// to do it with.
    pub fn trigger_convert(&mut self, helper_available: bool, effects: &mut Vec<LyricsEffect>)
        ensures
            final(self)@ == after_trigger(old(self)@, helper_available),
            effect_views(final(effects)@) == effect_views(old(effects)@) + trigger_effects(
                old(self)@,
                helper_available,
            ),
    {
        if !self.conversion_in_progress && helper_available {
            let input = self.conversion_input(None);
            effects.push(LyricsEffect::Convert(input));
            self.conversion_in_progress = true;
        }
        proof {
            assert(effect_views(effects@) =~= effect_views(old(effects)@) + trigger_effects(
                old(self)@,
                helper_available,
            ));
        }
    }
}

// ---------------------------------------------------------------------------
// Metadata
// ---------------------------------------------------------------------------

/// The pinned ones of the first `n` entries.
pub open spec fn pinned_entries(entries: Seq<EntryView>, n: nat) -> Seq<EntryView>
    decreases n,
{
    if n == 0 {
        Seq::empty()
    } else {
        let before = pinned_entries(entries, (n - 1) as nat);
        if entries[n - 1].pinned {
            before.push(entries[n - 1])
        } else {
            before
        }
    }
}

/// Entries as ones that do not come from a file.
pub open spec fn not_from_file(entries: Seq<EntryView>) -> Seq<EntryView> {
    Seq::new(entries.len(), |i: int| EntryView { from_file: false, ..entries[i] })
}

/// The lyrics without the song: its texts, its markers and what was read of it
/// are gone, and of its metadata the pinned entries stay.
pub open spec fn cleared(s: LyricsView) -> LyricsView {
    LyricsView {
        input: Seq::empty(),
        output: Seq::empty(),
        translation: Seq::empty(),
        romanization: Seq::empty(),
        parsed: false,
        loaded_translation: None,
        loaded_romanization: None,
        markers: Seq::empty(),
        user_edited: false,
        metadata: not_from_file(pinned_entries(s.metadata, s.metadata.len())),
        ..s
    }
}

/// Whether one of the entries has this key.
pub open spec fn has_key(entries: Seq<EntryView>, key: Seq<char>) -> bool {
    exists|i: int| 0 <= i < entries.len() && (#[trigger] entries[i]).key == key
}

/// The entry for metadata that was read, with the number by which its widgets
/// are told apart.
pub open spec fn read_entry(item: (Seq<char>, Seq<Seq<char>>), number: u64) -> EntryView {
    EntryView {
        key: item.0,
        value: join(item.1, "; "@),
        pinned: false,
        from_file: true,
        id: "meta_entry_"@ + dec(number as nat),
    }
}

/// The pinned entries with entries for the first `n` pieces of metadata that was
/// read, where no pinned entry has the key.
pub open spec fn synced(
    pinned: Seq<EntryView>,
    raw: Seq<(Seq<char>, Seq<Seq<char>>)>,
    numbers: Seq<u64>,
    n: nat,
) -> Seq<EntryView>
    decreases n,
{
    if n == 0 {
        pinned
    } else {
        let before = synced(pinned, raw, numbers, (n - 1) as nat);
        if has_key(pinned, raw[n - 1].0) {
            before
        } else {
            before.push(read_entry(raw[n - 1], numbers[n - 1]))
        }
    }
}

/// A copy of an entry.
fn copy_entry(e: &EditableMetadataEntry) -> (r: EditableMetadataEntry)
    ensures
        r@ == e@,
{
    EditableMetadataEntry {
        key: e.key.clone(),
        value: e.value.clone(),
        is_pinned: e.is_pinned,
        is_from_file: e.is_from_file,
        id: e.id.clone(),
    }
}

/// The pinned entries.
fn take_pinned(entries: &Vec<EditableMetadataEntry>) -> (r: Vec<EditableMetadataEntry>)
    ensures
        entries_view(r@) == pinned_entries(entries_view(entries@), entries@.len()),
{
    let ghost all = entries_view(entries@);
    let mut out: Vec<EditableMetadataEntry> = Vec::new();
    proof {
        assert(entries_view(out@) =~= pinned_entries(all, 0));
    }
    let mut i: usize = 0;
    while i < entries.len()
        invariant
            i <= entries.len(),
            all == entries_view(entries@),
            entries_view(out@) == pinned_entries(all, i as nat),
        decreases entries.len() - i,
    {
        let ghost before = out@;
        proof {
            assert(all[i as int] == entries@[i as int]@);
        }
        if entries[i].is_pinned {
            out.push(copy_entry(&entries[i]));
            proof {
                assert(entries_view(out@) =~= entries_view(before).push(all[i as int]));
            }
        }
        i += 1;
    }
    out
}

/// Whether one of the first `n` entries has this key.
fn first_have_key(entries: &Vec<EditableMetadataEntry>, n: usize, key: &String) -> (r: bool)
    requires
        n <= entries@.len(),
    ensures
        r == has_key(entries_view(entries@).subrange(0, n as int), key@),
{
    let ghost all = entries_view(entries@).subrange(0, n as int);
    let mut i: usize = 0;
    while i < n
        invariant
            i <= n,
            n <= entries@.len(),
            all == entries_view(entries@).subrange(0, n as int),
            forall|k: int| 0 <= k < i ==> (#[trigger] all[k]).key != key@,
        decreases n - i,
    {
        proof {
            assert(all[i as int] == entries@[i as int]@);
        }
        if entries[i].key == *key {
            return true;
        }
        i += 1;
    }
    false
}

impl LyricState {
    /// Takes the song away and keeps the pinned metadata.
    pub fn clear_lyrics_state_for_new_song(&mut self)
        ensures
            final(self)@ == cleared(old(self)@),
    {
        let ghost before = self@;
        self.input_text = String::new();
        self.output_text = String::new();
        self.display_translation_lrc_output = String::new();
        self.display_romanization_lrc_output = String::new();
        self.has_parsed_data = false;
        self.loaded_translation_lrc = None;
        self.loaded_romanization_lrc = None;
        self.current_markers = Vec::new();
        self.metadata_is_user_edited = false;
        let mut kept = take_pinned(&self.editable_metadata);
        let ghost pinned = entries_view(kept@);
        let mut i: usize = 0;
        while i < kept.len()
            invariant
                i <= kept.len(),
                kept@.len() == pinned.len(),
                forall|k: int|
                    0 <= k < i ==> (#[trigger] kept@[k])@ == (EntryView {
                        from_file: false,
                        ..pinned[k]
                    }),
                forall|k: int| i <= k < kept@.len() ==> (#[trigger] kept@[k])@ == pinned[k],
            decreases kept.len() - i,
        {
            kept[i].is_from_file = false;
            i += 1;
        }
        proof {
            assert(entries_view(kept@) =~= not_from_file(pinned));
        }
        self.editable_metadata = kept;
        proof {
            assert(self@.markers =~= Seq::<(nat, Seq<char>)>::empty());
        }
    }

    /// Takes over metadata that was read: the pinned entries stay, and what was
    /// read comes behind them, unless a pinned entry has the same key. `numbers`
    /// tell the widgets of the new entries apart.
    pub fn sync_ui_from_parsed_data(&mut self, raw: &Vec<(String, Vec<String>)>, numbers: &Vec<u64>)
        requires
            numbers@.len() >= raw@.len(),
        ensures
            final(self)@ == (LyricsView {
                metadata: synced(
                    pinned_entries(old(self)@.metadata, old(self)@.metadata.len()),
                    metadata_views(raw@),
                    numbers@,
                    raw@.len(),
                ),
                ..old(self)@
            }),
    {
        let mut list = take_pinned(&self.editable_metadata);
        let n = list.len();
        let ghost pinned = entries_view(list@);
        let ghost items = metadata_views(raw@);
        let mut i: usize = 0;
        while i < raw.len()
            invariant
                i <= raw.len(),
                numbers@.len() >= raw@.len(),
                n <= list@.len(),
                pinned.len() == n,
                items == metadata_views(raw@),
                entries_view(list@).subrange(0, n as int) == pinned,
                entries_view(list@) == synced(pinned, items, numbers@, i as nat),
            decreases raw.len() - i,
        {
            let item = &raw[i];
            let ghost before = list@;
            proof {
                assert(items[i as int] == (item.0@, views(item.1@)));
            }
            if !first_have_key(&list, n, &item.0) {
                let mut id = "meta_entry_".to_owned();
                push_dec(&mut id, numbers[i]);
                list.push(
                    EditableMetadataEntry {
                        key: item.0.clone(),
                        value: join_strings(item.1.as_slice(), "; "),
                        is_pinned: false,
                        is_from_file: true,
                        id,
                    },
                );
                proof {
                    let e = read_entry(items[i as int], numbers@[i as int]);
                    assert(entries_view(list@) =~= entries_view(before).push(e));
                    assert(entries_view(list@).subrange(0, n as int) =~= pinned);
                }
            }
            i += 1;
        }
        self.editable_metadata = list;
    }
}

// ---------------------------------------------------------------------------
// Lyrics actions
// ---------------------------------------------------------------------------

/// What handling an action depends on besides the lyrics.
#[derive(Debug, Clone)]
pub struct LyricsEnvironment {
    /// Whether there is something to convert, search and fetch with.
    pub helper_available: bool,
    pub connector_enabled: bool,
    /// A random number.
    pub random: u32,
    /// Random numbers for the entries of metadata that is read.
    pub numbers: Vec<u64>,
}

/// The number of a new metadata entry.
pub open spec fn new_entry_number(s: LyricsView, random: u32) -> nat {
    s.metadata.len() + random as nat
}

/// The lyrics with a new metadata entry.
pub open spec fn with_new_entry(s: LyricsView, random: u32) -> LyricsView {
    let n = new_entry_number(s, random);
    LyricsView {
        metadata: s.metadata.push(
            EntryView {
                key: "新键_"@ + dec(n % 100),
                value: Seq::empty(),
                pinned: false,
                from_file: false,
                id: "new_editable_meta_entry_"@ + dec(n),
            },
        ),
        user_edited: true,
        ..s
    }
}

/// The lyrics with a metadata entry replaced by the user.
pub open spec fn with_entry(s: LyricsView, index: int, e: EntryView) -> LyricsView {
    LyricsView { metadata: s.metadata.update(index, e), user_edited: true, ..s }
}

/// The lyrics when fetched lyrics have been loaded.
pub open spec fn with_fetched(s: LyricsView, f: FetchedLyrics) -> LyricsView {
    LyricsView {
        input: f.content@,
        source: f.source_format,
        from_download: true,
        ..cleared(s)
    }
}

/// The lyrics when a conversion has succeeded.
pub open spec fn with_output(s: LyricsView, o: ConversionOutput, numbers: Seq<u64>) -> LyricsView {
    let t = LyricsView { converting: false, output: o.output_lyrics@, parsed: true, ..s };
    if s.user_edited {
        t
    } else {
        LyricsView {
            metadata: synced(
                pinned_entries(s.metadata, s.metadata.len()),
                metadata_views(o.raw_metadata@),
                numbers,
                o.raw_metadata@.len(),
            ),
            ..t
        }
    }
}

/// What an action leads to: the lyrics after it, what became of it, and what is
/// done next.
pub open spec fn after_lyrics_action(s: LyricsView, action: LyricsAction, env: LyricsEnvironment) -> (
    LyricsView,
    ResultView,
    Seq<EffectView>,
) {
    let helper = env.helper_available;
    match action {
        LyricsAction::Convert => (
            after_trigger(s, helper),
            ResultView::Success,
            trigger_effects(s, helper),
        ),
        LyricsAction::ConvertCompleted(Ok(o)) => (
            with_output(s, o, env.numbers@),
            ResultView::Success,
            if env.connector_enabled {
                seq![EffectView::SendToPlayer]
            } else {
                Seq::empty()
            },
        ),
        LyricsAction::ConvertCompleted(Err(e)) => (
            LyricsView { converting: false, output: Seq::empty(), ..s },
            ResultView::Error("转换失败: "@ + e@),
            Seq::empty(),
        ),
        LyricsAction::ConvertChinese(config) => if s.converting {
            (s, ResultView::Warning("转换正在进行中"@), Seq::empty())
        } else if is_blank(s.input) && !s.parsed {
            (s, ResultView::Warning("没有歌词内容可以转换"@), Seq::empty())
        } else if helper {
            (
                LyricsView { converting: true, ..s },
                ResultView::Success,
                seq![EffectView::Convert(input_of(s, Some(config@)))],
            )
        } else {
            (s, ResultView::Success, Seq::empty())
        },
        LyricsAction::Search => if s.searching {
            (s, ResultView::Warning("搜索正在进行中"@), Seq::empty())
        } else if !helper {
            (s, ResultView::Error("LyricsHelper 未初始化"@), Seq::empty())
        } else {
            (
                LyricsView { searching: true, results: Seq::empty(), ..s },
                ResultView::Success,
                seq![EffectView::Search(s.query)],
            )
        },
        LyricsAction::SearchCompleted(Ok(v)) => (
            LyricsView { searching: false, results: found_views(v@), ..s },
            ResultView::Success,
            Seq::empty(),
        ),
        LyricsAction::SearchCompleted(Err(e)) => (
            LyricsView { searching: false, ..s },
            ResultView::Error("搜索失败: "@ + e@),
            Seq::empty(),
        ),
        LyricsAction::Download(r) => if s.downloading {
            (s, ResultView::Warning("下载正在进行中"@), Seq::empty())
        } else if !helper {
            (s, ResultView::Error("LyricsHelper 未初始化"@), Seq::empty())
        } else {
            (
                LyricsView { downloading: true, ..s },
                ResultView::Success,
                seq![
                    EffectView::Download {
                        provider_name: r.provider_name@,
                        provider_id: r.provider_id@,
                    },
                ],
            )
        },
        LyricsAction::DownloadCompleted(Ok(f)) => {
            let t = with_fetched(LyricsView { downloading: false, ..s }, f);
            (
                after_trigger(t, helper),
                ResultView::Success,
                seq![EffectView::HideSearchWindow, EffectView::NoteFetchedFormat(f.source_format)]
                    + trigger_effects(t, helper),
            )
        },
        LyricsAction::DownloadCompleted(Err(e)) => (
            LyricsView { downloading: false, ..s },
            ResultView::Error("下载失败: "@ + e@),
            Seq::empty(),
        ),
        LyricsAction::SourceFormatChanged(f) => (
            LyricsView { source: f, ..s },
            ResultView::Success,
            seq![EffectView::SaveFormats],
        ),
        LyricsAction::TargetFormatChanged(f) => (
            LyricsView { target: f, ..s },
            ResultView::Success,
            seq![EffectView::SaveFormats],
        ),
        LyricsAction::SourceFormatSaved(Some(e)) => (
            s,
            ResultView::Warning("保存源格式设置失败: "@ + e@),
            Seq::empty(),
        ),
        LyricsAction::TargetFormatSaved(Some(e)) => (
            s,
            ResultView::Warning("保存目标格式设置失败: "@ + e@),
            Seq::empty(),
        ),
        LyricsAction::SourceFormatSaved(None) => converted_if_any(s, helper),
        LyricsAction::TargetFormatSaved(None) => converted_if_any(s, helper),
        LyricsAction::MetadataChanged => (
            LyricsView { user_edited: true, ..s },
            ResultView::Success,
            Seq::empty(),
        ),
        LyricsAction::AddMetadata => {
            let t = with_new_entry(s, env.random);
            (after_trigger(t, helper), ResultView::Success, trigger_effects(t, helper))
        },
        LyricsAction::DeleteMetadata(i) => if i < s.metadata.len() {
            let t = LyricsView {
                metadata: s.metadata.remove(i as int),
                user_edited: true,
                ..s
            };
            (after_trigger(t, helper), ResultView::Success, trigger_effects(t, helper))
        } else {
            (s, ResultView::Error("无效的元数据索引"@), Seq::empty())
        },
        LyricsAction::UpdateMetadataKey(i, key) => if i < s.metadata.len() {
            let e = EntryView { key: key@, from_file: false, ..s.metadata[i as int] };
            let t = with_entry(s, i as int, e);
            (after_trigger(t, helper), ResultView::Success, trigger_effects(t, helper))
        } else {
            (s, ResultView::Error("无效的元数据索引"@), Seq::empty())
        },
        LyricsAction::UpdateMetadataValue(i, value) => if i < s.metadata.len() {
            let e = EntryView { value: value@, from_file: false, ..s.metadata[i as int] };
            let t = with_entry(s, i as int, e);
            (after_trigger(t, helper), ResultView::Success, trigger_effects(t, helper))
        } else {
            (s, ResultView::Error("无效的元数据索引"@), Seq::empty())
        },
        LyricsAction::ToggleMetadataPinned(i) => if i < s.metadata.len() {
            let old = s.metadata[i as int];
            let e = EntryView { pinned: !old.pinned, ..old };
            let t = with_entry(s, i as int, e);
            (after_trigger(t, helper), ResultView::Success, trigger_effects(t, helper))
        } else {
            (s, ResultView::Error("无效的元数据索引"@), Seq::empty())
        },
        LyricsAction::LoadFetchedResult(f) => {
            let t = with_fetched(s, f);
            (
                after_trigger(t, helper),
                ResultView::Success,
                seq![EffectView::NoteLoaded(f.source_format)] + trigger_effects(t, helper),
            )
        },
        LyricsAction::LrcInputChanged(lines, kind) => {
            let t = match kind {
                LrcContentType::Translation => LyricsView {
                    loaded_translation: opt_lrc_views(lines),
                    ..s
                },
                LrcContentType::Romanization => LyricsView {
                    loaded_romanization: opt_lrc_views(lines),
                    ..s
                },
            };
            (after_trigger(t, helper), ResultView::Success, trigger_effects(t, helper))
        },
        LyricsAction::MainInputChanged => converted_if_any(s, helper),
        LyricsAction::ClearAllData => (cleared(s), ResultView::Success, Seq::empty()),
    }
}

/// A conversion is asked for where there is a text and none is under way.
pub open spec fn converted_if_any(s: LyricsView, helper: bool) -> (
    LyricsView,
    ResultView,
    Seq<EffectView>,
) {
    if is_blank(s.input) || s.converting {
        (s, ResultView::Success, Seq::empty())
    } else {
        (after_trigger(s, helper), ResultView::Success, trigger_effects(s, helper))
    }
}

/// `prefix` with a reason behind it.
fn with_reason(prefix: &str, reason: &String) -> (r: String)
    ensures
        r@ == prefix@ + reason@,
{
    let mut s = prefix.to_owned();
    s.append(reason.as_str());
    s
}

impl LyricState {
    /// Asks for a conversion where there is a text and none is under way.
    fn convert_if_any(&mut self, helper: bool, effects: &mut Vec<LyricsEffect>)
        requires
            old(effects)@.len() == 0,
        ensures
            final(self)@ == converted_if_any(old(self)@, helper).0,
            effect_views(final(effects)@) == converted_if_any(old(self)@, helper).2,
    {
        if !str_is_blank(self.input_text.as_str()) && !self.conversion_in_progress {
            self.trigger_convert(helper, effects);
        }
        proof {
            assert(effect_views(effects@) =~= converted_if_any(old(self)@, helper).2);
        }
    }

    /// Loads fetched lyrics.
    fn load_fetched(&mut self, f: FetchedLyrics)
        ensures
            final(self)@ == with_fetched(old(self)@, f),
    {
        self.clear_lyrics_state_for_new_song();
        self.input_text = f.content;
        self.source_format = f.source_format;
        self.metadata_source_is_download = true;
    }

    /// Changes a metadata entry as the user asks.
    fn change_entry(&mut self, index: usize, e: EditableMetadataEntry)
        requires
            index < old(self)@.metadata.len(),
        ensures
            final(self)@ == with_entry(old(self)@, index as int, e@),
    {
        let ghost before = self.editable_metadata@;
        self.editable_metadata[index] = e;
        self.metadata_is_user_edited = true;
        proof {
            assert(entries_view(self.editable_metadata@) =~= entries_view(before).update(
                index as int,
                e@,
            ));
        }
    }

    /// Adds a metadata entry with a number that `random` makes unlikely to be
    /// taken.
    pub fn add_metadata(&mut self, random: u32)
        requires
            new_entry_number(old(self)@, random) <= u32::MAX,
        ensures
            final(self)@ == with_new_entry(old(self)@, random),
    {
        let number: u64 = self.editable_metadata.len() as u64 + random as u64;
        let mut key = "新键_".to_owned();
        push_dec(&mut key, number % 100);
        let mut id = "new_editable_meta_entry_".to_owned();
        push_dec(&mut id, number);
        let ghost before = self.editable_metadata@;
        self.editable_metadata.push(
            EditableMetadataEntry {
                key,
                value: String::new(),
                is_pinned: false,
                is_from_file: false,
                id,
            },
        );
        self.metadata_is_user_edited = true;
        proof {
            assert(entries_view(self.editable_metadata@) =~= with_new_entry(
                old(self)@,
                random,
            ).metadata);
        }
    }

    /// Asks for a conversion.
    fn on_convert(&mut self, env: &LyricsEnvironment) -> (r: (ActionResult, Vec<LyricsEffect>))
        ensures
            final(self)@ == after_lyrics_action(old(self)@, LyricsAction::Convert, *env).0,
            r.0@ == after_lyrics_action(old(self)@, LyricsAction::Convert, *env).1,
            effect_views(r.1@) == after_lyrics_action(old(self)@, LyricsAction::Convert, *env).2,
    {
        let helper = env.helper_available;
        let mut effects: Vec<LyricsEffect> = Vec::new();
        let ghost expected = after_lyrics_action(self@, LyricsAction::Convert, *env);
        let result = {
            self.trigger_convert(helper, &mut effects);
            ActionResult::Success
        };
        proof {
            assert(effect_views(effects@) =~= expected.2);
        }
        (result, effects)
    }

    /// A conversion has ended.
    fn on_converted(
        &mut self,
        done: Result<ConversionOutput, String>,
        env: &LyricsEnvironment,
    ) -> (r: (ActionResult, Vec<LyricsEffect>))
        requires
            done is Ok ==> env.numbers@.len() >= done->Ok_0.raw_metadata@.len(),
        ensures
            final(self)@ == after_lyrics_action(
                old(self)@,
                LyricsAction::ConvertCompleted(done),
                *env,
            ).0,
            r.0@ == after_lyrics_action(old(self)@, LyricsAction::ConvertCompleted(done), *env).1,
            effect_views(r.1@) == after_lyrics_action(
                old(self)@,
                LyricsAction::ConvertCompleted(done),
                *env,
            ).2,
    {
        let mut effects: Vec<LyricsEffect> = Vec::new();
        let ghost expected = after_lyrics_action(self@, LyricsAction::ConvertCompleted(done), *env);
        let result = {
            self.conversion_in_progress = false;
            match done {
                Ok(o) => {
                    self.output_text = o.output_lyrics;
                    self.has_parsed_data = true;
                    if !self.metadata_is_user_edited {
                        self.sync_ui_from_parsed_data(&o.raw_metadata, &env.numbers);
                    }
                    if env.connector_enabled {
                        effects.push(LyricsEffect::SendToPlayer);
                    }
                    ActionResult::Success
                },
                Err(e) => {
                    self.output_text = String::new();
                    ActionResult::Error(with_reason("转换失败: ", &e))
                },
            }
        };
        proof {
            assert(effect_views(effects@) =~= expected.2);
        }
        (result, effects)
    }

    /// Asks for a conversion between Chinese scripts.
    fn on_convert_chinese(
        &mut self,
        config: String,
        env: &LyricsEnvironment,
    ) -> (r: (ActionResult, Vec<LyricsEffect>))
        ensures
            final(self)@ == after_lyrics_action(
                old(self)@,
                LyricsAction::ConvertChinese(config),
                *env,
            ).0,
            r.0@ == after_lyrics_action(old(self)@, LyricsAction::ConvertChinese(config), *env).1,
            effect_views(r.1@) == after_lyrics_action(
                old(self)@,
                LyricsAction::ConvertChinese(config),
                *env,
            ).2,
    {
        let helper = env.helper_available;
        let mut effects: Vec<LyricsEffect> = Vec::new();
        let ghost expected = after_lyrics_action(self@, LyricsAction::ConvertChinese(config), *env);
        let result = {
            if self.conversion_in_progress {
                ActionResult::Warning("转换正在进行中".to_owned())
            } else if str_is_blank(self.input_text.as_str()) && !self.has_parsed_data {
                ActionResult::Warning("没有歌词内容可以转换".to_owned())
            } else {
                if helper {
                    let input = self.conversion_input(Some(config));
                    effects.push(LyricsEffect::Convert(input));
                    self.conversion_in_progress = true;
                }
                ActionResult::Success
            }
        };
        proof {
            assert(effect_views(effects@) =~= expected.2);
        }
        (result, effects)
    }

    /// Asks for a search.
    fn on_search(&mut self, env: &LyricsEnvironment) -> (r: (ActionResult, Vec<LyricsEffect>))
        ensures
            final(self)@ == after_lyrics_action(old(self)@, LyricsAction::Search, *env).0,
            r.0@ == after_lyrics_action(old(self)@, LyricsAction::Search, *env).1,
            effect_views(r.1@) == after_lyrics_action(old(self)@, LyricsAction::Search, *env).2,
    {
        let helper = env.helper_available;
        let mut effects: Vec<LyricsEffect> = Vec::new();
        let ghost expected = after_lyrics_action(self@, LyricsAction::Search, *env);
        let result = {
            if self.search_in_progress {
                ActionResult::Warning("搜索正在进行中".to_owned())
            } else if !helper {
                ActionResult::Error("LyricsHelper 未初始化".to_owned())
            } else {
                self.search_in_progress = true;
                self.search_results = Vec::new();
                effects.push(LyricsEffect::Search(self.search_query.clone()));
                proof {
                    assert(self@.results =~= Seq::<FoundView>::empty());
                }
                ActionResult::Success
            }
        };
        proof {
            assert(effect_views(effects@) =~= expected.2);
        }
        (result, effects)
    }

    /// A search has ended.
    fn on_searched(
        &mut self,
        done: Result<Vec<SearchResult>, String>,
        env: &LyricsEnvironment,
    ) -> (r: (ActionResult, Vec<LyricsEffect>))
        ensures
            final(self)@ == after_lyrics_action(
                old(self)@,
                LyricsAction::SearchCompleted(done),
                *env,
            ).0,
            r.0@ == after_lyrics_action(old(self)@, LyricsAction::SearchCompleted(done), *env).1,
            effect_views(r.1@) == after_lyrics_action(
                old(self)@,
                LyricsAction::SearchCompleted(done),
                *env,
            ).2,
    {
        let mut effects: Vec<LyricsEffect> = Vec::new();
        let ghost expected = after_lyrics_action(self@, LyricsAction::SearchCompleted(done), *env);
        let result = {
            self.search_in_progress = false;
            match done {
                Ok(v) => {
                    self.search_results = v;
                    ActionResult::Success
                },
                Err(e) => ActionResult::Error(with_reason("搜索失败: ", &e)),
            }
        };
        proof {
            assert(effect_views(effects@) =~= expected.2);
        }
        (result, effects)
    }

    /// Asks for the lyrics of a song that was found.
    fn on_download(
        &mut self,
        found: SearchResult,
        env: &LyricsEnvironment,
    ) -> (r: (ActionResult, Vec<LyricsEffect>))
        ensures
            final(self)@ == after_lyrics_action(old(self)@, LyricsAction::Download(found), *env).0,
            r.0@ == after_lyrics_action(old(self)@, LyricsAction::Download(found), *env).1,
            effect_views(r.1@) == after_lyrics_action(
                old(self)@,
                LyricsAction::Download(found),
                *env,
            ).2,
    {
        let helper = env.helper_available;
        let mut effects: Vec<LyricsEffect> = Vec::new();
        let ghost expected = after_lyrics_action(self@, LyricsAction::Download(found), *env);
        let result = {
            if self.download_in_progress {
                ActionResult::Warning("下载正在进行中".to_owned())
            } else if !helper {
                ActionResult::Error("LyricsHelper 未初始化".to_owned())
            } else {
                self.download_in_progress = true;
                effects.push(
                    LyricsEffect::Download {
                        provider_name: found.provider_name.clone(),
                        provider_id: found.provider_id.clone(),
                    },
                );
                ActionResult::Success
            }
        };
        proof {
            assert(effect_views(effects@) =~= expected.2);
        }
        (result, effects)
    }

    /// Lyrics have been fetched, or not.
    fn on_downloaded(
        &mut self,
        done: Result<FetchedLyrics, String>,
        env: &LyricsEnvironment,
    ) -> (r: (ActionResult, Vec<LyricsEffect>))
        ensures
            final(self)@ == after_lyrics_action(
                old(self)@,
                LyricsAction::DownloadCompleted(done),
                *env,
            ).0,
            r.0@ == after_lyrics_action(old(self)@, LyricsAction::DownloadCompleted(done), *env).1,
            effect_views(r.1@) == after_lyrics_action(
                old(self)@,
                LyricsAction::DownloadCompleted(done),
                *env,
            ).2,
    {
        let helper = env.helper_available;
        let mut effects: Vec<LyricsEffect> = Vec::new();
        let ghost expected = after_lyrics_action(
            self@,
            LyricsAction::DownloadCompleted(done),
            *env,
        );
        let result = {
            self.download_in_progress = false;
            match done {
                Ok(f) => {
                    effects.push(LyricsEffect::HideSearchWindow);
                    effects.push(LyricsEffect::NoteFetchedFormat(f.source_format));
                    self.load_fetched(f);
                    self.trigger_convert(helper, &mut effects);
                    ActionResult::Success
                },
                Err(e) => ActionResult::Error(with_reason("下载失败: ", &e)),
            }
        };
        proof {
            assert(effect_views(effects@) =~= expected.2);
        }
        (result, effects)
    }

    /// Another source format has been chosen.
    fn on_source_format(
        &mut self,
        format: LyricFormat,
        env: &LyricsEnvironment,
    ) -> (r: (ActionResult, Vec<LyricsEffect>))
        ensures
            final(self)@ == after_lyrics_action(
                old(self)@,
                LyricsAction::SourceFormatChanged(format),
                *env,
            ).0,
            r.0@ == after_lyrics_action(
                old(self)@,
                LyricsAction::SourceFormatChanged(format),
                *env,
            ).1,
            effect_views(r.1@) == after_lyrics_action(
                old(self)@,
                LyricsAction::SourceFormatChanged(format),
                *env,
            ).2,
    {
        let mut effects: Vec<LyricsEffect> = Vec::new();
        let ghost expected = after_lyrics_action(
            self@,
            LyricsAction::SourceFormatChanged(format),
            *env,
        );
        let result = {
            self.source_format = format;
            effects.push(LyricsEffect::SaveFormats);
            ActionResult::Success
        };
        proof {
            assert(effect_views(effects@) =~= expected.2);
        }
        (result, effects)
    }

    /// Another target format has been chosen.
    fn on_target_format(
        &mut self,
        format: LyricFormat,
        env: &LyricsEnvironment,
    ) -> (r: (ActionResult, Vec<LyricsEffect>))
        ensures
            final(self)@ == after_lyrics_action(
                old(self)@,
                LyricsAction::TargetFormatChanged(format),
                *env,
            ).0,
            r.0@ == after_lyrics_action(
                old(self)@,
                LyricsAction::TargetFormatChanged(format),
                *env,
            ).1,
            effect_views(r.1@) == after_lyrics_action(
                old(self)@,
                LyricsAction::TargetFormatChanged(format),
                *env,
            ).2,
    {
        let mut effects: Vec<LyricsEffect> = Vec::new();
        let ghost expected = after_lyrics_action(
            self@,
            LyricsAction::TargetFormatChanged(format),
            *env,
        );
        let result = {
            self.target_format = format;
            effects.push(LyricsEffect::SaveFormats);
            ActionResult::Success
        };
        proof {
            assert(effect_views(effects@) =~= expected.2);
        }
        (result, effects)
    }

    /// The source format has been saved, or not.
    fn on_source_format_saved(
        &mut self,
        problem: Option<String>,
        env: &LyricsEnvironment,
    ) -> (r: (ActionResult, Vec<LyricsEffect>))
        ensures
            final(self)@ == after_lyrics_action(
                old(self)@,
                LyricsAction::SourceFormatSaved(problem),
                *env,
            ).0,
            r.0@ == after_lyrics_action(
                old(self)@,
                LyricsAction::SourceFormatSaved(problem),
                *env,
            ).1,
            effect_views(r.1@) == after_lyrics_action(
                old(self)@,
                LyricsAction::SourceFormatSaved(problem),
                *env,
            ).2,
    {
        let helper = env.helper_available;
        let mut effects: Vec<LyricsEffect> = Vec::new();
        let ghost expected = after_lyrics_action(
            self@,
            LyricsAction::SourceFormatSaved(problem),
            *env,
        );
        let result = {
            match problem {
                Some(e) => ActionResult::Warning(with_reason("保存源格式设置失败: ", &e)),
                None => {
                    self.convert_if_any(helper, &mut effects);
                    ActionResult::Success
                },
            }
        };
        proof {
            assert(effect_views(effects@) =~= expected.2);
        }
        (result, effects)
    }

    /// The target format has been saved, or not.
    fn on_target_format_saved(
        &mut self,
        problem: Option<String>,
        env: &LyricsEnvironment,
    ) -> (r: (ActionResult, Vec<LyricsEffect>))
        ensures
            final(self)@ == after_lyrics_action(
                old(self)@,
                LyricsAction::TargetFormatSaved(problem),
                *env,
            ).0,
            r.0@ == after_lyrics_action(
                old(self)@,
                LyricsAction::TargetFormatSaved(problem),
                *env,
            ).1,
            effect_views(r.1@) == after_lyrics_action(
                old(self)@,
                LyricsAction::TargetFormatSaved(problem),
                *env,
            ).2,
    {
        let helper = env.helper_available;
        let mut effects: Vec<LyricsEffect> = Vec::new();
        let ghost expected = after_lyrics_action(
            self@,
            LyricsAction::TargetFormatSaved(problem),
            *env,
        );
        let result = {
            match problem {
                Some(e) => ActionResult::Warning(with_reason("保存目标格式设置失败: ", &e)),
                None => {
                    self.convert_if_any(helper, &mut effects);
                    ActionResult::Success
                },
            }
        };
        proof {
            assert(effect_views(effects@) =~= expected.2);
        }
        (result, effects)
    }

    /// The user has edited metadata.
    fn on_metadata_changed(
        &mut self,
        env: &LyricsEnvironment,
    ) -> (r: (ActionResult, Vec<LyricsEffect>))
        ensures
            final(self)@ == after_lyrics_action(old(self)@, LyricsAction::MetadataChanged, *env).0,
            r.0@ == after_lyrics_action(old(self)@, LyricsAction::MetadataChanged, *env).1,
            effect_views(r.1@) == after_lyrics_action(
                old(self)@,
                LyricsAction::MetadataChanged,
                *env,
            ).2,
    {
        let mut effects: Vec<LyricsEffect> = Vec::new();
        let ghost expected = after_lyrics_action(self@, LyricsAction::MetadataChanged, *env);
        let result = {
            self.metadata_is_user_edited = true;
            ActionResult::Success
        };
        proof {
            assert(effect_views(effects@) =~= expected.2);
        }
        (result, effects)
    }

    /// Asks for a new metadata entry.
    fn on_add_metadata(&mut self, env: &LyricsEnvironment) -> (r: (ActionResult, Vec<LyricsEffect>))
        requires
            new_entry_number(old(self)@, env.random) <= u32::MAX,
        ensures
            final(self)@ == after_lyrics_action(old(self)@, LyricsAction::AddMetadata, *env).0,
            r.0@ == after_lyrics_action(old(self)@, LyricsAction::AddMetadata, *env).1,
            effect_views(r.1@) == after_lyrics_action(
                old(self)@,
                LyricsAction::AddMetadata,
                *env,
            ).2,
    {
        let helper = env.helper_available;
        let mut effects: Vec<LyricsEffect> = Vec::new();
        let ghost expected = after_lyrics_action(self@, LyricsAction::AddMetadata, *env);
        let result = {
            self.add_metadata(env.random);
            self.trigger_convert(helper, &mut effects);
            ActionResult::Success
        };
        proof {
            assert(effect_views(effects@) =~= expected.2);
        }
        (result, effects)
    }

    /// Takes a metadata entry out.
    fn on_delete_metadata(
        &mut self,
        index: usize,
        env: &LyricsEnvironment,
    ) -> (r: (ActionResult, Vec<LyricsEffect>))
        ensures
            final(self)@ == after_lyrics_action(
                old(self)@,
                LyricsAction::DeleteMetadata(index),
                *env,
            ).0,
            r.0@ == after_lyrics_action(old(self)@, LyricsAction::DeleteMetadata(index), *env).1,
            effect_views(r.1@) == after_lyrics_action(
                old(self)@,
                LyricsAction::DeleteMetadata(index),
                *env,
            ).2,
    {
        let helper = env.helper_available;
        let mut effects: Vec<LyricsEffect> = Vec::new();
        let ghost expected = after_lyrics_action(self@, LyricsAction::DeleteMetadata(index), *env);
        let result = {
            if index < self.editable_metadata.len() {
                let ghost before = self.editable_metadata@;
                self.editable_metadata.remove(index);
                self.metadata_is_user_edited = true;
                proof {
                    assert(entries_view(self.editable_metadata@) =~= entries_view(before).remove(
                        index as int,
                    ));
                }
                self.trigger_convert(helper, &mut effects);
                ActionResult::Success
            } else {
                ActionResult::Error("无效的元数据索引".to_owned())
            }
        };
        proof {
            assert(effect_views(effects@) =~= expected.2);
        }
        (result, effects)
    }

    /// Changes the key of a metadata entry.
    fn on_update_key(
        &mut self,
        index: usize,
        key: String,
        env: &LyricsEnvironment,
    ) -> (r: (ActionResult, Vec<LyricsEffect>))
        ensures
            final(self)@ == after_lyrics_action(
                old(self)@,
                LyricsAction::UpdateMetadataKey(index, key),
                *env,
            ).0,
            r.0@ == after_lyrics_action(
                old(self)@,
                LyricsAction::UpdateMetadataKey(index, key),
                *env,
            ).1,
            effect_views(r.1@) == after_lyrics_action(
                old(self)@,
                LyricsAction::UpdateMetadataKey(index, key),
                *env,
            ).2,
    {
        let helper = env.helper_available;
        let mut effects: Vec<LyricsEffect> = Vec::new();
        let ghost expected = after_lyrics_action(
            self@,
            LyricsAction::UpdateMetadataKey(index, key),
            *env,
        );
        let result = {
            if index < self.editable_metadata.len() {
                let mut e = copy_entry(&self.editable_metadata[index]);
                e.key = key;
                e.is_from_file = false;
                self.change_entry(index, e);
                self.trigger_convert(helper, &mut effects);
                ActionResult::Success
            } else {
                ActionResult::Error("无效的元数据索引".to_owned())
            }
        };
        proof {
            assert(effect_views(effects@) =~= expected.2);
        }
        (result, effects)
    }

    /// Changes the value of a metadata entry.
    fn on_update_value(
        &mut self,
        index: usize,
        value: String,
        env: &LyricsEnvironment,
    ) -> (r: (ActionResult, Vec<LyricsEffect>))
        ensures
            final(self)@ == after_lyrics_action(
                old(self)@,
                LyricsAction::UpdateMetadataValue(index, value),
                *env,
            ).0,
            r.0@ == after_lyrics_action(
                old(self)@,
                LyricsAction::UpdateMetadataValue(index, value),
                *env,
            ).1,
            effect_views(r.1@) == after_lyrics_action(
                old(self)@,
                LyricsAction::UpdateMetadataValue(index, value),
                *env,
            ).2,
    {
        let helper = env.helper_available;
        let mut effects: Vec<LyricsEffect> = Vec::new();
        let ghost expected = after_lyrics_action(
            self@,
            LyricsAction::UpdateMetadataValue(index, value),
            *env,
        );
        let result = {
            if index < self.editable_metadata.len() {
                let mut e = copy_entry(&self.editable_metadata[index]);
                e.value = value;
                e.is_from_file = false;
                self.change_entry(index, e);
                self.trigger_convert(helper, &mut effects);
                ActionResult::Success
            } else {
                ActionResult::Error("无效的元数据索引".to_owned())
            }
        };
        proof {
            assert(effect_views(effects@) =~= expected.2);
        }
        (result, effects)
    }

    /// Pins a metadata entry, or takes the pin away.
    fn on_toggle_pinned(
        &mut self,
        index: usize,
        env: &LyricsEnvironment,
    ) -> (r: (ActionResult, Vec<LyricsEffect>))
        ensures
            final(self)@ == after_lyrics_action(
                old(self)@,
                LyricsAction::ToggleMetadataPinned(index),
                *env,
            ).0,
            r.0@ == after_lyrics_action(
                old(self)@,
                LyricsAction::ToggleMetadataPinned(index),
                *env,
            ).1,
            effect_views(r.1@) == after_lyrics_action(
                old(self)@,
                LyricsAction::ToggleMetadataPinned(index),
                *env,
            ).2,
    {
        let helper = env.helper_available;
        let mut effects: Vec<LyricsEffect> = Vec::new();
        let ghost expected = after_lyrics_action(
            self@,
            LyricsAction::ToggleMetadataPinned(index),
            *env,
        );
        let result = {
            if index < self.editable_metadata.len() {
                let mut e = copy_entry(&self.editable_metadata[index]);
                e.is_pinned = !e.is_pinned;
                self.change_entry(index, e);
                self.trigger_convert(helper, &mut effects);
                ActionResult::Success
            } else {
                ActionResult::Error("无效的元数据索引".to_owned())
            }
        };
        proof {
            assert(effect_views(effects@) =~= expected.2);
        }
        (result, effects)
    }

    /// Loads lyrics that have been fetched.
    fn on_load_fetched(
        &mut self,
        f: FetchedLyrics,
        env: &LyricsEnvironment,
    ) -> (r: (ActionResult, Vec<LyricsEffect>))
        ensures
            final(self)@ == after_lyrics_action(
                old(self)@,
                LyricsAction::LoadFetchedResult(f),
                *env,
            ).0,
            r.0@ == after_lyrics_action(old(self)@, LyricsAction::LoadFetchedResult(f), *env).1,
            effect_views(r.1@) == after_lyrics_action(
                old(self)@,
                LyricsAction::LoadFetchedResult(f),
                *env,
            ).2,
    {
        let helper = env.helper_available;
        let mut effects: Vec<LyricsEffect> = Vec::new();
        let ghost expected = after_lyrics_action(self@, LyricsAction::LoadFetchedResult(f), *env);
        let result = {
            effects.push(LyricsEffect::NoteLoaded(f.source_format));
            self.load_fetched(f);
            self.trigger_convert(helper, &mut effects);
            ActionResult::Success
        };
        proof {
            assert(effect_views(effects@) =~= expected.2);
        }
        (result, effects)
    }

    /// The user has edited an LRC text.
    fn on_lrc_input(
        &mut self,
        lines: Option<Vec<LrcLine>>,
        kind: LrcContentType,
        env: &LyricsEnvironment,
    ) -> (r: (ActionResult, Vec<LyricsEffect>))
        ensures
            final(self)@ == after_lyrics_action(
                old(self)@,
                LyricsAction::LrcInputChanged(lines, kind),
                *env,
            ).0,
            r.0@ == after_lyrics_action(
                old(self)@,
                LyricsAction::LrcInputChanged(lines, kind),
                *env,
            ).1,
            effect_views(r.1@) == after_lyrics_action(
                old(self)@,
                LyricsAction::LrcInputChanged(lines, kind),
                *env,
            ).2,
    {
        let helper = env.helper_available;
        let mut effects: Vec<LyricsEffect> = Vec::new();
        let ghost expected = after_lyrics_action(
            self@,
            LyricsAction::LrcInputChanged(lines, kind),
            *env,
        );
        let result = {
            match kind {
                LrcContentType::Translation => {
                    self.loaded_translation_lrc = lines;
                },
                LrcContentType::Romanization => {
                    self.loaded_romanization_lrc = lines;
                },
            }
            self.trigger_convert(helper, &mut effects);
            ActionResult::Success
        };
        proof {
            assert(effect_views(effects@) =~= expected.2);
        }
        (result, effects)
    }

    /// The user has edited the lyrics.
    fn on_main_input(&mut self, env: &LyricsEnvironment) -> (r: (ActionResult, Vec<LyricsEffect>))
        ensures
            final(self)@ == after_lyrics_action(old(self)@, LyricsAction::MainInputChanged, *env).0,
            r.0@ == after_lyrics_action(old(self)@, LyricsAction::MainInputChanged, *env).1,
            effect_views(r.1@) == after_lyrics_action(
                old(self)@,
                LyricsAction::MainInputChanged,
                *env,
            ).2,
    {
        let helper = env.helper_available;
        let mut effects: Vec<LyricsEffect> = Vec::new();
        let ghost expected = after_lyrics_action(self@, LyricsAction::MainInputChanged, *env);
        let result = {
            self.convert_if_any(helper, &mut effects);
            ActionResult::Success
        };
        proof {
            assert(effect_views(effects@) =~= expected.2);
        }
        (result, effects)
    }

    /// Takes the song away.
    fn on_clear(&mut self, env: &LyricsEnvironment) -> (r: (ActionResult, Vec<LyricsEffect>))
        ensures
            final(self)@ == after_lyrics_action(old(self)@, LyricsAction::ClearAllData, *env).0,
            r.0@ == after_lyrics_action(old(self)@, LyricsAction::ClearAllData, *env).1,
            effect_views(r.1@) == after_lyrics_action(
                old(self)@,
                LyricsAction::ClearAllData,
                *env,
            ).2,
    {
        let mut effects: Vec<LyricsEffect> = Vec::new();
        let ghost expected = after_lyrics_action(self@, LyricsAction::ClearAllData, *env);
        let result = {
            self.clear_lyrics_state_for_new_song();
            ActionResult::Success
        };
        proof {
            assert(effect_views(effects@) =~= expected.2);
        }
        (result, effects)
    }

    /// Handles an action on the lyrics.
    pub fn handle_lyrics_action(&mut self, action: LyricsAction, env: &LyricsEnvironment) -> (r: (
        ActionResult,
        Vec<LyricsEffect>,
    ))
        requires
            action is AddMetadata ==> new_entry_number(old(self)@, env.random) <= u32::MAX,
            match action {
                LyricsAction::ConvertCompleted(Ok(o)) => env.numbers@.len() >= o.raw_metadata@.len(),
                _ => true,
            },
        ensures
            final(self)@ == after_lyrics_action(old(self)@, action, *env).0,
            r.0@ == after_lyrics_action(old(self)@, action, *env).1,
            effect_views(r.1@) == after_lyrics_action(old(self)@, action, *env).2,
    {
        match action {
            LyricsAction::Convert => self.on_convert(env),
            LyricsAction::ConvertCompleted(done) => self.on_converted(done, env),
            LyricsAction::ConvertChinese(config) => self.on_convert_chinese(config, env),
            LyricsAction::Search => self.on_search(env),
            LyricsAction::SearchCompleted(done) => self.on_searched(done, env),
            LyricsAction::Download(found) => self.on_download(found, env),
            LyricsAction::DownloadCompleted(done) => self.on_downloaded(done, env),
            LyricsAction::SourceFormatChanged(f) => self.on_source_format(f, env),
            LyricsAction::TargetFormatChanged(f) => self.on_target_format(f, env),
            LyricsAction::SourceFormatSaved(problem) => self.on_source_format_saved(problem, env),
            LyricsAction::TargetFormatSaved(problem) => self.on_target_format_saved(problem, env),
            LyricsAction::MetadataChanged => self.on_metadata_changed(env),
            LyricsAction::AddMetadata => self.on_add_metadata(env),
            LyricsAction::DeleteMetadata(i) => self.on_delete_metadata(i, env),
            LyricsAction::UpdateMetadataKey(i, key) => self.on_update_key(i, key, env),
            LyricsAction::UpdateMetadataValue(i, value) => self.on_update_value(i, value, env),
            LyricsAction::ToggleMetadataPinned(i) => self.on_toggle_pinned(i, env),
            LyricsAction::LoadFetchedResult(f) => self.on_load_fetched(f, env),
            LyricsAction::LrcInputChanged(lines, kind) => self.on_lrc_input(lines, kind, env),
            LyricsAction::MainInputChanged => self.on_main_input(env),
            LyricsAction::ClearAllData => self.on_clear(env),
        }
    }
}

// ---------------------------------------------------------------------------
// Panels
// ---------------------------------------------------------------------------

/// The panels with one of them shown or hidden.
pub open spec fn with_panel(ui: UiState, panel: PanelType, visible: bool) -> UiState {
    match panel {
        PanelType::Log => UiState { show_bottom_log_panel: visible, ..ui },
        PanelType::Markers => UiState { show_markers_panel: visible, ..ui },
        PanelType::Translation => UiState { show_translation_lrc_panel: visible, ..ui },
        PanelType::Romanization => UiState { show_romanization_lrc_panel: visible, ..ui },
        PanelType::Settings => UiState { show_settings_window: visible, ..ui },
        PanelType::Metadata => UiState { show_metadata_panel: visible, ..ui },
        PanelType::Search => UiState { show_search_window: visible, ..ui },
        PanelType::AmllConnector => UiState { show_amll_connector_sidebar: visible, ..ui },
    }
}

/// What an action does to the panels.
pub open spec fn after_ui_action(ui: UiState, action: UIAction) -> UiState {
    match action {
        UIAction::SetPanelVisibility(panel, visible) => {
            let next = with_panel(ui, panel, visible);
            if panel is Log && visible {
                UiState { new_trigger_log_exists: false, ..next }
            } else {
                next
            }
        },
        UIAction::ShowPanel(panel) => with_panel(ui, panel, true),
        UIAction::HidePanel(panel) => {
            let next = with_panel(ui, panel, false);
            if panel is Log {
                UiState { new_trigger_log_exists: false, ..next }
            } else {
                next
            }
        },
        UIAction::SetWrapText(wrap) => UiState { wrap_text: wrap, ..ui },
        UIAction::ClearLogs => ui,
    }
}

/// What is done besides when an action on the panels is handled.
#[derive(Debug, Clone, Copy, PartialEq, Eq, Structural)]
pub enum UiEffect {
    Nothing,
    /// Edit a copy of the settings.
    EditSettings,
    /// Empty the log.
    ClearLogs,
}

impl UiState {
    /// Shows or hides a panel.
    fn set_panel(&mut self, panel: PanelType, visible: bool)
        ensures
            *final(self) == with_panel(*old(self), panel, visible),
    {
        match panel {
            PanelType::Log => {
                self.show_bottom_log_panel = visible;
            },
            PanelType::Markers => {
                self.show_markers_panel = visible;
            },
            PanelType::Translation => {
                self.show_translation_lrc_panel = visible;
            },
            PanelType::Romanization => {
                self.show_romanization_lrc_panel = visible;
            },
            PanelType::Settings => {
                self.show_settings_window = visible;
            },
            PanelType::Metadata => {
                self.show_metadata_panel = visible;
            },
            PanelType::Search => {
                self.show_search_window = visible;
            },
            PanelType::AmllConnector => {
                self.show_amll_connector_sidebar = visible;
            },
        }
    }

    /// Handles an action on the panels.
    pub fn handle_ui_action(&mut self, action: UIAction) -> (r: UiEffect)
        ensures
            *final(self) == after_ui_action(*old(self), action),
            r == match action {
                UIAction::ShowPanel(PanelType::Settings) => UiEffect::EditSettings,
                UIAction::ClearLogs => UiEffect::ClearLogs,
                _ => UiEffect::Nothing,
            },
    {
        match action {
            UIAction::SetPanelVisibility(panel, visible) => {
                self.set_panel(panel, visible);
                if panel == PanelType::Log && visible {
                    self.new_trigger_log_exists = false;
                }
                UiEffect::Nothing
            },
            UIAction::ShowPanel(panel) => {
                self.set_panel(panel, true);
                if panel == PanelType::Settings {
                    UiEffect::EditSettings
                } else {
                    UiEffect::Nothing
                }
            },
            UIAction::HidePanel(panel) => {
                self.set_panel(panel, false);
                if panel == PanelType::Log {
                    self.new_trigger_log_exists = false;
                }
                UiEffect::Nothing
            },
            UIAction::SetWrapText(wrap) => {
                self.wrap_text = wrap;
                UiEffect::Nothing
            },
            UIAction::ClearLogs => UiEffect::ClearLogs,
        }
    }
}

/// Hiding a panel that was shown, or showing one that was hidden, leaves all
/// other panels as they are; both together leave every panel as it was.
pub proof fn law_show_and_hide(ui: UiState, panel: PanelType, other: PanelType)
    requires
        panel != other,
    ensures
        with_panel(with_panel(ui, panel, true), panel, false) == with_panel(ui, panel, false),
        with_panel(with_panel(ui, panel, true), other, false) == with_panel(
            with_panel(ui, other, false),
            panel,
            true,
        ),
{
}

/// While a conversion is under way, no other is started.
pub proof fn law_one_conversion(s: LyricsView, action: LyricsAction, env: LyricsEnvironment, i: int)
    requires
        s.converting,
        0 <= i < after_lyrics_action(s, action, env).2.len(),
    ensures
        !(after_lyrics_action(s, action, env).2[i] is Convert),
{
}

/// Clearing the lyrics keeps every pinned metadata entry's key and value.
pub proof fn law_pinned_metadata_stays(s: LyricsView, i: int)
    requires
        0 <= i < s.metadata.len(),
        s.metadata[i].pinned,
    ensures
        cleared(s).metadata.contains(EntryView { from_file: false, ..s.metadata[i] }),
{
    lemma_pinned_entries(s.metadata, s.metadata.len(), i);
    let p = pinned_entries(s.metadata, s.metadata.len());
    let k = choose|k: int| 0 <= k < p.len() && p[k] == s.metadata[i];
    assert(not_from_file(p)[k] == (EntryView { from_file: false, ..s.metadata[i] }));
}

/// The pinned entries are among the pinned entries.
proof fn lemma_pinned_entries(entries: Seq<EntryView>, n: nat, i: int)
    requires
        0 <= i < n <= entries.len(),
        entries[i].pinned,
    ensures
        pinned_entries(entries, n).contains(entries[i]),
    decreases n,
{
    let p = pinned_entries(entries, n);
    if i == n - 1 {
        assert(p.last() == entries[i]);
    } else {
        lemma_pinned_entries(entries, (n - 1) as nat, i);
        let q = pinned_entries(entries, (n - 1) as nat);
        let k = choose|k: int| 0 <= k < q.len() && q[k] == entries[i];
        assert(p[k] == entries[i]);
    }
}

// ---------------------------------------------------------------------------
// Settings
// ---------------------------------------------------------------------------

/// What the application does when settings have been saved.
#[derive(Debug, Clone, PartialEq)]
pub struct SettingsStep {
    /// The offset of the time line from now on.
    pub smtc_time_offset_ms: i64,
    /// The connector's configuration from now on.
    pub connector_config: AMLLConnectorConfig,
    /// Whether the connector is told its new configuration.
    pub send_config: bool,
    /// What the connector is told of its own settings.
    pub actor_settings: ActorSettings,
    /// Whether audio is forwarded from now on, where that has changed.
    pub audio_visualization: Option<bool>,
}

/// Decides what follows from settings that have been saved. The connector is told
/// its own settings every time: whether search terms are brought into simplified
/// Chinese. It is told a new configuration where it is enabled and something in
/// that has changed, and the forwarding of audio is switched where that has
/// changed and the connector is enabled.
pub fn settings_saved(
    settings: &AppSettings,
    enable_t2s_for_auto_search: bool,
    old_config: &AMLLConnectorConfig,
    old_send_audio: bool,
) -> (r: SettingsStep)
    ensures
        r.smtc_time_offset_ms == settings.smtc_time_offset_ms,
        r.actor_settings.enable_t2s_conversion == enable_t2s_for_auto_search,
        r.connector_config.enabled == settings.amll_connector_enabled,
        r.connector_config.websocket_url@ == settings.amll_connector_websocket_url@,
        r.send_config == (settings.amll_connector_enabled && (old_config.enabled
            != settings.amll_connector_enabled || old_config.websocket_url@
            != settings.amll_connector_websocket_url@)),
        r.audio_visualization == if settings.amll_connector_enabled && old_send_audio
            != settings.send_audio_data_to_player {
            Some(settings.send_audio_data_to_player)
        } else {
            None
        },
{
    let config = AMLLConnectorConfig {
        enabled: settings.amll_connector_enabled,
        websocket_url: settings.amll_connector_websocket_url.clone(),
    };
    let changed = old_config.enabled != config.enabled || !crate::text::str_eq(
        old_config.websocket_url.as_str(),
        config.websocket_url.as_str(),
    );
    let audio = settings.send_audio_data_to_player;
    SettingsStep {
        smtc_time_offset_ms: settings.smtc_time_offset_ms,
        actor_settings: ActorSettings { enable_t2s_conversion: enable_t2s_for_auto_search },
        send_config: config.enabled && changed,
        audio_visualization: if config.enabled && old_send_audio != audio {
            Some(audio)
        } else {
            None
        },
        connector_config: config,
    }
}

/// The message for settings that could not be saved.
pub fn settings_not_saved(reason: &String) -> (r: ActionResult)
    ensures
        r@ == ResultView::Error("保存设置失败: "@ + reason@),
{
    ActionResult::Error(with_reason("保存设置失败: ", reason))
}

/// The id of the session that the user has selected: the empty id leaves the
/// selection to the system.
pub fn selected_session(session_id: &String) -> (r: Option<String>)
    ensures
        opt_view(r) == if session_id@.len() == 0 {
            None
        } else {
            Some(session_id@)
        },
{
    if session_id.as_str().is_empty() {
        None
    } else {
        Some(session_id.clone())
    }
}

} // verus!
