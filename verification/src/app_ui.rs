//! What the window shows and offers.

use vstd::prelude::*;

use crate::amll_connector::smtc_handler::{session_views, SessionView};
use crate::amll_connector::types::SmtcSessionInfo;
use crate::app_actions::LrcContentType;
use crate::app_definition::{lrc_views, LrcLine, LrcLineView, LyricState, SearchResult, UiState};
use crate::app_fetch_core::AutoSearchStatus;
use crate::ass_generator::strip_back;
use crate::formats::LyricFormat;
use crate::krc_generator::one_newline;
use crate::text::{
    dec, is_blank, join, join_strings, push_dec, str_is_blank, string_of, to_chars, views,
};
use crate::types::{marker_views, opt_view};

verus! {

// ---------------------------------------------------------------------------
// The toolbar
// ---------------------------------------------------------------------------

/// The formats that LRC lyrics can be written in.
pub open spec fn is_lrc_target(f: LyricFormat) -> bool {
    f == LyricFormat::Lqe || f == LyricFormat::Spl || f == LyricFormat::Lrc || f
        == LyricFormat::Ttml
}

/// The formats that need the times of syllables.
pub open spec fn needs_syllables(f: LyricFormat) -> bool {
    f == LyricFormat::Ass || f == LyricFormat::Qrc || f == LyricFormat::Yrc || f == LyricFormat::Lys
        || f == LyricFormat::Krc
}

/// Whether lyrics can be written in a format, given the format that they come in
/// and whether only their lines are timed.
pub open spec fn is_target(source: LyricFormat, line_timed: bool, target: LyricFormat) -> bool {
    if source == LyricFormat::Lrc {
        is_lrc_target(target)
    } else {
        !(line_timed && needs_syllables(target))
    }
}

/// Whether LRC lyrics can be written in a format.
fn lrc_target(f: LyricFormat) -> (r: bool)
    ensures
        r == is_lrc_target(f),
{
    f == LyricFormat::Lqe || f == LyricFormat::Spl || f == LyricFormat::Lrc || f
        == LyricFormat::Ttml
}

/// Why a target format is not offered: nothing where it is.
pub open spec fn target_problem(source: LyricFormat, line_timed: bool, target: LyricFormat) -> Option<
    Seq<char>,
> {
    if is_target(source, line_timed, target) {
        None
    } else if source == LyricFormat::Lrc {
        Some("LRC源格式只能输出为LQE, SPL, TTML 或 LRC"@)
    } else {
        Some(
            "\""@ + crate::formats::format_name(source) + "\" 为逐行格式，无法转换为逐字格式 \""@
                + crate::formats::format_name(target) + "\""@,
        )
    }
}

/// Says why a target format is not offered.
pub fn why_not_target(source: LyricFormat, line_timed: bool, target: LyricFormat) -> (r: Option<
    String,
>)
    ensures
        opt_view(r) == target_problem(source, line_timed, target),
{
    if source == LyricFormat::Lrc {
        if lrc_target(target) {
            None
        } else {
            Some("LRC源格式只能输出为LQE, SPL, TTML 或 LRC".to_owned())
        }
    } else {
        let syllables = target == LyricFormat::Ass || target == LyricFormat::Qrc || target
            == LyricFormat::Yrc || target == LyricFormat::Lys || target == LyricFormat::Krc;
        if line_timed && syllables {
            let mut s = "\"".to_owned();
            s.append(source.name());
            s.append("\" 为逐行格式，无法转换为逐字格式 \"");
            s.append(target.name());
            s.append("\"");
            Some(s)
        } else {
            None
        }
    }
}

/// The target format that is kept for a source format: LRC lyrics that cannot be
/// written in the chosen format are written as LRC.
pub fn kept_target(source: LyricFormat, target: LyricFormat) -> (r: LyricFormat)
    ensures
        r == target_kept(source, target),
{
    if source == LyricFormat::Lrc && !lrc_target(target) {
        LyricFormat::Lrc
    } else {
        target
    }
}

/// The target format after the formats have been changed: lyrics of which only
/// the lines are timed are written as LRC.
pub fn target_after_change(line_timed: bool, target: LyricFormat) -> (r: LyricFormat)
    ensures
        r == if line_timed {
            LyricFormat::Lrc
        } else {
            target
        },
{
    if line_timed {
        LyricFormat::Lrc
    } else {
        target
    }
}

/// What is done about the lyrics at the end of a frame of the toolbar.
#[derive(Debug, Clone, Copy, PartialEq, Eq, Structural)]
pub enum FormatFollowUp {
    /// Nothing: no format has been changed.
    Nothing,
    /// Convert the lyrics.
    Convert,
    /// There is no text: empty everything.
    Clear,
}

/// What a frame of the toolbar leads to.
#[derive(Debug, Clone, Copy, PartialEq, Eq)]
pub struct FormatStep {
    pub source: LyricFormat,
    pub target: LyricFormat,
    /// The formats that are saved, the source first, where one has been changed.
    pub saved: Option<(LyricFormat, LyricFormat)>,
    pub follow_up: FormatFollowUp,
}

/// The target format that is kept for a source format.
pub open spec fn target_kept(source: LyricFormat, target: LyricFormat) -> LyricFormat {
    if source == LyricFormat::Lrc && !is_lrc_target(target) {
        LyricFormat::Lrc
    } else {
        target
    }
}

/// The target format that is chosen in a frame: the one that was clicked where it
/// is offered, and else the one that is kept.
pub open spec fn target_chosen(
    source: LyricFormat,
    target: LyricFormat,
    clicked: Option<LyricFormat>,
    line_timed: bool,
) -> LyricFormat {
    match clicked {
        Some(f) => if is_target(source, line_timed, f) {
            f
        } else {
            target_kept(source, target)
        },
        None => target_kept(source, target),
    }
}

/// What a frame of the toolbar leads to. The source format that was clicked is
/// taken over first. That a target is replaced because LRC lyrics cannot be written
/// in it is by itself no change.
pub open spec fn format_frame(
    source: LyricFormat,
    target: LyricFormat,
    clicked_source: Option<LyricFormat>,
    clicked_target: Option<LyricFormat>,
    line_timed: bool,
    has_text: bool,
) -> FormatStep {
    let s = match clicked_source {
        Some(f) => f,
        None => source,
    };
    let t = target_chosen(s, target, clicked_target, line_timed);
    if s == source && t == target_kept(s, target) {
        FormatStep { source: s, target: t, saved: None, follow_up: FormatFollowUp::Nothing }
    } else {
        FormatStep {
            source: s,
            target: if line_timed {
                LyricFormat::Lrc
            } else {
                t
            },
            saved: Some((s, t)),
            follow_up: if has_text {
                FormatFollowUp::Convert
            } else {
                FormatFollowUp::Clear
            },
        }
    }
}

/// A frame of the toolbar, given the formats before it, those that were clicked,
/// whether only the lines of the lyrics are timed, and whether there is a text.
/// Whatever was clicked: LRC lyrics are then written in a format that they can be
/// written in, and so are lyrics of which the formats have been changed.
pub fn format_step(
    source: LyricFormat,
    target: LyricFormat,
    clicked_source: Option<LyricFormat>,
    clicked_target: Option<LyricFormat>,
    line_timed: bool,
    has_text: bool,
) -> (r: FormatStep)
    ensures
        r == format_frame(source, target, clicked_source, clicked_target, line_timed, has_text),
        r.source == LyricFormat::Lrc ==> is_lrc_target(r.target),
        r.saved is Some ==> is_target(r.source, line_timed, r.target),
{
    let s = match clicked_source {
        Some(f) => f,
        None => source,
    };
    let kept = kept_target(s, target);
    let t = match clicked_target {
        Some(f) => if why_not_target(s, line_timed, f).is_none() {
            f
        } else {
            kept
        },
        None => kept,
    };
    if s == source && t == kept {
        return FormatStep {
            source: s,
            target: t,
            saved: None,
            follow_up: FormatFollowUp::Nothing,
        };
    }
    FormatStep {
        source: s,
        target: target_after_change(line_timed, t),
        saved: Some((s, t)),
        follow_up: if has_text {
            FormatFollowUp::Convert
        } else {
            FormatFollowUp::Clear
        },
    }
}

/// After any frame LRC lyrics have a target among LQE, SPL, LRC and TTML; one
/// outside these has been replaced by LRC unless another was chosen.
pub proof fn law_lrc_keeps_an_lrc_target(
    source: LyricFormat,
    target: LyricFormat,
    clicked_source: Option<LyricFormat>,
    clicked_target: Option<LyricFormat>,
    line_timed: bool,
    has_text: bool,
)
    ensures
        ({
            let r = format_frame(
                source,
                target,
                clicked_source,
                clicked_target,
                line_timed,
                has_text,
            );
            r.source == LyricFormat::Lrc ==> {
                &&& is_lrc_target(r.target)
                &&& !is_lrc_target(target) && clicked_target is None ==> r.target
                    == LyricFormat::Lrc
            }
        }),
{
}

/// A frame in which nothing is clicked changes nothing where the target is one that
/// the lyrics can be written in, and a second such frame never changes anything.
pub proof fn law_idle_frame_changes_nothing(
    source: LyricFormat,
    target: LyricFormat,
    line_timed: bool,
    has_text: bool,
)
    ensures
        ({
            let r = format_frame(source, target, None, None, line_timed, has_text);
            let again = format_frame(r.source, r.target, None, None, line_timed, has_text);
            &&& r.saved is None && r.follow_up == FormatFollowUp::Nothing && r.source == source
            &&& is_target(source, line_timed, target) ==> r.target == target
            &&& again == r
        }),
{
}

/// What the toolbar and the panels offer.
#[derive(Debug, Clone, Copy, PartialEq, Eq, Structural)]
pub struct Offers {
    /// Loading a translation or romanization.
    pub load_lrc: bool,
    /// Saving or copying the output.
    pub use_output: bool,
    /// Converting between Chinese scripts.
    pub convert_chinese: bool,
    /// Sending the output to the player.
    pub send_to_player: bool,
    /// Emptying the lyrics.
    pub clear: bool,
    /// Keeping the output in the local cache.
    pub save_to_cache: bool,
}

/// What the offers depend on.
#[derive(Debug, Clone, Copy, PartialEq, Eq, Structural)]
pub struct OfferState {
    pub has_input: bool,
    pub has_output: bool,
    pub has_parsed_data: bool,
    /// Whether lyrics that have been read have lines.
    pub has_parsed_lines: bool,
    pub converting: bool,
    pub connector_enabled: bool,
    /// Whether it is known what is being played.
    pub has_media_info: bool,
    /// Whether the lyrics were fetched.
    pub was_fetched: bool,
}

/// Says what is offered.
pub fn offers(s: OfferState) -> (r: Offers)
    ensures
        r.load_lrc == ((s.has_parsed_data || s.has_input) && !s.converting),
        r.use_output == (s.has_output && !s.converting),
        r.convert_chinese == (s.has_input || s.has_parsed_lines),
        r.send_to_player == (s.connector_enabled && s.has_output && !s.converting),
        r.clear == (s.has_input || s.has_output),
        r.save_to_cache == (s.has_output && s.has_media_info && s.was_fetched),
{
    Offers {
        load_lrc: (s.has_parsed_data || s.has_input) && !s.converting,
        use_output: s.has_output && !s.converting,
        convert_chinese: s.has_input || s.has_parsed_lines,
        send_to_player: s.connector_enabled && s.has_output && !s.converting,
        clear: s.has_input || s.has_output,
        save_to_cache: s.has_output && s.has_media_info && s.was_fetched,
    }
}

/// What an LRC panel offers.
#[derive(Debug, Clone, Copy, PartialEq, Eq, Structural)]
pub struct LrcOffers {
    pub import: bool,
    pub clear: bool,
    pub copy: bool,
}

/// Says what an LRC panel offers. A romanization is read only beside lyrics that
/// have lines.
pub fn lrc_offers(lyrics: &LyricState, content_type: LrcContentType, has_lines: bool) -> (r:
    LrcOffers)
    ensures
        r == match content_type {
            LrcContentType::Translation => (LrcOffers {
                import: lyrics@.parsed && !lyrics@.converting,
                clear: lyrics@.loaded_translation is Some || !is_blank(lyrics@.translation),
                copy: lyrics@.translation.len() > 0,
            }),
            LrcContentType::Romanization => (LrcOffers {
                import: lyrics@.parsed && has_lines && !lyrics@.converting,
                clear: lyrics@.loaded_romanization is Some || !is_blank(lyrics@.romanization),
                copy: lyrics@.romanization.len() > 0,
            }),
        },
{
    match content_type {
        LrcContentType::Translation => LrcOffers {
            import: lyrics.has_parsed_data && !lyrics.conversion_in_progress,
            clear: lyrics.loaded_translation_lrc.is_some() || !str_is_blank(
                lyrics.display_translation_lrc_output.as_str(),
            ),
            copy: !lyrics.display_translation_lrc_output.as_str().is_empty(),
        },
        LrcContentType::Romanization => LrcOffers {
            import: lyrics.has_parsed_data && has_lines && !lyrics.conversion_in_progress,
            clear: lyrics.loaded_romanization_lrc.is_some() || !str_is_blank(
                lyrics.display_romanization_lrc_output.as_str(),
            ),
            copy: !lyrics.display_romanization_lrc_output.as_str().is_empty(),
        },
    }
}

/// What the search window says beside the songs that were found.
#[derive(Debug, Clone, Copy, PartialEq, Eq, Structural)]
pub enum SearchHint {
    Nothing,
    Searching,
    Downloading,
    NoResults,
}

/// Says what the search window says beside the songs that were found. That
/// nothing was found is said only of a search that was asked for.
pub fn search_hint(lyrics: &LyricState) -> (r: SearchHint)
    ensures
        r == if lyrics@.searching {
            SearchHint::Searching
        } else if lyrics@.downloading {
            SearchHint::Downloading
        } else if lyrics@.results.len() == 0 && lyrics@.query.len() > 0 {
            SearchHint::NoResults
        } else {
            SearchHint::Nothing
        },
{
    if lyrics.search_in_progress {
        SearchHint::Searching
    } else if lyrics.download_in_progress {
        SearchHint::Downloading
    } else if lyrics.search_results.len() == 0 && !lyrics.search_query.as_str().is_empty() {
        SearchHint::NoResults
    } else {
        SearchHint::Nothing
    }
}

impl UiState {
    /// The connector's panel is not shown while the connector is disabled.
    pub fn settle_sidebar(&mut self, connector_enabled: bool)
        ensures
            *final(self) == (UiState {
                show_amll_connector_sidebar: old(self).show_amll_connector_sidebar
                    && connector_enabled,
                ..*old(self)
            }),
    {
        if !connector_enabled {
            self.show_amll_connector_sidebar = false;
        }
    }
}

// ---------------------------------------------------------------------------
// Texts
// ---------------------------------------------------------------------------

/// A line of an LRC text as it is written.
pub open spec fn lrc_line_text(l: LrcLineView) -> Seq<char> {
    match l {
        LrcLineView::Parsed { time_tag, text } => time_tag + (match text {
            Some(t) => t,
            None => Seq::empty(),
        }) + "\n"@,
        LrcLineView::Raw { original_text } => original_text + "\n"@,
    }
}

/// The first `n` lines of an LRC text.
pub open spec fn lrc_text(lines: Seq<LrcLineView>, n: nat) -> Seq<char>
    decreases n,
{
    if n == 0 {
        Seq::empty()
    } else {
        lrc_text(lines, (n - 1) as nat) + lrc_line_text(lines[n - 1])
    }
}

/// Writes an LRC text; it ends in one newline unless it is empty.
pub fn rebuild_lrc(lines: &Vec<LrcLine>) -> (r: String)
    ensures
        r@ == one_newline(lrc_text(lrc_views(lines@), lines@.len())),
{
    let ghost all = lrc_views(lines@);
    let mut out = String::new();
    let mut i: usize = 0;
    while i < lines.len()
        invariant
            i <= lines.len(),
            all == lrc_views(lines@),
            out@ == lrc_text(all, i as nat),
        decreases lines.len() - i,
    {
        let ghost before = out@;
        proof {
            assert(all[i as int] == lines@[i as int]@);
        }
        match &lines[i] {
            LrcLine::Parsed { time_tag, text } => {
                out.append(time_tag.as_str());
                match text {
                    Some(t) => {
                        out.append(t.as_str());
                    },
                    None => {},
                }
            },
            LrcLine::Raw { original_text } => {
                out.append(original_text.as_str());
            },
        }
        out.append("\n");
        proof {
            assert(out@ =~= before + lrc_line_text(all[i as int]));
        }
        i += 1;
    }
    let v = to_chars(out.as_str());
    let newline: [char; 1] = ['\n'];
    proof {
        assert(newline@ =~= seq!['\n']);
    }
    let body = strip_back(v.as_slice(), &newline);
    if body.len() == 0 {
        return String::new();
    }
    let mut text = string_of(body);
    text.append("\n");
    text
}

/// The line for a marker.
pub open spec fn marker_text(m: (nat, Seq<char>)) -> Seq<char> {
    "ASS 行 "@ + dec(m.0) + ": "@ + m.1
}

/// The lines for markers.
pub open spec fn marker_texts(v: Seq<(nat, Seq<char>)>) -> Seq<Seq<char>> {
    Seq::new(v.len(), |i: int| marker_text(v[i]))
}

/// Writes the markers, one on a line.
pub fn markers_text(markers: &Vec<(usize, String)>) -> (r: String)
    ensures
        r@ == join(marker_texts(marker_views(markers@)), "\n"@),
{
    let ghost all = marker_views(markers@);
    let mut list: Vec<String> = Vec::new();
    let mut i: usize = 0;
    while i < markers.len()
        invariant
            i <= markers.len(),
            all == marker_views(markers@),
            list@.len() == i,
            forall|k: int| 0 <= k < i ==> (#[trigger] list@[k])@ == marker_text(all[k]),
        decreases markers.len() - i,
    {
        let mut s = "ASS 行 ".to_owned();
        push_dec(&mut s, markers[i].0 as u64);
        s.append(": ");
        s.append(markers[i].1.as_str());
        proof {
            assert(s@ =~= marker_text(all[i as int]));
        }
        list.push(s);
        i += 1;
    }
    proof {
        assert(views(list@) =~= marker_texts(all));
    }
    join_strings(list.as_slice(), "\n")
}

/// The full label of a song that was found.
pub open spec fn found_label(title: Seq<char>, artists: Seq<Seq<char>>, provider: Seq<char>) -> Seq<
    char,
> {
    title + " - "@ + join(artists, "/"@) + " ("@ + provider + ")"@
}

/// A label as it is shown: one of more than 50 characters is cut.
pub open spec fn shown_label(label: Seq<char>) -> Seq<char> {
    if label.len() > 50 {
        label.subrange(0, 50) + "..."@
    } else {
        label
    }
}

/// The full label of a song that was found.
pub fn search_result_label(found: &SearchResult) -> (r: String)
    ensures
        r@ == found_label(found.title@, views(found.artists@), found.provider_name@),
{
    let mut s = found.title.clone();
    s.append(" - ");
    s.append(join_strings(found.artists.as_slice(), "/").as_str());
    s.append(" (");
    s.append(found.provider_name.as_str());
    s.append(")");
    s
}

/// A label as it is shown.
pub fn shorten_label(label: &str) -> (r: String)
    ensures
        r@ == shown_label(label@),
{
    let v = to_chars(label);
    if v.len() > 50 {
        let mut s = string_of(vstd::slice::slice_subrange(v.as_slice(), 0, 50));
        s.append("...");
        s
    } else {
        label.to_owned()
    }
}

// ---------------------------------------------------------------------------
// The sidebar
// ---------------------------------------------------------------------------

/// The first session at or after `i` with this id, or the number of sessions.
pub open spec fn session_at(sessions: Seq<SessionView>, id: Seq<char>, i: int) -> int
    decreases sessions.len() - i,
{
    if i < 0 || i >= sessions.len() {
        sessions.len() as int
    } else if sessions[i].session_id == id {
        i
    } else {
        session_at(sessions, id, i + 1)
    }
}

/// The label for the session that is followed.
pub open spec fn session_label(selected: Option<Seq<char>>, sessions: Seq<SessionView>) -> Seq<char> {
    match selected {
        Some(id) => {
            let i = session_at(sessions, id, 0);
            if i < sessions.len() {
                sessions[i].display_name
            } else {
                "自动 (选择 '"@ + id + "' 已失效)"@
            }
        },
        None => "自动 (系统默认)"@,
    }
}

/// The label for the session that is followed.
pub fn selected_session_label(selected: &Option<String>, sessions: &Vec<SmtcSessionInfo>) -> (r:
    String)
    ensures
        r@ == session_label(opt_view(*selected), session_views(sessions@)),
{
    let ghost all = session_views(sessions@);
    match selected {
        Some(id) => {
            let mut i: usize = 0;
            while i < sessions.len()
                invariant
                    i <= sessions.len(),
                    all == session_views(sessions@),
                    opt_view(*selected) == Some(id@),
                    session_at(all, id@, 0) == session_at(all, id@, i as int),
                decreases sessions.len() - i,
            {
                proof {
                    assert(all[i as int] == sessions@[i as int]@);
                }
                if sessions[i].session_id == *id {
                    return sessions[i].display_name.clone();
                }
                i += 1;
            }
            let mut s = "自动 (选择 '".to_owned();
            s.append(id.as_str());
            s.append("' 已失效)");
            s
        },
        None => "自动 (系统默认)".to_owned(),
    }
}

/// The text for the state of a search.
pub fn search_status_text(status: &AutoSearchStatus) -> (r: &'static str)
    ensures
        r@ == match *status {
            AutoSearchStatus::NotAttempted => "未尝试"@,
            AutoSearchStatus::Searching => "正在搜索..."@,
            AutoSearchStatus::Success(_) => "已找到"@,
            AutoSearchStatus::NotFound => "未找到"@,
            AutoSearchStatus::Error(_) => "错误"@,
        },
{
    match status {
        AutoSearchStatus::NotAttempted => "未尝试",
        AutoSearchStatus::Searching => "正在搜索...",
        AutoSearchStatus::Success(_) => "已找到",
        AutoSearchStatus::NotFound => "未找到",
        AutoSearchStatus::Error(_) => "错误",
    }
}

/// What tells the image of a cover apart: its hash, or the hash of its first
/// bytes where it has none.
pub open spec fn cover_image_id(hash: Option<u64>, partial_hash: u64) -> Seq<char> {
    match hash {
        Some(h) => "smtc_cover_hash_"@ + dec(h as nat),
        None => "smtc_cover_data_partial_hash_"@ + dec(partial_hash as nat),
    }
}

/// What tells the image of a cover apart. Without a hash it is the hash of its
/// first 16 bytes.
pub fn cover_image_name(hash: Option<u64>, cover: &[u8]) -> (r: String)
    ensures
        r@ == cover_image_id(
            hash,
            crate::amll_connector::smtc_handler::cover_hash(
                if cover@.len() > 16 {
                    cover@.subrange(0, 16)
                } else {
                    cover@
                },
            ),
        ),
{
    match hash {
        Some(h) => {
            let mut s = "smtc_cover_hash_".to_owned();
            push_dec(&mut s, h);
            s
        },
        None => {
            let head = if cover.len() > 16 {
                vstd::slice::slice_subrange(cover, 0, 16)
            } else {
                cover
            };
            let h = crate::amll_connector::smtc_handler::calculate_cover_hash(head);
            let mut s = "smtc_cover_data_partial_hash_".to_owned();
            push_dec(&mut s, h);
            s
        },
    }
}

/// A field of the song, or that it is not known.
pub fn known_or(field: &Option<String>) -> (r: String)
    ensures
        r@ == match opt_view(*field) {
            Some(s) => s,
            None => "未知"@,
        },
{
    match field {
        Some(s) => s.clone(),
        None => "未知".to_owned(),
    }
}

/// The list of providers after one has been ticked or unticked.
pub fn toggle_provider(subset: &mut Vec<String>, name: String, selected: bool)
    ensures
        views(final(subset)@) == if selected {
            views(old(subset)@).push(name@)
        } else {
            without_name(views(old(subset)@), name@)
        },
{
    let ghost all = views(subset@);
    if selected {
        let ghost before = subset@;
        subset.push(name);
        proof {
            assert(views(subset@) =~= views(before).push(name@));
        }
        return ;
    }
    let mut out: Vec<String> = Vec::new();
    proof {
        assert(views(out@) =~= without_name(all.subrange(0, 0), name@));
    }
    let mut i: usize = 0;
    while i < subset.len()
        invariant
            i <= subset.len(),
            all == views(subset@),
            views(out@) == without_name(all.subrange(0, i as int), name@),
        decreases subset.len() - i,
    {
        let ghost before = out@;
        proof {
            let now = all.subrange(0, i + 1);
            assert(now.drop_last() =~= all.subrange(0, i as int));
            assert(now.last() == subset@[i as int]@);
        }
        if subset[i] != name {
            out.push(subset[i].clone());
            proof {
                assert(views(out@) =~= views(before).push(subset@[i as int]@));
            }
        }
        i += 1;
    }
    proof {
        assert(all.subrange(0, i as int) =~= all);
    }
    *subset = out;
}

/// The names without one of them.
pub open spec fn without_name(names: Seq<Seq<char>>, name: Seq<char>) -> Seq<Seq<char>>
    decreases names.len(),
{
    if names.len() == 0 {
        Seq::empty()
    } else if names.last() == name {
        without_name(names.drop_last(), name)
    } else {
        without_name(names.drop_last(), name).push(names.last())
    }
}

/// A provider that has been unticked is not asked.
pub proof fn law_unticked_is_gone(names: Seq<Seq<char>>, name: Seq<char>)
    ensures
        !without_name(names, name).contains(name),
    decreases names.len(),
{
    if names.len() > 0 {
        law_unticked_is_gone(names.drop_last(), name);
        let before = without_name(names.drop_last(), name);
        if names.last() != name {
            let now = before.push(names.last());
            if now.contains(name) {
                let k = choose|k: int| 0 <= k < now.len() && now[k] == name;
                assert(k < before.len());
                assert(before[k] == name);
            }
        }
    }
}

} // verus!
