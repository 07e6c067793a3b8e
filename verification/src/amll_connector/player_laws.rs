//! What the player is shown and told, said of the values that go in and come out.

use vstd::prelude::*;

use super::protocol::{artist_views, lyric_line_views, ClientMessage, LyricLine};
use super::translation::{
    first_preferred, is_duet_line, lemma_singers, lemma_singers_stay, line_of, protocol_lines,
    singers,
};
use super::types::{
    source_views, AMLLConnectorConfig, ConnectorCommand, LyricSection, NowPlayingInfo, SourceLine,
    SourceLineView, TranslationEntry, WebsocketStatus,
};
use super::worker::{
    action_views, after_command, cover_changed, cover_messages, message_views, opt_playing,
    progress_messages, track_messages, track_repaints, url_problem, ActorAction, ActorState,
};
use crate::text::{eq_ignore_case, stands_at};
use crate::types::opt_view;
use super::amll_connector_manager::is_healthy;

verus! {

// ---------------------------------------------------------------------------
// Lines
// ---------------------------------------------------------------------------

/// Whether a translation is in Chinese as it is written on the mainland.
pub open spec fn is_mainland(t: TranslationEntry) -> bool {
    t.lang is Some && eq_ignore_case(t.lang->0@, "zh-CN"@)
}

/// Whether a line of the player shows a section: its times are the section's, each
/// word has the times and the text of its syllable, the translation is the first
/// that is in mainland Chinese, else the first, else empty, and the romanization is
/// the first, else empty.
pub open spec fn shows(line: LyricLine, s: LyricSection) -> bool {
    &&& line.start_time == s.start_ms
    &&& line.end_time == s.end_ms
    &&& line.words@.len() == s.syllables@.len()
    &&& forall|k: int|
        0 <= k < s.syllables@.len() ==> {
            &&& (#[trigger] line.words@[k]).start_time == s.syllables@[k].start_ms
            &&& line.words@[k].end_time == s.syllables@[k].end_ms
            &&& line.words@[k].word.0@ == if s.syllables@[k].ends_with_space {
                s.syllables@[k].text@.push(' ')
            } else {
                s.syllables@[k].text@
            }
        }
    &&& forall|k: int|
        0 <= k < s.translations@.len() && is_mainland(#[trigger] s.translations@[k]) && (forall|
            m: int,
        |
            0 <= m < k ==> !is_mainland(#[trigger] s.translations@[m]))
            ==> line.translated_lyric.0@ == s.translations@[k].text@
    &&& s.translations@.len() > 0 && (forall|k: int|
        0 <= k < s.translations@.len() ==> !is_mainland(#[trigger] s.translations@[k]))
        ==> line.translated_lyric.0@ == s.translations@[0].text@
    &&& s.translations@.len() == 0 ==> line.translated_lyric.0@ == Seq::<char>::empty()
    &&& s.romanizations@.len() > 0 ==> line.roman_lyric.0@ == s.romanizations@[0].text@
    &&& s.romanizations@.len() == 0 ==> line.roman_lyric.0@ == Seq::<char>::empty()
}

/// The number of lines that the player is shown for the first `n` lines: one for
/// the main voice of each and one for each background voice.
pub open spec fn shown_count(source: Seq<SourceLine>, n: nat) -> nat
    decreases n,
{
    if n == 0 {
        0
    } else {
        shown_count(source, (n - 1) as nat) + if source[n - 1].background is Some {
            2nat
        } else {
            1nat
        }
    }
}

/// The lines of the first `n` lines stand in front of those that follow.
proof fn lemma_lines_in_front(lines: Seq<SourceLineView>, n: nat, m: nat)
    requires
        n <= m <= lines.len(),
    ensures
        protocol_lines(lines, n).len() <= protocol_lines(lines, m).len(),
        forall|k: int|
            0 <= k < protocol_lines(lines, n).len() ==> #[trigger] protocol_lines(lines, m)[k]
                == protocol_lines(lines, n)[k],
    decreases m,
{
    if n < m {
        lemma_lines_in_front(lines, n, (m - 1) as nat);
    }
}

/// How many lines there are.
proof fn lemma_shown_count(source: Seq<SourceLine>, n: nat)
    requires
        n <= source.len(),
    ensures
        protocol_lines(source_views(source), n).len() == shown_count(source, n),
    decreases n,
{
    if n > 0 {
        lemma_shown_count(source, (n - 1) as nat);
        assert(source_views(source)[n - 1] == source[n - 1]@);
    }
}

/// Which translation is preferred.
proof fn lemma_first_preferred(v: Seq<(Seq<char>, Option<Seq<char>>)>, i: int)
    requires
        0 <= i <= v.len(),
    ensures
        ({
            let r = first_preferred(v, i);
            &&& i <= r <= v.len()
            &&& r < v.len() ==> v[r].1 is Some && eq_ignore_case(v[r].1->0, "zh-CN"@)
            &&& forall|m: int|
                i <= m < r ==> !((#[trigger] v[m]).1 is Some && eq_ignore_case(
                    v[m].1->0,
                    "zh-CN"@,
                ))
        }),
    decreases v.len() - i,
{
    if i < v.len() {
        lemma_first_preferred(v, i + 1);
    }
}

/// The line of a section shows it.
proof fn lemma_shows(line: LyricLine, s: LyricSection, is_bg: bool, is_duet: bool)
    requires
        line@ == line_of(s@, is_bg, is_duet),
    ensures
        shows(line, s),
        line.is_bg == is_bg,
        line.is_duet == is_duet,
{
    reveal_strlit(" ");
    let v = s@.translations;
    assert(line@.words.len() == line.words@.len());
    assert(s@.syllables.len() == s.syllables@.len());
    lemma_first_preferred(v, 0);
    assert forall|k: int| 0 <= k < s.translations@.len() implies #[trigger] v[k] == (
        s.translations@[k].text@,
        opt_view(s.translations@[k].lang),
    ) by {}
    assert forall|k: int| 0 <= k < s.syllables@.len() implies {
        &&& (#[trigger] line.words@[k]).start_time == s.syllables@[k].start_ms
        &&& line.words@[k].end_time == s.syllables@[k].end_ms
        &&& line.words@[k].word.0@ == if s.syllables@[k].ends_with_space {
            s.syllables@[k].text@.push(' ')
        } else {
            s.syllables@[k].text@
        }
    } by {
        assert(line@.words[k] == line.words@[k]@);
        assert(s@.syllables[k] == s.syllables@[k]@);
        assert(s.syllables@[k].text@ + " "@ =~= s.syllables@[k].text@.push(' '));
    }
    let p = first_preferred(v, 0);
    assert forall|k: int|
        0 <= k < s.translations@.len() && is_mainland(#[trigger] s.translations@[k]) && (forall|
            m: int,
        |
            0 <= m < k ==> !is_mainland(#[trigger] s.translations@[m])) implies line.translated_lyric.0@
        == s.translations@[k].text@ by {
        assert(v[k].1 is Some);
        if p < k {
            assert(is_mainland(s.translations@[p]));
        }
        assert(p == k);
    }
    if s.translations@.len() > 0 && (forall|k: int|
        0 <= k < s.translations@.len() ==> !is_mainland(#[trigger] s.translations@[k])) {
        if p < v.len() {
            assert(is_mainland(s.translations@[p]));
        }
        assert(v[0].0 == s.translations@[0].text@);
    }
    if s.romanizations@.len() > 0 {
        assert(s@.romanizations[0] == s.romanizations@[0].text@);
    }
}

/// For every source line the player is shown a line for its main voice, and behind
/// it one for its background voice where it has one. Each shows its section, and
/// both are on the same side. The lines come in the order of the source, and there
/// are no others.
pub proof fn law_player_shows_every_line(source: Seq<SourceLine>, r: Seq<LyricLine>, i: int)
    requires
        lyric_line_views(r) == protocol_lines(source_views(source), source.len()),
        0 <= i < source.len(),
    ensures
        r.len() == shown_count(source, source.len()),
        ({
            let k = shown_count(source, i as nat) as int;
            &&& k < r.len()
            &&& shows(r[k], source[i].main)
            &&& !r[k].is_bg
            &&& match source[i].background {
                Some(b) => {
                    &&& k + 1 < r.len()
                    &&& shows(r[k + 1], b)
                    &&& r[k + 1].is_bg
                    &&& r[k + 1].is_duet == r[k].is_duet
                },
                None => true,
            }
        }),
{
    let lines = source_views(source);
    let k = shown_count(source, i as nat) as int;
    lemma_shown_count(source, source.len());
    lemma_shown_count(source, i as nat);
    lemma_shown_count(source, (i + 1) as nat);
    lemma_lines_in_front(lines, (i + 1) as nat, source.len());
    assert(lines[i] == source[i]@);
    let now = protocol_lines(lines, (i + 1) as nat);
    assert(now[k] == line_of(source[i].main@, false, is_duet_line(lines, i)));
    assert(lyric_line_views(r)[k] == r[k]@);
    lemma_shows(r[k], source[i].main, false, is_duet_line(lines, i));
    match source[i].background {
        Some(b) => {
            assert(now[k + 1] == line_of(b@, true, is_duet_line(lines, i)));
            assert(lyric_line_views(r)[k + 1] == r[k + 1]@);
            lemma_shows(r[k + 1], b, true, is_duet_line(lines, i));
        },
        None => {},
    }
}

/// Whether a line is sung by nobody in particular: it names no singer, or the
/// chorus.
pub open spec fn names_nobody(l: SourceLine) -> bool {
    l.agent is None || l.agent->0@ == "v1000"@
}

/// Whether the singer of line `i` has not sung before.
pub open spec fn is_newcomer(source: Seq<SourceLine>, i: int) -> bool {
    &&& !names_nobody(source[i])
    &&& forall|m: int|
        0 <= m < i ==> names_nobody(#[trigger] source[m]) || source[m].agent->0@
            != source[i].agent->0@
}

/// The side of the main line.
proof fn lemma_side(source: Seq<SourceLine>, r: Seq<LyricLine>, i: int)
    requires
        lyric_line_views(r) == protocol_lines(source_views(source), source.len()),
        0 <= i < source.len(),
    ensures
        r[shown_count(source, i as nat) as int].is_duet == is_duet_line(source_views(source), i),
        shown_count(source, i as nat) < r.len(),
{
    let lines = source_views(source);
    let k = shown_count(source, i as nat) as int;
    law_player_shows_every_line(source, r, i);
    lemma_shown_count(source, i as nat);
    lemma_shown_count(source, (i + 1) as nat);
    lemma_lines_in_front(lines, (i + 1) as nat, source.len());
    assert(lines[i] == source[i]@);
    assert(protocol_lines(lines, (i + 1) as nat)[k] == line_of(
        source[i].main@,
        false,
        is_duet_line(lines, i),
    ));
    assert(lyric_line_views(r)[k] == r[k]@);
}

/// The lines that name no singer or the chorus are on the first side, and so is the
/// singer who sings first. A singer who comes in later takes the other side than
/// the one who came in last, and every singer stays on one side.
pub proof fn law_singers_take_sides(source: Seq<SourceLine>, r: Seq<LyricLine>, i: int, j: int)
    requires
        lyric_line_views(r) == protocol_lines(source_views(source), source.len()),
        0 <= i < source.len(),
        0 <= j < source.len(),
    ensures
        ({
            let at_i = r[shown_count(source, i as nat) as int];
            let at_j = r[shown_count(source, j as nat) as int];
            &&& names_nobody(source[i]) ==> !at_i.is_duet
            &&& is_newcomer(source, i) && (forall|m: int|
                0 <= m < i ==> names_nobody(#[trigger] source[m])) ==> !at_i.is_duet
            &&& j < i && is_newcomer(source, i) && is_newcomer(source, j) && (forall|m: int|
                j < m < i ==> !is_newcomer(source, m)) ==> at_i.is_duet == !at_j.is_duet
            &&& j < i && is_newcomer(source, j) && source[i].agent is Some
                && source[i].agent->0@ == source[j].agent->0@ ==> at_i.is_duet == at_j.is_duet
        }),
{
    let lines = source_views(source);
    lemma_side(source, r, i);
    lemma_side(source, r, j);
    assert(lines[i] == source[i]@);
    assert(lines[j] == source[j]@);
    if is_newcomer(source, i) {
        lemma_newcomer(source, i);
        if forall|m: int| 0 <= m < i ==> names_nobody(#[trigger] source[m]) {
            lemma_nobody_listed(source, i as nat);
        }
        if j < i && is_newcomer(source, j) && (forall|m: int|
            j < m < i ==> !is_newcomer(source, m)) {
            lemma_newcomer(source, j);
            lemma_no_newcomer(source, (j + 1) as nat, i as nat);
        }
    }
    if j < i && is_newcomer(source, j) && source[i].agent is Some && source[i].agent->0@
        == source[j].agent->0@ {
        lemma_newcomer(source, j);
        lemma_singers_stay(lines, (j + 1) as nat, (i + 1) as nat);
        lemma_singers(lines, (i + 1) as nat);
        let name = source[j].agent->0@;
        let all = singers(lines, (i + 1) as nat);
        let k = (singers(lines, (j + 1) as nat).len() - 1) as int;
        assert(singers(lines, (j + 1) as nat)[k] == name);
        assert(all[k] == name);
        assert(all.index_of(name) == k);
    }
}

/// A newcomer is listed last.
proof fn lemma_newcomer(source: Seq<SourceLine>, i: int)
    requires
        0 <= i < source.len(),
        is_newcomer(source, i),
    ensures
        ({
            let before = singers(source_views(source), i as nat);
            let now = singers(source_views(source), (i + 1) as nat);
            &&& now == before.push(source[i].agent->0@)
            &&& now.index_of(source[i].agent->0@) == before.len()
        }),
{
    let lines = source_views(source);
    let name = source[i].agent->0@;
    assert(lines[i] == source[i]@);
    lemma_listed(source, i as nat, name);
    lemma_singers(lines, (i + 1) as nat);
    let now = singers(lines, (i + 1) as nat);
    assert(now[now.len() - 1] == name);
}

/// Who is listed has sung.
proof fn lemma_listed(source: Seq<SourceLine>, n: nat, name: Seq<char>)
    requires
        n <= source.len(),
        forall|m: int|
            0 <= m < n ==> names_nobody(#[trigger] source[m]) || source[m].agent->0@ != name,
    ensures
        !singers(source_views(source), n).contains(name),
    decreases n,
{
    let lines = source_views(source);
    if n > 0 {
        lemma_listed(source, (n - 1) as nat, name);
        assert(lines[n - 1] == source[n - 1]@);
        assert(names_nobody(source[n - 1]) || source[n - 1].agent->0@ != name);
    }
}

/// Nobody is listed where nobody has sung.
proof fn lemma_nobody_listed(source: Seq<SourceLine>, n: nat)
    requires
        n <= source.len(),
        forall|m: int| 0 <= m < n ==> names_nobody(#[trigger] source[m]),
    ensures
        singers(source_views(source), n).len() == 0,
    decreases n,
{
    if n > 0 {
        lemma_nobody_listed(source, (n - 1) as nat);
        assert(source_views(source)[n - 1] == source[n - 1]@);
        assert(names_nobody(source[n - 1]));
    }
}

/// The list stays as it is while nobody comes in.
proof fn lemma_no_newcomer(source: Seq<SourceLine>, n: nat, m: nat)
    requires
        n <= m <= source.len(),
        forall|k: int| n <= k < m ==> !is_newcomer(source, k),
    ensures
        singers(source_views(source), m) == singers(source_views(source), n),
    decreases m,
{
    let lines = source_views(source);
    if n < m {
        lemma_no_newcomer(source, n, (m - 1) as nat);
        assert(lines[m - 1] == source[m - 1]@);
        assert(!is_newcomer(source, m - 1));
        if !names_nobody(source[m - 1]) {
            let k = choose|k: int|
                0 <= k < m - 1 && !(names_nobody(#[trigger] source[k]) || source[k].agent->0@
                    != source[m - 1].agent->0@);
            lemma_sings(source, (m - 1) as nat, k);
        }
    }
}

/// A singer who has sung is listed.
proof fn lemma_sings(source: Seq<SourceLine>, n: nat, j: int)
    requires
        n <= source.len(),
        0 <= j < n,
        !names_nobody(source[j]),
    ensures
        singers(source_views(source), n).contains(source[j].agent->0@),
    decreases n,
{
    let lines = source_views(source);
    let name = source[j].agent->0@;
    assert(lines[n - 1] == source[n - 1]@);
    let before = singers(lines, (n - 1) as nat);
    let now = singers(lines, n);
    if j == n - 1 {
        if !before.contains(name) {
            assert(now[now.len() - 1] == name);
        }
    } else {
        lemma_sings(source, (n - 1) as nat, j);
        let k = choose|k: int| 0 <= k < before.len() && before[k] == name;
        assert(now[k] == name);
    }
}

// ---------------------------------------------------------------------------
// Reports
// ---------------------------------------------------------------------------

/// Whether a message says that playing has stopped.
pub open spec fn pauses(r: Seq<ClientMessage>) -> bool {
    exists|k: int| 0 <= k < r.len() && #[trigger] r[k] is OnPaused
}

/// Whether a message says that playing goes on.
pub open spec fn resumes(r: Seq<ClientMessage>) -> bool {
    exists|k: int| 0 <= k < r.len() && #[trigger] r[k] is OnResumed
}

/// The messages and their views.
proof fn lemma_messages(r: Seq<ClientMessage>)
    ensures
        message_views(r).len() == r.len(),
        forall|k: int|
            0 <= k < r.len() ==> {
                &&& (#[trigger] r[k]) is OnPaused <==> message_views(r)[k] is OnPaused
                &&& r[k] is OnResumed <==> message_views(r)[k] is OnResumed
                &&& message_views(r)[k] == r[k]@
            },
{
}

/// Whether playing is said to be on or off by the report and not by the one before.
pub open spec fn turns(info: NowPlayingInfo, last: Option<NowPlayingInfo>, playing: bool) -> bool {
    &&& info.is_playing == Some(playing)
    &&& match last {
        Some(l) => l.is_playing != Some(playing),
        None => true,
    }
}

/// Whether a report brings a cover that is not empty and that the one before did
/// not bring.
pub open spec fn brings_cover(info: NowPlayingInfo, last: Option<NowPlayingInfo>) -> bool {
    &&& info.cover_data is Some
    &&& info.cover_data->0@.len() > 0
    &&& match last {
        Some(l) => l.cover_data is None || l.cover_data->0@ != info.cover_data->0@,
        None => true,
    }
}

/// The messages on a song that the player knows: a cover where it is another one
/// than before, then whether the song has been paused or goes on, each where the
/// report before did not say so, and last the position where it is known. There are
/// no others.
pub proof fn law_known_song_is_reported(
    info: NowPlayingInfo,
    last: Option<NowPlayingInfo>,
    r: Seq<ClientMessage>,
)
    requires
        message_views(r) == progress_messages(info@, opt_playing(last)),
    ensures
        pauses(r) <==> turns(info, last, false),
        resumes(r) <==> turns(info, last, true),
        ({
            let cover: int = if brings_cover(info, last) {
                1
            } else {
                0
            };
            let state: int = if turns(info, last, false) || turns(info, last, true) {
                1
            } else {
                0
            };
            let position: int = if info.position_ms is Some {
                1
            } else {
                0
            };
            &&& r.len() == cover + state + position
            &&& cover == 1 ==> r[0] is SetMusicAlbumCoverImageData
                && r[0]->SetMusicAlbumCoverImageData_data@ == info.cover_data->0@
            &&& turns(info, last, false) ==> r[cover] is OnPaused
            &&& turns(info, last, true) ==> r[cover] is OnResumed
            &&& position == 1 ==> r.last() is OnPlayProgress && r.last()->progress
                == info.position_ms->0
        }),
{
    lemma_messages(r);
    let v = message_views(r);
    let cover: int = if brings_cover(info, last) {
        1
    } else {
        0
    };
    assert(cover == 1 <==> cover_changed(info@, opt_playing(last)) && cover_messages(
        info@.cover_data,
    ).len() > 0);
    if cover == 1 {
        assert(v[0] == r[0]@);
    }
    if turns(info, last, false) || turns(info, last, true) {
        assert(v[cover] == r[cover]@);
    }
    if info.position_ms is Some {
        assert(v[v.len() - 1] == r[r.len() - 1]@);
    }
    assert forall|k: int| 0 <= k < r.len() && #[trigger] r[k] is OnPaused implies turns(
        info,
        last,
        false,
    ) by {
        assert(v[k] is OnPaused);
    }
    assert forall|k: int| 0 <= k < r.len() && #[trigger] r[k] is OnResumed implies turns(
        info,
        last,
        true,
    ) by {
        assert(v[k] is OnResumed);
    }
}

/// Whether two reports are about the same song.
pub open spec fn same_song(a: NowPlayingInfo, b: NowPlayingInfo) -> bool {
    opt_view(a.title) == opt_view(b.title) && opt_view(a.artist) == opt_view(b.artist)
}

/// A song that was reported as playing and is then reported as not playing is
/// paused and not resumed, and one that was reported as not playing and is then
/// reported as playing is resumed and not paused. A song that stays as it was is
/// neither paused nor resumed.
pub proof fn law_pause_and_resume(
    s: ActorState,
    first: NowPlayingInfo,
    second: NowPlayingInfo,
    r: Seq<ClientMessage>,
)
    requires
        s.has_client,
        opt_playing(s.last_track_info) == Some(first@),
        same_song(first, second),
        message_views(r) == track_messages(s@, second@),
    ensures
        first.is_playing == Some(true) && second.is_playing == Some(false) ==> pauses(r)
            && !resumes(r),
        first.is_playing == Some(false) && second.is_playing == Some(true) ==> resumes(r)
            && !pauses(r),
        first.is_playing == second.is_playing ==> !resumes(r) && !pauses(r),
        second.is_playing is None ==> !resumes(r) && !pauses(r),
        forall|k: int| 0 <= k < r.len() ==> !(#[trigger] r[k] is SetMusicInfo),
{
    law_known_song_is_reported(second, Some(first), r);
    lemma_messages(r);
    assert forall|k: int| 0 <= k < r.len() implies !(#[trigger] r[k] is SetMusicInfo) by {
        assert(message_views(r)[k] == r[k]@);
    }
}

/// Where another song is reported than before, or the first one, the player is
/// told its title, artist, album and duration, each empty where it is not known,
/// and then its cover where it has one. There are no other messages, and none at
/// all where there is no client.
pub proof fn law_new_song_is_announced(
    s: ActorState,
    info: NowPlayingInfo,
    r: Seq<ClientMessage>,
)
    requires
        message_views(r) == track_messages(s@, info@),
    ensures
        !s.has_client ==> r.len() == 0,
        s.has_client && (s.last_track_info is None || !same_song(s.last_track_info->0, info)) ==> {
            &&& r.len() == if info.cover_data is Some && info.cover_data->0@.len() > 0 {
                2int
            } else {
                1
            }
            &&& r[0] is SetMusicInfo
            &&& r[0]->music_name.0@ == (if info.title is Some {
                info.title->0@
            } else {
                Seq::empty()
            })
            &&& r[0]->album_name.0@ == (if info.album_title is Some {
                info.album_title->0@
            } else {
                Seq::empty()
            })
            &&& r[0]->artists@.len() == (if info.artist is Some {
                1int
            } else {
                0
            })
            &&& info.artist is Some ==> r[0]->artists@[0].name.0@ == info.artist->0@
            &&& r[0]->duration == (if info.duration_ms is Some {
                info.duration_ms->0
            } else {
                0
            })
            &&& r.len() == 2 ==> r[1] is SetMusicAlbumCoverImageData
                && r[1]->SetMusicAlbumCoverImageData_data@ == info.cover_data->0@
        },
{
    lemma_messages(r);
    if s.has_client && (s.last_track_info is None || !same_song(s.last_track_info->0, info)) {
        let v = message_views(r);
        assert(v[0] == r[0]@);
        if r.len() == 2 {
            assert(v[1] == r[1]@);
        }
        let list = r[0]->artists@;
        assert(artist_views(list).len() == list.len());
        if info.artist is Some {
            assert(artist_views(list)[0] == list[0]@);
        }
    }
}

// ---------------------------------------------------------------------------
// Commands
// ---------------------------------------------------------------------------

/// Whether an address is one of a WebSocket server.
pub open spec fn is_websocket_url(url: Seq<char>) -> bool {
    ||| exists|rest: Seq<char>| url == #[trigger] ("ws://"@ + rest)
    ||| exists|rest: Seq<char>| url == #[trigger] ("wss://"@ + rest)
}

/// An address is good exactly where it begins with `ws://` or `wss://`, and what is
/// said of a bad one tells an empty address from the others, which it names.
pub proof fn law_websocket_url(url: Seq<char>)
    ensures
        url_problem(url) is None <==> is_websocket_url(url),
        url.len() == 0 ==> url_problem(url) == Some("WebSocket URL 不能为空"@),
        url.len() > 0 && !is_websocket_url(url) ==> url_problem(url) == Some(
            "无效的 WebSocket URL 格式: "@ + url,
        ),
{
    reveal_strlit("ws://");
    reveal_strlit("wss://");
    if stands_at(url, "ws://"@, 0) {
        let rest = url.subrange(5, url.len() as int);
        assert(url =~= "ws://"@ + rest);
    }
    if stands_at(url, "wss://"@, 0) {
        let rest = url.subrange(6, url.len() as int);
        assert(url =~= "wss://"@ + rest);
    }
    if exists|rest: Seq<char>| url == #[trigger] ("ws://"@ + rest) {
        let rest = choose|rest: Seq<char>| url == #[trigger] ("ws://"@ + rest);
        assert(url.subrange(0, 5) =~= "ws://"@);
        assert(stands_at(url, "ws://"@, 0));
    }
    if exists|rest: Seq<char>| url == #[trigger] ("wss://"@ + rest) {
        let rest = choose|rest: Seq<char>| url == #[trigger] ("wss://"@ + rest);
        assert(url.subrange(0, 6) =~= "wss://"@);
        assert(stands_at(url, "wss://"@, 0));
    }
}

/// What the application asks to be sent is sent, as one message, where there is a
/// client, and changes nothing of what the connector knows. A cover that is empty is
/// not sent.
pub proof fn law_commands_send(
    s: ActorState,
    command: ConnectorCommand,
    running: bool,
    r: Seq<ActorAction>,
)
    requires
        action_views(r) == after_command(s@, command, running).1,
        command is SendLyric || command is SendClientMessage || command is SendCover,
    ensures
        after_command(s@, command, running).0 == s@,
        !s.has_client ==> r.len() == 0,
        s.has_client ==> match command {
            ConnectorCommand::SendLyric(lines) => {
                &&& r.len() == 1
                &&& r[0] is Send
                &&& r[0]->Send_0 is SetLyric
                &&& lyric_line_views(r[0]->Send_0->SetLyric_data@) == protocol_lines(
                    source_views(lines@),
                    lines@.len(),
                )
            },
            ConnectorCommand::SendClientMessage(m) => {
                &&& r.len() == 1
                &&& r[0] is Send
                &&& r[0]->Send_0@ == m@
            },
            ConnectorCommand::SendCover(data) => {
                &&& data@.len() == 0 ==> r.len() == 0
                &&& data@.len() > 0 ==> {
                    &&& r.len() == 1
                    &&& r[0] is Send
                    &&& r[0]->Send_0 is SetMusicAlbumCoverImageData
                    &&& r[0]->Send_0->SetMusicAlbumCoverImageData_data@ == data@
                }
            },
            _ => true,
        },
{
    let v = action_views(r);
    assert(v.len() == r.len());
    if r.len() > 0 {
        assert(v[0] == r[0]@);
    }
}

/// A new configuration is kept. An enabled connector has a client for the new
/// address afterwards exactly where the address is good: the running client where
/// the address is the same, else one that is started after the old one has been
/// stopped. A connector that is not enabled stops the client that runs.
pub proof fn law_configuration(
    s: ActorState,
    c: AMLLConnectorConfig,
    running: bool,
    r: Seq<ActorAction>,
)
    requires
        action_views(r) == after_command(s@, ConnectorCommand::UpdateConfig(c), running).1,
    ensures
        ({
            let next = after_command(s@, ConnectorCommand::UpdateConfig(c), running).0;
            let kept = s.has_client && running && c.websocket_url@ == s.config.websocket_url@;
            let had: int = if s.has_client {
                1
            } else {
                0
            };
            &&& next.enabled == c.enabled
            &&& next.url == c.websocket_url@
            &&& next.last_track == s@.last_track
            &&& next.actor_settings == s.actor_settings
            &&& c.enabled && kept ==> r.len() == 0 && next.has_client
            &&& c.enabled && !kept ==> {
                &&& r.len() == had + 1
                &&& s.has_client ==> r[0] is StopClient
                &&& next.has_client == is_websocket_url(c.websocket_url@)
                &&& is_websocket_url(c.websocket_url@) ==> r.last() is StartClient
                    && r.last()->StartClient_0@ == c.websocket_url@
                &&& !is_websocket_url(c.websocket_url@) ==> r.last() is ReportDisconnected
            }
            &&& !c.enabled && s.has_client && running ==> {
                &&& r.len() == 1
                &&& r[0] is StopClient
                &&& !next.has_client
            }
            &&& !c.enabled && !(s.has_client && running) ==> r.len() == 0
        }),
{
    law_websocket_url(c.websocket_url@);
    let v = action_views(r);
    assert(v.len() == r.len());
    if r.len() > 0 {
        assert(v[0] == r[0]@);
        assert(v[v.len() - 1] == r[r.len() - 1]@);
    }
}

/// To disconnect and to shut down both stop the client that there is. After the one
/// it is reported that there is no connection, after the other the connector ends.
pub proof fn law_client_is_stopped(
    s: ActorState,
    command: ConnectorCommand,
    running: bool,
    r: Seq<ActorAction>,
)
    requires
        action_views(r) == after_command(s@, command, running).1,
        command is DisconnectWebsocket || command is Shutdown,
    ensures
        ({
            let next = after_command(s@, command, running).0;
            &&& !next.has_client
            &&& next.enabled == s.config.enabled
            &&& next.url == s.config.websocket_url@
            &&& r.len() == if s.has_client {
                2int
            } else {
                1
            }
            &&& s.has_client ==> r[0] is StopClient
            &&& command is DisconnectWebsocket ==> r.last() is ReportDisconnected
            &&& command is Shutdown ==> r.last() is Exit
        }),
{
    let v = action_views(r);
    assert(v.len() == r.len());
    assert(v[0] == r[0]@);
    assert(v[v.len() - 1] == r[r.len() - 1]@);
}

/// What is shown changes with a report of another song, and where there is a client with
/// another cover or with a song that starts or stops.
pub proof fn law_report_is_shown(s: ActorState, info: NowPlayingInfo)
    ensures
        ({
            let last = s.last_track_info;
            let new = last is None || !same_song(last->0, info);
            let covered = info.cover_data is Some && (last is None || last->0.cover_data is None
                || last->0.cover_data->0@ != info.cover_data->0@);
            let turned = if last is Some {
                info.is_playing != last->0.is_playing
            } else {
                info.is_playing is Some
            };
            track_repaints(s@, info@) <==> new || (s.has_client && (covered || turned))
        }),
{
}

/// A connection is healthy where it is there or being made.
pub proof fn law_healthy(status: WebsocketStatus)
    ensures
        is_healthy(status) <==> status is Connected || status is Connecting,
{
}

} // verus!
