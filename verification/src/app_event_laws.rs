//! What the application makes of a report about what the system plays.

use vstd::prelude::*;

use crate::amll_connector::amll_connector_manager::{
    first_commands, simulated_position, tick_messages, StartView,
};
use crate::amll_connector::player_laws::{pauses, resumes, same_song};
use crate::amll_connector::protocol::{artist_views, ClientMessage};
use crate::amll_connector::types::NowPlayingInfo;
use crate::amll_connector::worker::message_views;
use crate::app_events::{
    adjusted_position, after_report, alphanumeric, cache_file_name, cached_artists, is_name_char,
    name_chars, normalized, report_messages, server_updates, split_artist, starts_search,
    trimmed_all, PlayerState, ServerUpdate,
};
use crate::text::{dec, is_blank, join, split_any, split_str, stands_at, trim};
use crate::text_laws::{law_not_split, law_split, law_split_text};
use crate::types::opt_view;

verus! {

// ---------------------------------------------------------------------------
// Artist, album and position
// ---------------------------------------------------------------------------

/// A text without the dash holds no separator.
proof fn lemma_no_dash(s: Seq<char>, i: int)
    requires
        0 <= i,
        i + 1 < s.len() ==> s[i + 1] != '—',
    ensures
        !stands_at(s, " — "@, i),
{
    reveal_strlit(" — ");
    if stands_at(s, " — "@, i) {
        assert(s.subrange(i, i + 3)[1] == " — "@[1]);
    }
}

/// Where a player reports artist and album together with a dash between them, the
/// first is the artist and the second the album, without the white space round
/// them. Without a dash there is an artist and no album.
pub proof fn law_artist_and_album(a: Seq<char>, b: Seq<char>)
    requires
        forall|k: int| 0 <= k < a.len() ==> #[trigger] a[k] != '—',
        forall|k: int| 0 <= k < b.len() ==> #[trigger] b[k] != '—',
        trim(a).len() > 0,
    ensures
        split_artist(Some(a + " — "@ + b)) == (
            Some(trim(a)),
            if trim(b).len() > 0 {
                Some(trim(b))
            } else {
                None
            },
        ),
        split_artist(Some(a)) == (Some(trim(a)), None::<Seq<char>>),
        split_artist(None) == (None::<Seq<char>>, None::<Seq<char>>),
{
    reveal_strlit(" — ");
    let sep = " — "@;
    let s = a + sep + b;
    assert forall|i: int| 0 <= i < a.len() implies !stands_at(s, sep, i) by {
        if i + 1 < a.len() {
            assert(s[i + 1] == a[i + 1]);
        } else {
            assert(s[i + 1] == sep[0]);
        }
        lemma_no_dash(s, i);
    }
    law_split_text(a, sep, b);
    assert forall|i: int| 0 <= i < b.len() implies !stands_at(b, sep, i) by {
        lemma_no_dash(b, i);
    }
    law_not_split(b, sep);
    assert forall|i: int| 0 <= i < a.len() implies !stands_at(a, sep, i) by {
        lemma_no_dash(a, i);
    }
    law_not_split(a, sep);
    assert(split_str(s, sep) =~= seq![a, b]);
    let parts = trimmed_all(split_str(s, sep));
    assert(parts =~= seq![trim(a), trim(b)]);
    assert(parts.subrange(1, 2) =~= seq![trim(b)]);
    assert(join(seq![trim(b)], sep) == trim(b));
    let one = trimmed_all(split_str(a, sep));
    assert(one =~= seq![trim(a)]);
    assert(one.subrange(1, 1) =~= Seq::<Seq<char>>::empty());
    assert(join(Seq::<Seq<char>>::empty(), sep) =~= Seq::<char>::empty());
}

/// Whatever stands behind the first dash is the album: its parts between dashes, each
/// without the white space round it, with the dashes between them again. Where nothing
/// stands before the dash, the text is the artist as it is.
pub proof fn law_artist_and_rest(a: Seq<char>, b: Seq<char>)
    requires
        forall|k: int| 0 <= k < a.len() ==> #[trigger] a[k] != '—',
    ensures
        trim(a).len() == 0 ==> split_artist(Some(a + " — "@ + b)) == (
            Some(a + " — "@ + b),
            None::<Seq<char>>,
        ),
        trim(a).len() > 0 ==> {
            let r = split_artist(Some(a + " — "@ + b));
            let album = join(trimmed_all(split_str(b, " — "@)), " — "@);
            &&& r.0 == Some(trim(a))
            &&& album.len() > 0 ==> r.1 == Some(album)
            &&& album.len() == 0 ==> r.1 is None
        },
{
    reveal_strlit(" — ");
    let sep = " — "@;
    let s = a + sep + b;
    assert forall|i: int| 0 <= i < a.len() implies !stands_at(s, sep, i) by {
        if i + 1 < a.len() {
            assert(s[i + 1] == a[i + 1]);
        } else {
            assert(s[i + 1] == sep[0]);
        }
        lemma_no_dash(s, i);
    }
    law_split_text(a, sep, b);
    let parts = trimmed_all(split_str(s, sep));
    assert(parts[0] == trim(a));
    assert(parts.subrange(1, parts.len() as int) =~= trimmed_all(split_str(b, sep)));
}

/// The position that counts is the one that is reported, less the offset, but not
/// before the start of the song and not behind its end.
pub proof fn law_adjusted_position(position: u64, offset: i64, duration: Option<u64>)
    requires
        position <= i64::MAX,
        duration is Some ==> duration->0 <= i64::MAX,
    ensures
        ({
            let r = adjusted_position(position, offset, duration);
            &&& r >= 0
            &&& duration is Some && duration->0 > 0 ==> r <= duration->0
            &&& position < offset ==> r == 0
            &&& position >= offset && (duration is None || duration->0 == 0 || position - offset
                <= duration->0) ==> r == position - offset
            &&& duration is Some && duration->0 > 0 && position - offset > duration->0 ==> r
                == duration->0
        }),
{
}

/// A report that is brought into shape keeps its title, duration, cover and whether
/// the song plays. Its album is its own, or the one found in the artist where it has
/// none.
pub proof fn law_report_in_shape(info: NowPlayingInfo, offset: i64, now: u64)
    ensures
        ({
            let r = normalized(info@, offset, now);
            let (artist, album) = split_artist(opt_view(info.artist));
            &&& r.title == opt_view(info.title)
            &&& r.artist == artist
            &&& r.duration_ms == info.duration_ms
            &&& r.is_playing == info.is_playing
            &&& r.is_shuffle_active == info.is_shuffle_active
            &&& r.repeat_mode == info.repeat_mode
            &&& r.cover_data == info@.cover_data
            &&& r.cover_data_hash == info.cover_data_hash
            &&& info.album_title is Some && info.album_title->0@.len() > 0 ==> r.album_title
                == Some(info.album_title->0@)
            &&& info.album_title is None ==> r.album_title == album
            &&& album is Some && info.album_title is Some && info.album_title->0@.len() == 0
                ==> r.album_title == album
            &&& r.position_ms is Some <==> info.position_ms is Some
            &&& info.position_ms is Some ==> r.position_ms == Some(
                adjusted_position(info.position_ms->0, offset, info.duration_ms) as u64,
            )
            &&& r.position_report_time == (if info.position_report_time is Some {
                info.position_report_time
            } else {
                Some(now)
            })
        }),
{
}

// ---------------------------------------------------------------------------
// Reports
// ---------------------------------------------------------------------------

/// Whether what a report says of a song differs from what was known of it.
pub open spec fn says_more(info: NowPlayingInfo, last: Option<NowPlayingInfo>) -> bool {
    ||| last is None
    ||| !same_song(last->0, info)
    ||| opt_view(last->0.album_title) != opt_view(info.album_title)
    ||| last->0.duration_ms != info.duration_ms
}

/// Whether a report comes with another cover.
pub open spec fn other_cover(info: NowPlayingInfo, last: Option<NowPlayingInfo>) -> bool {
    if last is Some {
        last->0.cover_data_hash != info.cover_data_hash
    } else {
        info.cover_data_hash is Some
    }
}

/// What the player is told after a report: the song's data where they are new, then
/// that it goes on where it plays and did not before, or that it is paused where it
/// does not play and did before, with the position, and then the cover where it is
/// another one. There are no other messages.
pub proof fn law_report_is_passed_on(p: PlayerState, info: NowPlayingInfo, r: Seq<ClientMessage>)
    requires
        message_views(r) == report_messages(p@, info@),
    ensures
        ({
            let last = p.last_true_info;
            let plays = info.is_playing == Some(true);
            let played = p.is_currently_playing_sensed_by_smtc;
            let told: int = if says_more(info, last) {
                1
            } else {
                0
            };
            let turned: int = if plays != played {
                2
            } else {
                0
            };
            let covered: int = if other_cover(info, last) {
                1
            } else {
                0
            };
            &&& pauses(r) <==> played && !plays
            &&& resumes(r) <==> plays && !played
            &&& r.len() == told + turned + covered
            &&& told == 1 ==> {
                &&& r[0] is SetMusicInfo
                &&& info.title is Some ==> r[0]->music_name.0@ == info.title->0@
                &&& info.title is None ==> r[0]->music_name.0@.len() == 0
                &&& info.album_title is Some ==> r[0]->album_name.0@ == info.album_title->0@
                &&& info.artist is Some ==> r[0]->artists@.len() == 1 && r[0]->artists@[0].name.0@
                    == info.artist->0@
                &&& info.artist is None ==> r[0]->artists@.len() == 0
                &&& info.duration_ms is Some ==> r[0]->duration == info.duration_ms->0
            }
            &&& plays && !played ==> r[told] is OnResumed
            &&& played && !plays ==> r[told] is OnPaused
            &&& turned == 2 ==> r[told + 1] is OnPlayProgress && r[told + 1]->progress == (
            if info.position_ms is Some {
                info.position_ms->0
            } else {
                0
            })
            &&& covered == 1 ==> {
                &&& r.last() is SetMusicAlbumCoverImageData
                &&& info.cover_data is Some ==> r.last()->SetMusicAlbumCoverImageData_data@
                    == info.cover_data->0@
                &&& info.cover_data is None
                    ==> r.last()->SetMusicAlbumCoverImageData_data@.len() == 0
            }
        }),
{
    let v = message_views(r);
    let last = p.last_true_info;
    let plays = info.is_playing == Some(true);
    let played = p.is_currently_playing_sensed_by_smtc;
    let told: int = if says_more(info, last) {
        1
    } else {
        0
    };
    assert(v.len() == r.len());
    assert forall|k: int| 0 <= k < r.len() implies v[k] == (#[trigger] r[k])@ by {}
    if told == 1 {
        assert(v[0] == r[0]@);
        let list = r[0]->artists@;
        assert(artist_views(list).len() == list.len());
        if info.artist is Some {
            assert(artist_views(list)[0] == list[0]@);
        }
    }
    if plays != played {
        assert(v[told] == r[told]@);
        assert(v[told + 1] == r[told + 1]@);
    }
    if other_cover(info, last) {
        assert(v[v.len() - 1] == r[r.len() - 1]@);
    }
    assert forall|k: int| 0 <= k < r.len() && #[trigger] r[k] is OnPaused implies played
        && !plays by {
        assert(v[k] is OnPaused);
    }
    assert forall|k: int| 0 <= k < r.len() && #[trigger] r[k] is OnResumed implies plays
        && !played by {
        assert(v[k] is OnResumed);
    }
}

/// What is known after a report: what it says, with the position, the duration and
/// whether the song plays. Its position counts from the time of the report, or from
/// that of the report before where the song plays on and the position is the same.
pub proof fn law_report_is_kept(p: PlayerState, info: NowPlayingInfo)
    ensures
        ({
            let q = after_report(p@, info@);
            let last = p.last_true_info;
            let stuck = last is Some && info.is_playing == Some(true) && last->0.is_playing == Some(
                true,
            ) && info.position_ms is Some && last->0.position_ms == info.position_ms;
            &&& q.last_true is Some
            &&& q.current == q.last_true
            &&& q.last_true->0.title == opt_view(info.title)
            &&& q.last_true->0.artist == opt_view(info.artist)
            &&& q.last_true->0.album_title == opt_view(info.album_title)
            &&& q.last_true->0.duration_ms == info.duration_ms
            &&& q.last_true->0.position_ms == info.position_ms
            &&& q.last_true->0.is_playing == info.is_playing
            &&& q.last_true->0.cover_data_hash == info.cover_data_hash
            &&& q.last_true->0.position_report_time == q.report_time
            &&& info.position_ms is Some ==> q.position == info.position_ms->0
            &&& info.position_ms is None ==> q.position == 0
            &&& info.duration_ms is Some ==> q.duration == info.duration_ms->0
            &&& info.duration_ms is None ==> q.duration == 0
            &&& q.playing == (info.is_playing == Some(true))
            &&& stuck ==> q.report_time == last->0.position_report_time
            &&& !stuck ==> q.report_time == info.position_report_time
            &&& q.offset == p.smtc_time_offset_ms
            &&& q.selected == p@.selected
            &&& q.sessions == p@.sessions
            &&& q.status == p@.status
        }),
{
}

/// The clients of the application's own server are told of a new song. Of a song that
/// is known they are told the position while it plays, and that it has been paused or
/// goes on. Lyrics are searched for where a new song has a title.
pub proof fn law_report_is_served(p: PlayerState, info: NowPlayingInfo)
    ensures
        ({
            let r = server_updates(p@, info@);
            let new = p.last_true_info is None || !same_song(p.last_true_info->0, info);
            let plays = info.is_playing == Some(true);
            let moves = plays && info.position_ms is Some && info.position_ms->0 > 0;
            let turns = plays != p.is_currently_playing_sensed_by_smtc;
            &&& new ==> r == seq![ServerUpdate::PlaybackInfo]
            &&& !new && moves && turns ==> r == seq![
                ServerUpdate::Time(info.position_ms->0),
                ServerUpdate::PlaybackInfo,
            ]
            &&& !new && moves && !turns ==> r == seq![ServerUpdate::Time(info.position_ms->0)]
            &&& !new && !moves && turns ==> r == seq![ServerUpdate::PlaybackInfo]
            &&& !new && !moves && !turns ==> r.len() == 0
            &&& starts_search(p@, info@) <==> new && info.title is Some && !is_blank(info.title->0@)
        }),
{
    let r = server_updates(p@, info@);
    let plays = info.is_playing == Some(true);
    let moves = plays && info.position_ms is Some && info.position_ms->0 > 0;
    let turns = plays != p.is_currently_playing_sensed_by_smtc;
    if !(p.last_true_info is None || !same_song(p.last_true_info->0, info)) {
        if moves && turns {
            assert(r =~= seq![
                ServerUpdate::Time(info.position_ms->0),
                ServerUpdate::PlaybackInfo,
            ]);
        } else if moves {
            assert(r =~= seq![ServerUpdate::Time(info.position_ms->0)]);
        } else if turns {
            assert(r =~= seq![ServerUpdate::PlaybackInfo]);
        }
    }
}

// ---------------------------------------------------------------------------
// Between two reports
// ---------------------------------------------------------------------------

/// The milliseconds that have passed since a report, in which nanoseconds are counted;
/// none where its time is not known or is still to come.
pub open spec fn passed(info: NowPlayingInfo, now: u64) -> int {
    if info.position_report_time is Some && info.position_report_time->0 <= now {
        (now - info.position_report_time->0) / 1_000_000
    } else {
        0
    }
}

/// Between two reports a song moves on by the milliseconds that have passed, from its
/// position or from the start where that is not known, as far as its end, where the
/// player is told that it has paused. It is told the position in any case.
pub proof fn law_position_moves_on(info: NowPlayingInfo, now: u64, r: Seq<ClientMessage>)
    requires
        message_views(r) == tick_messages(info@, now),
        info.position_ms is Some ==> info.position_ms->0 + passed(info, now) <= u64::MAX,
    ensures
        ({
            let at = passed(info, now) + if info.position_ms is Some {
                info.position_ms->0 as int
            } else {
                0
            };
            let over = info.duration_ms is Some && info.duration_ms->0 > 0 && at
                >= info.duration_ms->0;
            let shown = if over {
                info.duration_ms->0 as int
            } else {
                at
            };
            &&& simulated_position(info@, now) == shown
            &&& r.len() == if over {
                2int
            } else {
                1
            }
            &&& over ==> r[0] is OnPaused
            &&& r.last() is OnPlayProgress
            &&& r.last()->progress == shown
        }),
{
    let v = message_views(r);
    assert(v.len() == r.len());
    assert(v[0] == r[0]@);
    assert(v[v.len() - 1] == r[r.len() - 1]@);
}

/// A new worker is told to forward audio where that is on, and then which session to
/// follow where one is selected.
pub proof fn law_first_commands(audio: bool, session: Option<Seq<char>>)
    ensures
        ({
            let r = first_commands(audio, session);
            &&& audio && session is Some ==> r == seq![
                StartView::StartAudioVisualization,
                StartView::SelectSmtcSession(session->0),
            ]
            &&& audio && session is None ==> r == seq![StartView::StartAudioVisualization]
            &&& !audio && session is Some ==> r == seq![StartView::SelectSmtcSession(session->0)]
            &&& !audio && session is None ==> r.len() == 0
        }),
{
    let r = first_commands(audio, session);
    if session is Some {
        if audio {
            assert(r =~= seq![
                StartView::StartAudioVisualization,
                StartView::SelectSmtcSession(session->0),
            ]);
        } else {
            assert(r =~= seq![StartView::SelectSmtcSession(session->0)]);
        }
    } else if audio {
        assert(r =~= seq![StartView::StartAudioVisualization]);
    }
}

// ---------------------------------------------------------------------------
// The local cache
// ---------------------------------------------------------------------------

/// The artists that lyrics are cached under are those between `/`, `;` and `、`,
/// without the white space round them, in order.
pub proof fn law_cached_artists(a: Seq<char>, c: char, b: Seq<char>)
    requires
        c == '/' || c == ';' || c == '、',
        forall|k: int| 0 <= k < a.len() ==> #[trigger] a[k] != '/' && a[k] != ';' && a[k] != '、',
    ensures
        cached_artists(Some(a)) == seq![trim(a)],
        cached_artists(Some(a.push(c) + b)) == seq![trim(a)] + cached_artists(Some(b)),
        cached_artists(None).len() == 0,
{
    let ds = seq!['/', ';', '、'];
    assert(ds[0] == '/' && ds[1] == ';' && ds[2] == '、');
    assert(ds.contains(c));
    assert forall|k: int| 0 <= k < a.len() implies !ds.contains(#[trigger] a[k]) by {
        if ds.contains(a[k]) {
            let m = choose|m: int| 0 <= m < ds.len() && ds[m] == a[k];
            assert(m == 0 || m == 1 || m == 2);
        }
    }
    law_split(a, c, b, ds);
    assert(trimmed_all(seq![a]) =~= seq![trim(a)]);
    assert(trimmed_all(seq![a] + split_any(b, ds)) =~= seq![trim(a)] + trimmed_all(
        split_any(b, ds),
    ));
}

/// The characters that are kept.
proof fn lemma_name_chars(s: Seq<char>, n: nat)
    requires
        n <= s.len(),
    ensures
        name_chars(s, n) == s.take(n as int).filter(|c: char| is_name_char(c)),
    decreases n,
{
    reveal(Seq::filter);
    let front = s.take(n as int);
    if n > 0 {
        lemma_name_chars(s, (n - 1) as nat);
        assert(front.drop_last() =~= s.take(n - 1));
        assert(front.last() == s[n - 1]);
    }
}

/// The file that lyrics are cached in is named after the artists and the title, as in
/// `A, B - T`, without the characters that do not belong in a name, and after the
/// time. Of the ASCII characters letters, digits, spaces, commas and hyphens are kept.
pub proof fn law_cache_file_name(artists: Seq<Seq<char>>, title: Seq<char>, millis: nat, c: char)
    ensures
        cache_file_name(artists, title, millis) == (join(artists, ", "@) + " - "@ + title).filter(
            |x: char| is_name_char(x),
        ) + "_"@ + dec(millis) + ".ttml"@,
        '\u{80}' > c ==> (is_name_char(c) <==> ('a' <= c <= 'z' || 'A' <= c <= 'Z' || '0' <= c
            <= '9' || c == ' ' || c == ',' || c == '-')),
        '\u{80}' <= c ==> is_name_char(c) == alphanumeric(c),
{
    let full = join(artists, ", "@) + " - "@ + title;
    lemma_name_chars(full, full.len());
    assert(full.take(full.len() as int) =~= full);
}

} // verus!
