//! What is searched for, what is found, and what is noted of a search.

use vstd::prelude::*;

use crate::amll_connector::types::NowPlayingInfo;
use crate::amll_lyrics_fetcher::amll_fetcher::{
    content_lines, entry_matches, facts, filled_lines, first_bad, key_at, line_entry, lowered,
    matching, readable, search, without_return,
};
use crate::amll_lyrics_fetcher::types::{
    field_key, field_name, AmllIndexEntry, AmllSearchField, EntryView,
};
use crate::app_definition::FetchedLyrics;
use crate::app_events::LocalLyricCacheEntry;
use crate::app_fetch_core::{
    all_ended, all_in, all_lower, artist_delimiters, artists_agree, artists_of, first_match, found,
    is_song_title, loaded, lower_names, providers_ended, providers_started, reported_artist,
    to_load, track_matches, with_status, AutoFetchResult, AutoFetchState, AutoSearchStatus,
};
use crate::app_settings::filled_parts;
use crate::formats::{AutoSearchSource, LyricFormat};
use crate::text::{eq_ignore_case, is_blank, lower_case, occurs_in, split_any, trim, views};
use crate::text_laws::law_split;
use crate::types::opt_view;

verus! {

// ---------------------------------------------------------------------------
// The index
// ---------------------------------------------------------------------------

/// Whether an entry has a value under `key` that holds `query`, both in lower case.
/// Where the key occurs more than once, the first counts.
pub open spec fn entry_holds(e: EntryView, key: Seq<char>, query: Seq<char>) -> bool {
    exists|i: int, j: int|
        {
            &&& 0 <= i < e.metadata.len()
            &&& e.metadata[i].0 == key
            &&& forall|m: int| 0 <= m < i ==> (#[trigger] e.metadata[m]).0 != key
            &&& 0 <= j < e.metadata[i].1.len()
            &&& occurs_in(lower_case(query), lower_case(#[trigger] e.metadata[i].1[j]))
        }
}

/// Where a key stands first.
proof fn lemma_key_at(m: Seq<(Seq<char>, Seq<Seq<char>>)>, key: Seq<char>, i: int)
    requires
        0 <= i <= m.len(),
    ensures
        i <= key_at(m, key, i) <= m.len(),
        key_at(m, key, i) < m.len() ==> m[key_at(m, key, i)].0 == key,
        forall|k: int| i <= k < key_at(m, key, i) ==> (#[trigger] m[k]).0 != key,
    decreases m.len() - i,
{
    if i < m.len() && m[i].0 != key {
        lemma_key_at(m, key, i + 1);
    }
}

/// An entry matches where it holds the query.
proof fn lemma_entry_holds(e: EntryView, key: Seq<char>, query: Seq<char>)
    ensures
        entry_matches(e, key, lower_case(query)) <==> entry_holds(e, key, query),
{
    let i = key_at(e.metadata, key, 0);
    lemma_key_at(e.metadata, key, 0);
    if entry_matches(e, key, lower_case(query)) {
        let texts = lowered(e.metadata[i].1);
        let j = choose|j: int|
            0 <= j < texts.len() && occurs_in(lower_case(query), #[trigger] texts[j]);
        assert(texts[j] == lower_case(e.metadata[i].1[j]));
    }
    if entry_holds(e, key, query) {
        let (a, b) = choose|a: int, b: int|
            {
                &&& 0 <= a < e.metadata.len()
                &&& e.metadata[a].0 == key
                &&& forall|m: int| 0 <= m < a ==> (#[trigger] e.metadata[m]).0 != key
                &&& 0 <= b < e.metadata[a].1.len()
                &&& occurs_in(lower_case(query), lower_case(#[trigger] e.metadata[a].1[b]))
            };
        if i < a {
            assert(e.metadata[i].0 != key);
        }
        if a < i {
            assert(e.metadata[a].0 != key);
        }
        assert(i == a);
        let texts = lowered(e.metadata[i].1);
        assert(texts[b] == lower_case(e.metadata[i].1[b]));
    }
}

/// The matching entries.
proof fn lemma_matching_is_filter(entries: Seq<EntryView>, key: Seq<char>, query: Seq<char>)
    ensures
        matching(entries, key, lower_case(query)) == entries.filter(
            |e: EntryView| entry_holds(e, key, query),
        ),
    decreases entries.len(),
{
    reveal(Seq::filter);
    if entries.len() > 0 {
        lemma_matching_is_filter(entries.drop_last(), key, query);
        lemma_entry_holds(entries.last(), key, query);
    }
}

/// A search finds, in order, exactly the entries that hold the query under the key of
/// the field. A blank query finds nothing.
pub proof fn law_search_finds(query: Seq<char>, field: AmllSearchField, entries: Seq<EntryView>)
    ensures
        ({
            let key = match field {
                AmllSearchField::MusicName => "musicName"@,
                AmllSearchField::Artists => "artists"@,
                AmllSearchField::Album => "album"@,
                AmllSearchField::NcmMusicId => "ncmMusicId"@,
                AmllSearchField::QqMusicId => "qqMusicId"@,
                AmllSearchField::SpotifyId => "spotifyId"@,
                AmllSearchField::AppleMusicId => "appleMusicId"@,
                AmllSearchField::Isrc => "isrc"@,
                AmllSearchField::TtmlAuthorGithub => "ttmlAuthorGithub"@,
                AmllSearchField::TtmlAuthorGithubLogin => "ttmlAuthorGithubLogin"@,
            };
            &&& is_blank(query) ==> search(query, field, entries).len() == 0
            &&& !is_blank(query) ==> search(query, field, entries) == entries.filter(
                |e: EntryView| entry_holds(e, key, query),
            )
        }),
{
    lemma_matching_is_filter(entries, field_key(field), query);
}

/// The song and the album of an entry are the first values of the last entries of
/// metadata that have any under `musicName` and `album`, the id of its source is that
/// under `appleMusicId`, and its artists are all values under `artists`, in order.
pub proof fn law_facts(metadata: Seq<(Seq<char>, Seq<Seq<char>>)>, n: nat)
    requires
        n < metadata.len(),
    ensures
        ({
            let f = facts(metadata, n);
            let g = facts(metadata, n + 1);
            let (key, values) = metadata[n as int];
            let any = values.len() > 0;
            &&& g.song == (if key == "musicName"@ && any {
                Some(values[0])
            } else {
                f.song
            })
            &&& g.artists == (if key == "artists"@ {
                f.artists + values
            } else {
                f.artists
            })
            &&& g.album == (if key == "album"@ && any {
                Some(values[0])
            } else {
                f.album
            })
            &&& g.source_id == (if key == "appleMusicId"@ && any {
                Some(values[0])
            } else {
                f.source_id
            })
        }),
        facts(metadata, 0).song is None,
        facts(metadata, 0).artists.len() == 0,
        facts(metadata, 0).album is None,
        facts(metadata, 0).source_id is None,
{
    reveal_strlit("musicName");
    reveal_strlit("artists");
    reveal_strlit("album");
    reveal_strlit("appleMusicId");
    assert("musicName"@.len() == 9 && "artists"@.len() == 7 && "album"@.len() == 5);
    assert("appleMusicId"@.len() == 12);
    let f = facts(metadata, n);
    let (key, values) = metadata[n as int];
    if values.len() == 0 {
        assert(f.artists + values =~= f.artists);
    }
}

/// The lines of the parts behind the first.
proof fn lemma_lines_shift(a: Seq<char>, parts: Seq<Seq<char>>, n: nat)
    requires
        n <= parts.len(),
        parts.len() > 0,
    ensures
        filled_lines(seq![a] + parts, n + 1) == (if is_blank(without_return(a)) {
            Seq::empty()
        } else {
            seq![without_return(a)]
        }) + filled_lines(parts, n),
    decreases n,
{
    let all = seq![a] + parts;
    let first = if is_blank(without_return(a)) {
        Seq::empty()
    } else {
        seq![without_return(a)]
    };
    if n == 0 {
        assert(all[0] == a);
        assert(filled_lines(all, 0) =~= Seq::<Seq<char>>::empty());
        assert(filled_lines(parts, 0) =~= Seq::<Seq<char>>::empty());
        assert(filled_lines(all, 1) =~= first + filled_lines(parts, 0));
    } else {
        lemma_lines_shift(a, parts, (n - 1) as nat);
        assert(all[n as int] == parts[n - 1]);
        assert(all.len() == parts.len() + 1);
        assert(filled_lines(all, n + 1) =~= first + filled_lines(parts, n));
    }
}

/// The lines of a text are what stands between its line feeds, in order, without the
/// carriage returns in front of these and without the blank ones.
pub proof fn law_content_lines(a: Seq<char>, b: Seq<char>)
    requires
        forall|k: int| 0 <= k < a.len() ==> #[trigger] a[k] != '\n',
    ensures
        ({
            let line = if a.len() > 0 && a.last() == '\r' {
                a.drop_last()
            } else {
                a
            };
            &&& content_lines(a.push('\n') + b) == (if is_blank(line) {
                Seq::empty()
            } else {
                seq![line]
            }) + content_lines(b)
            &&& content_lines(a) == (if is_blank(a) {
                Seq::empty()
            } else {
                seq![a]
            })
        }),
{
    let ds = seq!['\n'];
    assert(ds[0] == '\n');
    assert(ds.contains('\n'));
    assert forall|k: int| 0 <= k < a.len() implies !ds.contains(#[trigger] a[k]) by {
        if ds.contains(a[k]) {
            let m = choose|m: int| 0 <= m < ds.len() && ds[m] == a[k];
            assert(m == 0);
        }
    }
    law_split(a, '\n', b, ds);
    let parts = split_any(b, ds);
    assert(parts.len() > 0);
    lemma_lines_shift(a, parts, parts.len());
    let one = seq![a];
    assert(one[0] == a);
    assert(filled_lines(one, 0) =~= Seq::<Seq<char>>::empty());
    assert(filled_lines(one, 1) =~= if is_blank(a) {
        Seq::empty()
    } else {
        seq![a]
    });
}

/// Of the lines of an index those that can be read are kept, in order, and the first
/// that cannot is told.
pub proof fn law_index_lines(
    v: Seq<Option<AmllIndexEntry>>,
    e: AmllIndexEntry,
    w: Seq<Result<AmllIndexEntry, String>>,
)
    ensures
        readable(Seq::empty()).len() == 0,
        readable(v.push(Some(e))) == readable(v).push(e@),
        readable(v.push(None)) == readable(v),
        ({
            let i = first_bad(w, 0);
            &&& 0 <= i <= w.len()
            &&& i < w.len() ==> w[i] is Err
            &&& forall|k: int| 0 <= k < i ==> #[trigger] w[k] is Ok
        }),
        forall|k: int|
            0 <= k < w.len() ==> line_entry(#[trigger] w[k]) == if w[k] is Ok {
                Some(w[k]->Ok_0@)
            } else {
                None
            },
{
    assert(v.push(Some(e)).drop_last() =~= v);
    assert(v.push(None).drop_last() =~= v);
    lemma_first_bad(w, 0);
}

/// Where the first bad line is.
proof fn lemma_first_bad(w: Seq<Result<AmllIndexEntry, String>>, i: int)
    requires
        0 <= i <= w.len(),
    ensures
        i <= first_bad(w, i) <= w.len(),
        first_bad(w, i) < w.len() ==> w[first_bad(w, i)] is Err,
        forall|k: int| i <= k < first_bad(w, i) ==> #[trigger] w[k] is Ok,
    decreases w.len() - i,
{
    if i < w.len() && !(w[i] is Err) {
        lemma_first_bad(w, i + 1);
    }
}

// ---------------------------------------------------------------------------
// The local cache
// ---------------------------------------------------------------------------

/// Whether `c` stands between artists.
pub open spec fn parts_artists(c: char) -> bool {
    c == '/' || c == '、' || c == ',' || c == ';'
}

/// What parts artists.
proof fn lemma_parts_artists()
    ensures
        forall|c: char| artist_delimiters().contains(c) <==> #[trigger] parts_artists(c),
{
    let ds = artist_delimiters();
    assert(ds[0] == '/' && ds[1] == '、' && ds[2] == ',' && ds[3] == ';');
    assert forall|c: char| ds.contains(c) <==> #[trigger] parts_artists(c) by {
        if ds.contains(c) {
            let m = choose|m: int| 0 <= m < ds.len() && ds[m] == c;
            assert(m == 0 || m == 1 || m == 2 || m == 3);
        }
    }
}

/// The filled parts of two lists.
pub proof fn lemma_filled(a: Seq<char>, parts: Seq<Seq<char>>)
    ensures
        filled_parts(seq![a] + parts) == (if trim(a).len() > 0 {
            seq![trim(a)]
        } else {
            Seq::empty()
        }) + filled_parts(parts),
        lower_names(seq![a] + parts) == (if lower_case(trim(a)).len() > 0 {
            seq![lower_case(trim(a))]
        } else {
            Seq::empty()
        }) + lower_names(parts),
    decreases parts.len(),
{
    let all = seq![a] + parts;
    if parts.len() == 0 {
        assert(all.drop_last() =~= parts);
        assert(all.last() == a);
        assert(filled_parts(parts) =~= Seq::<Seq<char>>::empty());
        assert(lower_names(parts) =~= Seq::<Seq<char>>::empty());
        assert(filled_parts(all) =~= (if trim(a).len() > 0 {
            seq![trim(a)]
        } else {
            Seq::empty()
        }) + filled_parts(parts));
        assert(lower_names(all) =~= (if lower_case(trim(a)).len() > 0 {
            seq![lower_case(trim(a))]
        } else {
            Seq::empty()
        }) + lower_names(parts));
    } else {
        lemma_filled(a, parts.drop_last());
        assert(all.drop_last() =~= seq![a] + parts.drop_last());
        assert(all.last() == parts.last());
        assert(filled_parts(all) =~= (if trim(a).len() > 0 {
            seq![trim(a)]
        } else {
            Seq::empty()
        }) + filled_parts(parts));
        assert(lower_names(all) =~= (if lower_case(trim(a)).len() > 0 {
            seq![lower_case(trim(a))]
        } else {
            Seq::empty()
        }) + lower_names(parts));
    }
}

/// The artists that lyrics are searched for are those between `/`, `、`, `,` and `;`,
/// without the white space round them and without empty ones, in order. So are, in
/// lower case, those that cached lyrics are compared with.
pub proof fn law_artists(a: Seq<char>, c: char, b: Seq<char>)
    requires
        parts_artists(c),
        forall|k: int| 0 <= k < a.len() ==> !parts_artists(#[trigger] a[k]),
    ensures
        artists_of(a.push(c) + b) == (if trim(a).len() > 0 {
            seq![trim(a)]
        } else {
            Seq::empty()
        }) + artists_of(b),
        artists_of(a) == (if trim(a).len() > 0 {
            seq![trim(a)]
        } else {
            Seq::empty()
        }),
        artist_names(a.push(c) + b) == (if lower_case(trim(a)).len() > 0 {
            seq![lower_case(trim(a))]
        } else {
            Seq::empty()
        }) + artist_names(b),
        artist_names(a) == (if lower_case(trim(a)).len() > 0 {
            seq![lower_case(trim(a))]
        } else {
            Seq::empty()
        }),
{
    lemma_parts_artists();
    let ds = artist_delimiters();
    assert forall|k: int| 0 <= k < a.len() implies !ds.contains(#[trigger] a[k]) by {
        assert(!parts_artists(a[k]));
    }
    law_split(a, c, b, ds);
    lemma_filled(a, split_any(b, ds));
    let none = Seq::<Seq<char>>::empty();
    lemma_filled(a, none);
    assert(seq![a] + none =~= seq![a]);
    assert(filled_parts(seq![a]) =~= if trim(a).len() > 0 {
        seq![trim(a)]
    } else {
        none
    });
    assert(lower_names(seq![a]) =~= if lower_case(trim(a)).len() > 0 {
        seq![lower_case(trim(a))]
    } else {
        none
    });
}

/// The artist of a song, empty where it is not known.
pub open spec fn artist_text(info: NowPlayingInfo) -> Seq<char> {
    if info.artist is Some {
        info.artist->0@
    } else {
        Seq::empty()
    }
}

/// The names of the artists in a text, in lower case.
pub open spec fn artist_names(s: Seq<char>) -> Seq<Seq<char>> {
    lower_names(split_any(s, artist_delimiters()))
}

/// Cached lyrics are those of a song where the titles are the same, up to case and
/// the white space round them, and every artist of the song is among those of the
/// lyrics, up to the same. A song without artists has lyrics without artists.
pub proof fn law_cached_lyrics_of_song(info: NowPlayingInfo, e: LocalLyricCacheEntry)
    ensures
        ({
            let names = artist_names(artist_text(info));
            track_matches(info@, e.smtc_title@, views(e.smtc_artists@)) <==> {
                &&& info.title is Some
                &&& eq_ignore_case(trim(info.title->0@), trim(e.smtc_title@))
                &&& names.len() == 0 ==> e.smtc_artists@.len() == 0
                &&& forall|i: int|
                    0 <= i < names.len() ==> has_artist(e, #[trigger] names[i])
            }
        }),
{
    let artist = artist_text(info);
    assert(artist == reported_artist(info@));
    let names = artist_names(artist);
    let cached = all_lower(views(e.smtc_artists@));
    assert(views(e.smtc_artists@).len() == e.smtc_artists@.len());
    assert(cached.len() == e.smtc_artists@.len());
    if artist.len() == 0 {
        lemma_no_artists(artist);
    }
    assert forall|i: int| 0 <= i < names.len() implies (cached.contains(#[trigger] names[i])
        <==> has_artist(e, names[i])) by {
        if cached.contains(names[i]) {
            let k = choose|k: int| 0 <= k < cached.len() && cached[k] == names[i];
            assert(cached[k] == lower_case(trim(e.smtc_artists@[k]@)));
        }
        if has_artist(e, names[i]) {
            let k = choose|k: int|
                0 <= k < e.smtc_artists@.len() && lower_case(trim((#[trigger] e.smtc_artists@[k])@))
                    == names[i];
            assert(cached[k] == names[i]);
        }
    }
    let all = forall|i: int| 0 <= i < names.len() ==> has_artist(e, #[trigger] names[i]);
    assert(all_in(names, cached) <==> all) by {
        if all_in(names, cached) {
            assert forall|i: int| 0 <= i < names.len() implies has_artist(
                e,
                #[trigger] names[i],
            ) by {
                assert(cached.contains(names[i]));
            }
        }
        if all {
            assert forall|i: int| 0 <= i < names.len() implies cached.contains(
                #[trigger] names[i],
            ) by {
                assert(has_artist(e, names[i]));
            }
        }
    }
    assert(opt_view(info.title) == info@.title);
    assert(track_matches(info@, e.smtc_title@, views(e.smtc_artists@)) <==> info.title is Some
        && eq_ignore_case(trim(info.title->0@), trim(e.smtc_title@)) && ((artist.len() == 0
        && e.smtc_artists@.len() == 0) || (all_in(names, cached) && (names.len() > 0
        || e.smtc_artists@.len() == 0))));
}

/// Whether lyrics are cached under an artist, given in lower case.
pub open spec fn has_artist(e: LocalLyricCacheEntry, name: Seq<char>) -> bool {
    exists|k: int|
        0 <= k < e.smtc_artists@.len() && lower_case(trim((#[trigger] e.smtc_artists@[k])@)) == name
}

/// An empty text names no artist.
proof fn lemma_no_artists(s: Seq<char>)
    requires
        s.len() == 0,
    ensures
        artist_names(s).len() == 0,
{
    assert(parts_artists('/'));
    law_artists(s, '/', s);
    assert(trim(s) =~= Seq::<char>::empty());
    assert(lower_case(trim(s)).len() == 0) by {
        assert(crate::text::is_ascii_text(trim(s)));
    }
}

/// Of the cached lyrics the first that are those of the song are taken.
pub proof fn law_first_cached_lyrics(info: NowPlayingInfo, index: Seq<LocalLyricCacheEntry>, i: int)
    requires
        0 <= i <= index.len(),
    ensures
        ({
            let r = first_match(info@, index, i);
            &&& i <= r <= index.len()
            &&& r < index.len() ==> track_matches(
                info@,
                index[r].smtc_title@,
                views(index[r].smtc_artists@),
            )
            &&& forall|k: int|
                i <= k < r ==> !track_matches(
                    info@,
                    (#[trigger] index[k]).smtc_title@,
                    views(index[k].smtc_artists@),
                )
        }),
    decreases index.len() - i,
{
    if i < index.len() {
        law_first_cached_lyrics(info, index, i + 1);
    }
}

// ---------------------------------------------------------------------------
// What is noted
// ---------------------------------------------------------------------------

/// The status of a source is noted under its own name and nowhere else.
pub proof fn law_status_is_noted(f: AutoFetchState, x: AutoSearchStatus)
    ensures
        with_status(f, AutoSearchSource::LocalCache, x) == (AutoFetchState {
            local_cache_status: x,
            ..f
        }),
        with_status(f, AutoSearchSource::QqMusic, x) == (AutoFetchState {
            qqmusic_status: x,
            ..f
        }),
        with_status(f, AutoSearchSource::Kugou, x) == (AutoFetchState { kugou_status: x, ..f }),
        with_status(f, AutoSearchSource::Netease, x) == (AutoFetchState {
            netease_status: x,
            ..f
        }),
        with_status(f, AutoSearchSource::AmllDb, x) == (AutoFetchState { amll_db_status: x, ..f }),
        with_status(f, AutoSearchSource::Musixmatch, x) == (AutoFetchState {
            musixmatch_status: x,
            ..f
        }),
{
}

/// What a source has found is kept as its result, and its status is success in the
/// format of the lyrics. Nothing else changes.
pub proof fn law_find_is_noted(f: AutoFetchState, lyrics: FetchedLyrics)
    ensures
        ({
            let success = AutoSearchStatus::Success(lyrics.source_format);
            &&& found(f, AutoSearchSource::LocalCache, lyrics) == (AutoFetchState {
                local_cache_status: success,
                ..f
            })
            &&& found(f, AutoSearchSource::QqMusic, lyrics) == (AutoFetchState {
                qqmusic_status: success,
                last_qq_result: Some(lyrics),
                ..f
            })
            &&& found(f, AutoSearchSource::Kugou, lyrics) == (AutoFetchState {
                kugou_status: success,
                last_kugou_result: Some(lyrics),
                ..f
            })
            &&& found(f, AutoSearchSource::Netease, lyrics) == (AutoFetchState {
                netease_status: success,
                last_netease_result: Some(lyrics),
                ..f
            })
            &&& found(f, AutoSearchSource::AmllDb, lyrics) == (AutoFetchState {
                amll_db_status: success,
                last_amll_db_result: Some(lyrics),
                ..f
            })
            &&& found(f, AutoSearchSource::Musixmatch, lyrics) == (AutoFetchState {
                musixmatch_status: success,
                last_musixmatch_result: Some(lyrics),
                ..f
            })
        }),
{
}

/// A search that has ended is one that found nothing, and one that had a result keeps
/// it.
pub open spec fn ends_as(before: AutoSearchStatus, after: AutoSearchStatus) -> bool {
    &&& before is Searching ==> after is NotFound
    &&& !(before is Searching) ==> after == before
}

/// When a search at all providers starts, all of them are searched, and when it ends
/// those that are still searched have found nothing. The local cache is ended only
/// with all others.
pub proof fn law_search_starts_and_ends(f: AutoFetchState)
    ensures
        ({
            let s = providers_started(f);
            &&& s.qqmusic_status is Searching
            &&& s.kugou_status is Searching
            &&& s.netease_status is Searching
            &&& s.amll_db_status is Searching
            &&& s.musixmatch_status is Searching
            &&& s.local_cache_status == f.local_cache_status
            &&& s.last_source_format is None
            &&& s.current_ui_populated == f.current_ui_populated
        }),
        ({
            let e = providers_ended(f);
            &&& ends_as(f.qqmusic_status, e.qqmusic_status)
            &&& ends_as(f.kugou_status, e.kugou_status)
            &&& ends_as(f.netease_status, e.netease_status)
            &&& ends_as(f.amll_db_status, e.amll_db_status)
            &&& ends_as(f.musixmatch_status, e.musixmatch_status)
            &&& e.local_cache_status == f.local_cache_status
            &&& e.current_ui_populated == f.current_ui_populated
            &&& e.last_source_format == f.last_source_format
            &&& e.last_qq_result == f.last_qq_result
            &&& e.last_kugou_result == f.last_kugou_result
            &&& e.last_netease_result == f.last_netease_result
            &&& e.last_amll_db_result == f.last_amll_db_result
            &&& e.last_musixmatch_result == f.last_musixmatch_result
        }),
        ends_as(f.local_cache_status, all_ended(f).local_cache_status),
        all_ended(f) == (AutoFetchState {
            local_cache_status: all_ended(f).local_cache_status,
            ..providers_ended(f)
        }),
{
}

/// Lyrics that a search has found are loaded where none have been for the song, and
/// those that are loaded are noted with their format.
pub proof fn law_found_lyrics_are_loaded(
    f: AutoFetchState,
    source: AutoSearchSource,
    lyrics: FetchedLyrics,
    format: LyricFormat,
)
    ensures
        !f.current_ui_populated ==> to_load(f, AutoFetchResult::Success { source, lyrics }) == Some(
            lyrics,
        ),
        f.current_ui_populated ==> to_load(f, AutoFetchResult::Success { source, lyrics }) is None,
        to_load(f, AutoFetchResult::NotFound) is None,
        loaded(f, format).current_ui_populated,
        loaded(f, format).last_source_format == Some(format),
        loaded(f, format).qqmusic_status == f.qqmusic_status,
{
}

/// A title is one of a song where it is not blank and not what is shown where there is
/// no song or no session.
pub proof fn law_song_title(title: Option<Seq<char>>)
    ensures
        is_song_title(title) <==> title is Some && trim(title->0).len() > 0 && title->0
            != "无歌曲"@ && title->0 != "无活动会话"@,
{
}

/// The names that are shown for the fields of the index.
pub proof fn law_field_names()
    ensures
        field_name(AmllSearchField::MusicName) == "歌曲名称"@,
        field_name(AmllSearchField::Artists) == "艺术家"@,
        field_name(AmllSearchField::Album) == "专辑名"@,
        field_name(AmllSearchField::NcmMusicId) == "网易云音乐 ID"@,
        field_name(AmllSearchField::QqMusicId) == "QQ音乐 ID"@,
        field_name(AmllSearchField::SpotifyId) == "Spotify音乐 ID"@,
        field_name(AmllSearchField::AppleMusicId) == "Apple Music 音乐 ID"@,
        field_name(AmllSearchField::Isrc) == "ISRC 号码"@,
        field_name(AmllSearchField::TtmlAuthorGithub) == "逐词歌词作者 GitHub ID"@,
        field_name(AmllSearchField::TtmlAuthorGithubLogin) == "逐词歌词作者 GitHub 用户名"@,
{
}

/// Artists agree where each that is playing is among those that are cached, and none is
/// cached where none is playing.
pub proof fn law_artists_agree(playing: Seq<Seq<char>>, cached: Seq<Seq<char>>)
    ensures
        artists_agree(playing, cached) <==> {
            &&& forall|i: int| 0 <= i < playing.len() ==> cached.contains(#[trigger] playing[i])
            &&& playing.len() == 0 ==> cached.len() == 0
        },
{
}

} // verus!
