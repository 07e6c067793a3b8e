//! Searches lyrics for what is being played: in the local cache first, and then
//! at the providers.

use vstd::prelude::*;

use crate::amll_connector::types::{NowPlayingInfo, PlayingView};
use crate::app_definition::FetchedLyrics;
use crate::app_events::LocalLyricCacheEntry;
use crate::app_settings::{filled_parts, has_string, split_list};
use crate::chinese_conversion_processor::{convert, converted};
use crate::formats::{AutoSearchSource, LyricFormat};
use crate::text::{
    eq_ignore_case, equal_ignoring_case, is_blank, lowercase, split_any, split_at_any, str_eq,
    str_is_blank, string_of, to_chars, trim, trim_str, trimmed, lower_case, views,
};
use crate::types::opt_view;

verus! {

// ---------------------------------------------------------------------------
// The local cache
// ---------------------------------------------------------------------------

/// The characters that stand between the names of artists.
pub open spec fn artist_delimiters() -> Seq<char> {
    seq!['/', '、', ',', ';']
}

/// The artists that a reported artist names.
pub open spec fn artists_of(artist: Seq<char>) -> Seq<Seq<char>> {
    filled_parts(split_any(artist, artist_delimiters()))
}

/// Texts trimmed and in lower case, without those of which nothing is left.
pub open spec fn lower_names(parts: Seq<Seq<char>>) -> Seq<Seq<char>>
    decreases parts.len(),
{
    if parts.len() == 0 {
        Seq::empty()
    } else {
        let before = lower_names(parts.drop_last());
        let last = lower_case(trim(parts.last()));
        if last.len() > 0 {
            before.push(last)
        } else {
            before
        }
    }
}

/// Texts trimmed and in lower case.
pub open spec fn all_lower(v: Seq<Seq<char>>) -> Seq<Seq<char>> {
    Seq::new(v.len(), |i: int| lower_case(trim(v[i])))
}

/// Whether every text of `a` is in `b`.
pub open spec fn all_in(a: Seq<Seq<char>>, b: Seq<Seq<char>>) -> bool {
    forall|i: int| 0 <= i < a.len() ==> b.contains(#[trigger] a[i])
}

/// Whether the artists who play are those that were cached: the same ones, or
/// some of them.
pub open spec fn artists_agree(playing: Seq<Seq<char>>, cached: Seq<Seq<char>>) -> bool {
    all_in(playing, cached) && (playing.len() > 0 || cached.len() == 0)
}

/// Whether every text of `a` is in `b`.
fn every_in(a: &Vec<String>, b: &Vec<String>) -> (r: bool)
    ensures
        r == all_in(views(a@), views(b@)),
{
    let ghost all = views(a@);
    let mut i: usize = 0;
    while i < a.len()
        invariant
            i <= a.len(),
            all == views(a@),
            forall|k: int| 0 <= k < i ==> views(b@).contains(#[trigger] all[k]),
        decreases a.len() - i,
    {
        proof {
            assert(all[i as int] == a@[i as int]@);
        }
        if !has_string(b, &a[i]) {
            return false;
        }
        i += 1;
    }
    true
}

/// Whether the artists who play are those that were cached. All names are in
/// lower case.
pub fn artists_match(playing: &Vec<String>, cached: &Vec<String>) -> (r: bool)
    ensures
        r == artists_agree(views(playing@), views(cached@)),
{
    every_in(playing, cached) && (playing.len() > 0 || cached.len() == 0)
}

/// The artists who play, in lower case.
fn playing_names(artist: &str) -> (r: Vec<String>)
    ensures
        views(r@) == lower_names(split_any(artist@, artist_delimiters())),
{
    let v = to_chars(artist);
    let ds: [char; 4] = ['/', '、', ',', ';'];
    proof {
        assert(ds@ =~= artist_delimiters());
    }
    let parts = split_at_any(v.as_slice(), &ds);
    let ghost all = split_any(artist@, artist_delimiters());
    let mut out: Vec<String> = Vec::new();
    proof {
        assert(views(out@) =~= lower_names(all.subrange(0, 0)));
    }
    let mut i: usize = 0;
    while i < parts.len()
        invariant
            i <= parts.len(),
            parts@.len() == all.len(),
            forall|k: int| 0 <= k < parts@.len() ==> #[trigger] parts@[k]@ == all[k],
            views(out@) == lower_names(all.subrange(0, i as int)),
        decreases parts.len() - i,
    {
        let ghost before = out@;
        proof {
            let now = all.subrange(0, i + 1);
            assert(now.drop_last() =~= all.subrange(0, i as int));
            assert(parts@[i as int]@ == all[i as int]);
        }
        let name = lowercase(string_of(trimmed(parts[i].as_slice())).as_str());
        if !name.as_str().is_empty() {
            out.push(name);
            proof {
                assert(views(out@) =~= views(before).push(name@));
            }
        }
        i += 1;
    }
    proof {
        assert(all.subrange(0, i as int) =~= all);
    }
    out
}

/// Cached artists in lower case.
fn cached_names(artists: &Vec<String>) -> (r: Vec<String>)
    ensures
        views(r@) == all_lower(views(artists@)),
{
    let mut out: Vec<String> = Vec::new();
    let mut i: usize = 0;
    while i < artists.len()
        invariant
            i <= artists.len(),
            out@.len() == i,
            forall|k: int|
                0 <= k < i ==> (#[trigger] out@[k])@ == lower_case(trim(artists@[k]@)),
        decreases artists.len() - i,
    {
        out.push(lowercase(trim_str(artists[i].as_str()).as_str()));
        i += 1;
    }
    proof {
        assert(views(out@) =~= all_lower(views(artists@)));
    }
    out
}

/// The artist that is reported, or nothing.
pub open spec fn reported_artist(info: PlayingView) -> Seq<char> {
    match info.artist {
        Some(a) => a,
        None => Seq::empty(),
    }
}

/// Whether the cache entry is for the song that is being played: the titles are
/// the same but for the case of ASCII letters, and the artists agree.
pub open spec fn track_matches(info: PlayingView, title: Seq<char>, artists: Seq<Seq<char>>) -> bool {
    let playing = reported_artist(info);
    info.title is Some && eq_ignore_case(trim(info.title->0), trim(title)) && ((playing.len() == 0
        && artists.len() == 0) || artists_agree(
        lower_names(split_any(playing, artist_delimiters())),
        all_lower(artists),
    ))
}

/// Whether the cache entry is for the song that is being played.
pub fn is_track_match(now_playing: &NowPlayingInfo, entry: &LocalLyricCacheEntry) -> (r: bool)
    ensures
        r == track_matches(now_playing@, entry.smtc_title@, views(entry.smtc_artists@)),
{
    let title = match &now_playing.title {
        Some(t) => to_chars(t.as_str()),
        None => {
            return false;
        },
    };
    let cached_title = to_chars(entry.smtc_title.as_str());
    if !equal_ignoring_case(trimmed(title.as_slice()), trimmed(cached_title.as_slice())) {
        return false;
    }
    let artist: String = match &now_playing.artist {
        Some(a) => a.clone(),
        None => String::new(),
    };
    proof {
        assert(artist@ =~= reported_artist(now_playing@));
        assert(views(entry.smtc_artists@).len() == entry.smtc_artists@.len());
    }
    if artist.as_str().is_empty() && entry.smtc_artists.len() == 0 {
        return true;
    }
    let playing = playing_names(artist.as_str());
    let cached = cached_names(&entry.smtc_artists);
    artists_match(&playing, &cached)
}

/// The first entry at or after `i` that is for this song, or the number of
/// entries.
pub open spec fn first_match(info: PlayingView, index: Seq<LocalLyricCacheEntry>, i: int) -> int
    decreases index.len() - i,
{
    if i < 0 || i >= index.len() {
        index.len() as int
    } else if track_matches(info, index[i].smtc_title@, views(index[i].smtc_artists@)) {
        i
    } else {
        first_match(info, index, i + 1)
    }
}

/// The first entry of the cache that is for the song that is being played.
pub fn find_in_cache(now_playing: &NowPlayingInfo, index: &Vec<LocalLyricCacheEntry>) -> (r: Option<
    usize,
>)
    ensures
        match r {
            Some(i) => first_match(now_playing@, index@, 0) == i && i < index@.len(),
            None => first_match(now_playing@, index@, 0) == index@.len(),
        },
{
    let mut i: usize = 0;
    while i < index.len()
        invariant
            i <= index.len(),
            first_match(now_playing@, index@, 0) == first_match(now_playing@, index@, i as int),
        decreases index.len() - i,
    {
        if is_track_match(now_playing, &index[i]) {
            return Some(i);
        }
        i += 1;
    }
    None
}

// ---------------------------------------------------------------------------
// The state of the search
// ---------------------------------------------------------------------------

/// How the search at one source stands.
#[derive(Debug, Clone, PartialEq)]
pub enum AutoSearchStatus {
    NotAttempted,
    Searching,
    Success(LyricFormat),
    NotFound,
    Error(String),
}

/// How the search stands at all sources.
#[derive(Debug, Clone)]
pub struct AutoFetchState {
    /// Whether lyrics have been loaded for the song.
    pub current_ui_populated: bool,
    pub last_source_format: Option<LyricFormat>,
    pub local_cache_status: AutoSearchStatus,
    pub qqmusic_status: AutoSearchStatus,
    pub kugou_status: AutoSearchStatus,
    pub netease_status: AutoSearchStatus,
    pub amll_db_status: AutoSearchStatus,
    pub musixmatch_status: AutoSearchStatus,
    pub last_qq_result: Option<FetchedLyrics>,
    pub last_kugou_result: Option<FetchedLyrics>,
    pub last_netease_result: Option<FetchedLyrics>,
    pub last_amll_db_result: Option<FetchedLyrics>,
    pub last_musixmatch_result: Option<FetchedLyrics>,
}

/// The status of a source.
pub open spec fn status_of(f: AutoFetchState, s: AutoSearchSource) -> AutoSearchStatus {
    match s {
        AutoSearchSource::LocalCache => f.local_cache_status,
        AutoSearchSource::QqMusic => f.qqmusic_status,
        AutoSearchSource::Kugou => f.kugou_status,
        AutoSearchSource::Netease => f.netease_status,
        AutoSearchSource::AmllDb => f.amll_db_status,
        AutoSearchSource::Musixmatch => f.musixmatch_status,
    }
}

/// `f` with the status of a source.
pub open spec fn with_status(
    f: AutoFetchState,
    s: AutoSearchSource,
    status: AutoSearchStatus,
) -> AutoFetchState {
    match s {
        AutoSearchSource::LocalCache => AutoFetchState { local_cache_status: status, ..f },
        AutoSearchSource::QqMusic => AutoFetchState { qqmusic_status: status, ..f },
        AutoSearchSource::Kugou => AutoFetchState { kugou_status: status, ..f },
        AutoSearchSource::Netease => AutoFetchState { netease_status: status, ..f },
        AutoSearchSource::AmllDb => AutoFetchState { amll_db_status: status, ..f },
        AutoSearchSource::Musixmatch => AutoFetchState { musixmatch_status: status, ..f },
    }
}

/// `f` with the lyrics that a source has found; what the local cache holds is not
/// kept.
pub open spec fn with_result(
    f: AutoFetchState,
    s: AutoSearchSource,
    result: Option<FetchedLyrics>,
) -> AutoFetchState {
    match s {
        AutoSearchSource::LocalCache => f,
        AutoSearchSource::QqMusic => AutoFetchState { last_qq_result: result, ..f },
        AutoSearchSource::Kugou => AutoFetchState { last_kugou_result: result, ..f },
        AutoSearchSource::Netease => AutoFetchState { last_netease_result: result, ..f },
        AutoSearchSource::AmllDb => AutoFetchState { last_amll_db_result: result, ..f },
        AutoSearchSource::Musixmatch => AutoFetchState { last_musixmatch_result: result, ..f },
    }
}

/// A status when the search has ended: one that is still searching has not found
/// anything.
pub open spec fn ended(status: AutoSearchStatus) -> AutoSearchStatus {
    if status is Searching {
        AutoSearchStatus::NotFound
    } else {
        status
    }
}

/// `f` when the search at the providers has ended.
pub open spec fn providers_ended(f: AutoFetchState) -> AutoFetchState {
    AutoFetchState {
        qqmusic_status: ended(f.qqmusic_status),
        kugou_status: ended(f.kugou_status),
        netease_status: ended(f.netease_status),
        amll_db_status: ended(f.amll_db_status),
        musixmatch_status: ended(f.musixmatch_status),
        ..f
    }
}

/// `f` when the search at all sources has ended.
pub open spec fn all_ended(f: AutoFetchState) -> AutoFetchState {
    AutoFetchState {
        local_cache_status: ended(f.local_cache_status),
        ..providers_ended(f)
    }
}

/// A status when the search has ended.
fn end_search(status: &mut AutoSearchStatus)
    ensures
        *final(status) == ended(*old(status)),
{
    let searching = match status {
        AutoSearchStatus::Searching => true,
        _ => false,
    };
    if searching {
        *status = AutoSearchStatus::NotFound;
    }
}

impl AutoFetchState {
    /// Nothing has been searched.
    pub fn new() -> (r: AutoFetchState)
        ensures
            r == (AutoFetchState {
                current_ui_populated: false,
                last_source_format: None,
                local_cache_status: AutoSearchStatus::NotAttempted,
                qqmusic_status: AutoSearchStatus::NotAttempted,
                kugou_status: AutoSearchStatus::NotAttempted,
                netease_status: AutoSearchStatus::NotAttempted,
                amll_db_status: AutoSearchStatus::NotAttempted,
                musixmatch_status: AutoSearchStatus::NotAttempted,
                last_qq_result: None,
                last_kugou_result: None,
                last_netease_result: None,
                last_amll_db_result: None,
                last_musixmatch_result: None,
            }),
    {
        AutoFetchState {
            current_ui_populated: false,
            last_source_format: None,
            local_cache_status: AutoSearchStatus::NotAttempted,
            qqmusic_status: AutoSearchStatus::NotAttempted,
            kugou_status: AutoSearchStatus::NotAttempted,
            netease_status: AutoSearchStatus::NotAttempted,
            amll_db_status: AutoSearchStatus::NotAttempted,
            musixmatch_status: AutoSearchStatus::NotAttempted,
            last_qq_result: None,
            last_kugou_result: None,
            last_netease_result: None,
            last_amll_db_result: None,
            last_musixmatch_result: None,
        }
    }

    /// Sets the status of a source.
    pub fn set_status(&mut self, source: AutoSearchSource, status: AutoSearchStatus)
        ensures
            *final(self) == with_status(*old(self), source, status),
    {
        match source {
            AutoSearchSource::LocalCache => {
                self.local_cache_status = status;
            },
            AutoSearchSource::QqMusic => {
                self.qqmusic_status = status;
            },
            AutoSearchSource::Kugou => {
                self.kugou_status = status;
            },
            AutoSearchSource::Netease => {
                self.netease_status = status;
            },
            AutoSearchSource::AmllDb => {
                self.amll_db_status = status;
            },
            AutoSearchSource::Musixmatch => {
                self.musixmatch_status = status;
            },
        }
    }

    /// Keeps the lyrics that a source has found.
    pub(crate) fn set_result(&mut self, source: AutoSearchSource, result: Option<FetchedLyrics>)
        ensures
            *final(self) == with_result(*old(self), source, result),
    {
        match source {
            AutoSearchSource::LocalCache => {},
            AutoSearchSource::QqMusic => {
                self.last_qq_result = result;
            },
            AutoSearchSource::Kugou => {
                self.last_kugou_result = result;
            },
            AutoSearchSource::Netease => {
                self.last_netease_result = result;
            },
            AutoSearchSource::AmllDb => {
                self.last_amll_db_result = result;
            },
            AutoSearchSource::Musixmatch => {
                self.last_musixmatch_result = result;
            },
        }
    }

    /// Ends the search at the providers.
    fn end_providers(&mut self)
        ensures
            *final(self) == providers_ended(*old(self)),
    {
        end_search(&mut self.qqmusic_status);
        end_search(&mut self.kugou_status);
        end_search(&mut self.netease_status);
        end_search(&mut self.amll_db_status);
        end_search(&mut self.musixmatch_status);
    }

    /// No source has been asked for the song that has come.
    pub fn reset_statuses(&mut self)
        ensures
            *final(self) == (AutoFetchState {
                local_cache_status: AutoSearchStatus::NotAttempted,
                qqmusic_status: AutoSearchStatus::NotAttempted,
                kugou_status: AutoSearchStatus::NotAttempted,
                netease_status: AutoSearchStatus::NotAttempted,
                amll_db_status: AutoSearchStatus::NotAttempted,
                musixmatch_status: AutoSearchStatus::NotAttempted,
                ..*old(self)
            }),
    {
        self.local_cache_status = AutoSearchStatus::NotAttempted;
        self.qqmusic_status = AutoSearchStatus::NotAttempted;
        self.kugou_status = AutoSearchStatus::NotAttempted;
        self.netease_status = AutoSearchStatus::NotAttempted;
        self.amll_db_status = AutoSearchStatus::NotAttempted;
        self.musixmatch_status = AutoSearchStatus::NotAttempted;
    }

    /// Lyrics in this format have been loaded for the song: what is found later does
    /// not take their place.
    pub fn lyrics_loaded(&mut self, f: LyricFormat)
        ensures
            *final(self) == loaded(*old(self), f),
    {
        self.current_ui_populated = true;
        self.last_source_format = Some(f);
    }

    /// Forgets what was found for the last song.
    pub fn clear_last_fetch_results(&mut self)
        ensures
            *final(self) == (AutoFetchState {
                last_qq_result: None,
                last_kugou_result: None,
                last_netease_result: None,
                last_amll_db_result: None,
                last_musixmatch_result: None,
                current_ui_populated: false,
                ..*old(self)
            }),
    {
        self.last_qq_result = None;
        self.last_kugou_result = None;
        self.last_netease_result = None;
        self.last_amll_db_result = None;
        self.last_musixmatch_result = None;
        self.current_ui_populated = false;
    }
}

// ---------------------------------------------------------------------------
// A search
// ---------------------------------------------------------------------------

/// Which providers are asked, and how.
#[derive(Debug, Clone, PartialEq)]
pub enum SearchMode {
    /// These providers.
    Subset(Vec<String>),
    /// All providers at once.
    Parallel,
    /// One provider after the other.
    Ordered,
    /// This provider.
    Specific(String),
}

/// A search at the providers.
#[derive(Debug, Clone, PartialEq)]
pub struct SearchRequest {
    pub title: String,
    pub artists: Vec<String>,
    pub mode: SearchMode,
}

/// Whether a title is that of a song.
pub open spec fn is_song_title(title: Option<Seq<char>>) -> bool {
    title is Some && !is_blank(title->0) && title->0 != "无歌曲"@ && title->0 != "无活动会话"@
}

/// The way in which providers are asked.
pub fn search_mode(use_subset: bool, subset: &Vec<String>, search_all: bool) -> (r: SearchMode)
    ensures
        if use_subset && subset@.len() > 0 {
            r is Subset && views(r->Subset_0@) == views(subset@)
        } else if search_all {
            r == SearchMode::Parallel
        } else {
            r == SearchMode::Ordered
        },
{
    if use_subset && subset.len() > 0 {
        SearchMode::Subset(crate::amll_lyrics_fetcher::types::copy_strings(subset))
    } else if search_all {
        SearchMode::Parallel
    } else {
        SearchMode::Ordered
    }
}

/// `f` when the search at the providers has started.
pub open spec fn providers_started(f: AutoFetchState) -> AutoFetchState {
    AutoFetchState {
        last_source_format: None,
        qqmusic_status: AutoSearchStatus::Searching,
        kugou_status: AutoSearchStatus::Searching,
        netease_status: AutoSearchStatus::Searching,
        amll_db_status: AutoSearchStatus::Searching,
        musixmatch_status: AutoSearchStatus::Searching,
        ..f
    }
}

impl AutoFetchState {
    /// Looks the song up in the local cache; gives the place of its entry.
    pub fn search_local_cache(
        &mut self,
        info: &NowPlayingInfo,
        index: &Vec<LocalLyricCacheEntry>,
    ) -> (r: Option<usize>)
        ensures
            match r {
                Some(i) => first_match(info@, index@, 0) == i && i < index@.len(),
                None => first_match(info@, index@, 0) == index@.len(),
            },
            *final(self) == with_status(
                *old(self),
                AutoSearchSource::LocalCache,
                if r is Some {
                    AutoSearchStatus::Searching
                } else {
                    AutoSearchStatus::NotFound
                },
            ),
    {
        self.local_cache_status = AutoSearchStatus::Searching;
        let found = find_in_cache(info, index);
        if found.is_none() {
            self.local_cache_status = AutoSearchStatus::NotFound;
        }
        found
    }

    /// Takes what became of reading a cached file: whether the providers are
    /// asked still. They are not where the file was read and there is something
    /// to convert it with.
    pub fn cached_file_read(&mut self, problem: Option<String>, helper_available: bool) -> (r: bool)
        ensures
            r == (problem is Some || !helper_available),
            *final(self) == match problem {
                Some(e) => with_status(
                    *old(self),
                    AutoSearchSource::LocalCache,
                    AutoSearchStatus::Error(e),
                ),
                None => *old(self),
            },
    {
        match problem {
            Some(e) => {
                self.local_cache_status = AutoSearchStatus::Error(e);
                true
            },
            None => !helper_available,
        }
    }

    /// Starts the search at the providers, where there is a song and something
    /// to search with.
    pub fn search_online(
        &mut self,
        info: &NowPlayingInfo,
        helper_available: bool,
        mode: SearchMode,
    ) -> (r: Option<SearchRequest>)
        ensures
            match r {
                None => (!is_song_title(info@.title) || !helper_available) && *final(self) == *old(
                    self,
                ),
                Some(q) => ({
                    &&& is_song_title(info@.title) && helper_available
                    &&& q.title@ == trim(info@.title->0)
                    &&& views(q.artists@) == match info@.artist {
                        Some(a) => artists_of(a),
                        None => Seq::empty(),
                    }
                    &&& q.mode == mode
                    &&& *final(self) == providers_started(*old(self))
                }),
            },
    {
        let title = match &info.title {
            Some(t) => {
                if str_is_blank(t.as_str()) || str_eq(t.as_str(), "无歌曲") || str_eq(
                    t.as_str(),
                    "无活动会话",
                ) {
                    return None;
                }
                trim_str(t.as_str())
            },
            None => {
                return None;
            },
        };
        if !helper_available {
            return None;
        }
        let ds: [char; 4] = ['/', '、', ',', ';'];
        proof {
            assert(ds@ =~= artist_delimiters());
        }
        let artists: Vec<String> = match &info.artist {
            Some(a) => split_list(a.as_str(), &ds),
            None => Vec::new(),
        };
        proof {
            if info.artist is None {
                assert(views(artists@) =~= Seq::<Seq<char>>::empty());
            }
        }
        self.last_source_format = None;
        self.qqmusic_status = AutoSearchStatus::Searching;
        self.kugou_status = AutoSearchStatus::Searching;
        self.netease_status = AutoSearchStatus::Searching;
        self.amll_db_status = AutoSearchStatus::Searching;
        self.musixmatch_status = AutoSearchStatus::Searching;
        Some(SearchRequest { title, artists, mode })
    }

    /// Starts a search at one provider that the user asked for. The local cache
    /// cannot be asked.
    pub fn trigger_manual_refetch_for_source(
        &mut self,
        info: &NowPlayingInfo,
        source: AutoSearchSource,
        helper_available: bool,
    ) -> (r: Option<SearchRequest>)
        ensures
            match r {
                None => (info.title is None || !helper_available || source is LocalCache)
                    && *final(self) == *old(self),
                Some(q) => ({
                    &&& info.title is Some && helper_available && !(source is LocalCache)
                    &&& q.title@ == info.title->0@
                    &&& views(q.artists@) == match info@.artist {
                        Some(a) => crate::app_events::trimmed_all(split_any(a, seq!['/'])),
                        None => Seq::empty(),
                    }
                    &&& q.mode is Specific
                    &&& q.mode->Specific_0@ == crate::formats::source_name(source)
                    &&& *final(self) == with_status(
                        *old(self),
                        source,
                        AutoSearchStatus::Searching,
                    )
                }),
            },
    {
        let title = match &info.title {
            Some(t) => t.clone(),
            None => {
                return None;
            },
        };
        if !helper_available || source == AutoSearchSource::LocalCache {
            return None;
        }
        let artists = slash_separated(&info.artist);
        self.set_status(source, AutoSearchStatus::Searching);
        Some(
            SearchRequest {
                title,
                artists,
                mode: SearchMode::Specific(source.name().to_owned()),
            },
        )
    }

    /// Takes what became of a search that the user asked for and that found
    /// nothing: nothing, or why it failed.
    pub fn manual_refetch_failed(&mut self, source: AutoSearchSource, problem: Option<String>)
        ensures
            *final(self) == with_status(
                *old(self),
                source,
                match problem {
                    Some(e) => AutoSearchStatus::Error(e),
                    None => AutoSearchStatus::NotFound,
                },
            ),
    {
        match problem {
            Some(e) => {
                self.set_status(source, AutoSearchStatus::Error(e));
            },
            None => {
                self.set_status(source, AutoSearchStatus::NotFound);
            },
        }
    }
}

/// The configuration that search terms are brought into simplified Chinese with.
pub const SEARCH_CONVERSION_CONFIG: &'static str = "tw2sp.json";

/// A search with its title and its artists in simplified Chinese, where that is
/// wanted.
pub fn convert_request(request: SearchRequest, enabled: bool) -> (r: SearchRequest)
    ensures
        r.mode == request.mode,
        r.title@ == if enabled {
            converted(request.title@, SEARCH_CONVERSION_CONFIG@)
        } else {
            request.title@
        },
        r.artists@.len() == request.artists@.len(),
        forall|i: int|
            0 <= i < r.artists@.len() ==> (#[trigger] r.artists@[i])@ == if enabled {
                converted(request.artists@[i]@, SEARCH_CONVERSION_CONFIG@)
            } else {
                request.artists@[i]@
            },
{
    if !enabled {
        return request;
    }
    let mut artists: Vec<String> = Vec::new();
    let mut i: usize = 0;
    while i < request.artists.len()
        invariant
            i <= request.artists.len(),
            artists@.len() == i,
            forall|k: int|
                0 <= k < i ==> (#[trigger] artists@[k])@ == converted(
                    request.artists@[k]@,
                    SEARCH_CONVERSION_CONFIG@,
                ),
        decreases request.artists.len() - i,
    {
        artists.push(convert(request.artists[i].as_str(), SEARCH_CONVERSION_CONFIG));
        i += 1;
    }
    SearchRequest {
        title: convert(request.title.as_str(), SEARCH_CONVERSION_CONFIG),
        artists,
        mode: request.mode,
    }
}

/// The artists between slashes.
fn slash_separated(artist: &Option<String>) -> (r: Vec<String>)
    ensures
        views(r@) == match opt_view(*artist) {
            Some(a) => crate::app_events::trimmed_all(split_any(a, seq!['/'])),
            None => Seq::empty(),
        },
{
    let mut out: Vec<String> = Vec::new();
    match artist {
        Some(a) => {
            let v = to_chars(a.as_str());
            let ds: [char; 1] = ['/'];
            proof {
                assert(ds@ =~= seq!['/']);
            }
            let parts = split_at_any(v.as_slice(), &ds);
            let ghost all = split_any(a@, seq!['/']);
            let mut i: usize = 0;
            while i < parts.len()
                invariant
                    i <= parts.len(),
                    parts@.len() == all.len(),
                    forall|k: int| 0 <= k < parts@.len() ==> #[trigger] parts@[k]@ == all[k],
                    out@.len() == i,
                    forall|k: int| 0 <= k < i ==> (#[trigger] out@[k])@ == trim(all[k]),
                decreases parts.len() - i,
            {
                proof {
                    assert(parts@[i as int]@ == all[i as int]);
                }
                out.push(string_of(trimmed(parts[i].as_slice())));
                i += 1;
            }
            proof {
                assert(views(out@) =~= crate::app_events::trimmed_all(all));
            }
        },
        None => {
            proof {
                assert(views(out@) =~= Seq::<Seq<char>>::empty());
            }
        },
    }
    out
}

// ---------------------------------------------------------------------------
// The end of a search
// ---------------------------------------------------------------------------

/// What a search has led to.
#[derive(Debug, Clone, PartialEq)]
pub enum AutoFetchResult {
    Success { source: AutoSearchSource, lyrics: FetchedLyrics },
    NotFound,
    FetchError(String),
}

/// What the application does when a search has ended.
#[derive(Debug, Clone, PartialEq)]
pub enum FetchEffect {
    /// Nothing.
    Nothing,
    /// Load the lyrics that were found.
    Load(FetchedLyrics),
    /// Tell the player, and the clients of the application's own server, that
    /// there are no lyrics; either where it is there.
    NoLyrics { tell_player: bool, tell_server_clients: bool },
}

/// `f` with what a source has found noted.
pub open spec fn found(
    f: AutoFetchState,
    source: AutoSearchSource,
    lyrics: FetchedLyrics,
) -> AutoFetchState {
    with_status(
        with_result(f, source, Some(lyrics)),
        source,
        AutoSearchStatus::Success(lyrics.source_format),
    )
}

/// `f` when lyrics in this format have been loaded for the song.
pub open spec fn loaded(f: AutoFetchState, format: LyricFormat) -> AutoFetchState {
    AutoFetchState { current_ui_populated: true, last_source_format: Some(format), ..f }
}

/// The lyrics of a search that has ended which are loaded: those that were found,
/// where none have been loaded for the song.
pub open spec fn to_load(f: AutoFetchState, result: AutoFetchResult) -> Option<FetchedLyrics> {
    match result {
        AutoFetchResult::Success { lyrics, .. } => if f.current_ui_populated {
            None
        } else {
            Some(lyrics)
        },
        _ => None,
    }
}

/// Once lyrics have been loaded for a song, no result that is found later is loaded
/// in their place, whichever source finds it.
pub proof fn law_loaded_lyrics_stay(
    f: AutoFetchState,
    format: LyricFormat,
    source: AutoSearchSource,
    lyrics: FetchedLyrics,
    later: AutoFetchResult,
)
    ensures
        to_load(loaded(f, format), later) is None,
        to_load(found(loaded(f, format), source, lyrics), later) is None,
{
}

impl AutoFetchState {
    /// The lyrics of a search that has ended which are to be loaded.
    pub fn auto_fetch_completed(&self, result: AutoFetchResult) -> (r: Option<FetchedLyrics>)
        ensures
            r == to_load(*self, result),
    {
        match result {
            AutoFetchResult::Success { lyrics, .. } => if self.current_ui_populated {
                None
            } else {
                Some(lyrics)
            },
            _ => None,
        }
    }

    /// Handles the end of a search. The first lyrics that are found for a song
    /// are loaded; later ones are only kept.
    pub fn handle_auto_fetch_result(
        &mut self,
        result: AutoFetchResult,
        connector_ready: bool,
        server_enabled: bool,
    ) -> (r: FetchEffect)
        ensures
            match result {
                AutoFetchResult::Success { source, lyrics } => {
                    let noted = found(*old(self), source, lyrics);
                    if old(self).current_ui_populated {
                        *final(self) == noted && r == FetchEffect::Nothing
                    } else {
                        &&& *final(self) == (AutoFetchState {
                            current_ui_populated: true,
                            last_source_format: Some(lyrics.source_format),
                            ..all_ended(noted)
                        })
                        &&& r == FetchEffect::Load(lyrics)
                    }
                },
                AutoFetchResult::NotFound => {
                    &&& *final(self) == providers_ended(*old(self))
                    &&& r == if old(self).current_ui_populated || !(connector_ready
                        || server_enabled) {
                        FetchEffect::Nothing
                    } else {
                        FetchEffect::NoLyrics {
                            tell_player: connector_ready,
                            tell_server_clients: server_enabled,
                        }
                    }
                },
                AutoFetchResult::FetchError(_) => {
                    *final(self) == *old(self) && r == FetchEffect::Nothing
                },
            },
    {
        match result {
            AutoFetchResult::Success { source, lyrics } => {
                let format = lyrics.source_format;
                let kept = FetchedLyrics {
                    content: lyrics.content.clone(),
                    source_format: format,
                };
                self.set_result(source, Some(kept));
                self.set_status(source, AutoSearchStatus::Success(format));
                if self.current_ui_populated {
                    FetchEffect::Nothing
                } else {
                    end_search(&mut self.local_cache_status);
                    self.end_providers();
                    self.current_ui_populated = true;
                    self.last_source_format = Some(format);
                    FetchEffect::Load(lyrics)
                }
            },
            AutoFetchResult::NotFound => {
                self.end_providers();
                if self.current_ui_populated || !(connector_ready || server_enabled) {
                    FetchEffect::Nothing
                } else {
                    FetchEffect::NoLyrics {
                        tell_player: connector_ready,
                        tell_server_clients: server_enabled,
                    }
                }
            },
            AutoFetchResult::FetchError(_) => FetchEffect::Nothing,
        }
    }
}

/// When a search has ended without lyrics, no provider is searching any more.
pub proof fn law_search_ends(f: AutoFetchState, s: AutoSearchSource)
    ensures
        !(s is LocalCache) ==> !(status_of(providers_ended(f), s) is Searching),
        !(status_of(all_ended(f), s) is Searching),
{
}

/// A song that was cached is found again: the entry made for it matches what is
/// being played, wherever its names hold none of the other delimiters.
pub proof fn law_same_names_match(info: PlayingView, artists: Seq<Seq<char>>)
    requires
        info.title is Some,
        artists.len() > 0,
        lower_names(split_any(reported_artist(info), artist_delimiters())) == all_lower(artists),
    ensures
        track_matches(info, info.title->0, artists),
{
    let a = all_lower(artists);
    assert forall|i: int| 0 <= i < a.len() implies a.contains(#[trigger] a[i]) by {}
}

} // verus!
