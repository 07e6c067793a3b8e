//! The messages between the connector and an AMLL player, and their bytes.

use vstd::prelude::*;
use vstd::slice::slice_subrange;

use super::wire::{
    behind, le_bytes, lemma_pow256, lemma_read_le, lemma_read_text, no_zero, push_le, push_text,
    read_le, read_text, take_le, take_text, text_bytes,
};

verus! {

/// A text that ends in a zero byte on the wire.
#[derive(Debug, Clone, PartialEq)]
pub struct NullString(pub String);

impl NullString {
    /// The text `s`.
    pub fn new(s: &str) -> (r: NullString)
        ensures
            r@ == s@,
    {
        NullString(s.to_owned())
    }
}

impl View for NullString {
    type V = Seq<char>;

    open spec fn view(&self) -> Seq<char> {
        self.0@
    }
}

impl Default for NullString {
    fn default() -> (r: NullString)
        ensures
            r@ == Seq::<char>::empty(),
    {
        NullString(String::new())
    }
}

/// A performer.
#[derive(Debug, Clone, PartialEq)]
pub struct Artist {
    pub id: NullString,
    pub name: NullString,
}

/// A word of a lyric line.
#[derive(Debug, Clone, PartialEq)]
pub struct LyricWord {
    pub start_time: u64,
    pub end_time: u64,
    pub word: NullString,
}

/// A line of lyrics.
#[derive(Debug, Clone, PartialEq)]
pub struct LyricLine {
    pub start_time: u64,
    pub end_time: u64,
    pub words: Vec<LyricWord>,
    pub translated_lyric: NullString,
    pub roman_lyric: NullString,
    pub is_bg: bool,
    pub is_duet: bool,
}

/// What the connector sends.
#[allow(inconsistent_fields)]
#[derive(Debug, Clone, PartialEq)]
pub enum ClientMessage {
    Ping,
    Pong,
    SetMusicInfo {
        music_id: NullString,
        music_name: NullString,
        album_id: NullString,
        album_name: NullString,
        artists: Vec<Artist>,
        duration: u64,
    },
    SetMusicAlbumCoverImageData { data: Vec<u8> },
    OnPlayProgress { progress: u64 },
    OnPaused,
    OnResumed,
    SetLyric { data: Vec<LyricLine> },
    SetLyricFromTTML { data: NullString },
}

/// What the player sends.
#[derive(Debug, Clone, Copy, PartialEq, Eq, Structural)]
pub enum ServerMessage {
    Ping,
    Pong,
    Pause,
    Resume,
    ForwardSong,
    BackwardSong,
    /// The bits of the volume as a 64-bit floating-point number.
    SetVolume { volume: u64 },
    SeekPlayProgress { progress: u64 },
}

/// Why a message could not be written or read.
#[derive(Debug, Clone, Copy, PartialEq, Eq, Structural)]
pub enum ProtocolError {
    /// A list has more entries than its 32-bit count can say.
    TooLong,
    /// The bytes are not those of a message.
    Malformed,
}

// ---------------------------------------------------------------------------
// Views
// ---------------------------------------------------------------------------

/// An `Artist` over mathematical values.
pub struct ArtistView {
    pub id: Seq<char>,
    pub name: Seq<char>,
}

impl View for Artist {
    type V = ArtistView;

    open spec fn view(&self) -> ArtistView {
        ArtistView { id: self.id@, name: self.name@ }
    }
}

/// The views of a list of artists.
pub open spec fn artist_views(v: Seq<Artist>) -> Seq<ArtistView> {
    Seq::new(v.len(), |i: int| v[i]@)
}

/// A `LyricWord` over mathematical values.
pub struct WordView {
    pub start: u64,
    pub end: u64,
    pub word: Seq<char>,
}

impl View for LyricWord {
    type V = WordView;

    open spec fn view(&self) -> WordView {
        WordView { start: self.start_time, end: self.end_time, word: self.word@ }
    }
}

/// The views of a list of words.
pub open spec fn word_views(v: Seq<LyricWord>) -> Seq<WordView> {
    Seq::new(v.len(), |i: int| v[i]@)
}

impl Default for LyricLine {
    fn default() -> (r: LyricLine)
        ensures
            r@ == (LyricLineView {
                start: 0,
                end: 0,
                words: Seq::empty(),
                translated: Seq::empty(),
                roman: Seq::empty(),
                is_bg: false,
                is_duet: false,
            }),
    {
        let r = LyricLine {
            start_time: 0,
            end_time: 0,
            words: Vec::new(),
            translated_lyric: NullString::new(""),
            roman_lyric: NullString::new(""),
            is_bg: false,
            is_duet: false,
        };
        proof {
            reveal_strlit("");
            assert(r@.words =~= Seq::<WordView>::empty());
            assert(r@.translated =~= Seq::<char>::empty());
            assert(r@.roman =~= Seq::<char>::empty());
        }
        r
    }
}

/// A `LyricLine` over mathematical values.
pub struct LyricLineView {
    pub start: u64,
    pub end: u64,
    pub words: Seq<WordView>,
    pub translated: Seq<char>,
    pub roman: Seq<char>,
    pub is_bg: bool,
    pub is_duet: bool,
}

impl View for LyricLine {
    type V = LyricLineView;

    open spec fn view(&self) -> LyricLineView {
        LyricLineView {
            start: self.start_time,
            end: self.end_time,
            words: word_views(self.words@),
            translated: self.translated_lyric@,
            roman: self.roman_lyric@,
            is_bg: self.is_bg,
            is_duet: self.is_duet,
        }
    }
}

/// The views of a list of lines.
pub open spec fn lyric_line_views(v: Seq<LyricLine>) -> Seq<LyricLineView> {
    Seq::new(v.len(), |i: int| v[i]@)
}

/// A `ClientMessage` over mathematical values.
#[allow(inconsistent_fields)]
pub enum ClientView {
    Ping,
    Pong,
    SetMusicInfo {
        music_id: Seq<char>,
        music_name: Seq<char>,
        album_id: Seq<char>,
        album_name: Seq<char>,
        artists: Seq<ArtistView>,
        duration: u64,
    },
    SetMusicAlbumCoverImageData { data: Seq<u8> },
    OnPlayProgress { progress: u64 },
    OnPaused,
    OnResumed,
    SetLyric { data: Seq<LyricLineView> },
    SetLyricFromTTML { data: Seq<char> },
}

impl View for ClientMessage {
    type V = ClientView;

    open spec fn view(&self) -> ClientView {
        match self {
            ClientMessage::Ping => ClientView::Ping,
            ClientMessage::Pong => ClientView::Pong,
            ClientMessage::SetMusicInfo {
                music_id,
                music_name,
                album_id,
                album_name,
                artists,
                duration,
            } => ClientView::SetMusicInfo {
                music_id: music_id@,
                music_name: music_name@,
                album_id: album_id@,
                album_name: album_name@,
                artists: artist_views(artists@),
                duration: *duration,
            },
            ClientMessage::SetMusicAlbumCoverImageData { data } => {
                ClientView::SetMusicAlbumCoverImageData { data: data@ }
            },
            ClientMessage::OnPlayProgress { progress } => {
                ClientView::OnPlayProgress { progress: *progress }
            },
            ClientMessage::OnPaused => ClientView::OnPaused,
            ClientMessage::OnResumed => ClientView::OnResumed,
            ClientMessage::SetLyric { data } => {
                ClientView::SetLyric { data: lyric_line_views(data@) }
            },
            ClientMessage::SetLyricFromTTML { data } => {
                ClientView::SetLyricFromTTML { data: data@ }
            },
        }
    }
}

// ---------------------------------------------------------------------------
// Artists and words
// ---------------------------------------------------------------------------

/// The bytes of an artist.
pub open spec fn artist_bytes(a: ArtistView) -> Seq<u8> {
    text_bytes(a.id) + text_bytes(a.name)
}

/// Reads an artist from the front.
pub open spec fn read_artist(b: Seq<u8>) -> Option<(ArtistView, Seq<u8>)> {
    match read_text(b) {
        None => None,
        Some((id, rest)) => match read_text(rest) {
            None => None,
            Some((name, end)) => Some((ArtistView { id, name }, end)),
        },
    }
}

/// Whether the texts of an artist hold no zero character.
pub open spec fn artist_clean(a: ArtistView) -> bool {
    no_zero(a.id) && no_zero(a.name)
}

/// An artist reads as itself.
proof fn lemma_read_artist(a: ArtistView, rest: Seq<u8>)
    requires
        artist_clean(a),
    ensures
        read_artist(artist_bytes(a) + rest) == Some((a, rest)),
{
    assert(artist_bytes(a) + rest =~= text_bytes(a.id) + (text_bytes(a.name) + rest));
    lemma_read_text(a.id, text_bytes(a.name) + rest);
    lemma_read_text(a.name, rest);
}

/// Appends an artist.
fn push_artist(out: &mut Vec<u8>, a: &Artist)
    ensures
        final(out)@ == old(out)@ + artist_bytes(a@),
{
    push_text(out, a.id.0.as_str());
    push_text(out, a.name.0.as_str());
    proof {
        assert(out@ =~= old(out)@ + artist_bytes(a@));
    }
}

/// Reads an artist at `pos`.
fn take_artist(b: &[u8], pos: usize) -> (r: Option<(Artist, usize)>)
    requires
        pos <= b.len(),
    ensures
        match r {
            Some(p) => ({
                &&& read_artist(behind(b@, pos as int)) == Some((p.0@, behind(b@, p.1 as int)))
                &&& p.1 <= b.len()
            }),
            None => read_artist(behind(b@, pos as int)) is None,
        },
{
    match take_text(b, pos) {
        None => None,
        Some(id) => match take_text(b, id.1) {
            None => None,
            Some(name) => Some(
                (Artist { id: NullString(id.0), name: NullString(name.0) }, name.1),
            ),
        },
    }
}

/// The artists of a list, one after the other.
pub open spec fn artists_bytes(v: Seq<ArtistView>) -> Seq<u8>
    decreases v.len(),
{
    if v.len() == 0 {
        Seq::empty()
    } else {
        artist_bytes(v[0]) + artists_bytes(v.subrange(1, v.len() as int))
    }
}

/// Reads `n` artists from the front.
pub open spec fn read_artists(b: Seq<u8>, n: nat) -> Option<(Seq<ArtistView>, Seq<u8>)>
    decreases n,
{
    if n == 0 {
        Some((Seq::empty(), b))
    } else {
        match read_artist(b) {
            None => None,
            Some((x, rest)) => match read_artists(rest, (n - 1) as nat) {
                None => None,
                Some((more, end)) => Some((seq![x] + more, end)),
            },
        }
    }
}

/// A list of artists reads as itself.
#[verifier::rlimit(60)]
#[verifier::spinoff_prover]
proof fn lemma_read_artists(v: Seq<ArtistView>, rest: Seq<u8>)
    requires
        forall|i: int| 0 <= i < v.len() ==> artist_clean(#[trigger] v[i]),
    ensures
        read_artists(artists_bytes(v) + rest, v.len()) == Some((v, rest)),
    decreases v.len(),
{
    if v.len() == 0 {
        assert(artists_bytes(v) + rest =~= rest);
        assert(v =~= Seq::<ArtistView>::empty());
    } else {
        let t = v.subrange(1, v.len() as int);
        assert forall|i: int| 0 <= i < t.len() implies artist_clean(#[trigger] t[i]) by {
            assert(t[i] == v[i + 1]);
        }
        lemma_read_artists(t, rest);
        assert(artist_clean(v[0]));
        lemma_read_artist(v[0], artists_bytes(t) + rest);
        lemma_bytes2(artist_bytes(v[0]), artists_bytes(t), rest);
        assert(seq![v[0]] + t =~= v);
    }
}

/// Appends a list of artists.
fn push_artists(out: &mut Vec<u8>, v: &Vec<Artist>)
    ensures
        final(out)@ == old(out)@ + artists_bytes(artist_views(v@)),
{
    let ghost all = artist_views(v@);
    let mut i: usize = 0;
    proof {
        assert(all.subrange(0, all.len() as int) =~= all);
    }
    while i < v.len()
        invariant
            i <= v.len(),
            all == artist_views(v@),
            out@ + artists_bytes(all.subrange(i as int, all.len() as int)) == old(out)@
                + artists_bytes(all),
        decreases v.len() - i,
    {
        let ghost before = out@;
        let ghost left = all.subrange(i as int, all.len() as int);
        push_artist(out, &v[i]);
        proof {
            assert(left[0] == v@[i as int]@);
            assert(left.subrange(1, left.len() as int) =~= all.subrange(i + 1, all.len() as int));
            lemma_bytes2(
                before,
                artist_bytes(left[0]),
                artists_bytes(all.subrange(i + 1, all.len() as int)),
            );
        }
        i += 1;
    }
    proof {
        assert(all.subrange(i as int, all.len() as int) =~= Seq::<ArtistView>::empty());
        assert(out@ + Seq::<u8>::empty() =~= out@);
    }
}

/// Reads `n` artists at `pos`, and gives the position behind them.
fn take_artists(b: &[u8], pos: usize, n: u32) -> (r: Option<(Vec<Artist>, usize)>)
    requires
        pos <= b.len(),
    ensures
        match r {
            Some(p) => ({
                &&& read_artists(behind(b@, pos as int), n as nat) == Some(
                    (artist_views(p.0@), behind(b@, p.1 as int)),
                )
                &&& p.1 <= b.len()
            }),
            None => read_artists(behind(b@, pos as int), n as nat) is None,
        },
{
    let mut out: Vec<Artist> = Vec::new();
    let mut at: usize = pos;
    let mut left: u32 = n;
    let ghost all = read_artists(behind(b@, pos as int), n as nat);
    proof {
        match all {
            Some(p) => {
                assert(artist_views(out@) + p.0 =~= p.0);
            },
            None => {},
        }
    }
    while left > 0
        invariant
            at <= b.len(),
            all == read_artists(behind(b@, pos as int), n as nat),
            all == (match read_artists(behind(b@, at as int), left as nat) {
                Some(p) => Some((artist_views(out@) + p.0, p.1)),
                None => None,
            }),
        decreases left,
    {
        let ghost before = out@;
        match take_artist(b, at) {
            None => {
                return None;
            },
            Some(p) => {
                let ghost x = p.0@;
                out.push(p.0);
                at = p.1;
                proof {
                    assert(artist_views(out@) =~= artist_views(before).push(x));
                    match read_artists(behind(b@, at as int), (left - 1) as nat) {
                        Some(q) => {
                            assert(artist_views(before) + (seq![x] + q.0) =~= artist_views(out@) + q.0);
                        },
                        None => {},
                    }
                }
            },
        }
        left -= 1;
    }
    proof {
        assert(artist_views(out@) + Seq::<ArtistView>::empty() =~= artist_views(out@));
    }
    Some((out, at))
}

/// The bytes of a word.
pub open spec fn word_bytes(w: WordView) -> Seq<u8> {
    le_bytes(w.start as nat, 8) + le_bytes(w.end as nat, 8) + text_bytes(w.word)
}

/// Reads a word from the front.
pub open spec fn read_word(b: Seq<u8>) -> Option<(WordView, Seq<u8>)> {
    match read_le(b, 8) {
        None => None,
        Some((start, b1)) => match read_le(b1, 8) {
            None => None,
            Some((end, b2)) => match read_text(b2) {
                None => None,
                Some((word, b3)) => Some(
                    (WordView { start: start as u64, end: end as u64, word }, b3),
                ),
            },
        },
    }
}

/// Whether the text of a word holds no zero character.
pub open spec fn word_clean(w: WordView) -> bool {
    no_zero(w.word)
}

/// A word reads as itself.
proof fn lemma_read_word(w: WordView, rest: Seq<u8>)
    requires
        word_clean(w),
    ensures
        read_word(word_bytes(w) + rest) == Some((w, rest)),
{
    lemma_pow256();
    let t = text_bytes(w.word) + rest;
    let e = le_bytes(w.end as nat, 8) + t;
    assert(word_bytes(w) + rest =~= le_bytes(w.start as nat, 8) + e);
    lemma_read_le(w.start as nat, 8, e);
    lemma_read_le(w.end as nat, 8, t);
    lemma_read_text(w.word, rest);
}

/// Appends a word.
fn push_word(out: &mut Vec<u8>, w: &LyricWord)
    ensures
        final(out)@ == old(out)@ + word_bytes(w@),
{
    push_le(out, w.start_time, 8);
    push_le(out, w.end_time, 8);
    push_text(out, w.word.0.as_str());
    proof {
        assert(out@ =~= old(out)@ + word_bytes(w@));
    }
}

/// Reads a word at `pos`.
fn take_word(b: &[u8], pos: usize) -> (r: Option<(LyricWord, usize)>)
    requires
        pos <= b.len(),
    ensures
        match r {
            Some(p) => ({
                &&& read_word(behind(b@, pos as int)) == Some((p.0@, behind(b@, p.1 as int)))
                &&& p.1 <= b.len()
            }),
            None => read_word(behind(b@, pos as int)) is None,
        },
{
    match take_le(b, pos, 8) {
        None => None,
        Some(start) => match take_le(b, start.1, 8) {
            None => None,
            Some(end) => match take_text(b, end.1) {
                None => None,
                Some(word) => Some(
                    (
                        LyricWord {
                            start_time: start.0,
                            end_time: end.0,
                            word: NullString(word.0),
                        },
                        word.1,
                    ),
                ),
            },
        },
    }
}

/// The words of a list, one after the other.
pub open spec fn words_bytes(v: Seq<WordView>) -> Seq<u8>
    decreases v.len(),
{
    if v.len() == 0 {
        Seq::empty()
    } else {
        word_bytes(v[0]) + words_bytes(v.subrange(1, v.len() as int))
    }
}

/// Reads `n` words from the front.
pub open spec fn read_words(b: Seq<u8>, n: nat) -> Option<(Seq<WordView>, Seq<u8>)>
    decreases n,
{
    if n == 0 {
        Some((Seq::empty(), b))
    } else {
        match read_word(b) {
            None => None,
            Some((x, rest)) => match read_words(rest, (n - 1) as nat) {
                None => None,
                Some((more, end)) => Some((seq![x] + more, end)),
            },
        }
    }
}

/// A list of words reads as itself.
#[verifier::rlimit(60)]
#[verifier::spinoff_prover]
proof fn lemma_read_words(v: Seq<WordView>, rest: Seq<u8>)
    requires
        forall|i: int| 0 <= i < v.len() ==> word_clean(#[trigger] v[i]),
    ensures
        read_words(words_bytes(v) + rest, v.len()) == Some((v, rest)),
    decreases v.len(),
{
    if v.len() == 0 {
        assert(words_bytes(v) + rest =~= rest);
        assert(v =~= Seq::<WordView>::empty());
    } else {
        let t = v.subrange(1, v.len() as int);
        assert forall|i: int| 0 <= i < t.len() implies word_clean(#[trigger] t[i]) by {
            assert(t[i] == v[i + 1]);
        }
        lemma_read_words(t, rest);
        assert(word_clean(v[0]));
        lemma_read_word(v[0], words_bytes(t) + rest);
        lemma_bytes2(word_bytes(v[0]), words_bytes(t), rest);
        assert(seq![v[0]] + t =~= v);
    }
}

/// Appends a list of words.
fn push_words(out: &mut Vec<u8>, v: &Vec<LyricWord>)
    ensures
        final(out)@ == old(out)@ + words_bytes(word_views(v@)),
{
    let ghost all = word_views(v@);
    let mut i: usize = 0;
    proof {
        assert(all.subrange(0, all.len() as int) =~= all);
    }
    while i < v.len()
        invariant
            i <= v.len(),
            all == word_views(v@),
            out@ + words_bytes(all.subrange(i as int, all.len() as int)) == old(out)@
                + words_bytes(all),
        decreases v.len() - i,
    {
        let ghost before = out@;
        let ghost left = all.subrange(i as int, all.len() as int);
        push_word(out, &v[i]);
        proof {
            assert(left[0] == v@[i as int]@);
            assert(left.subrange(1, left.len() as int) =~= all.subrange(i + 1, all.len() as int));
            lemma_bytes2(
                before,
                word_bytes(left[0]),
                words_bytes(all.subrange(i + 1, all.len() as int)),
            );
        }
        i += 1;
    }
    proof {
        assert(all.subrange(i as int, all.len() as int) =~= Seq::<WordView>::empty());
        assert(out@ + Seq::<u8>::empty() =~= out@);
    }
}

/// Reads `n` words at `pos`, and gives the position behind them.
fn take_words(b: &[u8], pos: usize, n: u32) -> (r: Option<(Vec<LyricWord>, usize)>)
    requires
        pos <= b.len(),
    ensures
        match r {
            Some(p) => ({
                &&& read_words(behind(b@, pos as int), n as nat) == Some(
                    (word_views(p.0@), behind(b@, p.1 as int)),
                )
                &&& p.1 <= b.len()
            }),
            None => read_words(behind(b@, pos as int), n as nat) is None,
        },
{
    let mut out: Vec<LyricWord> = Vec::new();
    let mut at: usize = pos;
    let mut left: u32 = n;
    let ghost all = read_words(behind(b@, pos as int), n as nat);
    proof {
        match all {
            Some(p) => {
                assert(word_views(out@) + p.0 =~= p.0);
            },
            None => {},
        }
    }
    while left > 0
        invariant
            at <= b.len(),
            all == read_words(behind(b@, pos as int), n as nat),
            all == (match read_words(behind(b@, at as int), left as nat) {
                Some(p) => Some((word_views(out@) + p.0, p.1)),
                None => None,
            }),
        decreases left,
    {
        let ghost before = out@;
        match take_word(b, at) {
            None => {
                return None;
            },
            Some(p) => {
                let ghost x = p.0@;
                out.push(p.0);
                at = p.1;
                proof {
                    assert(word_views(out@) =~= word_views(before).push(x));
                    match read_words(behind(b@, at as int), (left - 1) as nat) {
                        Some(q) => {
                            assert(word_views(before) + (seq![x] + q.0) =~= word_views(out@) + q.0);
                        },
                        None => {},
                    }
                }
            },
        }
        left -= 1;
    }
    proof {
        assert(word_views(out@) + Seq::<WordView>::empty() =~= word_views(out@));
    }
    Some((out, at))
}

// ---------------------------------------------------------------------------
// Lines
// ---------------------------------------------------------------------------

/// The flags of a line: one for a background line, two for a duet line.
pub open spec fn flags(is_bg: bool, is_duet: bool) -> nat {
    (if is_bg {
        1nat
    } else {
        0
    }) + if is_duet {
        2nat
    } else {
        0
    }
}

/// The bytes of a line.
pub open spec fn line_bytes(l: LyricLineView) -> Seq<u8> {
    le_bytes(l.start as nat, 8) + le_bytes(l.end as nat, 8) + le_bytes(l.words.len(), 4)
        + words_bytes(l.words) + text_bytes(l.translated) + text_bytes(l.roman) + le_bytes(
        flags(l.is_bg, l.is_duet),
        1,
    )
}

/// Reads a line from the front.
pub open spec fn read_line(b: Seq<u8>) -> Option<(LyricLineView, Seq<u8>)> {
    match read_le(b, 8) {
        None => None,
        Some((start, b1)) => match read_le(b1, 8) {
            None => None,
            Some((end, b2)) => match read_le(b2, 4) {
                None => None,
                Some((count, b3)) => match read_words(b3, count) {
                    None => None,
                    Some((words, b4)) => read_line_tail(start as u64, end as u64, words, b4),
                },
            },
        },
    }
}

/// Reads the rest of a line whose times and words have been read.
pub open spec fn read_line_tail(start: u64, end: u64, words: Seq<WordView>, b: Seq<u8>) -> Option<
    (LyricLineView, Seq<u8>),
> {
    match read_text(b) {
        None => None,
        Some((translated, b1)) => match read_text(b1) {
            None => None,
            Some((roman, b2)) => match read_le(b2, 1) {
                None => None,
                Some((flags, b3)) => Some(
                    (
                        LyricLineView {
                            start,
                            end,
                            words,
                            translated,
                            roman,
                            is_bg: flags % 2 == 1,
                            is_duet: flags / 2 % 2 == 1,
                        },
                        b3,
                    ),
                ),
            },
        },
    }
}

/// Whether the count of a line's words fits in 32 bits.
pub open spec fn line_countable(l: LyricLineView) -> bool {
    l.words.len() <= u32::MAX
}

/// Whether a line can be written, and its texts hold no zero character.
pub open spec fn line_clean(l: LyricLineView) -> bool {
    &&& line_countable(l)
    &&& no_zero(l.translated)
    &&& no_zero(l.roman)
    &&& forall|i: int| 0 <= i < l.words.len() ==> word_clean(#[trigger] l.words[i])
}

/// A line reads as itself.
proof fn lemma_read_line(l: LyricLineView, rest: Seq<u8>)
    requires
        line_clean(l),
    ensures
        read_line(line_bytes(l) + rest) == Some((l, rest)),
{
    lemma_pow256();
    let f = le_bytes(flags(l.is_bg, l.is_duet), 1) + rest;
    let r = text_bytes(l.roman) + f;
    let t = text_bytes(l.translated) + r;
    let w = words_bytes(l.words) + t;
    let c = le_bytes(l.words.len(), 4) + w;
    let e = le_bytes(l.end as nat, 8) + c;
    lemma_bytes_right(
        le_bytes(l.start as nat, 8),
        le_bytes(l.end as nat, 8),
        le_bytes(l.words.len(), 4),
        words_bytes(l.words),
        text_bytes(l.translated),
        text_bytes(l.roman),
        le_bytes(flags(l.is_bg, l.is_duet), 1),
        rest,
    );
    lemma_read_le(l.start as nat, 8, e);
    lemma_read_le(l.end as nat, 8, c);
    lemma_read_le(l.words.len(), 4, w);
    lemma_read_words(l.words, t);
    lemma_read_text(l.translated, r);
    lemma_read_text(l.roman, f);
    lemma_read_le(flags(l.is_bg, l.is_duet), 1, rest);
}

/// Seven parts in front of the rest, put together from the left and from the
/// right.
proof fn lemma_bytes_right(
    a: Seq<u8>,
    b: Seq<u8>,
    c: Seq<u8>,
    d: Seq<u8>,
    e: Seq<u8>,
    f: Seq<u8>,
    g: Seq<u8>,
    rest: Seq<u8>,
)
    ensures
        a + b + c + d + e + f + g + rest == a + (b + (c + (d + (e + (f + (g + rest)))))),
{
    lemma_bytes2(a + b + c + d + e + f, g, rest);
    lemma_bytes2(a + b + c + d + e, f, g + rest);
    lemma_bytes2(a + b + c + d, e, f + (g + rest));
    lemma_bytes2(a + b + c, d, e + (f + (g + rest)));
    lemma_bytes2(a + b, c, d + (e + (f + (g + rest))));
    lemma_bytes2(a, b, c + (d + (e + (f + (g + rest)))));
}

/// Putting together is associative.
proof fn lemma_bytes2(a: Seq<u8>, b: Seq<u8>, c: Seq<u8>)
    ensures
        a + b + c == a + (b + c),
{
    assert(a + b + c =~= a + (b + c));
}

/// Parts added one after the other are the parts put together and added.
proof fn lemma_bytes7(
    o: Seq<u8>,
    a: Seq<u8>,
    b: Seq<u8>,
    c: Seq<u8>,
    d: Seq<u8>,
    e: Seq<u8>,
    f: Seq<u8>,
    g: Seq<u8>,
)
    ensures
        o + a + b + c + d + e + f + g == o + (a + b + c + d + e + f + g),
{
    lemma_bytes2(o, a, b);
    lemma_bytes2(o, a + b, c);
    lemma_bytes2(o, a + b + c, d);
    lemma_bytes2(o, a + b + c + d, e);
    lemma_bytes2(o, a + b + c + d + e, f);
    lemma_bytes2(o, a + b + c + d + e + f, g);
}

/// Appends a line.
fn push_line(out: &mut Vec<u8>, l: &LyricLine)
    requires
        line_countable(l@),
    ensures
        final(out)@ == old(out)@ + line_bytes(l@),
{
    push_le(out, l.start_time, 8);
    push_le(out, l.end_time, 8);
    push_le(out, l.words.len() as u64, 4);
    push_words(out, &l.words);
    push_text(out, l.translated_lyric.0.as_str());
    push_text(out, l.roman_lyric.0.as_str());
    let bg: u64 = if l.is_bg {
        1
    } else {
        0
    };
    let duet: u64 = if l.is_duet {
        2
    } else {
        0
    };
    push_le(out, bg + duet, 1);
    proof {
        lemma_bytes7(
            old(out)@,
            le_bytes(l@.start as nat, 8),
            le_bytes(l@.end as nat, 8),
            le_bytes(l@.words.len(), 4),
            words_bytes(l@.words),
            text_bytes(l@.translated),
            text_bytes(l@.roman),
            le_bytes(flags(l@.is_bg, l@.is_duet), 1),
        );
    }
}

/// Reads a line at `pos`.
fn take_line(b: &[u8], pos: usize) -> (r: Option<(LyricLine, usize)>)
    requires
        pos <= b.len(),
    ensures
        match r {
            Some(p) => ({
                &&& read_line(behind(b@, pos as int)) == Some((p.0@, behind(b@, p.1 as int)))
                &&& p.1 <= b.len()
            }),
            None => read_line(behind(b@, pos as int)) is None,
        },
{
    proof {
        lemma_pow256();
    }
    let start = match take_le(b, pos, 8) {
        None => {
            return None;
        },
        Some(p) => p,
    };
    let end = match take_le(b, start.1, 8) {
        None => {
            return None;
        },
        Some(p) => p,
    };
    let count = match take_le(b, end.1, 4) {
        None => {
            return None;
        },
        Some(p) => p,
    };
    let words = match take_words(b, count.1, count.0 as u32) {
        None => {
            return None;
        },
        Some(p) => p,
    };
    let translated = match take_text(b, words.1) {
        None => {
            return None;
        },
        Some(p) => p,
    };
    let roman = match take_text(b, translated.1) {
        None => {
            return None;
        },
        Some(p) => p,
    };
    let flags = match take_le(b, roman.1, 1) {
        None => {
            return None;
        },
        Some(p) => p,
    };
    Some(
        (
            LyricLine {
                start_time: start.0,
                end_time: end.0,
                words: words.0,
                translated_lyric: NullString(translated.0),
                roman_lyric: NullString(roman.0),
                is_bg: flags.0 % 2 == 1,
                is_duet: flags.0 / 2 % 2 == 1,
            },
            flags.1,
        ),
    )
}

/// The lines of a list, one after the other.
pub open spec fn lines_bytes(v: Seq<LyricLineView>) -> Seq<u8>
    decreases v.len(),
{
    if v.len() == 0 {
        Seq::empty()
    } else {
        line_bytes(v[0]) + lines_bytes(v.subrange(1, v.len() as int))
    }
}

/// Reads `n` lines from the front.
pub open spec fn read_lines(b: Seq<u8>, n: nat) -> Option<(Seq<LyricLineView>, Seq<u8>)>
    decreases n,
{
    if n == 0 {
        Some((Seq::empty(), b))
    } else {
        match read_line(b) {
            None => None,
            Some((x, rest)) => match read_lines(rest, (n - 1) as nat) {
                None => None,
                Some((more, end)) => Some((seq![x] + more, end)),
            },
        }
    }
}

/// A list of lines reads as itself.
#[verifier::rlimit(60)]
#[verifier::spinoff_prover]
proof fn lemma_read_lines(v: Seq<LyricLineView>, rest: Seq<u8>)
    requires
        forall|i: int| 0 <= i < v.len() ==> line_clean(#[trigger] v[i]),
    ensures
        read_lines(lines_bytes(v) + rest, v.len()) == Some((v, rest)),
    decreases v.len(),
{
    if v.len() == 0 {
        assert(lines_bytes(v) + rest =~= rest);
        assert(v =~= Seq::<LyricLineView>::empty());
    } else {
        let t = v.subrange(1, v.len() as int);
        assert forall|i: int| 0 <= i < t.len() implies line_clean(#[trigger] t[i]) by {
            assert(t[i] == v[i + 1]);
        }
        lemma_read_lines(t, rest);
        assert(line_clean(v[0]));
        lemma_read_line(v[0], lines_bytes(t) + rest);
        lemma_bytes2(line_bytes(v[0]), lines_bytes(t), rest);
        assert(seq![v[0]] + t =~= v);
    }
}

/// Appends a list of lines.
fn push_lines(out: &mut Vec<u8>, v: &Vec<LyricLine>)
    requires
        forall|i: int| 0 <= i < v@.len() ==> line_countable(#[trigger] v@[i]@),
    ensures
        final(out)@ == old(out)@ + lines_bytes(lyric_line_views(v@)),
{
    let ghost all = lyric_line_views(v@);
    let mut i: usize = 0;
    proof {
        assert(all.subrange(0, all.len() as int) =~= all);
    }
    while i < v.len()
        invariant
            i <= v.len(),
            all == lyric_line_views(v@),
            forall|i: int| 0 <= i < v@.len() ==> line_countable(#[trigger] v@[i]@),
            out@ + lines_bytes(all.subrange(i as int, all.len() as int)) == old(out)@
                + lines_bytes(all),
        decreases v.len() - i,
    {
        let ghost before = out@;
        let ghost left = all.subrange(i as int, all.len() as int);
        push_line(out, &v[i]);
        proof {
            assert(left[0] == v@[i as int]@);
            assert(left.subrange(1, left.len() as int) =~= all.subrange(i + 1, all.len() as int));
            lemma_bytes2(
                before,
                line_bytes(left[0]),
                lines_bytes(all.subrange(i + 1, all.len() as int)),
            );
        }
        i += 1;
    }
    proof {
        assert(all.subrange(i as int, all.len() as int) =~= Seq::<LyricLineView>::empty());
        assert(out@ + Seq::<u8>::empty() =~= out@);
    }
}

/// Reads `n` lines at `pos`, and gives the position behind them.
fn take_lines(b: &[u8], pos: usize, n: u32) -> (r: Option<(Vec<LyricLine>, usize)>)
    requires
        pos <= b.len(),
    ensures
        match r {
            Some(p) => ({
                &&& read_lines(behind(b@, pos as int), n as nat) == Some(
                    (lyric_line_views(p.0@), behind(b@, p.1 as int)),
                )
                &&& p.1 <= b.len()
            }),
            None => read_lines(behind(b@, pos as int), n as nat) is None,
        },
{
    let mut out: Vec<LyricLine> = Vec::new();
    let mut at: usize = pos;
    let mut left: u32 = n;
    let ghost all = read_lines(behind(b@, pos as int), n as nat);
    proof {
        match all {
            Some(p) => {
                assert(lyric_line_views(out@) + p.0 =~= p.0);
            },
            None => {},
        }
    }
    while left > 0
        invariant
            at <= b.len(),
            all == read_lines(behind(b@, pos as int), n as nat),
            all == (match read_lines(behind(b@, at as int), left as nat) {
                Some(p) => Some((lyric_line_views(out@) + p.0, p.1)),
                None => None,
            }),
        decreases left,
    {
        let ghost before = out@;
        match take_line(b, at) {
            None => {
                return None;
            },
            Some(p) => {
                let ghost x = p.0@;
                out.push(p.0);
                at = p.1;
                proof {
                    assert(lyric_line_views(out@) =~= lyric_line_views(before).push(x));
                    match read_lines(behind(b@, at as int), (left - 1) as nat) {
                        Some(q) => {
                            assert(lyric_line_views(before) + (seq![x] + q.0) =~= lyric_line_views(out@) + q.0);
                        },
                        None => {},
                    }
                }
            },
        }
        left -= 1;
    }
    proof {
        assert(lyric_line_views(out@) + Seq::<LyricLineView>::empty() =~= lyric_line_views(out@));
    }
    Some((out, at))
}

// ---------------------------------------------------------------------------
// Messages
// ---------------------------------------------------------------------------

/// The two bytes that a message starts with.
pub open spec fn kind(n: nat) -> Seq<u8> {
    le_bytes(n, 2)
}

/// The bytes of a message of the connector.
pub open spec fn client_bytes(m: ClientView) -> Seq<u8> {
    match m {
        ClientView::Ping => kind(0),
        ClientView::Pong => kind(1),
        ClientView::SetMusicInfo {
            music_id,
            music_name,
            album_id,
            album_name,
            artists,
            duration,
        } => kind(2) + text_bytes(music_id) + text_bytes(music_name) + text_bytes(album_id)
            + text_bytes(album_name) + le_bytes(artists.len(), 4) + artists_bytes(artists)
            + le_bytes(duration as nat, 8),
        ClientView::SetMusicAlbumCoverImageData { data } => kind(4) + le_bytes(data.len(), 4)
            + data,
        ClientView::OnPlayProgress { progress } => kind(5) + le_bytes(progress as nat, 8),
        ClientView::OnPaused => kind(7),
        ClientView::OnResumed => kind(8),
        ClientView::SetLyric { data } => kind(10) + le_bytes(data.len(), 4) + lines_bytes(data),
        ClientView::SetLyricFromTTML { data } => kind(11) + text_bytes(data),
    }
}

/// Whether every count of a message fits in 32 bits.
pub open spec fn countable(m: ClientView) -> bool {
    match m {
        ClientView::SetMusicInfo { artists, .. } => artists.len() <= u32::MAX,
        ClientView::SetMusicAlbumCoverImageData { data } => data.len() <= u32::MAX,
        ClientView::SetLyric { data } => data.len() <= u32::MAX && forall|i: int|
            0 <= i < data.len() ==> line_countable(#[trigger] data[i]),
        _ => true,
    }
}

/// Whether no text of a message holds a zero character.
pub open spec fn clean(m: ClientView) -> bool {
    match m {
        ClientView::SetMusicInfo {
            music_id,
            music_name,
            album_id,
            album_name,
            artists,
            duration,
        } => {
            &&& no_zero(music_id)
            &&& no_zero(music_name)
            &&& no_zero(album_id)
            &&& no_zero(album_name)
            &&& forall|i: int| 0 <= i < artists.len() ==> artist_clean(#[trigger] artists[i])
        },
        ClientView::SetLyric { data } => forall|i: int|
            0 <= i < data.len() ==> line_clean(#[trigger] data[i]),
        ClientView::SetLyricFromTTML { data } => no_zero(data),
        _ => true,
    }
}

/// Reads a song's data.
pub open spec fn read_music_info(b: Seq<u8>) -> Option<ClientView> {
    match read_text(b) {
        None => None,
        Some((music_id, b1)) => match read_text(b1) {
            None => None,
            Some((music_name, b2)) => match read_text(b2) {
                None => None,
                Some((album_id, b3)) => match read_text(b3) {
                    None => None,
                    Some((album_name, b4)) => match read_le(b4, 4) {
                        None => None,
                        Some((count, b5)) => match read_artists(b5, count) {
                            None => None,
                            Some((artists, b6)) => match read_le(b6, 8) {
                                None => None,
                                Some((duration, _)) => Some(
                                    ClientView::SetMusicInfo {
                                        music_id,
                                        music_name,
                                        album_id,
                                        album_name,
                                        artists,
                                        duration: duration as u64,
                                    },
                                ),
                            },
                        },
                    },
                },
            },
        },
    }
}

/// Reads a cover image.
pub open spec fn read_cover(b: Seq<u8>) -> Option<ClientView> {
    match read_le(b, 4) {
        None => None,
        Some((size, b1)) => if b1.len() < size {
            None
        } else {
            Some(
                ClientView::SetMusicAlbumCoverImageData { data: b1.subrange(0, size as int) },
            )
        },
    }
}

/// Reads lyrics.
pub open spec fn read_lyric(b: Seq<u8>) -> Option<ClientView> {
    match read_le(b, 4) {
        None => None,
        Some((count, b1)) => match read_lines(b1, count) {
            None => None,
            Some((data, _)) => Some(ClientView::SetLyric { data }),
        },
    }
}

/// Reads a message of the connector. Bytes behind the message are not looked at.
pub open spec fn read_client(b: Seq<u8>) -> Option<ClientView> {
    match read_le(b, 2) {
        None => None,
        Some((kind, rest)) => if kind == 0 {
            Some(ClientView::Ping)
        } else if kind == 1 {
            Some(ClientView::Pong)
        } else if kind == 2 {
            read_music_info(rest)
        } else if kind == 4 {
            read_cover(rest)
        } else if kind == 5 {
            match read_le(rest, 8) {
                None => None,
                Some((progress, _)) => Some(
                    ClientView::OnPlayProgress { progress: progress as u64 },
                ),
            }
        } else if kind == 7 {
            Some(ClientView::OnPaused)
        } else if kind == 8 {
            Some(ClientView::OnResumed)
        } else if kind == 10 {
            read_lyric(rest)
        } else if kind == 11 {
            match read_text(rest) {
                None => None,
                Some((data, _)) => Some(ClientView::SetLyricFromTTML { data }),
            }
        } else {
            None
        },
    }
}

/// Reads a message of the player. Bytes behind the message are not looked at.
pub open spec fn read_server(b: Seq<u8>) -> Option<ServerMessage> {
    match read_le(b, 2) {
        None => None,
        Some((kind, rest)) => if kind == 0 {
            Some(ServerMessage::Ping)
        } else if kind == 1 {
            Some(ServerMessage::Pong)
        } else if kind == 12 {
            Some(ServerMessage::Pause)
        } else if kind == 13 {
            Some(ServerMessage::Resume)
        } else if kind == 14 {
            Some(ServerMessage::ForwardSong)
        } else if kind == 15 {
            Some(ServerMessage::BackwardSong)
        } else if kind == 16 {
            match read_le(rest, 8) {
                None => None,
                Some((volume, _)) => Some(ServerMessage::SetVolume { volume: volume as u64 }),
            }
        } else if kind == 17 {
            match read_le(rest, 8) {
                None => None,
                Some((progress, _)) => Some(
                    ServerMessage::SeekPlayProgress { progress: progress as u64 },
                ),
            }
        } else {
            None
        },
    }
}

/// Reads a song's data from `pos` on.
fn take_music_info(b: &[u8], pos: usize) -> (r: Option<ClientMessage>)
    requires
        pos <= b.len(),
    ensures
        match r {
            Some(m) => read_music_info(behind(b@, pos as int)) == Some(m@),
            None => read_music_info(behind(b@, pos as int)) is None,
        },
{
    proof {
        lemma_pow256();
    }
    let music_id = match take_text(b, pos) {
        None => {
            return None;
        },
        Some(p) => p,
    };
    let music_name = match take_text(b, music_id.1) {
        None => {
            return None;
        },
        Some(p) => p,
    };
    let album_id = match take_text(b, music_name.1) {
        None => {
            return None;
        },
        Some(p) => p,
    };
    let album_name = match take_text(b, album_id.1) {
        None => {
            return None;
        },
        Some(p) => p,
    };
    let count = match take_le(b, album_name.1, 4) {
        None => {
            return None;
        },
        Some(p) => p,
    };
    let artists = match take_artists(b, count.1, count.0 as u32) {
        None => {
            return None;
        },
        Some(p) => p,
    };
    match take_le(b, artists.1, 8) {
        None => None,
        Some(duration) => Some(
            ClientMessage::SetMusicInfo {
                music_id: NullString(music_id.0),
                music_name: NullString(music_name.0),
                album_id: NullString(album_id.0),
                album_name: NullString(album_name.0),
                artists: artists.0,
                duration: duration.0,
            },
        ),
    }
}

/// Reads a cover image from `pos` on.
fn take_cover(b: &[u8], pos: usize) -> (r: Option<ClientMessage>)
    requires
        pos <= b.len(),
    ensures
        match r {
            Some(m) => read_cover(behind(b@, pos as int)) == Some(m@),
            None => read_cover(behind(b@, pos as int)) is None,
        },
{
    match take_le(b, pos, 4) {
        None => None,
        Some(size) => {
            let left: u64 = (b.len() - size.1) as u64;
            if left < size.0 {
                None
            } else {
                let n: usize = size.0 as usize;
                proof {
                    assert(behind(b@, size.1 as int).subrange(0, n as int) =~= b@.subrange(
                        size.1 as int,
                        size.1 + n,
                    ));
                }
                Some(
                    ClientMessage::SetMusicAlbumCoverImageData {
                        data: vstd::slice::slice_to_vec(slice_subrange(b, size.1, size.1 + n)),
                    },
                )
            }
        },
    }
}

/// Reads lyrics from `pos` on.
fn take_lyric(b: &[u8], pos: usize) -> (r: Option<ClientMessage>)
    requires
        pos <= b.len(),
    ensures
        match r {
            Some(m) => read_lyric(behind(b@, pos as int)) == Some(m@),
            None => read_lyric(behind(b@, pos as int)) is None,
        },
{
    proof {
        lemma_pow256();
    }
    match take_le(b, pos, 4) {
        None => None,
        Some(count) => match take_lines(b, count.1, count.0 as u32) {
            None => None,
            Some(p) => Some(ClientMessage::SetLyric { data: p.0 }),
        },
    }
}

/// Reads a message of the connector.
fn take_client(b: &[u8]) -> (r: Option<ClientMessage>)
    ensures
        match r {
            Some(m) => read_client(b@) == Some(m@),
            None => read_client(b@) is None,
        },
{
    proof {
        assert(behind(b@, 0) =~= b@);
    }
    let (kind, pos) = match take_le(b, 0, 2) {
        None => {
            return None;
        },
        Some(p) => p,
    };
    if kind == 0 {
        Some(ClientMessage::Ping)
    } else if kind == 1 {
        Some(ClientMessage::Pong)
    } else if kind == 2 {
        take_music_info(b, pos)
    } else if kind == 4 {
        take_cover(b, pos)
    } else if kind == 5 {
        match take_le(b, pos, 8) {
            None => None,
            Some(p) => Some(ClientMessage::OnPlayProgress { progress: p.0 }),
        }
    } else if kind == 7 {
        Some(ClientMessage::OnPaused)
    } else if kind == 8 {
        Some(ClientMessage::OnResumed)
    } else if kind == 10 {
        take_lyric(b, pos)
    } else if kind == 11 {
        match take_text(b, pos) {
            None => None,
            Some(p) => Some(ClientMessage::SetLyricFromTTML { data: NullString(p.0) }),
        }
    } else {
        None
    }
}

/// Whether every line has a count of words that fits in 32 bits.
fn lines_countable(lines: &Vec<LyricLine>) -> (r: bool)
    ensures
        r == (forall|i: int|
            0 <= i < lines@.len() ==> line_countable(#[trigger] lyric_line_views(lines@)[i])),
{
    let mut i: usize = 0;
    while i < lines.len()
        invariant
            i <= lines.len(),
            forall|k: int|
                0 <= k < i ==> line_countable(#[trigger] lyric_line_views(lines@)[k]),
        decreases lines.len() - i,
    {
        if lines[i].words.len() as u64 > u32::MAX as u64 {
            proof {
                assert(!line_countable(lyric_line_views(lines@)[i as int]));
            }
            return false;
        }
        i += 1;
    }
    true
}

impl ClientMessage {
    /// Whether every count of the message fits in 32 bits.
    fn is_countable(&self) -> (r: bool)
        ensures
            r == countable(self@),
    {
        match self {
            ClientMessage::SetMusicInfo { artists, .. } => artists.len() as u64 <= u32::MAX as u64,
            ClientMessage::SetMusicAlbumCoverImageData { data } => data.len() as u64
                <= u32::MAX as u64,
            ClientMessage::SetLyric { data } => data.len() as u64 <= u32::MAX as u64
                && lines_countable(data),
            _ => true,
        }
    }

    /// The bytes of the message; an error exactly where a list has more entries
    /// than its count can say.
    pub fn encode(&self) -> (r: Result<Vec<u8>, ProtocolError>)
        ensures
            match r {
                Ok(b) => countable(self@) && b@ == client_bytes(self@),
                Err(e) => !countable(self@) && e == ProtocolError::TooLong,
            },
    {
        if !self.is_countable() {
            return Err(ProtocolError::TooLong);
        }
        let mut out: Vec<u8> = Vec::new();
        match self {
            ClientMessage::Ping => {
                push_le(&mut out, 0, 2);
            },
            ClientMessage::Pong => {
                push_le(&mut out, 1, 2);
            },
            ClientMessage::SetMusicInfo {
                music_id,
                music_name,
                album_id,
                album_name,
                artists,
                duration,
            } => {
                push_le(&mut out, 2, 2);
                let ghost head = out@;
                push_text(&mut out, music_id.0.as_str());
                push_text(&mut out, music_name.0.as_str());
                push_text(&mut out, album_id.0.as_str());
                push_text(&mut out, album_name.0.as_str());
                push_le(&mut out, artists.len() as u64, 4);
                push_artists(&mut out, artists);
                push_le(&mut out, *duration, 8);
                proof {
                    assert(head =~= kind(2));
                }
            },
            ClientMessage::SetMusicAlbumCoverImageData { data } => {
                push_le(&mut out, 4, 2);
                let ghost head = out@;
                push_le(&mut out, data.len() as u64, 4);
                out.extend_from_slice(data.as_slice());
                proof {
                    assert(head =~= kind(4));
                    assert(out@ =~= client_bytes(self@));
                }
            },
            ClientMessage::OnPlayProgress { progress } => {
                push_le(&mut out, 5, 2);
                let ghost head = out@;
                push_le(&mut out, *progress, 8);
                proof {
                    assert(head =~= kind(5));
                }
            },
            ClientMessage::OnPaused => {
                push_le(&mut out, 7, 2);
            },
            ClientMessage::OnResumed => {
                push_le(&mut out, 8, 2);
            },
            ClientMessage::SetLyric { data } => {
                push_le(&mut out, 10, 2);
                let ghost head = out@;
                push_le(&mut out, data.len() as u64, 4);
                proof {
                    assert forall|i: int| 0 <= i < data@.len() implies line_countable(
                        #[trigger] data@[i]@,
                    ) by {
                        assert(lyric_line_views(data@)[i] == data@[i]@);
                    }
                }
                push_lines(&mut out, data);
                proof {
                    assert(head =~= kind(10));
                }
            },
            ClientMessage::SetLyricFromTTML { data } => {
                push_le(&mut out, 11, 2);
                let ghost head = out@;
                push_text(&mut out, data.0.as_str());
                proof {
                    assert(head =~= kind(11));
                }
            },
        }
        proof {
            assert(out@ =~= client_bytes(self@));
        }
        Ok(out)
    }

    /// The message that bytes start with; an error exactly where they start with
    /// none.
    pub fn _decode(bytes: &[u8]) -> (r: Result<ClientMessage, ProtocolError>)
        ensures
            match r {
                Ok(m) => read_client(bytes@) == Some(m@),
                Err(e) => read_client(bytes@) is None && e == ProtocolError::Malformed,
            },
    {
        match take_client(bytes) {
            Some(m) => Ok(m),
            None => Err(ProtocolError::Malformed),
        }
    }
}

impl ServerMessage {
    /// The message that bytes start with; an error exactly where they start with
    /// none.
    pub fn decode(bytes: &[u8]) -> (r: Result<ServerMessage, ProtocolError>)
        ensures
            match r {
                Ok(m) => read_server(bytes@) == Some(m),
                Err(e) => read_server(bytes@) is None && e == ProtocolError::Malformed,
            },
    {
        proof {
            assert(behind(bytes@, 0) =~= bytes@);
        }
        let (kind, pos) = match take_le(bytes, 0, 2) {
            None => {
                return Err(ProtocolError::Malformed);
            },
            Some(p) => p,
        };
        if kind == 0 {
            Ok(ServerMessage::Ping)
        } else if kind == 1 {
            Ok(ServerMessage::Pong)
        } else if kind == 12 {
            Ok(ServerMessage::Pause)
        } else if kind == 13 {
            Ok(ServerMessage::Resume)
        } else if kind == 14 {
            Ok(ServerMessage::ForwardSong)
        } else if kind == 15 {
            Ok(ServerMessage::BackwardSong)
        } else if kind == 16 {
            match take_le(bytes, pos, 8) {
                None => Err(ProtocolError::Malformed),
                Some(p) => Ok(ServerMessage::SetVolume { volume: p.0 }),
            }
        } else if kind == 17 {
            match take_le(bytes, pos, 8) {
                None => Err(ProtocolError::Malformed),
                Some(p) => Ok(ServerMessage::SeekPlayProgress { progress: p.0 }),
            }
        } else {
            Err(ProtocolError::Malformed)
        }
    }
}

/// A song's data reads as itself.
proof fn lemma_read_music_info(
    music_id: Seq<char>,
    music_name: Seq<char>,
    album_id: Seq<char>,
    album_name: Seq<char>,
    artists: Seq<ArtistView>,
    duration: u64,
    rest: Seq<u8>,
)
    requires
        no_zero(music_id),
        no_zero(music_name),
        no_zero(album_id),
        no_zero(album_name),
        artists.len() <= u32::MAX,
        forall|i: int| 0 <= i < artists.len() ==> artist_clean(#[trigger] artists[i]),
    ensures
        read_music_info(
            text_bytes(music_id) + (text_bytes(music_name) + (text_bytes(album_id) + (text_bytes(
                album_name,
            ) + (le_bytes(artists.len(), 4) + (artists_bytes(artists) + (le_bytes(
                duration as nat,
                8,
            ) + rest)))))),
        ) == Some(
            ClientView::SetMusicInfo {
                music_id,
                music_name,
                album_id,
                album_name,
                artists,
                duration,
            },
        ),
{
    lemma_pow256();
    let d = le_bytes(duration as nat, 8) + rest;
    let a = artists_bytes(artists) + d;
    let c = le_bytes(artists.len(), 4) + a;
    let an = text_bytes(album_name) + c;
    let ai = text_bytes(album_id) + an;
    let mn = text_bytes(music_name) + ai;
    lemma_read_text(music_id, mn);
    lemma_read_text(music_name, ai);
    lemma_read_text(album_id, an);
    lemma_read_text(album_name, c);
    lemma_read_le(artists.len(), 4, a);
    lemma_read_artists(artists, d);
    lemma_read_le(duration as nat, 8, rest);
}

/// The bytes of a song's data are its kind and its parts.
proof fn lemma_music_info_bytes(
    music_id: Seq<char>,
    music_name: Seq<char>,
    album_id: Seq<char>,
    album_name: Seq<char>,
    artists: Seq<ArtistView>,
    duration: u64,
    rest: Seq<u8>,
)
    ensures
        read_le(
            client_bytes(
                ClientView::SetMusicInfo {
                    music_id,
                    music_name,
                    album_id,
                    album_name,
                    artists,
                    duration,
                },
            ) + rest,
            2,
        ) == Some(
            (
                2nat,
                text_bytes(music_id) + (text_bytes(music_name) + (text_bytes(album_id) + (
                text_bytes(album_name) + (le_bytes(artists.len(), 4) + (artists_bytes(artists) + (
                le_bytes(duration as nat, 8) + rest)))))),
            ),
        ),
{
    lemma_pow256();
    let d = le_bytes(duration as nat, 8) + rest;
    lemma_bytes2(
        kind(2) + text_bytes(music_id) + text_bytes(music_name) + text_bytes(album_id)
            + text_bytes(album_name) + le_bytes(artists.len(), 4) + artists_bytes(artists),
        le_bytes(duration as nat, 8),
        rest,
    );
    lemma_bytes_right(
        kind(2),
        text_bytes(music_id),
        text_bytes(music_name),
        text_bytes(album_id),
        text_bytes(album_name),
        le_bytes(artists.len(), 4),
        artists_bytes(artists),
        d,
    );
    lemma_read_le(
        2,
        2,
        text_bytes(music_id) + (text_bytes(music_name) + (text_bytes(album_id) + (text_bytes(
            album_name,
        ) + (le_bytes(artists.len(), 4) + (artists_bytes(artists) + d))))),
    );
}

/// A message that can be written, and whose texts hold no zero character, reads
/// as itself, whatever stands behind it.
#[verifier::rlimit(60)]
#[verifier::spinoff_prover]
pub proof fn law_client_round_trip(m: ClientView, rest: Seq<u8>)
    requires
        countable(m),
        clean(m),
    ensures
        read_client(client_bytes(m) + rest) == Some(m),
{
    lemma_pow256();
    let b = client_bytes(m) + rest;
    match m {
        ClientView::Ping => {
            lemma_read_le(0, 2, rest);
        },
        ClientView::Pong => {
            lemma_read_le(1, 2, rest);
        },
        ClientView::SetMusicInfo {
            music_id,
            music_name,
            album_id,
            album_name,
            artists,
            duration,
        } => {
            lemma_music_info_bytes(
                music_id,
                music_name,
                album_id,
                album_name,
                artists,
                duration,
                rest,
            );
            lemma_read_music_info(
                music_id,
                music_name,
                album_id,
                album_name,
                artists,
                duration,
                rest,
            );
        },
        ClientView::SetMusicAlbumCoverImageData { data } => {
            let body = le_bytes(data.len(), 4) + (data + rest);
            lemma_bytes2(kind(4) + le_bytes(data.len(), 4), data, rest);
            lemma_bytes2(kind(4), le_bytes(data.len(), 4), data + rest);
            lemma_read_le(4, 2, body);
            lemma_read_le(data.len(), 4, data + rest);
            assert((data + rest).subrange(0, data.len() as int) =~= data);
        },
        ClientView::OnPlayProgress { progress } => {
            let body = le_bytes(progress as nat, 8) + rest;
            lemma_bytes2(kind(5), le_bytes(progress as nat, 8), rest);
            lemma_read_le(5, 2, body);
            lemma_read_le(progress as nat, 8, rest);
        },
        ClientView::OnPaused => {
            lemma_read_le(7, 2, rest);
        },
        ClientView::OnResumed => {
            lemma_read_le(8, 2, rest);
        },
        ClientView::SetLyric { data } => {
            let body = le_bytes(data.len(), 4) + (lines_bytes(data) + rest);
            lemma_bytes2(kind(10) + le_bytes(data.len(), 4), lines_bytes(data), rest);
            lemma_bytes2(kind(10), le_bytes(data.len(), 4), lines_bytes(data) + rest);
            lemma_read_le(10, 2, body);
            lemma_read_le(data.len(), 4, lines_bytes(data) + rest);
            lemma_read_lines(data, rest);
        },
        ClientView::SetLyricFromTTML { data } => {
            let body = text_bytes(data) + rest;
            lemma_bytes2(kind(11), text_bytes(data), rest);
            lemma_read_le(11, 2, body);
            lemma_read_text(data, rest);
        },
    }
}

/// Two messages that can be written and hold no zero characters have the same
/// bytes only if they are the same.
pub proof fn law_client_bytes_differ(m: ClientView, n: ClientView)
    requires
        countable(m),
        clean(m),
        countable(n),
        clean(n),
        client_bytes(m) == client_bytes(n),
    ensures
        m == n,
{
    law_client_round_trip(m, Seq::empty());
    law_client_round_trip(n, Seq::empty());
}

} // verus!
