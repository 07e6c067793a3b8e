//! The entries of the index and the fields that they are searched by.

use vstd::prelude::*;

use crate::text::views;

verus! {

/// A field that the index can be searched by.
#[derive(Debug, Clone, Copy, PartialEq, Eq, Structural, Hash)]
pub enum AmllSearchField {
    MusicName,
    Artists,
    Album,
    NcmMusicId,
    QqMusicId,
    SpotifyId,
    AppleMusicId,
    Isrc,
    TtmlAuthorGithub,
    TtmlAuthorGithubLogin,
}

impl Default for AmllSearchField {
    fn default() -> (r: AmllSearchField)
        ensures
            r == AmllSearchField::MusicName,
    {
        AmllSearchField::MusicName
    }
}

/// The key of a field in the index.
pub open spec fn field_key(f: AmllSearchField) -> Seq<char> {
    match f {
        AmllSearchField::MusicName => "musicName"@,
        AmllSearchField::Artists => "artists"@,
        AmllSearchField::Album => "album"@,
        AmllSearchField::NcmMusicId => "ncmMusicId"@,
        AmllSearchField::QqMusicId => "qqMusicId"@,
        AmllSearchField::SpotifyId => "spotifyId"@,
        AmllSearchField::AppleMusicId => "appleMusicId"@,
        AmllSearchField::Isrc => "isrc"@,
        AmllSearchField::TtmlAuthorGithub => "ttmlAuthorGithub"@,
        AmllSearchField::TtmlAuthorGithubLogin => "ttmlAuthorGithubLogin"@,
    }
}

/// The name that is shown for a field.
pub open spec fn field_name(f: AmllSearchField) -> Seq<char> {
    match f {
        AmllSearchField::MusicName => "歌曲名称"@,
        AmllSearchField::Artists => "艺术家"@,
        AmllSearchField::Album => "专辑名"@,
        AmllSearchField::NcmMusicId => "网易云音乐 ID"@,
        AmllSearchField::QqMusicId => "QQ音乐 ID"@,
        AmllSearchField::SpotifyId => "Spotify音乐 ID"@,
        AmllSearchField::AppleMusicId => "Apple Music 音乐 ID"@,
        AmllSearchField::Isrc => "ISRC 号码"@,
        AmllSearchField::TtmlAuthorGithub => "逐词歌词作者 GitHub ID"@,
        AmllSearchField::TtmlAuthorGithubLogin => "逐词歌词作者 GitHub 用户名"@,
    }
}

impl AmllSearchField {
    /// The key of the field in the index.
    pub fn to_key_string(&self) -> (r: &str)
        ensures
            r@ == field_key(*self),
    {
        match self {
            AmllSearchField::MusicName => "musicName",
            AmllSearchField::Artists => "artists",
            AmllSearchField::Album => "album",
            AmllSearchField::NcmMusicId => "ncmMusicId",
            AmllSearchField::QqMusicId => "qqMusicId",
            AmllSearchField::SpotifyId => "spotifyId",
            AmllSearchField::AppleMusicId => "appleMusicId",
            AmllSearchField::Isrc => "isrc",
            AmllSearchField::TtmlAuthorGithub => "ttmlAuthorGithub",
            AmllSearchField::TtmlAuthorGithubLogin => "ttmlAuthorGithubLogin",
        }
    }

    /// The name that is shown for the field.
    pub fn display_name(&self) -> (r: &str)
        ensures
            r@ == field_name(*self),
    {
        match self {
            AmllSearchField::MusicName => "歌曲名称",
            AmllSearchField::Artists => "艺术家",
            AmllSearchField::Album => "专辑名",
            AmllSearchField::NcmMusicId => "网易云音乐 ID",
            AmllSearchField::QqMusicId => "QQ音乐 ID",
            AmllSearchField::SpotifyId => "Spotify音乐 ID",
            AmllSearchField::AppleMusicId => "Apple Music 音乐 ID",
            AmllSearchField::Isrc => "ISRC 号码",
            AmllSearchField::TtmlAuthorGithub => "逐词歌词作者 GitHub ID",
            AmllSearchField::TtmlAuthorGithubLogin => "逐词歌词作者 GitHub 用户名",
        }
    }

    /// All fields, in the order in which they are offered.
    pub fn all_fields() -> (r: Vec<AmllSearchField>)
        ensures
            r@ == seq![
                AmllSearchField::MusicName,
                AmllSearchField::Artists,
                AmllSearchField::Album,
                AmllSearchField::AppleMusicId,
                AmllSearchField::NcmMusicId,
                AmllSearchField::QqMusicId,
                AmllSearchField::SpotifyId,
                AmllSearchField::Isrc,
                AmllSearchField::TtmlAuthorGithub,
                AmllSearchField::TtmlAuthorGithubLogin,
            ],
    {
        let v = vec![
            AmllSearchField::MusicName,
            AmllSearchField::Artists,
            AmllSearchField::Album,
            AmllSearchField::AppleMusicId,
            AmllSearchField::NcmMusicId,
            AmllSearchField::QqMusicId,
            AmllSearchField::SpotifyId,
            AmllSearchField::Isrc,
            AmllSearchField::TtmlAuthorGithub,
            AmllSearchField::TtmlAuthorGithubLogin,
        ];
        proof {
            assert(v@ =~= seq![
                AmllSearchField::MusicName,
                AmllSearchField::Artists,
                AmllSearchField::Album,
                AmllSearchField::AppleMusicId,
                AmllSearchField::NcmMusicId,
                AmllSearchField::QqMusicId,
                AmllSearchField::SpotifyId,
                AmllSearchField::Isrc,
                AmllSearchField::TtmlAuthorGithub,
                AmllSearchField::TtmlAuthorGithubLogin,
            ]);
        }
        v
    }
}

/// An entry of the index.
#[derive(Debug, Clone)]
pub struct AmllIndexEntry {
    pub metadata: Vec<(String, Vec<String>)>,
    pub raw_lyric_file: String,
}

/// An `AmllIndexEntry` over mathematical values.
pub struct EntryView {
    pub metadata: Seq<(Seq<char>, Seq<Seq<char>>)>,
    pub file: Seq<char>,
}

/// The views of metadata.
pub open spec fn metadata_views(v: Seq<(String, Vec<String>)>) -> Seq<(Seq<char>, Seq<Seq<char>>)> {
    Seq::new(v.len(), |i: int| (v[i].0@, views(v[i].1@)))
}

impl View for AmllIndexEntry {
    type V = EntryView;

    open spec fn view(&self) -> EntryView {
        EntryView { metadata: metadata_views(self.metadata@), file: self.raw_lyric_file@ }
    }
}

/// The views of a list of entries.
pub open spec fn entry_views(v: Seq<AmllIndexEntry>) -> Seq<EntryView> {
    Seq::new(v.len(), |i: int| v[i]@)
}

/// A copy of a list of strings.
pub fn copy_strings(v: &Vec<String>) -> (r: Vec<String>)
    ensures
        views(r@) == views(v@),
{
    let mut out: Vec<String> = Vec::new();
    let mut i: usize = 0;
    while i < v.len()
        invariant
            i <= v.len(),
            out@.len() == i,
            forall|k: int| 0 <= k < i ==> (#[trigger] out@[k])@ == v@[k]@,
        decreases v.len() - i,
    {
        out.push(v[i].clone());
        i += 1;
    }
    proof {
        assert(views(out@) =~= views(v@));
    }
    out
}

/// A copy of metadata.
pub fn copy_metadata(v: &Vec<(String, Vec<String>)>) -> (r: Vec<(String, Vec<String>)>)
    ensures
        metadata_views(r@) == metadata_views(v@),
{
    let mut out: Vec<(String, Vec<String>)> = Vec::new();
    let mut i: usize = 0;
    while i < v.len()
        invariant
            i <= v.len(),
            out@.len() == i,
            forall|k: int|
                0 <= k < i ==> (#[trigger] out@[k]).0@ == v@[k].0@ && views(out@[k].1@) == views(
                    v@[k].1@,
                ),
        decreases v.len() - i,
    {
        out.push((v[i].0.clone(), copy_strings(&v[i].1)));
        i += 1;
    }
    proof {
        assert(metadata_views(out@) =~= metadata_views(v@));
    }
    out
}

impl AmllIndexEntry {
    /// A copy of the entry.
    pub fn copy(&self) -> (r: AmllIndexEntry)
        ensures
            r@ == self@,
    {
        AmllIndexEntry {
            metadata: copy_metadata(&self.metadata),
            raw_lyric_file: self.raw_lyric_file.clone(),
        }
    }
}

/// A TTML file that has been fetched, with what the index says of it.
#[derive(Debug, Clone, PartialEq)]
pub struct FetchedAmllTtmlLyrics {
    pub song_name: Option<String>,
    pub artists_name: Vec<String>,
    pub album_name: Option<String>,
    pub ttml_content: String,
    pub source_id: Option<String>,
    pub all_metadata_from_index: Vec<(String, Vec<String>)>,
}

} // verus!
