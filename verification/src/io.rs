//! What is done with the files that the user opens and saves.

use vstd::prelude::*;
use vstd::utf8::{decode_utf8, valid_utf8};

use crate::amll_connector::wire::utf8_string;
use crate::app_actions::LrcContentType;
use crate::app_definition::{LyricState, LyricsView};
use crate::formats::{formats, LyricFormat};
use crate::text::{eq_ignore_case, equal_ignoring_case, to_chars};
use crate::types::opt_view;

verus! {

/// The extension of the files in a format.
pub open spec fn extension_of(f: LyricFormat) -> Seq<char> {
    match f {
        LyricFormat::Ass => "ass"@,
        LyricFormat::Ttml => "ttml"@,
        LyricFormat::AppleMusicJson => "json"@,
        LyricFormat::Lys => "lys"@,
        LyricFormat::Lrc => "lrc"@,
        LyricFormat::EnhancedLrc => "elrc"@,
        LyricFormat::Qrc => "qrc"@,
        LyricFormat::Yrc => "yrc"@,
        LyricFormat::Lyl => "lyl"@,
        LyricFormat::Spl => "spl"@,
        LyricFormat::Lqe => "lqe"@,
        LyricFormat::Krc => "krc"@,
        LyricFormat::Musixmatch => "json"@,
    }
}

/// The first format at or after `i` whose files have this extension, whatever its
/// case.
pub open spec fn format_with_extension(ext: Seq<char>, i: int) -> Option<LyricFormat>
    decreases formats().len() - i,
{
    if i < 0 || i >= formats().len() {
        None
    } else if eq_ignore_case(ext, extension_of(formats()[i])) {
        Some(formats()[i])
    } else {
        format_with_extension(ext, i + 1)
    }
}

impl LyricFormat {
    /// The extension of the files in the format.
    pub fn to_extension_str(&self) -> (r: &'static str)
        ensures
            r@ == extension_of(*self),
    {
        match self {
            LyricFormat::Ass => "ass",
            LyricFormat::Ttml => "ttml",
            LyricFormat::AppleMusicJson => "json",
            LyricFormat::Lys => "lys",
            LyricFormat::Lrc => "lrc",
            LyricFormat::EnhancedLrc => "elrc",
            LyricFormat::Qrc => "qrc",
            LyricFormat::Yrc => "yrc",
            LyricFormat::Lyl => "lyl",
            LyricFormat::Spl => "spl",
            LyricFormat::Lqe => "lqe",
            LyricFormat::Krc => "krc",
            LyricFormat::Musixmatch => "json",
        }
    }

    /// The format of files with this extension.
    pub fn from_extension(ext: &str) -> (r: Option<LyricFormat>)
        ensures
            r == format_with_extension(ext@, 0),
    {
        let e = to_chars(ext);
        let all = LyricFormat::available_formats();
        let mut i: usize = 0;
        while i < all.len()
            invariant
                i <= all.len(),
                all@ == formats(),
                e@ == ext@,
                format_with_extension(ext@, 0) == format_with_extension(ext@, i as int),
            decreases all.len() - i,
        {
            let x = to_chars(all[i].to_extension_str());
            if equal_ignoring_case(e.as_slice(), x.as_slice()) {
                return Some(all[i]);
            }
            i += 1;
        }
        None
    }
}

/// The lyrics with a file's text as their input, in the format that the file's
/// extension tells.
pub open spec fn with_file(s: LyricsView, content: Seq<char>, ext: Option<Seq<char>>) -> LyricsView {
    LyricsView {
        input: content,
        source: if ext is Some && format_with_extension(ext->0, 0) is Some {
            format_with_extension(ext->0, 0)->0
        } else {
            s.source
        },
        ..s
    }
}

impl LyricState {
    /// Takes a file's text as the input. The format stays where the file's
    /// extension does not tell one.
    pub fn load_file(&mut self, content: String, extension: &Option<String>)
        ensures
            final(self)@ == with_file(old(self)@, content@, opt_view(*extension)),
    {
        self.input_text = content;
        match extension {
            Some(ext) => {
                match LyricFormat::from_extension(ext.as_str()) {
                    Some(f) => {
                        self.source_format = f;
                    },
                    None => {},
                }
            },
            None => {},
        }
    }

    /// Takes bytes that were dropped on the window as the input, where they are
    /// text.
    pub fn load_bytes(&mut self, bytes: Vec<u8>) -> (r: bool)
        ensures
            r == valid_utf8(bytes@),
            final(self)@ == if r {
                LyricsView {
                    input: decode_utf8(bytes@),
                    from_download: false,
                    ..old(self)@
                }
            } else {
                old(self)@
            },
    {
        match utf8_string(bytes) {
            Some(text) => {
                self.input_text = text;
                self.metadata_source_is_download = false;
                true
            },
            None => false,
        }
    }

    /// Takes a file's text as the translation or the romanization.
    pub fn load_lrc_file(&mut self, content: String, content_type: LrcContentType)
        ensures
            final(self)@ == match content_type {
                LrcContentType::Translation => LyricsView {
                    translation: content@,
                    ..old(self)@
                },
                LrcContentType::Romanization => LyricsView {
                    romanization: content@,
                    ..old(self)@
                },
            },
    {
        match content_type {
            LrcContentType::Translation => {
                self.display_translation_lrc_output = content;
            },
            LrcContentType::Romanization => {
                self.display_romanization_lrc_output = content;
            },
        }
    }
}

} // verus!
