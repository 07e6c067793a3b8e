//! The lyric formats and the places that lyrics are searched in.

use vstd::prelude::*;

use crate::text::{
    eq_ignore_case, equal_ignoring_case, join, join_strings, split_any, split_at_any, to_chars,
    trim, trimmed, views,
};

verus! {

/// A lyric format.
#[derive(Debug, Clone, Copy, PartialEq, Eq, Structural)]
pub enum LyricFormat {
    Ass,
    Ttml,
    AppleMusicJson,
    Lys,
    Lrc,
    EnhancedLrc,
    Qrc,
    Yrc,
    Lyl,
    Spl,
    Lqe,
    Krc,
    Musixmatch,
}

/// The name of a format.
pub open spec fn format_name(f: LyricFormat) -> Seq<char> {
    match f {
        LyricFormat::Ass => "ASS"@,
        LyricFormat::Ttml => "TTML"@,
        LyricFormat::AppleMusicJson => "Apple Music JSON"@,
        LyricFormat::Lys => "Lyricify Syllable"@,
        LyricFormat::Lrc => "LRC"@,
        LyricFormat::EnhancedLrc => "Enhanced LRC"@,
        LyricFormat::Qrc => "QRC"@,
        LyricFormat::Yrc => "YRC"@,
        LyricFormat::Lyl => "Lyricify Lines"@,
        LyricFormat::Spl => "SPL"@,
        LyricFormat::Lqe => "Lyricify Quick Export"@,
        LyricFormat::Krc => "KRC"@,
        LyricFormat::Musixmatch => "Musixmatch"@,
    }
}

/// All formats, in the order in which they are offered.
pub open spec fn formats() -> Seq<LyricFormat> {
    seq![
        LyricFormat::Ass,
        LyricFormat::Ttml,
        LyricFormat::AppleMusicJson,
        LyricFormat::Lys,
        LyricFormat::Lrc,
        LyricFormat::EnhancedLrc,
        LyricFormat::Qrc,
        LyricFormat::Yrc,
        LyricFormat::Lyl,
        LyricFormat::Spl,
        LyricFormat::Lqe,
        LyricFormat::Krc,
        LyricFormat::Musixmatch,
    ]
}

/// The first format at or after `i` with this name, whatever its case.
pub open spec fn format_at(name: Seq<char>, i: int) -> Option<LyricFormat>
    decreases formats().len() - i,
{
    if i < 0 || i >= formats().len() {
        None
    } else if eq_ignore_case(name, format_name(formats()[i])) {
        Some(formats()[i])
    } else {
        format_at(name, i + 1)
    }
}

/// The format with this name.
pub open spec fn format_of(name: Seq<char>) -> Option<LyricFormat> {
    format_at(name, 0)
}

impl LyricFormat {
    /// The name of the format.
    pub fn name(&self) -> (r: &'static str)
        ensures
            r@ == format_name(*self),
    {
        match self {
            LyricFormat::Ass => "ASS",
            LyricFormat::Ttml => "TTML",
            LyricFormat::AppleMusicJson => "Apple Music JSON",
            LyricFormat::Lys => "Lyricify Syllable",
            LyricFormat::Lrc => "LRC",
            LyricFormat::EnhancedLrc => "Enhanced LRC",
            LyricFormat::Qrc => "QRC",
            LyricFormat::Yrc => "YRC",
            LyricFormat::Lyl => "Lyricify Lines",
            LyricFormat::Spl => "SPL",
            LyricFormat::Lqe => "Lyricify Quick Export",
            LyricFormat::Krc => "KRC",
            LyricFormat::Musixmatch => "Musixmatch",
        }
    }

    /// All formats, in the order in which they are offered.
    pub fn available_formats() -> (r: Vec<LyricFormat>)
        ensures
            r@ == formats(),
    {
        let v = vec![
            LyricFormat::Ass,
            LyricFormat::Ttml,
            LyricFormat::AppleMusicJson,
            LyricFormat::Lys,
            LyricFormat::Lrc,
            LyricFormat::EnhancedLrc,
            LyricFormat::Qrc,
            LyricFormat::Yrc,
            LyricFormat::Lyl,
            LyricFormat::Spl,
            LyricFormat::Lqe,
            LyricFormat::Krc,
            LyricFormat::Musixmatch,
        ];
        proof {
            assert(v@ =~= formats());
        }
        v
    }

    /// The format with this name, whatever its case.
    pub fn from_name(name: &str) -> (r: Option<LyricFormat>)
        ensures
            r == format_of(name@),
    {
        let n = to_chars(name);
        let all = LyricFormat::available_formats();
        let mut i: usize = 0;
        while i < all.len()
            invariant
                i <= all.len(),
                all@ == formats(),
                n@ == name@,
                format_of(name@) == format_at(name@, i as int),
            decreases all.len() - i,
        {
            let m = to_chars(all[i].name());
            if equal_ignoring_case(n.as_slice(), m.as_slice()) {
                return Some(all[i]);
            }
            i += 1;
        }
        None
    }
}

/// Every format is the format with its name.
pub proof fn law_format_names(f: LyricFormat)
    ensures
        format_of(format_name(f)) == Some(f),
{
    reveal_strlit("ASS");
    reveal_strlit("TTML");
    reveal_strlit("Apple Music JSON");
    reveal_strlit("Lyricify Syllable");
    reveal_strlit("LRC");
    reveal_strlit("Enhanced LRC");
    reveal_strlit("QRC");
    reveal_strlit("YRC");
    reveal_strlit("Lyricify Lines");
    reveal_strlit("SPL");
    reveal_strlit("Lyricify Quick Export");
    reveal_strlit("KRC");
    reveal_strlit("Musixmatch");
    assert forall|a: LyricFormat, b: LyricFormat| eq_ignore_case(
        #[trigger] format_name(a),
        #[trigger] format_name(b),
    ) implies a == b by {
        lemma_names_differ(a, b);
    }
    lemma_found(f, 0);
}

/// Two formats have different names, whatever the case.
proof fn lemma_names_differ(a: LyricFormat, b: LyricFormat)
    requires
        eq_ignore_case(format_name(a), format_name(b)),
    ensures
        a == b,
{
    reveal_strlit("ASS");
    reveal_strlit("TTML");
    reveal_strlit("Apple Music JSON");
    reveal_strlit("Lyricify Syllable");
    reveal_strlit("LRC");
    reveal_strlit("Enhanced LRC");
    reveal_strlit("QRC");
    reveal_strlit("YRC");
    reveal_strlit("Lyricify Lines");
    reveal_strlit("SPL");
    reveal_strlit("Lyricify Quick Export");
    reveal_strlit("KRC");
    reveal_strlit("Musixmatch");
    let x = crate::text::ascii_lower_seq(format_name(a));
    let y = crate::text::ascii_lower_seq(format_name(b));
    assert(x.len() == y.len());
    assert(x[0] == y[0]);
}

/// The position of a format in the list.
spec fn place(f: LyricFormat) -> int {
    match f {
        LyricFormat::Ass => 0,
        LyricFormat::Ttml => 1,
        LyricFormat::AppleMusicJson => 2,
        LyricFormat::Lys => 3,
        LyricFormat::Lrc => 4,
        LyricFormat::EnhancedLrc => 5,
        LyricFormat::Qrc => 6,
        LyricFormat::Yrc => 7,
        LyricFormat::Lyl => 8,
        LyricFormat::Spl => 9,
        LyricFormat::Lqe => 10,
        LyricFormat::Krc => 11,
        LyricFormat::Musixmatch => 12,
    }
}

/// The search for a name stops at the format that has it.
proof fn lemma_found(f: LyricFormat, i: int)
    requires
        0 <= i <= place(f),
        forall|a: LyricFormat, b: LyricFormat|
            eq_ignore_case(#[trigger] format_name(a), #[trigger] format_name(b)) ==> a == b,
    ensures
        format_at(format_name(f), i) == Some(f),
    decreases place(f) - i,
{
    assert(formats()[place(f)] == f);
    if i < place(f) {
        assert(formats()[i] != f);
        lemma_found(f, i + 1);
    }
}

// ---------------------------------------------------------------------------
// Where lyrics are searched
// ---------------------------------------------------------------------------

/// A place that lyrics are searched in.
#[derive(Debug, Clone, Copy, PartialEq, Eq, Structural)]
pub enum AutoSearchSource {
    LocalCache,
    QqMusic,
    Kugou,
    Netease,
    AmllDb,
    Musixmatch,
}

/// The name of a source in the settings.
pub open spec fn source_name(s: AutoSearchSource) -> Seq<char> {
    match s {
        AutoSearchSource::LocalCache => "local"@,
        AutoSearchSource::QqMusic => "qq"@,
        AutoSearchSource::Kugou => "kugou"@,
        AutoSearchSource::Netease => "netease"@,
        AutoSearchSource::AmllDb => "amll"@,
        AutoSearchSource::Musixmatch => "musixmatch"@,
    }
}

/// The source with this name.
pub open spec fn source_of(name: Seq<char>) -> Option<AutoSearchSource> {
    if name == "local"@ {
        Some(AutoSearchSource::LocalCache)
    } else if name == "qq"@ {
        Some(AutoSearchSource::QqMusic)
    } else if name == "kugou"@ {
        Some(AutoSearchSource::Kugou)
    } else if name == "netease"@ {
        Some(AutoSearchSource::Netease)
    } else if name == "amll"@ {
        Some(AutoSearchSource::AmllDb)
    } else if name == "musixmatch"@ {
        Some(AutoSearchSource::Musixmatch)
    } else {
        None
    }
}

/// The sources in the order in which they are searched by default.
pub open spec fn default_sources() -> Seq<AutoSearchSource> {
    seq![
        AutoSearchSource::LocalCache,
        AutoSearchSource::QqMusic,
        AutoSearchSource::Kugou,
        AutoSearchSource::Netease,
        AutoSearchSource::AmllDb,
        AutoSearchSource::Musixmatch,
    ]
}

/// The names of sources.
pub open spec fn source_names(order: Seq<AutoSearchSource>) -> Seq<Seq<char>> {
    Seq::new(order.len(), |i: int| source_name(order[i]))
}

/// An order of sources as it is written in the settings.
pub open spec fn order_text(order: Seq<AutoSearchSource>) -> Seq<char> {
    join(source_names(order), ","@)
}

/// The sources that a list of names names; other names are left out.
pub open spec fn named_sources(names: Seq<Seq<char>>) -> Seq<AutoSearchSource>
    decreases names.len(),
{
    if names.len() == 0 {
        Seq::empty()
    } else {
        let before = named_sources(names.drop_last());
        match source_of(trim(names.last())) {
            Some(s) => before.push(s),
            None => before,
        }
    }
}

/// The order of sources that is written in a text.
pub open spec fn order_of(text: Seq<char>) -> Seq<AutoSearchSource> {
    named_sources(split_any(text, seq![',']))
}

impl AutoSearchSource {
    /// The sources in the order in which they are searched by default.
    pub fn default_order() -> (r: Vec<AutoSearchSource>)
        ensures
            r@ == default_sources(),
    {
        let v = vec![
            AutoSearchSource::LocalCache,
            AutoSearchSource::QqMusic,
            AutoSearchSource::Kugou,
            AutoSearchSource::Netease,
            AutoSearchSource::AmllDb,
            AutoSearchSource::Musixmatch,
        ];
        proof {
            assert(v@ =~= default_sources());
        }
        v
    }

    /// The name of the source in the settings.
    pub fn name(&self) -> (r: &'static str)
        ensures
            r@ == source_name(*self),
    {
        match self {
            AutoSearchSource::LocalCache => "local",
            AutoSearchSource::QqMusic => "qq",
            AutoSearchSource::Kugou => "kugou",
            AutoSearchSource::Netease => "netease",
            AutoSearchSource::AmllDb => "amll",
            AutoSearchSource::Musixmatch => "musixmatch",
        }
    }

    /// The name that is shown for the source.
    pub fn display_name(&self) -> (r: &'static str)
        ensures
            r@ == match *self {
                AutoSearchSource::LocalCache => "本地"@,
                AutoSearchSource::QqMusic => "QQ 音乐"@,
                AutoSearchSource::Kugou => "酷狗音乐"@,
                AutoSearchSource::Netease => "网易云音乐"@,
                AutoSearchSource::AmllDb => "AMLL TTML 数据库"@,
                AutoSearchSource::Musixmatch => "Musixmatch"@,
            },
    {
        match self {
            AutoSearchSource::LocalCache => "本地",
            AutoSearchSource::QqMusic => "QQ 音乐",
            AutoSearchSource::Kugou => "酷狗音乐",
            AutoSearchSource::Netease => "网易云音乐",
            AutoSearchSource::AmllDb => "AMLL TTML 数据库",
            AutoSearchSource::Musixmatch => "Musixmatch",
        }
    }
}

/// Writes an order of sources.
pub fn search_order_to_string(order: &Vec<AutoSearchSource>) -> (r: String)
    ensures
        r@ == order_text(order@),
{
    let mut names: Vec<String> = Vec::new();
    let mut i: usize = 0;
    while i < order.len()
        invariant
            i <= order.len(),
            names@.len() == i,
            forall|k: int| 0 <= k < i ==> (#[trigger] names@[k])@ == source_name(order@[k]),
        decreases order.len() - i,
    {
        names.push(order[i].name().to_owned());
        i += 1;
    }
    proof {
        assert(views(names@) =~= source_names(order@));
    }
    join_strings(names.as_slice(), ",")
}

/// The source with this name.
fn source_with_name(name: &[char]) -> (r: Option<AutoSearchSource>)
    ensures
        r == source_of(name@),
{
    if crate::text::chars_are(name, "local") {
        Some(AutoSearchSource::LocalCache)
    } else if crate::text::chars_are(name, "qq") {
        Some(AutoSearchSource::QqMusic)
    } else if crate::text::chars_are(name, "kugou") {
        Some(AutoSearchSource::Kugou)
    } else if crate::text::chars_are(name, "netease") {
        Some(AutoSearchSource::Netease)
    } else if crate::text::chars_are(name, "amll") {
        Some(AutoSearchSource::AmllDb)
    } else if crate::text::chars_are(name, "musixmatch") {
        Some(AutoSearchSource::Musixmatch)
    } else {
        None
    }
}

/// Reads an order of sources.
pub fn string_to_search_order(text: &str) -> (r: Vec<AutoSearchSource>)
    ensures
        r@ == order_of(text@),
{
    let v = to_chars(text);
    let comma: [char; 1] = [','];
    proof {
        assert(comma@ =~= seq![',']);
    }
    let parts = split_at_any(v.as_slice(), &comma);
    let ghost names = split_any(text@, seq![',']);
    let mut out: Vec<AutoSearchSource> = Vec::new();
    let mut i: usize = 0;
    while i < parts.len()
        invariant
            i <= parts.len(),
            parts@.len() == names.len(),
            forall|k: int| 0 <= k < parts@.len() ==> #[trigger] parts@[k]@ == names[k],
            out@ == named_sources(names.subrange(0, i as int)),
        decreases parts.len() - i,
    {
        proof {
            let now = names.subrange(0, i + 1);
            assert(now.drop_last() =~= names.subrange(0, i as int));
            assert(parts@[i as int]@ == names[i as int]);
        }
        match source_with_name(trimmed(parts[i].as_slice())) {
            Some(s) => {
                out.push(s);
            },
            None => {},
        }
        i += 1;
    }
    proof {
        assert(names.subrange(0, i as int) =~= names);
    }
    out
}

} // verus!
