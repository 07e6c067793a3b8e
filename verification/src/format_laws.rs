//! The names of formats and sources, and the files that belong to them.

use vstd::prelude::*;

use crate::app_definition::LyricsView;
use crate::chinese_conversion_processor::{converted, opencc_text, processed};
use crate::formats::{
    default_sources, format_at, format_name, format_of, formats, law_format_names, named_sources,
    order_of, source_name, source_of, AutoSearchSource, LyricFormat,
};
use crate::io::{extension_of, format_with_extension, with_file};
use crate::text::{ascii_lower_seq, eq_ignore_case, split_any, trim};
use crate::text_laws::law_split;
use crate::types::{opt_view, paragraph_views, TtmlParagraph};

verus! {

/// Names that differ in case at most are looked up alike.
proof fn lemma_same_lookup(a: Seq<char>, b: Seq<char>, i: int)
    requires
        eq_ignore_case(a, b),
        0 <= i,
    ensures
        format_at(a, i) == format_at(b, i),
    decreases formats().len() - i,
{
    if i < formats().len() {
        lemma_same_lookup(a, b, i + 1);
    }
}

/// What is looked up has the name.
proof fn lemma_looked_up(name: Seq<char>, i: int)
    requires
        0 <= i,
    ensures
        format_at(name, i) is Some ==> eq_ignore_case(name, format_name(format_at(name, i)->0)),
    decreases formats().len() - i,
{
    if i < formats().len() {
        lemma_looked_up(name, i + 1);
    }
}

/// A format has this name.
proof fn lemma_named(name: Seq<char>, f: LyricFormat)
    ensures
        format_of(name) == Some(f) <==> eq_ignore_case(name, format_name(f)),
{
    law_format_names(f);
    lemma_looked_up(name, 0);
    if eq_ignore_case(name, format_name(f)) {
        lemma_same_lookup(name, format_name(f), 0);
    }
}

/// Each format is known by its name, in any case.
pub proof fn law_named_formats(name: Seq<char>)
    ensures
        format_of(name) == Some(LyricFormat::Ass) <==> eq_ignore_case(name, "ASS"@),
        format_of(name) == Some(LyricFormat::Ttml) <==> eq_ignore_case(name, "TTML"@),
        format_of(name) == Some(LyricFormat::AppleMusicJson) <==> eq_ignore_case(
            name,
            "Apple Music JSON"@,
        ),
        format_of(name) == Some(LyricFormat::Lys) <==> eq_ignore_case(name, "Lyricify Syllable"@),
        format_of(name) == Some(LyricFormat::Lrc) <==> eq_ignore_case(name, "LRC"@),
        format_of(name) == Some(LyricFormat::EnhancedLrc) <==> eq_ignore_case(name, "Enhanced LRC"@),
        format_of(name) == Some(LyricFormat::Qrc) <==> eq_ignore_case(name, "QRC"@),
        format_of(name) == Some(LyricFormat::Yrc) <==> eq_ignore_case(name, "YRC"@),
        format_of(name) == Some(LyricFormat::Lyl) <==> eq_ignore_case(name, "Lyricify Lines"@),
        format_of(name) == Some(LyricFormat::Spl) <==> eq_ignore_case(name, "SPL"@),
        format_of(name) == Some(LyricFormat::Lqe) <==> eq_ignore_case(
            name,
            "Lyricify Quick Export"@,
        ),
        format_of(name) == Some(LyricFormat::Krc) <==> eq_ignore_case(name, "KRC"@),
        format_of(name) == Some(LyricFormat::Musixmatch) <==> eq_ignore_case(name, "Musixmatch"@),
{
    lemma_named(name, LyricFormat::Ass);
    lemma_named(name, LyricFormat::Ttml);
    lemma_named(name, LyricFormat::AppleMusicJson);
    lemma_named(name, LyricFormat::Lys);
    lemma_named(name, LyricFormat::Lrc);
    lemma_named(name, LyricFormat::EnhancedLrc);
    lemma_named(name, LyricFormat::Qrc);
    lemma_named(name, LyricFormat::Yrc);
    lemma_named(name, LyricFormat::Lyl);
    lemma_named(name, LyricFormat::Spl);
    lemma_named(name, LyricFormat::Lqe);
    lemma_named(name, LyricFormat::Krc);
    lemma_named(name, LyricFormat::Musixmatch);
}

/// Two formats with the same extension are the same, or hold JSON.
proof fn lemma_extensions_differ(a: LyricFormat, b: LyricFormat)
    requires
        eq_ignore_case(extension_of(a), extension_of(b)),
    ensures
        a == b || (extension_of(a) == "json"@ && extension_of(b) == "json"@),
{
    reveal_strlit("ass");
    reveal_strlit("ttml");
    reveal_strlit("json");
    reveal_strlit("lys");
    reveal_strlit("lrc");
    reveal_strlit("elrc");
    reveal_strlit("qrc");
    reveal_strlit("yrc");
    reveal_strlit("lyl");
    reveal_strlit("spl");
    reveal_strlit("lqe");
    reveal_strlit("krc");
    let x = ascii_lower_seq(extension_of(a));
    let y = ascii_lower_seq(extension_of(b));
    assert(x.len() == y.len());
    assert(x[0] == y[0]);
    assert(x[1] == y[1]);
    assert(x[2] == y[2]);
}

/// The first format with the extension is found.
proof fn lemma_extension(ext: Seq<char>, f: LyricFormat, i: int, at: int)
    requires
        eq_ignore_case(ext, extension_of(f)),
        0 <= i <= at < formats().len(),
        formats()[at] == f,
        forall|k: int| 0 <= k < at ==> #[trigger] formats()[k] != f,
        f != LyricFormat::Musixmatch,
        f == LyricFormat::AppleMusicJson || extension_of(f) != "json"@,
        f == LyricFormat::AppleMusicJson ==> at == 2,
    ensures
        format_with_extension(ext, i) == Some(f),
    decreases at - i,
{
    if i < at {
        let g = formats()[i];
        if eq_ignore_case(ext, extension_of(g)) {
            lemma_extensions_differ(g, f);
            assert(g != f);
            assert(formats()[0] == LyricFormat::Ass && formats()[1] == LyricFormat::Ttml);
            reveal_strlit("json");
            reveal_strlit("ass");
            reveal_strlit("ttml");
            assert("json"@.len() == 4 && "ass"@.len() == 3 && "ttml"@[0] == 't');
            assert("json"@[0] == 'j');
        }
        lemma_extension(ext, f, i + 1, at);
    }
}

/// What is found has the extension.
proof fn lemma_has_extension(ext: Seq<char>, i: int)
    requires
        0 <= i,
    ensures
        format_with_extension(ext, i) is Some ==> eq_ignore_case(
            ext,
            extension_of(format_with_extension(ext, i)->0),
        ),
    decreases formats().len() - i,
{
    if i < formats().len() {
        lemma_has_extension(ext, i + 1);
    }
}

/// A file is in the format that its extension tells, in any case; one of JSON is a
/// document of Apple Music.
pub proof fn law_file_formats(ext: Seq<char>)
    ensures
        eq_ignore_case(ext, "ass"@) ==> format_with_extension(ext, 0) == Some(LyricFormat::Ass),
        eq_ignore_case(ext, "ttml"@) ==> format_with_extension(ext, 0) == Some(LyricFormat::Ttml),
        eq_ignore_case(ext, "json"@) ==> format_with_extension(ext, 0) == Some(
            LyricFormat::AppleMusicJson,
        ),
        eq_ignore_case(ext, "lys"@) ==> format_with_extension(ext, 0) == Some(LyricFormat::Lys),
        eq_ignore_case(ext, "lrc"@) ==> format_with_extension(ext, 0) == Some(LyricFormat::Lrc),
        eq_ignore_case(ext, "elrc"@) ==> format_with_extension(ext, 0) == Some(
            LyricFormat::EnhancedLrc,
        ),
        eq_ignore_case(ext, "qrc"@) ==> format_with_extension(ext, 0) == Some(LyricFormat::Qrc),
        eq_ignore_case(ext, "yrc"@) ==> format_with_extension(ext, 0) == Some(LyricFormat::Yrc),
        eq_ignore_case(ext, "lyl"@) ==> format_with_extension(ext, 0) == Some(LyricFormat::Lyl),
        eq_ignore_case(ext, "spl"@) ==> format_with_extension(ext, 0) == Some(LyricFormat::Spl),
        eq_ignore_case(ext, "lqe"@) ==> format_with_extension(ext, 0) == Some(LyricFormat::Lqe),
        eq_ignore_case(ext, "krc"@) ==> format_with_extension(ext, 0) == Some(LyricFormat::Krc),
        format_with_extension(ext, 0) is Some ==> eq_ignore_case(ext, "ass"@) || eq_ignore_case(
            ext,
            "ttml"@,
        ) || eq_ignore_case(ext, "json"@) || eq_ignore_case(ext, "lys"@) || eq_ignore_case(
            ext,
            "lrc"@,
        ) || eq_ignore_case(ext, "elrc"@) || eq_ignore_case(ext, "qrc"@) || eq_ignore_case(
            ext,
            "yrc"@,
        ) || eq_ignore_case(ext, "lyl"@) || eq_ignore_case(ext, "spl"@) || eq_ignore_case(
            ext,
            "lqe"@,
        ) || eq_ignore_case(ext, "krc"@),
{
    reveal_strlit("ass");
    reveal_strlit("ttml");
    reveal_strlit("json");
    reveal_strlit("lys");
    reveal_strlit("lrc");
    reveal_strlit("elrc");
    reveal_strlit("qrc");
    reveal_strlit("yrc");
    reveal_strlit("lyl");
    reveal_strlit("spl");
    reveal_strlit("lqe");
    reveal_strlit("krc");
    assert("json"@.len() == 4 && "json"@[0] == 'j' && "ttml"@[0] == 't' && "elrc"@[0] == 'e');
    let v = formats();
    assert(v[0] == LyricFormat::Ass && v[1] == LyricFormat::Ttml);
    assert(v[2] == LyricFormat::AppleMusicJson && v[3] == LyricFormat::Lys);
    assert(v[4] == LyricFormat::Lrc && v[5] == LyricFormat::EnhancedLrc);
    assert(v[6] == LyricFormat::Qrc && v[7] == LyricFormat::Yrc);
    assert(v[8] == LyricFormat::Lyl && v[9] == LyricFormat::Spl);
    assert(v[10] == LyricFormat::Lqe && v[11] == LyricFormat::Krc);
    lemma_has_extension(ext, 0);
    if eq_ignore_case(ext, "ass"@) {
        lemma_extension(ext, LyricFormat::Ass, 0, 0);
    }
    if eq_ignore_case(ext, "ttml"@) {
        lemma_extension(ext, LyricFormat::Ttml, 0, 1);
    }
    if eq_ignore_case(ext, "json"@) {
        lemma_extension(ext, LyricFormat::AppleMusicJson, 0, 2);
    }
    if eq_ignore_case(ext, "lys"@) {
        lemma_extension(ext, LyricFormat::Lys, 0, 3);
    }
    if eq_ignore_case(ext, "lrc"@) {
        lemma_extension(ext, LyricFormat::Lrc, 0, 4);
    }
    if eq_ignore_case(ext, "elrc"@) {
        lemma_extension(ext, LyricFormat::EnhancedLrc, 0, 5);
    }
    if eq_ignore_case(ext, "qrc"@) {
        lemma_extension(ext, LyricFormat::Qrc, 0, 6);
    }
    if eq_ignore_case(ext, "yrc"@) {
        lemma_extension(ext, LyricFormat::Yrc, 0, 7);
    }
    if eq_ignore_case(ext, "lyl"@) {
        lemma_extension(ext, LyricFormat::Lyl, 0, 8);
    }
    if eq_ignore_case(ext, "spl"@) {
        lemma_extension(ext, LyricFormat::Spl, 0, 9);
    }
    if eq_ignore_case(ext, "lqe"@) {
        lemma_extension(ext, LyricFormat::Lqe, 0, 10);
    }
    if eq_ignore_case(ext, "krc"@) {
        lemma_extension(ext, LyricFormat::Krc, 0, 11);
    }
}

/// A format is saved under an extension by which it is opened again; only Musixmatch,
/// which holds JSON, is opened as a document of Apple Music.
pub proof fn law_saved_files_open(f: LyricFormat)
    ensures
        f != LyricFormat::Musixmatch ==> format_with_extension(extension_of(f), 0) == Some(f),
        f == LyricFormat::Musixmatch ==> format_with_extension(extension_of(f), 0) == Some(
            LyricFormat::AppleMusicJson,
        ),
{
    law_file_formats(extension_of(f));
}

/// A file that is opened is the input, in the format that its extension tells, and in
/// the format that was chosen where it tells none. Nothing else changes.
pub proof fn law_opened_file(s: LyricsView, content: Seq<char>, ext: Option<Seq<char>>)
    ensures
        ({
            let r = with_file(s, content, ext);
            &&& r == (LyricsView { input: content, source: r.source, ..s })
            &&& ext is None ==> r.source == s.source
            &&& ext is Some && format_with_extension(ext->0, 0) is None ==> r.source == s.source
            &&& ext is Some && format_with_extension(ext->0, 0) is Some ==> Some(r.source)
                == format_with_extension(ext->0, 0)
        }),
{
}

/// Each source is known by its name.
pub proof fn law_named_sources(name: Seq<char>)
    ensures
        source_of(name) == Some(AutoSearchSource::LocalCache) <==> name == "local"@,
        source_of(name) == Some(AutoSearchSource::QqMusic) <==> name == "qq"@,
        source_of(name) == Some(AutoSearchSource::Kugou) <==> name == "kugou"@,
        source_of(name) == Some(AutoSearchSource::Netease) <==> name == "netease"@,
        source_of(name) == Some(AutoSearchSource::AmllDb) <==> name == "amll"@,
        source_of(name) == Some(AutoSearchSource::Musixmatch) <==> name == "musixmatch"@,
{
    reveal_strlit("local");
    reveal_strlit("qq");
    reveal_strlit("kugou");
    reveal_strlit("netease");
    reveal_strlit("amll");
    reveal_strlit("musixmatch");
    assert("local"@.len() == 5 && "kugou"@.len() == 5 && "qq"@.len() == 2);
    assert("local"@[0] == 'l' && "kugou"@[0] == 'k');
    assert("netease"@.len() == 7 && "amll"@.len() == 4 && "musixmatch"@.len() == 10);
}

/// An order of sources is read from the names between commas, without the white space
/// round them; what is no name is left out.
pub proof fn law_order_is_read(a: Seq<char>, b: Seq<char>)
    requires
        forall|k: int| 0 <= k < a.len() ==> #[trigger] a[k] != ',',
    ensures
        order_of(a) == (if source_of(trim(a)) is Some {
            seq![source_of(trim(a))->0]
        } else {
            Seq::empty()
        }),
        order_of(a.push(',') + b) == order_of(a) + order_of(b),
{
    let ds = seq![','];
    assert(ds[0] == ',');
    assert(ds.contains(','));
    assert forall|k: int| 0 <= k < a.len() implies !ds.contains(#[trigger] a[k]) by {
        if ds.contains(a[k]) {
            let m = choose|m: int| 0 <= m < ds.len() && ds[m] == a[k];
            assert(m == 0);
        }
    }
    law_split(a, ',', b, ds);
    let none = Seq::<Seq<char>>::empty();
    lemma_named_first(a, none);
    assert(seq![a] + none =~= seq![a]);
    assert(named_sources(none) =~= Seq::<AutoSearchSource>::empty());
    lemma_named_first(a, split_any(b, ds));
    assert(order_of(a) =~= if source_of(trim(a)) is Some {
        seq![source_of(trim(a))->0]
    } else {
        Seq::empty()
    });
}

/// The first name of a list.
proof fn lemma_named_first(a: Seq<char>, names: Seq<Seq<char>>)
    ensures
        named_sources(seq![a] + names) == (if source_of(trim(a)) is Some {
            seq![source_of(trim(a))->0]
        } else {
            Seq::empty()
        }) + named_sources(names),
    decreases names.len(),
{
    let all = seq![a] + names;
    let first = if source_of(trim(a)) is Some {
        seq![source_of(trim(a))->0]
    } else {
        Seq::empty()
    };
    if names.len() == 0 {
        assert(all.drop_last() =~= names);
        assert(all.last() == a);
        assert(named_sources(names) =~= Seq::<AutoSearchSource>::empty());
        assert(named_sources(all) =~= first + named_sources(names));
    } else {
        lemma_named_first(a, names.drop_last());
        assert(all.drop_last() =~= seq![a] + names.drop_last());
        assert(all.last() == names.last());
        assert(named_sources(all) =~= first + named_sources(names));
    }
}

// ---------------------------------------------------------------------------
// Chinese
// ---------------------------------------------------------------------------

/// A conversion changes the texts of the main and the background syllables and of
/// both translations, each to what the converter gives, and nothing else; romanizations
/// and languages stay. Without a configuration nothing is changed.
pub proof fn law_conversion(v: Seq<TtmlParagraph>, config: Option<String>, i: int)
    requires
        0 <= i < v.len(),
    ensures
        ({
            let r = processed(paragraph_views(v), opt_view(config));
            let p = v[i];
            let name = config->0@;
            let on = config is Some && name.len() > 0;
            &&& r.len() == v.len()
            &&& !on ==> r[i] == p@
            &&& on ==> {
                &&& r[i].start == p.p_start_ms
                &&& r[i].end == p.p_end_ms
                &&& r[i].agent == p.agent@
                &&& r[i].syllables.len() == p.main_syllables@.len()
                &&& forall|k: int|
                    0 <= k < p.main_syllables@.len() ==> (#[trigger] r[i].syllables[k]).text
                        == converted(p.main_syllables@[k].text@, name) && r[i].syllables[k].start
                        == p.main_syllables@[k].start_ms && r[i].syllables[k].end
                        == p.main_syllables@[k].end_ms
                &&& p.translation is Some ==> r[i].translation == Some(
                    (converted((p.translation->0).0@, name), opt_view((p.translation->0).1)),
                )
                &&& p.translation is None ==> r[i].translation is None
                &&& r[i].romanization == opt_view(p.romanization)
                &&& p.background_section is None ==> r[i].background is None
                &&& p.background_section is Some ==> {
                    let b = p.background_section->0;
                    let c = r[i].background->0;
                    &&& r[i].background is Some
                    &&& c.start == b.start_ms
                    &&& c.end == b.end_ms
                    &&& c.syllables.len() == b.syllables@.len()
                    &&& forall|k: int|
                        0 <= k < b.syllables@.len() ==> (#[trigger] c.syllables[k]).text
                            == converted(b.syllables@[k].text@, name) && c.syllables[k].start
                            == b.syllables@[k].start_ms && c.syllables[k].end
                            == b.syllables@[k].end_ms
                    &&& b.translation is Some ==> c.translation == Some(
                        (converted((b.translation->0).0@, name), opt_view((b.translation->0).1)),
                    )
                    &&& b.translation is None ==> c.translation is None
                    &&& c.romanization == opt_view(b.romanization)
                }
            }
        }),
{
    let list = paragraph_views(v);
    assert(list[i] == v[i]@);
    let p = v[i];
    assert(p@.syllables.len() == p.main_syllables@.len());
    assert forall|k: int| 0 <= k < p.main_syllables@.len() implies #[trigger] p@.syllables[k]
        == p.main_syllables@[k]@ by {}
    if p.background_section is Some {
        let b = p.background_section->0;
        assert(p@.background == Some(b@));
        assert(b@.syllables.len() == b.syllables@.len());
        assert forall|k: int| 0 <= k < b.syllables@.len() implies #[trigger] b@.syllables[k]
            == b.syllables@[k]@ by {}
    }
}

/// A text is converted to what the converter gives, and stays as it is where there is
/// none for the configuration.
pub proof fn law_converted(text: Seq<char>, config: Seq<char>)
    ensures
        opencc_text(text, config) is Some ==> Some(converted(text, config)) == opencc_text(
            text,
            config,
        ),
        opencc_text(text, config) is None ==> converted(text, config) == text,
{
}

/// The names of the formats and the extensions of their files, as they are written.
pub proof fn law_written_names()
    ensures
        format_name(LyricFormat::Ass) == "ASS"@ && extension_of(LyricFormat::Ass) == "ass"@,
        format_name(LyricFormat::Ttml) == "TTML"@ && extension_of(LyricFormat::Ttml) == "ttml"@,
        format_name(LyricFormat::AppleMusicJson) == "Apple Music JSON"@,
        extension_of(LyricFormat::AppleMusicJson) == "json"@,
        format_name(LyricFormat::Lys) == "Lyricify Syllable"@,
        extension_of(LyricFormat::Lys) == "lys"@,
        format_name(LyricFormat::Lrc) == "LRC"@ && extension_of(LyricFormat::Lrc) == "lrc"@,
        format_name(LyricFormat::EnhancedLrc) == "Enhanced LRC"@,
        extension_of(LyricFormat::EnhancedLrc) == "elrc"@,
        format_name(LyricFormat::Qrc) == "QRC"@ && extension_of(LyricFormat::Qrc) == "qrc"@,
        format_name(LyricFormat::Yrc) == "YRC"@ && extension_of(LyricFormat::Yrc) == "yrc"@,
        format_name(LyricFormat::Lyl) == "Lyricify Lines"@,
        extension_of(LyricFormat::Lyl) == "lyl"@,
        format_name(LyricFormat::Spl) == "SPL"@ && extension_of(LyricFormat::Spl) == "spl"@,
        format_name(LyricFormat::Lqe) == "Lyricify Quick Export"@,
        extension_of(LyricFormat::Lqe) == "lqe"@,
        format_name(LyricFormat::Krc) == "KRC"@ && extension_of(LyricFormat::Krc) == "krc"@,
        format_name(LyricFormat::Musixmatch) == "Musixmatch"@,
        extension_of(LyricFormat::Musixmatch) == "json"@,
{
}

/// A source is read again by the name that it is written with.
pub proof fn law_written_source(s: AutoSearchSource)
    ensures
        source_of(source_name(s)) == Some(s),
{
    law_named_sources(source_name(s));
}

/// The formats in the order in which they are offered, and the sources in the order in
/// which they are searched where no other is chosen.
pub proof fn law_offered()
    ensures
        formats() == seq![
            LyricFormat::Ass,
            LyricFormat::Ttml,
            LyricFormat::AppleMusicJson,
            LyricFormat::Lys,
            LyricFormat::Lrc,
            LyricFormat::EnhancedLrc,
            LyricFormat::Qrc,
            LyricFormat::Yrc,
            LyricFormat::Lyl,
            LyricFormat::Spl,
            LyricFormat::Lqe,
            LyricFormat::Krc,
            LyricFormat::Musixmatch,
        ],
        default_sources() == seq![
            AutoSearchSource::LocalCache,
            AutoSearchSource::QqMusic,
            AutoSearchSource::Kugou,
            AutoSearchSource::Netease,
            AutoSearchSource::AmllDb,
            AutoSearchSource::Musixmatch,
        ],
{
}

} // verus!
