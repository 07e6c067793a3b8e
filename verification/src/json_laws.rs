//! What the metadata of a JSON document is taken for.

use vstd::prelude::*;

use crate::ass_line_laws::lemma_place;
use crate::json_parser::{entry_id, lower_keys, sorted, structure_problem, AppleMusicData};
use crate::text::lower_case;
use crate::types::{lemma_with_pair, with_pair, ErrorView};

verus! {

/// An entry of metadata whose key in lower case is `key`.
pub open spec fn keyed(key: Seq<char>) -> spec_fn((Seq<char>, Seq<char>)) -> bool {
    |e: (Seq<char>, Seq<char>)| lower_case(e.0) == key
}

/// An entry whose key has no meaning of its own.
pub open spec fn plain() -> spec_fn((Seq<char>, Seq<char>)) -> bool {
    |e: (Seq<char>, Seq<char>)|
        {
            let key = lower_case(e.0);
            &&& key != "lang"@
            &&& key != "songwriter"@
            &&& key != "v1"@
            &&& key != "v2"@
            &&& key != "v1000"@
            &&& key != "applemusicid"@
        }
}

/// An entry whose key has no meaning of its own, or is that of a language.
pub open spec fn plain_or_language() -> spec_fn((Seq<char>, Seq<char>)) -> bool {
    |e: (Seq<char>, Seq<char>)| (plain())(e) || lower_case(e.0) == "lang"@
}

/// The values of entries.
pub open spec fn values(entries: Seq<(Seq<char>, Seq<char>)>) -> Seq<Seq<char>> {
    entries.map_values(|e: (Seq<char>, Seq<char>)| e.1)
}

/// The keys that have a meaning are different ones.
proof fn lemma_keys()
    ensures
        "lang"@ != "songwriter"@,
        "lang"@ != "v1"@,
        "lang"@ != "v2"@,
        "lang"@ != "v1000"@,
        "lang"@ != "applemusicid"@,
        "songwriter"@ != "v1"@,
        "songwriter"@ != "v2"@,
        "songwriter"@ != "v1000"@,
        "songwriter"@ != "applemusicid"@,
        "v1"@ != "v2"@,
        "v1"@ != "v1000"@,
        "v2"@ != "v1000"@,
        "v1"@ != "applemusicid"@,
        "v2"@ != "applemusicid"@,
        "v1000"@ != "applemusicid"@,
{
    reveal_strlit("lang");
    reveal_strlit("songwriter");
    reveal_strlit("v1");
    reveal_strlit("v2");
    reveal_strlit("v1000");
    reveal_strlit("applemusicid");
    assert("lang"@.len() == 4);
    assert("songwriter"@.len() == 10);
    assert("v1"@.len() == 2);
    assert("v2"@.len() == 2);
    assert("v1"@[1] == '1');
    assert("v2"@[1] == '2');
    assert("v1000"@.len() == 5);
    assert("applemusicid"@.len() == 12);
}

/// The songwriters of the first entries.
proof fn lemma_songwriters(entries: Seq<(Seq<char>, Seq<char>)>, id: Seq<char>, n: nat)
    requires
        n <= entries.len(),
    ensures
        sorted(entries, lower_keys(entries), id, n).songwriters == values(
            entries.take(n as int).filter(keyed("songwriter"@)),
        ),
    decreases n,
{
    reveal(Seq::filter);
    lemma_keys();
    let front = entries.take(n as int);
    let f = keyed("songwriter"@);
    if n == 0 {
        assert(values(front.filter(f)) =~= Seq::<Seq<char>>::empty());
    } else {
        lemma_songwriters(entries, id, (n - 1) as nat);
        assert(front.drop_last() =~= entries.take(n - 1));
        assert(front.last() == entries[n - 1]);
        let before = front.drop_last().filter(f);
        if f(entries[n - 1]) {
            assert(front.filter(f) == before.push(entries[n - 1]));
            assert(values(before.push(entries[n - 1])) =~= values(before).push(entries[n - 1].1));
        } else {
            assert(front.filter(f) == before);
        }
    }
}

/// The entries that are left over before the first language.
proof fn lemma_before_language(entries: Seq<(Seq<char>, Seq<char>)>, id: Seq<char>, n: nat)
    requires
        n <= entries.len(),
        forall|i: int| 0 <= i < n ==> lower_case((#[trigger] entries[i]).0) != "lang"@,
    ensures
        sorted(entries, lower_keys(entries), id, n).general == entries.take(n as int).filter(
            plain(),
        ),
        sorted(entries, lower_keys(entries), id, n).language_code is None,
    decreases n,
{
    reveal(Seq::filter);
    lemma_keys();
    let front = entries.take(n as int);
    if n > 0 {
        lemma_before_language(entries, id, (n - 1) as nat);
        assert(front.drop_last() =~= entries.take(n - 1));
        assert(front.last() == entries[n - 1]);
        assert(lower_keys(entries)[n - 1] == lower_case(entries[n - 1].0));
    }
}

/// The entries that are left over after the first language, which stands at `at`.
proof fn lemma_after_language(
    entries: Seq<(Seq<char>, Seq<char>)>,
    id: Seq<char>,
    at: int,
    n: nat,
)
    requires
        0 <= at < n <= entries.len(),
        lower_case(entries[at].0) == "lang"@,
        forall|i: int| 0 <= i < at ==> lower_case((#[trigger] entries[i]).0) != "lang"@,
    ensures
        sorted(entries, lower_keys(entries), id, n).general == entries.take(at).filter(plain())
            + entries.subrange(at + 1, n as int).filter(plain_or_language()),
        sorted(entries, lower_keys(entries), id, n).language_code is Some,
    decreases n,
{
    reveal(Seq::filter);
    lemma_keys();
    let back = entries.subrange(at + 1, n as int);
    let before = entries.take(at).filter(plain());
    assert(lower_keys(entries)[n - 1] == lower_case(entries[n - 1].0));
    if n == at + 1 {
        lemma_before_language(entries, id, at as nat);
        assert(back =~= Seq::empty());
        assert(before + back.filter(plain_or_language()) =~= before);
    } else {
        lemma_after_language(entries, id, at, (n - 1) as nat);
        let less = entries.subrange(at + 1, n - 1);
        assert(back.drop_last() =~= less);
        assert(back.last() == entries[n - 1]);
        let f = plain_or_language();
        if f(entries[n - 1]) {
            assert(before + less.filter(f).push(entries[n - 1]) =~= (before + less.filter(
                f,
            )).push(entries[n - 1]));
        }
    }
}

/// The songwriters of a document are the values of all entries whose key is
/// `songwriter` in lower case, in order: there are as many as such entries, and
/// every such value is among them.
pub proof fn law_songwriters(entries: Seq<(Seq<char>, Seq<char>)>, id: Seq<char>)
    ensures
        ({
            let all = sorted(entries, lower_keys(entries), id, entries.len()).songwriters;
            let found = entries.filter(keyed("songwriter"@));
            &&& all.len() == found.len()
            &&& forall|k: int| 0 <= k < found.len() ==> #[trigger] all[k] == found[k].1
            &&& forall|i: int|
                0 <= i < entries.len() && lower_case((#[trigger] entries[i]).0) == "songwriter"@
                    ==> all.contains(entries[i].1)
        }),
{
    lemma_songwriters(entries, id, entries.len());
    assert(entries.take(entries.len() as int) =~= entries);
    let all = sorted(entries, lower_keys(entries), id, entries.len()).songwriters;
    let found = entries.filter(keyed("songwriter"@));
    assert forall|i: int|
        0 <= i < entries.len() && lower_case(
            (#[trigger] entries[i]).0,
        ) == "songwriter"@ implies all.contains(entries[i].1) by {
        entries.lemma_filter_contains(keyed("songwriter"@), i);
        let k = choose|k: int| 0 <= k < found.len() && found[k] == entries[i];
        assert(all[k] == entries[i].1);
    }
}

/// The entries whose keys have no meaning of their own are all kept, unchanged and
/// in order, and with them the languages after the first. No others are.
pub proof fn law_other_metadata_is_kept(
    entries: Seq<(Seq<char>, Seq<char>)>,
    id: Seq<char>,
    at: int,
)
    requires
        0 <= at <= entries.len(),
        at < entries.len() ==> lower_case(entries[at].0) == "lang"@,
        forall|i: int| 0 <= i < at ==> lower_case((#[trigger] entries[i]).0) != "lang"@,
    ensures
        ({
            let general = sorted(entries, lower_keys(entries), id, entries.len()).general;
            &&& at == entries.len() ==> general == entries.filter(plain())
            &&& at < entries.len() ==> general == entries.take(at).filter(plain()) + entries.skip(
                at + 1,
            ).filter(plain_or_language())
        }),
{
    assert(entries.take(entries.len() as int) =~= entries);
    if at == entries.len() {
        lemma_before_language(entries, id, entries.len());
    } else {
        lemma_after_language(entries, id, at, entries.len());
    }
}

/// The language of a document is the value of the first entry whose key is `lang` in
/// lower case, and there is none exactly where there is no such entry.
pub proof fn law_first_language(entries: Seq<(Seq<char>, Seq<char>)>, id: Seq<char>, n: nat)
    requires
        n <= entries.len(),
    ensures
        ({
            let language = sorted(entries, lower_keys(entries), id, n).language_code;
            &&& language is None <==> forall|i: int|
                0 <= i < n ==> lower_case((#[trigger] entries[i]).0) != "lang"@
            &&& forall|i: int|
                0 <= i < n && lower_case((#[trigger] entries[i]).0) == "lang"@ && (forall|j: int|
                    0 <= j < i ==> lower_case((#[trigger] entries[j]).0) != "lang"@) ==> language
                    == Some(entries[i].1)
        }),
    decreases n,
{
    lemma_keys();
    if n > 0 {
        law_first_language(entries, id, (n - 1) as nat);
        assert(lower_keys(entries)[n - 1] == lower_case(entries[n - 1].0));
    }
}

/// The id of a document is the one given where it is not empty, and otherwise the
/// value of the first entry whose key is `applemusicid` in lower case that is not
/// empty. Where there is no such entry it is empty.
pub proof fn law_document_id(entries: Seq<(Seq<char>, Seq<char>)>, id: Seq<char>, n: nat)
    requires
        n <= entries.len(),
    ensures
        ({
            let shown = sorted(entries, lower_keys(entries), id, n).apple_music_id;
            &&& id.len() > 0 ==> shown == id
            &&& id.len() == 0 && (forall|i: int|
                0 <= i < n && lower_case((#[trigger] entries[i]).0) == "applemusicid"@
                    ==> entries[i].1.len() == 0) ==> shown.len() == 0
            &&& id.len() == 0 ==> forall|i: int|
                0 <= i < n && lower_case((#[trigger] entries[i]).0) == "applemusicid"@
                    && entries[i].1.len() > 0 && (forall|j: int|
                    0 <= j < i && lower_case((#[trigger] entries[j]).0) == "applemusicid"@
                        ==> entries[j].1.len() == 0) ==> shown == entries[i].1
        }),
    decreases n,
{
    lemma_keys();
    if n > 0 {
        law_document_id(entries, id, (n - 1) as nat);
        assert(lower_keys(entries)[n - 1] == lower_case(entries[n - 1].0));
    }
}

/// Whether an entry names a singer.
pub open spec fn names_singer(e: (Seq<char>, Seq<char>)) -> bool {
    let key = lower_case(e.0);
    key == "v1"@ || key == "v2"@ || key == "v1000"@
}

/// Whether one of the first `n` entries gives a singer this name.
pub open spec fn gives_name(
    entries: Seq<(Seq<char>, Seq<char>)>,
    n: nat,
    name: (Seq<char>, Seq<char>),
) -> bool {
    exists|i: int| 0 <= i < n && names_singer(#[trigger] entries[i]) && entries[i] == name
}

/// A singer has the name that the last entry with its key gives, where the key is
/// `v1`, `v2` or `v1000` in lower case, and only singers have names.
pub proof fn law_singer_names(entries: Seq<(Seq<char>, Seq<char>)>, id: Seq<char>, n: nat)
    requires
        n <= entries.len(),
    ensures
        ({
            let names = sorted(entries, lower_keys(entries), id, n).agent_names;
            &&& forall|i: int|
                0 <= i < n && names_singer(#[trigger] entries[i]) && (forall|j: int|
                    i < j < n ==> (#[trigger] entries[j]).0 != entries[i].0) ==> names.contains(
                    entries[i],
                )
            &&& forall|k: int|
                0 <= k < names.len() ==> gives_name(entries, n, #[trigger] names[k])
            &&& forall|k: int, m: int|
                0 <= k < m < names.len() ==> (#[trigger] names[k]).0 != (#[trigger] names[m]).0
        }),
    decreases n,
{
    lemma_keys();
    if n > 0 {
        law_singer_names(entries, id, (n - 1) as nat);
        let e = entries[n - 1];
        assert(lower_keys(entries)[n - 1] == lower_case(e.0));
        let was = sorted(entries, lower_keys(entries), id, (n - 1) as nat).agent_names;
        let names = sorted(entries, lower_keys(entries), id, n).agent_names;
        if names_singer(e) {
            assert(names == with_pair(was, e.0, e.1));
            let at = lemma_place(was, e.0, 0);
            lemma_with_pair(was, e.0, e.1, at);
            assert(names[at] == e);
            assert forall|i: int|
                0 <= i < n && names_singer(#[trigger] entries[i]) && (forall|j: int|
                    i < j < n ==> (#[trigger] entries[j]).0
                        != entries[i].0) implies names.contains(entries[i]) by {
                if i == n - 1 {
                    assert(names[at] == entries[i]);
                } else {
                    assert(was.contains(entries[i]));
                    let k = choose|k: int| 0 <= k < was.len() && was[k] == entries[i];
                    assert(entries[n - 1].0 != entries[i].0);
                    assert(names[k] == entries[i]);
                }
            }
            assert forall|k: int| 0 <= k < names.len() implies gives_name(
                entries,
                n,
                #[trigger] names[k],
            ) by {
                if k == at {
                    assert(names_singer(entries[n - 1]));
                } else {
                    assert(names[k] == was[k]);
                    assert(gives_name(entries, (n - 1) as nat, was[k]));
                    let i = choose|i: int|
                        0 <= i < n - 1 && names_singer(#[trigger] entries[i]) && entries[i]
                            == was[k];
                    assert(names_singer(entries[i]));
                }
            }
        } else {
            assert(names == was);
            assert forall|k: int| 0 <= k < names.len() implies gives_name(
                entries,
                n,
                #[trigger] names[k],
            ) by {
                assert(gives_name(entries, (n - 1) as nat, was[k]));
            }
        }
    }
}

/// A document is taken for its first entry, which must hold lyrics by syllables.
/// Its id is the entry's own, or the one in the catalogue where that is empty, or that
/// of the item that is played where both are.
pub proof fn law_first_entry(data: Seq<AppleMusicData>)
    ensures
        structure_problem(data) is None <==> data.len() > 0 && data[0].data_type@
            == "syllable-lyrics"@,
        data.len() > 0 ==> {
            let d = data[0];
            &&& d.id@.len() > 0 ==> entry_id(d) == d.id@
            &&& d.id@.len() == 0 && d.play_params_catalog_id@.len() > 0 ==> entry_id(d)
                == d.play_params_catalog_id@
            &&& d.id@.len() == 0 && d.play_params_catalog_id@.len() == 0 ==> entry_id(d)
                == d.play_params_id@
        },
{
}

/// What is said of a document that holds no lyrics by syllables.
pub proof fn law_bad_document(data: Seq<AppleMusicData>)
    ensures
        data.len() == 0 ==> structure_problem(data) == Some(
            ErrorView::InvalidJsonStructure("JSON 'data' 为空。"@),
        ),
        data.len() > 0 && data[0].data_type@ != "syllable-lyrics"@ ==> structure_problem(data)
            == Some(
            ErrorView::InvalidJsonStructure(
                "期望的 data_type 是 'syllable-lyrics', 但找到的是 '"@ + data[0].data_type@
                    + "'"@,
            ),
        ),
{
}

} // verus!
