//! Reads and searches the index, and says where things are fetched from.

use vstd::prelude::*;

use super::types::{
    copy_metadata, entry_views, field_key, metadata_views, AmllIndexEntry, AmllSearchField,
    EntryView, FetchedAmllTtmlLyrics,
};
use crate::text::{
    is_ascii_text, is_blank, lower_case, lowercase, occurs_in, split_any, split_at_any, stands_at,
    str_contains, str_eq, str_is_blank, string_of, to_chars, trim, trimmed, views,
};
use crate::types::{opt_view, ConvertError, ErrorView};

verus! {

/// Where the index stands in the database.
pub const INDEX_FILE_PATH_IN_REPO: &'static str = "metadata/raw-lyrics-index.jsonl";

/// The address that tells the newest version of the index.
pub const REMOTE_HEAD_URL: &'static str = "https://api.github.com/repos/Steve-xmh/amll-ttml-db/commits?path=metadata/raw-lyrics-index.jsonl&sha=main&per_page=1";

// ---------------------------------------------------------------------------
// Addresses and versions
// ---------------------------------------------------------------------------

/// The address of the index.
pub fn index_url(repo_base_url: &str) -> (r: String)
    ensures
        r@ == repo_base_url@ + "/"@ + INDEX_FILE_PATH_IN_REPO@,
{
    let mut s = repo_base_url.to_owned();
    s.append("/");
    s.append(INDEX_FILE_PATH_IN_REPO);
    s
}

/// The address of the TTML file of an entry.
pub fn ttml_url(repo_base_url: &str, entry: &AmllIndexEntry) -> (r: String)
    ensures
        r@ == repo_base_url@ + "/raw-lyrics/"@ + entry.raw_lyric_file@,
{
    let mut s = repo_base_url.to_owned();
    s.append("/raw-lyrics/");
    s.append(entry.raw_lyric_file.as_str());
    s
}

/// The newest of the versions that were listed, newest first.
pub fn latest_commit(shas: &Vec<String>) -> (r: Result<String, ConvertError>)
    ensures
        match r {
            Ok(sha) => shas@.len() > 0 && sha@ == shas@[0]@,
            Err(e) => shas@.len() == 0 && e@ == ErrorView::Internal(
                "未找到索引文件的 commit 信息。"@,
            ),
        },
{
    if shas.len() > 0 {
        Ok(shas[0].clone())
    } else {
        Err(ConvertError::Internal("未找到索引文件的 commit 信息。".to_owned()))
    }
}

/// The version that was noted beside the cached index.
pub fn cached_head(content: &str) -> (r: Option<String>)
    ensures
        opt_view(r) == if is_blank(content@) {
            None
        } else {
            Some(trim(content@))
        },
{
    let v = to_chars(content);
    let t = trimmed(v.as_slice());
    if t.len() == 0 {
        None
    } else {
        Some(string_of(t))
    }
}

// ---------------------------------------------------------------------------
// Lines of the index
// ---------------------------------------------------------------------------

/// A line without the carriage return in front of its newline.
pub open spec fn without_return(s: Seq<char>) -> Seq<char> {
    if s.len() > 0 && s.last() == '\r' {
        s.drop_last()
    } else {
        s
    }
}

/// The first `n` parts that are not blank.
pub open spec fn filled_lines(parts: Seq<Seq<char>>, n: nat) -> Seq<Seq<char>>
    decreases n,
{
    if n == 0 {
        Seq::empty()
    } else {
        let before = filled_lines(parts, (n - 1) as nat);
        let line = if n < parts.len() {
            without_return(parts[n - 1])
        } else {
            parts[n - 1]
        };
        if is_blank(line) {
            before
        } else {
            before.push(line)
        }
    }
}

/// The lines of a text that are not blank.
pub open spec fn content_lines(text: Seq<char>) -> Seq<Seq<char>> {
    let parts = split_any(text, seq!['\n']);
    filled_lines(parts, parts.len())
}

/// The lines of an index that are not blank.
pub fn index_lines(text: &str) -> (r: Vec<String>)
    ensures
        views(r@) == content_lines(text@),
{
    let v = to_chars(text);
    let newline: [char; 1] = ['\n'];
    proof {
        assert(newline@ =~= seq!['\n']);
    }
    let list = split_at_any(v.as_slice(), &newline);
    let ghost parts = split_any(text@, seq!['\n']);
    let mut out: Vec<String> = Vec::new();
    proof {
        assert(views(out@) =~= filled_lines(parts, 0));
    }
    let mut i: usize = 0;
    while i < list.len()
        invariant
            i <= list.len(),
            list@.len() == parts.len(),
            forall|k: int| 0 <= k < list@.len() ==> #[trigger] list@[k]@ == parts[k],
            views(out@) == filled_lines(parts, i as nat),
        decreases list.len() - i,
    {
        let ghost before = out@;
        proof {
            assert(list@[i as int]@ == parts[i as int]);
        }
        let part = list[i].as_slice();
        let n: usize = part.len();
        let line = if i + 1 < list.len() && n > 0 && part[n - 1] == '\r' {
            proof {
                assert(part@.drop_last() =~= part@.subrange(0, n - 1));
            }
            vstd::slice::slice_subrange(part, 0, n - 1)
        } else {
            part
        };
        if trimmed(line).len() > 0 {
            out.push(string_of(line));
            proof {
                assert(views(out@) =~= views(before).push(line@));
            }
        }
        i += 1;
    }
    out
}

/// The entries that could be read, in order.
pub open spec fn readable(v: Seq<Option<AmllIndexEntry>>) -> Seq<EntryView>
    decreases v.len(),
{
    if v.len() == 0 {
        Seq::empty()
    } else {
        match v.last() {
            Some(e) => readable(v.drop_last()).push(e@),
            None => readable(v.drop_last()),
        }
    }
}

/// The entries of a downloaded index, given what was read from each of its lines
/// that are not blank. Lines that could not be read are left out; it is an error
/// where none could be read although the index is not blank.
pub fn downloaded_index(text: &str, lines: Vec<Option<AmllIndexEntry>>) -> (r: Result<
    Vec<AmllIndexEntry>,
    ConvertError,
>)
    ensures
        match r {
            Ok(v) => entry_views(v@) == readable(lines@) && (readable(lines@).len() > 0
                || is_blank(text@)),
            Err(e) => readable(lines@).len() == 0 && !is_blank(text@) && e@ == ErrorView::Internal(
                "无法从下载的索引内容中解析出条目"@,
            ),
        },
{
    let mut out: Vec<AmllIndexEntry> = Vec::new();
    let mut i: usize = 0;
    proof {
        assert(entry_views(out@) =~= readable(lines@.subrange(0, 0)));
    }
    while i < lines.len()
        invariant
            i <= lines.len(),
            entry_views(out@) == readable(lines@.subrange(0, i as int)),
        decreases lines.len() - i,
    {
        let ghost before = out@;
        proof {
            let now = lines@.subrange(0, i + 1);
            assert(now.drop_last() =~= lines@.subrange(0, i as int));
        }
        match &lines[i] {
            Some(e) => {
                out.push(e.copy());
                proof {
                    assert(entry_views(out@) =~= entry_views(before).push(e@));
                }
            },
            None => {},
        }
        i += 1;
    }
    proof {
        assert(lines@.subrange(0, i as int) =~= lines@);
    }
    if out.len() == 0 && !str_is_blank(text) {
        return Err(ConvertError::Internal("无法从下载的索引内容中解析出条目".to_owned()));
    }
    Ok(out)
}

/// The first line of a cached index that could not be read.
pub open spec fn first_bad(v: Seq<Result<AmllIndexEntry, String>>, i: int) -> int
    decreases v.len() - i,
{
    if i < 0 || i >= v.len() {
        v.len() as int
    } else if v[i] is Err {
        i
    } else {
        first_bad(v, i + 1)
    }
}

/// The entry that was read from a line.
pub open spec fn line_entry(line: Result<AmllIndexEntry, String>) -> Option<EntryView> {
    match line {
        Ok(e) => Some(e@),
        Err(_) => None,
    }
}

/// The entries of a cached index, given what was read from each of its lines
/// that are not blank. The first line that could not be read is an error.
pub fn cached_index(lines: Vec<Result<AmllIndexEntry, String>>) -> (r: Result<
    Vec<AmllIndexEntry>,
    ConvertError,
>)
    ensures
        match r {
            Ok(v) => ({
                &&& first_bad(lines@, 0) == lines@.len()
                &&& v@.len() == lines@.len()
                &&& forall|k: int|
                    0 <= k < v@.len() ==> line_entry(lines@[k]) == Some((#[trigger] v@[k])@)
            }),
            Err(e) => first_bad(lines@, 0) < lines@.len() && e@ == ErrorView::JsonParse(
                lines@[first_bad(lines@, 0)]->Err_0@,
            ),
        },
{
    let mut out: Vec<AmllIndexEntry> = Vec::new();
    let mut i: usize = 0;
    while i < lines.len()
        invariant
            i <= lines.len(),
            out@.len() == i,
            first_bad(lines@, 0) == first_bad(lines@, i as int),
            forall|k: int| 0 <= k < i ==> line_entry(lines@[k]) == Some((#[trigger] out@[k])@),
        decreases lines.len() - i,
    {
        match &lines[i] {
            Ok(e) => {
                out.push(e.copy());
            },
            Err(msg) => {
                return Err(ConvertError::JsonParse(msg.clone()));
            },
        }
        i += 1;
    }
    Ok(out)
}

// ---------------------------------------------------------------------------
// Searching
// ---------------------------------------------------------------------------

/// The first position at or after `i` that holds this key, or the length.
pub open spec fn key_at(metadata: Seq<(Seq<char>, Seq<Seq<char>>)>, key: Seq<char>, i: int) -> int
    decreases metadata.len() - i,
{
    if i < 0 || i >= metadata.len() {
        metadata.len() as int
    } else if metadata[i].0 == key {
        i
    } else {
        key_at(metadata, key, i + 1)
    }
}

/// Whether one of the texts holds `query`.
pub open spec fn any_holds(texts: Seq<Seq<char>>, query: Seq<char>) -> bool {
    exists|i: int| 0 <= i < texts.len() && occurs_in(query, #[trigger] texts[i])
}

/// Texts in lower case.
pub open spec fn lowered(texts: Seq<Seq<char>>) -> Seq<Seq<char>> {
    Seq::new(texts.len(), |i: int| lower_case(texts[i]))
}

/// Whether an entry matches a query that is in lower case: a value of the field
/// holds it when it is in lower case too. Only the field's first values count.
pub open spec fn entry_matches(e: EntryView, key: Seq<char>, query: Seq<char>) -> bool {
    let i = key_at(e.metadata, key, 0);
    i < e.metadata.len() && any_holds(lowered(e.metadata[i].1), query)
}

/// The entries that match, in order.
pub open spec fn matching(entries: Seq<EntryView>, key: Seq<char>, query: Seq<char>) -> Seq<
    EntryView,
>
    decreases entries.len(),
{
    if entries.len() == 0 {
        Seq::empty()
    } else if entry_matches(entries.last(), key, query) {
        matching(entries.drop_last(), key, query).push(entries.last())
    } else {
        matching(entries.drop_last(), key, query)
    }
}

/// The result of a search: nothing for a blank query.
pub open spec fn search(query: Seq<char>, field: AmllSearchField, entries: Seq<EntryView>) -> Seq<
    EntryView,
> {
    if is_blank(query) {
        Seq::empty()
    } else {
        matching(entries, field_key(field), lower_case(query))
    }
}

/// Whether one of the texts holds the query; both are in lower case.
pub fn any_contains(texts: &Vec<String>, query: &str) -> (r: bool)
    ensures
        r == any_holds(views(texts@), query@),
{
    let ghost all = views(texts@);
    let mut i: usize = 0;
    while i < texts.len()
        invariant
            i <= texts.len(),
            all == views(texts@),
            forall|k: int| 0 <= k < i ==> !occurs_in(query@, #[trigger] all[k]),
        decreases texts.len() - i,
    {
        if str_contains(texts[i].as_str(), query) {
            proof {
                assert(occurs_in(query@, all[i as int]));
            }
            return true;
        }
        i += 1;
    }
    false
}

/// Texts in lower case.
fn lower_all(texts: &Vec<String>) -> (r: Vec<String>)
    ensures
        views(r@) == lowered(views(texts@)),
{
    let mut out: Vec<String> = Vec::new();
    let mut i: usize = 0;
    while i < texts.len()
        invariant
            i <= texts.len(),
            out@.len() == i,
            forall|k: int| 0 <= k < i ==> (#[trigger] out@[k])@ == lower_case(texts@[k]@),
        decreases texts.len() - i,
    {
        out.push(lowercase(texts[i].as_str()));
        i += 1;
    }
    proof {
        assert(views(out@) =~= lowered(views(texts@)));
    }
    out
}

/// Whether an entry matches a query that is in lower case.
fn matches_entry(e: &AmllIndexEntry, key: &str, query: &str) -> (r: bool)
    ensures
        r == entry_matches(e@, key@, query@),
{
    let ghost all = e@.metadata;
    let mut i: usize = 0;
    while i < e.metadata.len()
        invariant
            i <= e.metadata.len(),
            all == e@.metadata,
            key_at(all, key@, 0) == key_at(all, key@, i as int),
        decreases e.metadata.len() - i,
    {
        proof {
            assert(all[i as int] == (e.metadata@[i as int].0@, views(e.metadata@[i as int].1@)));
        }
        if str_eq(e.metadata[i].0.as_str(), key) {
            let values = lower_all(&e.metadata[i].1);
            return any_contains(&values, query);
        }
        i += 1;
    }
    false
}

/// Searches the index: the entries whose field holds the query in some value,
/// whatever the case of either, in the order of the index. A blank query finds
/// nothing.
pub fn search_lyrics_in_index(
    query: &str,
    search_field: &AmllSearchField,
    index_entries: &[AmllIndexEntry],
) -> (r: Vec<AmllIndexEntry>)
    ensures
        entry_views(r@) == search(query@, *search_field, entry_views(index_entries@)),
{
    let mut out: Vec<AmllIndexEntry> = Vec::new();
    if str_is_blank(query) {
        proof {
            assert(entry_views(out@) =~= Seq::<EntryView>::empty());
        }
        return out;
    }
    let lower_query = lowercase(query);
    let key = search_field.to_key_string();
    let ghost all = entry_views(index_entries@);
    proof {
        assert(entry_views(out@) =~= matching(all.subrange(0, 0), key@, lower_query@));
    }
    let mut i: usize = 0;
    while i < index_entries.len()
        invariant
            i <= index_entries.len(),
            all == entry_views(index_entries@),
            entry_views(out@) == matching(all.subrange(0, i as int), key@, lower_query@),
        decreases index_entries.len() - i,
    {
        let ghost before = out@;
        proof {
            let now = all.subrange(0, i + 1);
            assert(now.drop_last() =~= all.subrange(0, i as int));
            assert(now.last() == index_entries@[i as int]@);
        }
        if matches_entry(&index_entries[i], key, lower_query.as_str()) {
            out.push(index_entries[i].copy());
            proof {
                assert(entry_views(out@) =~= entry_views(before).push(
                    index_entries@[i as int]@,
                ));
            }
        }
        i += 1;
    }
    proof {
        assert(all.subrange(0, i as int) =~= all);
    }
    out
}

/// Every entry that is found matches.
pub proof fn law_found_entries_match(
    query: Seq<char>,
    field: AmllSearchField,
    entries: Seq<EntryView>,
    i: int,
)
    requires
        0 <= i < search(query, field, entries).len(),
    ensures
        entry_matches(search(query, field, entries)[i], field_key(field), lower_case(query)),
        entries.contains(search(query, field, entries)[i]),
    decreases entries.len(),
{
    lemma_matching(entries, field_key(field), lower_case(query));
}

/// What `matching` holds.
proof fn lemma_matching(entries: Seq<EntryView>, key: Seq<char>, query: Seq<char>)
    ensures
        forall|i: int|
            0 <= i < matching(entries, key, query).len() ==> entry_matches(
                #[trigger] matching(entries, key, query)[i],
                key,
                query,
            ) && entries.contains(matching(entries, key, query)[i]),
    decreases entries.len(),
{
    if entries.len() > 0 {
        let before = entries.drop_last();
        lemma_matching(before, key, query);
        let m = matching(entries, key, query);
        let n = matching(before, key, query);
        assert forall|i: int| 0 <= i < m.len() implies entry_matches(#[trigger] m[i], key, query)
            && entries.contains(m[i]) by {
            if i < n.len() {
                assert(m[i] == n[i]);
                let k = choose|k: int| 0 <= k < before.len() && before[k] == n[i];
                assert(entries[k] == m[i]);
            } else {
                assert(m[i] == entries.last());
                assert(entries[entries.len() - 1] == m[i]);
            }
        }
    }
}

/// Every entry that matches is found.
pub proof fn law_matching_entries_are_found(
    query: Seq<char>,
    field: AmllSearchField,
    entries: Seq<EntryView>,
    i: int,
)
    requires
        !is_blank(query),
        0 <= i < entries.len(),
        entry_matches(entries[i], field_key(field), lower_case(query)),
    ensures
        search(query, field, entries).contains(entries[i]),
    decreases entries.len(),
{
    let key = field_key(field);
    let q = lower_case(query);
    let m = matching(entries, key, q);
    if i == entries.len() - 1 {
        assert(m.last() == entries[i]);
    } else {
        let before = entries.drop_last();
        law_matching_entries_are_found(query, field, before, i);
        let n = matching(before, key, q);
        let k = choose|k: int| 0 <= k < n.len() && n[k] == before[i];
        assert(m[k] == entries[i]);
    }
}

/// Searching what was found again finds all of it.
pub proof fn law_search_is_stable(
    query: Seq<char>,
    field: AmllSearchField,
    entries: Seq<EntryView>,
)
    ensures
        search(query, field, search(query, field, entries)) == search(query, field, entries),
    decreases entries.len(),
{
    if !is_blank(query) && entries.len() > 0 {
        let before = entries.drop_last();
        law_search_is_stable(query, field, before);
        let key = field_key(field);
        let q = lower_case(query);
        if entry_matches(entries.last(), key, q) {
            let m = matching(before, key, q);
            assert(m.push(entries.last()).drop_last() =~= m);
        }
    }
}

/// A text that occurs in a second, which occurs in a third, occurs in the third.
proof fn lemma_occurs_within(a: Seq<char>, b: Seq<char>, c: Seq<char>)
    requires
        occurs_in(a, b),
        occurs_in(b, c),
    ensures
        occurs_in(a, c),
{
    let i = choose|i: int| stands_at(b, a, i);
    let j = choose|j: int| stands_at(c, b, j);
    let t = c.subrange(i + j, i + j + a.len());
    assert forall|k: int| 0 <= k < a.len() implies #[trigger] t[k] == a[k] by {
        assert(a[k] == b.subrange(i, i + a.len())[k]);
        assert(b[i + k] == c.subrange(j, j + b.len())[i + k]);
    }
    assert(t =~= a);
    assert(stands_at(c, a, i + j));
}

/// An entry that matches a query matches every query that occurs in it.
proof fn lemma_shorter_matches(e: EntryView, key: Seq<char>, short: Seq<char>, long: Seq<char>)
    requires
        occurs_in(short, long),
        entry_matches(e, key, long),
    ensures
        entry_matches(e, key, short),
{
    let texts = lowered(e.metadata[key_at(e.metadata, key, 0)].1);
    let i = choose|i: int| 0 <= i < texts.len() && occurs_in(long, #[trigger] texts[i]);
    lemma_occurs_within(short, long, texts[i]);
    assert(occurs_in(short, texts[i]));
}

/// A longer query never finds more: it finds what it finds among the entries that
/// the shorter one finds, and no greater number of them. Both are compared in lower
/// case. A blank query finds nothing, so the shorter one is not blank.
pub proof fn law_longer_query_finds_no_more(
    short: Seq<char>,
    long: Seq<char>,
    field: AmllSearchField,
    entries: Seq<EntryView>,
)
    requires
        !is_blank(short),
        occurs_in(lower_case(short), lower_case(long)),
    ensures
        search(long, field, search(short, field, entries)) == search(long, field, entries),
        search(long, field, entries).len() <= search(short, field, entries).len(),
        forall|i: int|
            0 <= i < search(long, field, entries).len() ==> search(short, field, entries).contains(
                #[trigger] search(long, field, entries)[i],
            ),
{
    if !is_blank(long) {
        lemma_longer(entries, field_key(field), lower_case(short), lower_case(long));
        lemma_matching(
            matching(entries, field_key(field), lower_case(short)),
            field_key(field),
            lower_case(long),
        );
    }
}

/// The entries that a longer query finds are found among those that a shorter one
/// finds.
proof fn lemma_longer(entries: Seq<EntryView>, key: Seq<char>, short: Seq<char>, long: Seq<char>)
    requires
        occurs_in(short, long),
    ensures
        matching(matching(entries, key, short), key, long) == matching(entries, key, long),
        matching(entries, key, long).len() <= matching(entries, key, short).len(),
    decreases entries.len(),
{
    if entries.len() > 0 {
        let before = entries.drop_last();
        let e = entries.last();
        lemma_longer(before, key, short, long);
        if entry_matches(e, key, long) {
            lemma_shorter_matches(e, key, short, long);
        }
        if entry_matches(e, key, short) {
            let m = matching(before, key, short);
            assert(m.push(e).drop_last() =~= m);
        }
    }
}

/// An ASCII query never finds more than a part of it that is not blank.
pub proof fn law_longer_ascii_query_finds_no_more(
    short: Seq<char>,
    long: Seq<char>,
    field: AmllSearchField,
    entries: Seq<EntryView>,
)
    requires
        !is_blank(short),
        is_ascii_text(long),
        occurs_in(short, long),
    ensures
        search(long, field, entries).len() <= search(short, field, entries).len(),
        search(long, field, search(short, field, entries)) == search(long, field, entries),
{
    let i = choose|i: int| stands_at(long, short, i);
    assert forall|k: int| 0 <= k < short.len() implies #[trigger] short[k] == long[i + k] by {
        assert(short[k] == long.subrange(i, i + short.len())[k]);
    }
    assert(is_ascii_text(short));
    let a = lower_case(short);
    let b = lower_case(long);
    assert(b.subrange(i, i + a.len()) =~= a);
    assert(stands_at(b, a, i));
    law_longer_query_finds_no_more(short, long, field, entries);
}

// ---------------------------------------------------------------------------
// Fetched files
// ---------------------------------------------------------------------------

/// What the index says of a file.
pub struct FactsView {
    pub song: Option<Seq<char>>,
    pub artists: Seq<Seq<char>>,
    pub album: Option<Seq<char>>,
    pub source_id: Option<Seq<char>>,
}

/// What the first `n` metadata entries say: the last song, album and id win,
/// artists add up, and entries without values say nothing.
pub open spec fn facts(metadata: Seq<(Seq<char>, Seq<Seq<char>>)>, n: nat) -> FactsView
    decreases n,
{
    if n == 0 {
        FactsView { song: None, artists: Seq::empty(), album: None, source_id: None }
    } else {
        let f = facts(metadata, (n - 1) as nat);
        let (key, values) = metadata[n - 1];
        if values.len() == 0 {
            f
        } else if key == field_key(AmllSearchField::MusicName) {
            FactsView { song: Some(values[0]), ..f }
        } else if key == field_key(AmllSearchField::Artists) {
            FactsView { artists: f.artists + values, ..f }
        } else if key == field_key(AmllSearchField::Album) {
            FactsView { album: Some(values[0]), ..f }
        } else if key == field_key(AmllSearchField::AppleMusicId) {
            FactsView { source_id: Some(values[0]), ..f }
        } else {
            f
        }
    }
}

/// Appends copies of strings.
fn push_all(out: &mut Vec<String>, more: &Vec<String>)
    ensures
        views(final(out)@) == views(old(out)@) + views(more@),
{
    let ghost start = views(out@);
    let mut i: usize = 0;
    proof {
        assert(views(out@) =~= start + views(more@.subrange(0, 0)));
    }
    while i < more.len()
        invariant
            i <= more.len(),
            views(out@) == start + views(more@.subrange(0, i as int)),
        decreases more.len() - i,
    {
        let ghost before = out@;
        out.push(more[i].clone());
        proof {
            assert(views(out@) =~= views(before).push(more@[i as int]@));
            assert(views(out@) =~= start + views(more@.subrange(0, i + 1)));
        }
        i += 1;
    }
    proof {
        assert(more@.subrange(0, i as int) =~= more@);
    }
}

/// A fetched TTML file with what the index says of it.
pub fn fetched_lyrics(index_entry: &AmllIndexEntry, ttml_content: String) -> (r:
    FetchedAmllTtmlLyrics)
    ensures
        ({
            let f = facts(index_entry@.metadata, index_entry@.metadata.len());
            &&& opt_view(r.song_name) == f.song
            &&& views(r.artists_name@) == f.artists
            &&& opt_view(r.album_name) == f.album
            &&& opt_view(r.source_id) == f.source_id
            &&& r.ttml_content == ttml_content
            &&& metadata_views(r.all_metadata_from_index@) == index_entry@.metadata
        }),
{
    let ghost all = index_entry@.metadata;
    let mut song_name: Option<String> = None;
    let mut artists_name: Vec<String> = Vec::new();
    let mut album_name: Option<String> = None;
    let mut source_id: Option<String> = None;
    proof {
        assert(views(artists_name@) =~= facts(all, 0).artists);
    }
    let mut i: usize = 0;
    while i < index_entry.metadata.len()
        invariant
            i <= index_entry.metadata.len(),
            all == index_entry@.metadata,
            opt_view(song_name) == facts(all, i as nat).song,
            views(artists_name@) == facts(all, i as nat).artists,
            opt_view(album_name) == facts(all, i as nat).album,
            opt_view(source_id) == facts(all, i as nat).source_id,
        decreases index_entry.metadata.len() - i,
    {
        let entry = &index_entry.metadata[i];
        proof {
            assert(all[i as int] == (entry.0@, views(entry.1@)));
        }
        if entry.1.len() > 0 {
            let key = entry.0.as_str();
            proof {
                assert(views(entry.1@)[0] == entry.1@[0]@);
            }
            if str_eq(key, AmllSearchField::MusicName.to_key_string()) {
                song_name = Some(entry.1[0].clone());
            } else if str_eq(key, AmllSearchField::Artists.to_key_string()) {
                push_all(&mut artists_name, &entry.1);
            } else if str_eq(key, AmllSearchField::Album.to_key_string()) {
                album_name = Some(entry.1[0].clone());
            } else if str_eq(key, AmllSearchField::AppleMusicId.to_key_string()) {
                source_id = Some(entry.1[0].clone());
            }
        }
        i += 1;
    }
    FetchedAmllTtmlLyrics {
        song_name,
        artists_name,
        album_name,
        ttml_content,
        source_id,
        all_metadata_from_index: copy_metadata(&index_entry.metadata),
    }
}

} // verus!
