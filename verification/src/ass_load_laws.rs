//! What holds of every ASS file that has been read.

use vstd::prelude::*;

use crate::ass_laws::{in_order, law_karaoke_in_order};
use crate::ass_parser::{
    actor, after_event, after_line, after_lyric, after_marker, after_meta, after_read_event,
    ass_time, event_fields, file_lines, is_left_out, is_lyric_style, is_translation_style, karaoke,
    load, load_lines, load_start, names_role, owner, roles_conflict, split_song_part,
    with_bg_romanization, with_bg_translation, with_content, EventView, LoadView,
};
use crate::text::{lower_case, trim, words};
use crate::types::{
    lemma_with_pair, with_pair, ActorRole, ActorView, AssDataView, ContentView, ErrorView, LineView,
};

verus! {

// ---------------------------------------------------------------------------
// Errors
// ---------------------------------------------------------------------------

/// Once a line cannot be read, nothing behind it counts.
proof fn lemma_error_stays(lines: Seq<Seq<char>>, n: nat, m: nat, e: ErrorView)
    requires
        n <= m,
        load_lines(lines, n) == Err::<LoadView, ErrorView>(e),
    ensures
        load_lines(lines, m) == Err::<LoadView, ErrorView>(e),
    decreases m,
{
    if n < m {
        lemma_error_stays(lines, n, (m - 1) as nat, e);
    }
}

/// The error of a file is that of its first line that cannot be read, whatever
/// stands behind it.
pub proof fn law_first_bad_line_decides(content: Seq<char>, n: nat, l: LoadView, e: ErrorView)
    requires
        n < file_lines(content).len(),
        load_lines(file_lines(content), n) == Ok::<LoadView, ErrorView>(l),
        after_line(l, n + 1, file_lines(content)[n as int]) == Err::<LoadView, ErrorView>(e),
    ensures
        load(content) == Err::<AssDataView, ErrorView>(e),
{
    let lines = file_lines(content);
    assert(load_lines(lines, n + 1) == Err::<LoadView, ErrorView>(e));
    lemma_error_stays(lines, n + 1, lines.len(), e);
}

/// The number of lines in front of the first that cannot be read.
proof fn lemma_first_bad_line(lines: Seq<Seq<char>>, m: nat) -> (n: nat)
    requires
        m <= lines.len(),
        load_lines(lines, m) is Err,
    ensures
        n < m,
        load_lines(lines, n) is Ok,
        after_line(load_lines(lines, n)->Ok_0, n + 1, lines[n as int]) == load_lines(lines, m),
    decreases m,
{
    let before = (m - 1) as nat;
    if load_lines(lines, before) is Err {
        lemma_first_bad_line(lines, before)
    } else {
        before
    }
}

/// A file that cannot be read has a first line that cannot: all lines in front of
/// it can, and its error is the file's.
pub proof fn law_an_error_has_its_line(content: Seq<char>)
    requires
        load(content) is Err,
    ensures
        exists|n: nat|
            n < file_lines(content).len() && (#[trigger] load_lines(file_lines(content), n)) is Ok
                && after_line(
                load_lines(file_lines(content), n)->Ok_0,
                n + 1,
                file_lines(content)[n as int],
            ) == Err::<LoadView, ErrorView>(load(content)->Err_0),
{
    let lines = file_lines(content);
    let n = lemma_first_bad_line(lines, lines.len());
    assert(load_lines(lines, n) is Ok);
}

// ---------------------------------------------------------------------------
// Lines
// ---------------------------------------------------------------------------

/// Whether a line is sung, and not by a background voice.
pub open spec fn is_main(line: LineView) -> bool {
    match line.content {
        Some(ContentView::LyricLine { role, .. }) => role != ActorRole::Background,
        _ => false,
    }
}

/// Whether a line is sung by a background voice.
pub open spec fn is_background(line: LineView) -> bool {
    match line.content {
        Some(ContentView::LyricLine { role, .. }) => role == ActorRole::Background,
        _ => false,
    }
}

/// Whether a line is the translation or the romanization of another.
pub open spec fn is_text(line: LineView) -> bool {
    match line.content {
        Some(ContentView::MainTranslation { .. }) => true,
        Some(ContentView::MainRomanization { .. }) => true,
        _ => false,
    }
}

/// Whether a line is one of the first `n` of a file and says something: a sung line
/// has syllables, which follow one another from its start to its end, and only a
/// background line has a translation and a romanization of its own; a translation
/// has a language.
pub open spec fn line_holds(line: LineView, n: nat) -> bool {
    &&& 1 <= line.line_num <= n
    &&& match line.content {
        Some(ContentView::LyricLine { role, syllables, bg_translation, bg_romanization }) => {
            &&& syllables.len() > 0
            &&& in_order(syllables, line.start, line.end)
            &&& role != ActorRole::Background ==> bg_translation is None && bg_romanization is None
        },
        Some(ContentView::MainTranslation { lang_code, .. }) => lang_code is Some,
        Some(ContentView::MainRomanization { .. }) => true,
        None => false,
    }
}

/// Whether a main line with the same start stands in front of line `i`.
pub open spec fn follows_its_line(lines: Seq<LineView>, i: int) -> bool {
    exists|j: int|
        0 <= j < i && is_main(#[trigger] lines[j]) && lines[j].start == lines[i].start
}

/// Whether lines are those of the first `n` of a file: each says something, they
/// come in the order of the file, and every translation and romanization follows
/// the main line that it belongs to, which starts at the same time.
pub open spec fn lines_hold(lines: Seq<LineView>, n: nat) -> bool {
    &&& forall|i: int| 0 <= i < lines.len() ==> line_holds(#[trigger] lines[i], n)
    &&& forall|i: int, j: int|
        0 <= i < j < lines.len() ==> (#[trigger] lines[i]).line_num < (
        #[trigger] lines[j]).line_num
    &&& forall|i: int|
        0 <= i < lines.len() && is_text(#[trigger] lines[i]) ==> follows_its_line(lines, i)
}

/// Whether markers are those of the first `n` lines of a file, in order.
pub open spec fn markers_hold(markers: Seq<(nat, Seq<char>)>, n: nat) -> bool {
    &&& forall|i: int| 0 <= i < markers.len() ==> 1 <= (#[trigger] markers[i]).0 <= n
    &&& forall|i: int, j: int|
        0 <= i < j < markers.len() ==> (#[trigger] markers[i]).0 < (#[trigger] markers[j]).0
}

/// Whether names are those of the two singers: each has a name, and none has two.
pub open spec fn names_hold(names: Seq<(Seq<char>, Seq<char>)>) -> bool {
    &&& forall|i: int|
        0 <= i < names.len() ==> ((#[trigger] names[i]).0 == "v1"@ || names[i].0 == "v2"@)
            && names[i].1.len() > 0
    &&& forall|i: int, j: int|
        0 <= i < j < names.len() ==> (#[trigger] names[i]).0 != (#[trigger] names[j]).0
}

/// Whether what a file says has the shape of the first `n` lines of one.
pub open spec fn data_holds(d: AssDataView, n: nat) -> bool {
    &&& lines_hold(d.lines, n)
    &&& markers_hold(d.markers, n)
    &&& names_hold(d.agent_names)
    &&& d.language_code is Some ==> d.language_code->0.len() > 0
    &&& forall|i: int| 0 <= i < d.songwriters.len() ==> (#[trigger] d.songwriters[i]).len() > 0
    &&& forall|i: int| 0 <= i < d.metadata.len() ==> (#[trigger] d.metadata[i]).0.len() > 0
}

/// Whether the last main line and the last background line are such lines.
spec fn pointers_hold(l: LoadView) -> bool {
    &&& l.last_main is Some ==> l.last_main->0 < l.data.lines.len() && is_main(
        l.data.lines[l.last_main->0 as int],
    )
    &&& l.last_bg is Some ==> l.last_bg->0 < l.data.lines.len() && is_background(
        l.data.lines[l.last_bg->0 as int],
    )
}

/// One more line.
proof fn lemma_push_line(lines: Seq<LineView>, n: nat, line: LineView)
    requires
        lines_hold(lines, n),
        line.line_num == n + 1,
        line_holds(line, n + 1),
        is_text(line) ==> follows_its_line(lines.push(line), lines.len() as int),
    ensures
        lines_hold(lines.push(line), n + 1),
{
    let now = lines.push(line);
    assert forall|i: int| 0 <= i < now.len() implies line_holds(#[trigger] now[i], n + 1) by {
        if i < lines.len() {
            assert(line_holds(lines[i], n));
        }
    }
    assert forall|i: int, j: int| 0 <= i < j < now.len() implies (#[trigger] now[i]).line_num < (
    #[trigger] now[j]).line_num by {
        assert(line_holds(lines[i], n));
        if j < lines.len() {
            assert(lines[i].line_num < lines[j].line_num);
        }
    }
    assert forall|i: int| 0 <= i < now.len() && is_text(#[trigger] now[i]) implies follows_its_line(
        now,
        i,
    ) by {
        if i < lines.len() {
            assert(is_text(lines[i]));
            let j = choose|j: int|
                0 <= j < i && is_main(#[trigger] lines[j]) && lines[j].start == lines[i].start;
            assert(is_main(now[j]));
        }
    }
}

/// The same lines are those of more of the file.
proof fn lemma_more_of_the_file(lines: Seq<LineView>, n: nat)
    requires
        lines_hold(lines, n),
    ensures
        lines_hold(lines, n + 1),
{
    assert forall|i: int| 0 <= i < lines.len() implies line_holds(#[trigger] lines[i], n + 1) by {
        assert(line_holds(lines[i], n));
    }
}

/// A background line gets a translation or romanization of its own.
proof fn lemma_change_background(lines: Seq<LineView>, n: nat, i: int, line: LineView)
    requires
        lines_hold(lines, n),
        0 <= i < lines.len(),
        is_background(lines[i]),
        is_background(line),
        line_holds(line, n),
        line.line_num == lines[i].line_num,
    ensures
        lines_hold(lines.update(i, line), n),
{
    let now = lines.update(i, line);
    assert forall|k: int| 0 <= k < now.len() implies line_holds(#[trigger] now[k], n) by {
        if k != i {
            assert(line_holds(lines[k], n));
        }
    }
    assert forall|a: int, b: int| 0 <= a < b < now.len() implies (#[trigger] now[a]).line_num < (
    #[trigger] now[b]).line_num by {
        assert(lines[a].line_num < lines[b].line_num);
    }
    assert forall|k: int| 0 <= k < now.len() && is_text(#[trigger] now[k]) implies follows_its_line(
        now,
        k,
    ) by {
        assert(is_text(lines[k]));
        let j = choose|j: int|
            0 <= j < k && is_main(#[trigger] lines[j]) && lines[j].start == lines[k].start;
        assert(is_main(now[j]));
    }
}

/// A marker keeps the shape.
proof fn lemma_marker(l: LoadView, n: nat, a: ActorView, text: Seq<char>)
    requires
        data_holds(l.data, n),
        pointers_hold(l),
    ensures
        ({
            let m = after_marker(l, n + 1, a, text);
            &&& lines_hold(m.data.lines, n)
            &&& markers_hold(m.data.markers, n + 1)
            &&& m.data.lines == l.data.lines
            &&& m.data.agent_names == l.data.agent_names
            &&& m.data.language_code == l.data.language_code
            &&& m.data.songwriters == l.data.songwriters
            &&& m.data.metadata == l.data.metadata
            &&& pointers_hold(m)
        }),
{
    let m = after_marker(l, n + 1, a, text);
    let old = l.data.markers;
    let now = m.data.markers;
    assert forall|i: int| 0 <= i < now.len() implies 1 <= (#[trigger] now[i]).0 <= n + 1 by {
        if i < old.len() {
            assert(1 <= old[i].0 <= n);
        }
    }
    assert forall|i: int, j: int| 0 <= i < j < now.len() implies (#[trigger] now[i]).0 < (
    #[trigger] now[j]).0 by {
        assert(1 <= old[i].0 <= n);
        if j < old.len() {
            assert(old[i].0 < old[j].0);
        }
    }
}

/// A name keeps the shape.
proof fn lemma_name(names: Seq<(Seq<char>, Seq<char>)>, key: Seq<char>, value: Seq<char>)
    requires
        names_hold(names),
        key == "v1"@ || key == "v2"@,
        value.len() > 0,
    ensures
        names_hold(with_pair(names, key, value)),
{
    let now = with_pair(names, key, value);
    if exists|i: int| 0 <= i < names.len() && (#[trigger] names[i]).0 == key {
        let i = choose|i: int| 0 <= i < names.len() && (#[trigger] names[i]).0 == key;
        assert forall|k: int| 0 <= k < i implies (#[trigger] names[k]).0 != key by {
            assert(names[k].0 != names[i].0);
        }
        lemma_with_pair(names, key, value, i);
        assert forall|a: int, b: int| 0 <= a < b < now.len() implies (#[trigger] now[a]).0 != (
        #[trigger] now[b]).0 by {
            assert(names[a].0 != names[b].0);
        }
        assert forall|k: int| 0 <= k < now.len() implies ((#[trigger] now[k]).0 == "v1"@ || now[k].0
            == "v2"@) && now[k].1.len() > 0 by {
            if k != i {
                assert(now[k] == names[k]);
            }
        }
    } else {
        lemma_with_pair(names, key, value, names.len() as int);
        assert forall|a: int, b: int| 0 <= a < b < now.len() implies (#[trigger] now[a]).0 != (
        #[trigger] now[b]).0 by {
            if b < names.len() {
                assert(names[a].0 != names[b].0);
            }
        }
        assert forall|k: int| 0 <= k < now.len() implies ((#[trigger] now[k]).0 == "v1"@ || now[k].0
            == "v2"@) && now[k].1.len() > 0 by {
            if k < names.len() {
                assert(now[k] == names[k]);
            }
        }
    }
}

/// Whether the shape is there after `n` lines.
spec fn is_loaded(l: LoadView, n: nat) -> bool {
    data_holds(l.data, n) && pointers_hold(l)
}

/// A translation or romanization of the last main line keeps the shape.
proof fn lemma_add_text(m: LoadView, n: nat, line: LineView)
    requires
        lines_hold(m.data.lines, n),
        pointers_hold(m),
        m.last_main is Some,
        m.data.lines[m.last_main->0 as int].start == line.start,
        line.line_num == n + 1,
        line_holds(line, n + 1),
    ensures
        lines_hold(m.data.lines.push(line), n + 1),
        is_main(m.data.lines.push(line)[m.last_main->0 as int]),
        m.last_bg is Some ==> is_background(m.data.lines.push(line)[m.last_bg->0 as int]),
{
    let now = m.data.lines.push(line);
    let j = m.last_main->0 as int;
    assert(is_main(now[j]) && now[j].start == now[m.data.lines.len() as int].start);
    lemma_push_line(m.data.lines, n, line);
}

/// A metadata line keeps the shape.
proof fn lemma_meta(m: LoadView, n: nat, e: EventView, start: nat, end: nat)
    requires
        is_loaded(m, n),
    ensures
        is_loaded(after_meta(m, e, start, end), n),
{
    reveal_strlit("v1");
    let r = after_meta(m, e, start, end);
    if r != m {
        let (key, value) = r.data.metadata.last();
        if (key == "v1"@ || key == "v2"@) && value.len() > 0 {
            lemma_name(m.data.agent_names, key, value);
        }
        assert forall|i: int| 0 <= i < r.data.songwriters.len() implies (
        #[trigger] r.data.songwriters[i]).len() > 0 by {
            if i < m.data.songwriters.len() {
                assert(m.data.songwriters[i].len() > 0);
            }
        }
        assert forall|i: int| 0 <= i < r.data.metadata.len() implies (
        #[trigger] r.data.metadata[i]).0.len() > 0 by {
            if i < m.data.metadata.len() {
                assert(m.data.metadata[i].0.len() > 0);
            }
        }
    }
}

/// A sung line keeps the shape.
proof fn lemma_lyric(m: LoadView, n: nat, e: EventView, start: nat, a: ActorView)
    requires
        lines_hold(m.data.lines, n),
        pointers_hold(m),
        a.role is Some,
        a.is_background == (a.role == Some(ActorRole::Background)),
    ensures
        ({
            let r = after_lyric(
                m,
                n + 1,
                start,
                a,
                karaoke(e.text, start, n + 1),
            );
            lines_hold(r.data.lines, n + 1) && pointers_hold(r)
        }),
{
    let k = karaoke(e.text, start, n + 1);
    let r = after_lyric(m, n + 1, start, a, k);
    law_karaoke_in_order(e.text, start, n + 1);
    lemma_more_of_the_file(m.data.lines, n);
    if k.syllables.len() > 0 {
        let line = r.data.lines.last();
        lemma_push_line(m.data.lines, n, line);
        assert(r.data.lines =~= m.data.lines.push(line));
        if m.last_main is Some {
            assert(r.data.lines[m.last_main->0 as int] == m.data.lines[m.last_main->0 as int]);
        }
        if m.last_bg is Some {
            assert(r.data.lines[m.last_bg->0 as int] == m.data.lines[m.last_bg->0 as int]);
        }
    }
}

/// The role of an actor of a sung line says whether it is a background voice.
proof fn lemma_actor_role(field: Seq<char>, style: Seq<char>, line_num: nat)
    ensures
        match actor(field, style, line_num) {
            Ok(a) => a.role is Some ==> a.is_background == (a.role == Some(ActorRole::Background)),
            Err(_) => true,
        },
        is_translation_style(style) ==> match actor(field, style, line_num) {
            Ok(a) => a.lang_code is Some,
            Err(_) => true,
        },
{
    let tags = words(split_song_part(field).1);
    if names_role(tags, ActorRole::Background)
        && names_role(tags, ActorRole::Chorus) {
        assert(roles_conflict(tags));
    }
}

/// An event whose times and actor have been read keeps the shape.
proof fn lemma_read_event(
    l: LoadView,
    n: nat,
    e: EventView,
    start: nat,
    end: nat,
    a: ActorView,
)
    requires
        is_loaded(l, n),
        actor(e.actor, e.style, n + 1) == Ok::<ActorView, ErrorView>(a),
    ensures
        match after_read_event(l, n + 1, e, start, end, a) {
            Ok(r) => is_loaded(r, n + 1),
            Err(_) => true,
        },
{
    let m = after_marker(l, n + 1, a, e.text);
    lemma_marker(l, n, a, e.text);
    lemma_more_of_the_file(m.data.lines, n);
    lemma_actor_role(e.actor, e.style, n + 1);
    assert(is_loaded(m, n + 1));
    if is_translation_style(e.style) {
        if owner(m, m.last_main, start) is Some {
            let line = LineView {
                line_num: n + 1,
                start,
                end,
                content: Some(
                    ContentView::MainTranslation { lang_code: a.lang_code, text: e.text },
                ),
                song_part: a.song_part,
            };
            lemma_add_text(m, n, line);
        }
    } else if e.style == "bg-ts"@ {
        if owner(m, m.last_bg, start) is Some {
            lemma_background_text(m, n + 1, Some((a.lang_code, e.text)), None);
        }
    } else if e.style == "roma"@ {
        if owner(m, m.last_main, start) is Some {
            let line = LineView {
                line_num: n + 1,
                start,
                end,
                content: Some(ContentView::MainRomanization { text: e.text }),
                song_part: a.song_part,
            };
            lemma_add_text(m, n, line);
        }
    } else if e.style == "bg-roma"@ {
        if owner(m, m.last_bg, start) is Some {
            lemma_background_text(m, n + 1, None, Some(e.text));
        }
    } else if is_lyric_style(e.style) {
        if e.is_dialogue && a.role is Some {
            lemma_lyric(m, n, e, start, a);
        }
    } else if e.style == "meta"@ {
        lemma_meta(m, n + 1, e, start, end);
    }
}

/// A translation or romanization of the last background line keeps the shape.
proof fn lemma_background_text(
    m: LoadView,
    n: nat,
    translation: Option<(Option<Seq<char>>, Seq<char>)>,
    romanization: Option<Seq<char>>,
)
    requires
        is_loaded(m, n),
        m.last_bg is Some,
    ensures
        ({
            let i = m.last_bg->0 as int;
            let c = m.data.lines[i].content;
            let t = if translation is Some {
                with_content(
                    m,
                    i,
                    with_bg_translation(
                        c,
                        (translation->0).0,
                        (translation->0).1,
                    ),
                )
            } else {
                with_content(m, i, with_bg_romanization(c, romanization->0))
            };
            lines_hold(t.data.lines, n) && pointers_hold(t)
        }),
{
    let i = m.last_bg->0 as int;
    let old = m.data.lines[i];
    assert(line_holds(old, n));
    let c = if translation is Some {
        with_bg_translation(
            old.content,
            (translation->0).0,
            (translation->0).1,
        )
    } else {
        with_bg_romanization(old.content, romanization->0)
    };
    lemma_change_background(m.data.lines, n, i, LineView { content: c, ..old });
}

/// A line of a file keeps the shape.
proof fn lemma_line(l: LoadView, n: nat, raw: Seq<char>)
    requires
        is_loaded(l, n),
    ensures
        match after_line(l, n + 1, raw) {
            Ok(r) => is_loaded(r, n + 1),
            Err(_) => true,
        },
{
    lemma_more_of_the_file(l.data.lines, n);
    assert(markers_hold(l.data.markers, n + 1)) by {
        assert forall|i: int| 0 <= i < l.data.markers.len() implies 1 <= (
        #[trigger] l.data.markers[i]).0 <= n + 1 by {
            assert(l.data.markers[i].0 <= n);
        }
    }
    match event_fields(trim(raw)) {
        None => {},
        Some(e) => {
            let style = lower_case(e.style);
            let effect = lower_case(e.effect);
            assert(after_line(l, n + 1, raw) == after_event(l, n + 1, e, style, effect));
            if !is_left_out(style, effect) && ass_time(e.start, n + 1) is Ok && ass_time(
                e.end,
                n + 1,
            ) is Ok && actor(e.actor, e.style, n + 1) is Ok {
                lemma_read_event(
                    l,
                    n,
                    e,
                    ass_time(e.start, n + 1)->Ok_0,
                    ass_time(e.end, n + 1)->Ok_0,
                    actor(e.actor, e.style, n + 1)->Ok_0,
                );
            }
        },
    }
}

/// The first lines of a file give the shape.
proof fn lemma_lines(lines: Seq<Seq<char>>, n: nat)
    requires
        n <= lines.len(),
        load_lines(lines, n) is Ok,
    ensures
        is_loaded(load_lines(lines, n)->Ok_0, n),
    decreases n,
{
    if n == 0 {
        assert(is_loaded(load_start(), 0));
    } else {
        let m = (n - 1) as nat;
        lemma_lines(lines, m);
        lemma_line(load_lines(lines, m)->Ok_0, m, lines[n - 1]);
    }
}

/// What a file says always has this shape: its lines come in the order of the file
/// and each says something, the syllables of a sung line follow one another from its
/// start to its end, a translation or romanization follows the main line that it
/// belongs to and starts with it, the markers come in the order of the file, and the
/// names are those of the two singers.
pub proof fn law_loaded_lines_hold(content: Seq<char>)
    requires
        load(content) is Ok,
    ensures
        data_holds(load(content)->Ok_0, file_lines(content).len()),
{
    lemma_lines(file_lines(content), file_lines(content).len());
}

} // verus!
