//! What the fields of an ASS line mean, said of the characters that stand in them.

use vstd::prelude::*;

use crate::ass_event_laws::{lemma_no_song_part, lemma_one_word, lemma_time_moves};
use crate::ass_generator::tag;
use crate::ass_laws::{lemma_run_of, lemma_time_shape};
use crate::ass_parser::{
    actor, after_piece, ass_time, bare_end, digit_run, first_song_part, first_time, is_digit,
    karaoke, karaoke_from, last_lang, lemma_digit_run, lemma_next_tag, names_role, next_tag,
    role_tags, roles_conflict, song_part_at, split_song_part, tag_at, tag_role, time_at,
    KaraokeView,
};
use crate::text::{
    dec, dec2, is_ascii_digit, is_ws, law_number_or_problem, lemma_dec, lemma_dec2, lemma_next_of,
    lemma_trim_end, lemma_word_len, next_of, occurs_in, parse_dec, stands_at, trim_end, trim_start,
    word_len, words, IntProblem,
};
use crate::types::{ActorRole, ActorView, ErrorView, SyllableView};

verus! {

// ---------------------------------------------------------------------------
// Tags
// ---------------------------------------------------------------------------

/// Whether a tag asks for the first singer.
pub open spec fn is_left(tag: Seq<char>) -> bool {
    tag == "左"@ || tag == "v1"@
}

/// Whether a tag asks for the second singer.
pub open spec fn is_right(tag: Seq<char>) -> bool {
    tag == "右"@ || tag == "x-duet"@ || tag == "x-anti"@ || tag == "v2"@
}

/// Whether a tag asks for the background voice.
pub open spec fn is_behind(tag: Seq<char>) -> bool {
    tag == "背"@ || tag == "x-bg"@
}

/// Whether a tag asks for the chorus.
pub open spec fn is_together(tag: Seq<char>) -> bool {
    tag == "合"@ || tag == "v1000"@
}

/// Whether a tag asks for a voice.
pub open spec fn is_voice_tag(tag: Seq<char>) -> bool {
    is_left(tag) || is_right(tag) || is_behind(tag) || is_together(tag)
}

/// The tags that ask for a voice are all different.
proof fn lemma_tags_differ()
    ensures
        forall|t: Seq<char>|
            #[trigger] is_left(t) ==> !is_right(t) && !is_behind(t) && !is_together(t),
        forall|t: Seq<char>|
            #[trigger] is_right(t) ==> !is_left(t) && !is_behind(t) && !is_together(t),
        forall|t: Seq<char>|
            #[trigger] is_behind(t) ==> !is_left(t) && !is_right(t) && !is_together(t),
        forall|t: Seq<char>|
            #[trigger] is_together(t) ==> !is_left(t) && !is_right(t) && !is_behind(t),
        forall|t: Seq<char>| #[trigger] is_voice_tag(t) ==> t != "x-mark"@ && t.len() < 7 && t.len()
            > 0 && forall|k: int| 0 <= k < t.len() ==> !is_ws(#[trigger] t[k]),
{
    reveal_strlit("左");
    reveal_strlit("右");
    reveal_strlit("背");
    reveal_strlit("合");
    reveal_strlit("v1");
    reveal_strlit("v2");
    reveal_strlit("v1000");
    reveal_strlit("x-duet");
    reveal_strlit("x-anti");
    reveal_strlit("x-bg");
    reveal_strlit("x-mark");
    assert("左"@[0] == '左' && "右"@[0] == '右' && "背"@[0] == '背' && "合"@[0] == '合');
    assert("左"@.len() == 1 && "右"@.len() == 1 && "背"@.len() == 1 && "合"@.len() == 1);
    assert("v1"@[1] == '1' && "v2"@[1] == '2');
    assert("v1"@.len() == 2 && "v2"@.len() == 2 && "v1000"@.len() == 5 && "x-bg"@.len() == 4);
    assert("x-duet"@.len() == 6 && "x-anti"@.len() == 6 && "x-mark"@.len() == 6);
    assert("x-duet"@[2] == 'd' && "x-anti"@[2] == 'a' && "x-mark"@[2] == 'm');
}

/// What the tags of a field ask for.
proof fn lemma_asked(tags: Seq<Seq<char>>)
    ensures
        forall|t: Seq<char>|
            {
                &&& #[trigger] tag_role(t) == Some(ActorRole::Vocal1) <==> is_left(t)
                &&& tag_role(t) == Some(ActorRole::Vocal2) <==> is_right(t)
                &&& tag_role(t) == Some(ActorRole::Background) <==> is_behind(t)
                &&& tag_role(t) == Some(ActorRole::Chorus) <==> is_together(t)
                &&& tag_role(t) is Some <==> is_voice_tag(t)
            },
        names_role(tags, ActorRole::Vocal1) <==> exists|i: int|
            0 <= i < tags.len() && is_left(#[trigger] tags[i]),
        names_role(tags, ActorRole::Vocal2) <==> exists|i: int|
            0 <= i < tags.len() && is_right(#[trigger] tags[i]),
        names_role(tags, ActorRole::Background) <==> exists|i: int|
            0 <= i < tags.len() && is_behind(#[trigger] tags[i]),
        names_role(tags, ActorRole::Chorus) <==> exists|i: int|
            0 <= i < tags.len() && is_together(#[trigger] tags[i]),
{
    lemma_tags_differ();
    assert forall|t: Seq<char>|
        {
            &&& #[trigger] tag_role(t) == Some(ActorRole::Vocal1) <==> is_left(t)
            &&& tag_role(t) == Some(ActorRole::Vocal2) <==> is_right(t)
            &&& tag_role(t) == Some(ActorRole::Background) <==> is_behind(t)
            &&& tag_role(t) == Some(ActorRole::Chorus) <==> is_together(t)
            &&& tag_role(t) is Some <==> is_voice_tag(t)
        } by {
        assert(is_left(t) ==> !is_right(t));
        assert(is_right(t) ==> !is_behind(t));
        assert(is_behind(t) ==> !is_together(t));
        assert(is_together(t) ==> !is_left(t));
    }
}

/// The tags that ask for a voice are the ones that are listed.
proof fn lemma_role_tags(tags: Seq<Seq<char>>)
    ensures
        role_tags(tags) == tags.filter(|t: Seq<char>| is_voice_tag(t)),
    decreases tags.len(),
{
    reveal(Seq::filter);
    lemma_asked(tags);
    if tags.len() > 0 {
        lemma_role_tags(tags.drop_last());
        assert(tag_role(tags.last()) is Some <==> is_voice_tag(tags.last()));
    }
}

/// Whether some tag is one of those that `f` picks.
pub open spec fn some_tag(tags: Seq<Seq<char>>, f: spec_fn(Seq<char>) -> bool) -> bool {
    exists|i: int| 0 <= i < tags.len() && f(#[trigger] tags[i])
}

/// Which singer a line of lyrics belongs to. 左 and `v1` ask for the first, 右,
/// `x-duet`, `x-anti` and `v2` for the second, 背 and `x-bg` for the background voice
/// and 合 and `v1000` for the chorus. Where no tag asks for a voice the line belongs
/// to the first singer. Where two tags ask for different voices the field is refused,
/// and all tags that ask for a voice are listed in order.
pub proof fn law_actor_tags(field: Seq<char>, style: Seq<char>, n: nat)
    requires
        style == "orig"@ || style == "default"@,
    ensures
        ({
            let tags = words(split_song_part(field).1);
            let left = some_tag(tags, |t: Seq<char>| t == "左"@ || t == "v1"@);
            let right = some_tag(
                tags,
                |t: Seq<char>| t == "右"@ || t == "x-duet"@ || t == "x-anti"@ || t == "v2"@,
            );
            let behind = some_tag(tags, |t: Seq<char>| t == "背"@ || t == "x-bg"@);
            let together = some_tag(tags, |t: Seq<char>| t == "合"@ || t == "v1000"@);
            let r = actor(field, style, n);
            &&& !right && !behind && !together ==> r is Ok && r->Ok_0.role == Some(
                ActorRole::Vocal1,
            ) && !r->Ok_0.is_background
            &&& right && !left && !behind && !together ==> r is Ok && r->Ok_0.role == Some(
                ActorRole::Vocal2,
            ) && !r->Ok_0.is_background
            &&& behind && !left && !right && !together ==> r is Ok && r->Ok_0.role == Some(
                ActorRole::Background,
            ) && r->Ok_0.is_background
            &&& together && !left && !right && !behind ==> r is Ok && r->Ok_0.role == Some(
                ActorRole::Chorus,
            ) && !r->Ok_0.is_background
            &&& (left && right) || (left && behind) || (left && together) || (right && behind) || (
            right && together) || (behind && together) ==> r == Err::<ActorView, ErrorView>(
                ErrorView::ConflictingActorTags(n, tags.filter(|t: Seq<char>| is_voice_tag(t))),
            )
        }),
{
    let tags = words(split_song_part(field).1);
    lemma_asked(tags);
    lemma_role_tags(tags);
    let left = |t: Seq<char>| t == "左"@ || t == "v1"@;
    let right = |t: Seq<char>| t == "右"@ || t == "x-duet"@ || t == "x-anti"@ || t == "v2"@;
    let behind = |t: Seq<char>| t == "背"@ || t == "x-bg"@;
    let together = |t: Seq<char>| t == "合"@ || t == "v1000"@;
    assert(some_tag(tags, left) <==> names_role(tags, ActorRole::Vocal1)) by {
        assert(forall|i: int| 0 <= i < tags.len() ==> left(#[trigger] tags[i]) == is_left(tags[i]));
    }
    assert(some_tag(tags, right) <==> names_role(tags, ActorRole::Vocal2)) by {
        assert(forall|i: int|
            0 <= i < tags.len() ==> right(#[trigger] tags[i]) == is_right(tags[i]));
    }
    assert(some_tag(tags, behind) <==> names_role(tags, ActorRole::Background)) by {
        assert(forall|i: int|
            0 <= i < tags.len() ==> behind(#[trigger] tags[i]) == is_behind(tags[i]));
    }
    assert(some_tag(tags, together) <==> names_role(tags, ActorRole::Chorus)) by {
        assert(forall|i: int|
            0 <= i < tags.len() ==> together(#[trigger] tags[i]) == is_together(tags[i]));
    }
    if roles_conflict(tags) {
        let (a, b) = choose|a: ActorRole, b: ActorRole|
            a != b && #[trigger] names_role(tags, a) && #[trigger] names_role(tags, b);
        assert(a is Vocal1 || a is Vocal2 || a is Background || a is Chorus);
        assert(b is Vocal1 || b is Vocal2 || b is Background || b is Chorus);
    }
}

/// A field that is one tag names the voice that the tag asks for, whatever the line
/// and whichever of the two styles of lyrics it has, and says nothing else.
pub proof fn law_one_tag(tag: Seq<char>, style: Seq<char>, n: nat)
    requires
        style == "orig"@ || style == "default"@,
    ensures
        tag == "左"@ || tag == "v1"@ ==> actor(tag, style, n) == Ok::<ActorView, ErrorView>(
            ActorView {
                role: Some(ActorRole::Vocal1),
                is_background: false,
                lang_code: None,
                is_marker: false,
                song_part: None,
            },
        ),
        tag == "右"@ || tag == "x-duet"@ || tag == "x-anti"@ || tag == "v2"@ ==> actor(
            tag,
            style,
            n,
        ) == Ok::<ActorView, ErrorView>(
            ActorView {
                role: Some(ActorRole::Vocal2),
                is_background: false,
                lang_code: None,
                is_marker: false,
                song_part: None,
            },
        ),
        tag == "背"@ || tag == "x-bg"@ ==> actor(tag, style, n) == Ok::<ActorView, ErrorView>(
            ActorView {
                role: Some(ActorRole::Background),
                is_background: true,
                lang_code: None,
                is_marker: false,
                song_part: None,
            },
        ),
        tag == "合"@ || tag == "v1000"@ ==> actor(tag, style, n) == Ok::<ActorView, ErrorView>(
            ActorView {
                role: Some(ActorRole::Chorus),
                is_background: false,
                lang_code: None,
                is_marker: false,
                song_part: None,
            },
        ),
{
    if is_left(tag) || is_right(tag) || is_behind(tag) || is_together(tag) {
        assert(is_voice_tag(tag));
        lemma_tags_differ();
        lemma_no_song_part(tag, 0);
        lemma_one_word(tag);
        let tags = seq![tag];
        assert(words(split_song_part(tag).1) == tags);
        assert(tags[0] == tag);
        assert(tags.len() == 1);
        law_actor_tags(tag, style, n);
        lemma_asked(tags);
        assert(!tags.contains("x-mark"@)) by {
            if tags.contains("x-mark"@) {
                let k = choose|k: int| 0 <= k < tags.len() && tags[k] == "x-mark"@;
                assert(k == 0);
            }
        }
        reveal_strlit("orig");
        reveal_strlit("default");
        reveal_strlit("ts");
        reveal_strlit("trans");
        reveal_strlit("bg-ts");
        assert("orig"@.len() == 4 && "default"@.len() == 7);
        assert("ts"@.len() == 2 && "trans"@.len() == 5 && "bg-ts"@.len() == 5);
        assert(is_left(tags[0]) ==> names_role(tags, ActorRole::Vocal1));
        assert(is_right(tags[0]) ==> names_role(tags, ActorRole::Vocal2));
        assert(is_behind(tags[0]) ==> names_role(tags, ActorRole::Background));
        assert(is_together(tags[0]) ==> names_role(tags, ActorRole::Chorus));
        assert(!roles_conflict(tags)) by {
            if roles_conflict(tags) {
                let (a, b) = choose|a: ActorRole, b: ActorRole|
                    a != b && #[trigger] names_role(tags, a) && #[trigger] names_role(tags, b);
                let i = choose|i: int|
                    0 <= i < tags.len() && tag_role(#[trigger] tags[i]) == Some(a);
                let j = choose|j: int|
                    0 <= j < tags.len() && tag_role(#[trigger] tags[j]) == Some(b);
                assert(i == 0 && j == 0);
            }
        }
    }
}

/// A line that is not one of lyrics has no singer and is no background voice, its
/// language is that of the last `x-lang:` tag, and its field is never refused. Where
/// no tag names a language that of a translation is `zh-CN`, and that of a
/// translation of the background voice is not known. Lines of other styles have
/// none.
pub proof fn law_actor_of_other_lines(field: Seq<char>, style: Seq<char>, n: nat)
    requires
        style != "orig"@,
        style != "default"@,
    ensures
        ({
            let tags = words(split_song_part(field).1);
            let r = actor(field, style, n);
            &&& r is Ok
            &&& r->Ok_0.role is None
            &&& !r->Ok_0.is_background
            &&& style != "ts"@ && style != "trans"@ && style != "bg-ts"@ ==> r->Ok_0.lang_code
                is None
            &&& (forall|i: int|
                0 <= i < tags.len() ==> !names_language(#[trigger] tags[i])) ==> {
                &&& style == "ts"@ || style == "trans"@ ==> r->Ok_0.lang_code == Some("zh-CN"@)
                &&& style == "bg-ts"@ ==> r->Ok_0.lang_code is None
            }
            &&& style == "ts"@ || style == "trans"@ || style == "bg-ts"@ ==> forall|i: int|
                0 <= i < tags.len() && names_language(#[trigger] tags[i]) && (forall|j: int|
                    i < j < tags.len() ==> !names_language(#[trigger] tags[j]))
                    ==> r->Ok_0.lang_code is Some && "x-lang:"@ + r->Ok_0.lang_code->0 == tags[i]
        }),
{
    let tags = words(split_song_part(field).1);
    reveal_strlit("ts");
    reveal_strlit("trans");
    reveal_strlit("bg-ts");
    assert("ts"@.len() == 2 && "trans"@.len() == 5 && "bg-ts"@.len() == 5);
    assert("trans"@[0] == 't' && "bg-ts"@[0] == 'b');
    lemma_last_lang(tags);
}

/// Whether a tag names a language.
pub open spec fn names_language(tag: Seq<char>) -> bool {
    tag.len() > 7 && tag.subrange(0, 7) == "x-lang:"@
}

/// The last tag that names a language counts.
proof fn lemma_last_lang(tags: Seq<Seq<char>>)
    ensures
        (forall|i: int| 0 <= i < tags.len() ==> !names_language(#[trigger] tags[i])) ==> last_lang(
            tags,
        ) is None,
        forall|i: int|
            0 <= i < tags.len() && names_language(#[trigger] tags[i]) && (forall|j: int|
                i < j < tags.len() ==> !names_language(#[trigger] tags[j])) ==> last_lang(tags)
                is Some && "x-lang:"@ + last_lang(tags)->0 == tags[i],
    decreases tags.len(),
{
    reveal_strlit("x-lang:");
    if tags.len() > 0 {
        let front = tags.drop_last();
        lemma_last_lang(front);
        assert(tags.last() == tags[tags.len() - 1]);
        if names_language(tags.last()) {
            assert(tags.last().subrange(0, 7) + tags.last().subrange(7, tags.last().len() as int)
                =~= tags.last());
        } else {
            assert(!stands_at(tags.last(), "x-lang:"@, 0) || tags.last().len() <= 7);
            assert forall|i: int|
                0 <= i < tags.len() && names_language(#[trigger] tags[i]) && (forall|j: int|
                    i < j < tags.len() ==> !names_language(#[trigger] tags[j])) implies last_lang(
                tags,
            ) is Some && "x-lang:"@ + last_lang(tags)->0 == tags[i] by {
                assert(i < front.len());
                assert(front[i] == tags[i]);
                assert forall|j: int| i < j < front.len() implies !names_language(
                    #[trigger] front[j],
                ) by {
                    assert(front[j] == tags[j]);
                }
            }
            if forall|i: int| 0 <= i < tags.len() ==> !names_language(#[trigger] tags[i]) {
                assert forall|i: int| 0 <= i < front.len() implies !names_language(
                    #[trigger] front[i],
                ) by {
                    assert(front[i] == tags[i]);
                }
            }
        }
    }
}

/// A field is that of a marker exactly where one of its tags is `x-mark`, whatever
/// the style.
pub proof fn law_marker_tag(field: Seq<char>, style: Seq<char>, n: nat)
    ensures
        actor(field, style, n) is Ok ==> (actor(field, style, n)->Ok_0.is_marker <==> some_tag(
            words(split_song_part(field).1),
            |t: Seq<char>| t == "x-mark"@,
        )),
{
    let tags = words(split_song_part(field).1);
    let f = |t: Seq<char>| t == "x-mark"@;
    if tags.contains("x-mark"@) {
        let k = choose|k: int| 0 <= k < tags.len() && tags[k] == "x-mark"@;
        assert(f(tags[k]));
    }
    if some_tag(tags, f) {
        let k = choose|k: int| 0 <= k < tags.len() && f(#[trigger] tags[k]);
        assert(tags[k] == "x-mark"@);
    }
}

// ---------------------------------------------------------------------------
// Words
// ---------------------------------------------------------------------------

/// A text is split into words at its white space, and nowhere else: a text without
/// white space is one word, an empty one none, and the words of two texts with
/// white space between them are those of the one and then those of the other.
pub proof fn law_words(a: Seq<char>, c: char, b: Seq<char>)
    requires
        is_ws(c),
    ensures
        words(a.push(c) + b) == words(a) + words(b),
        (forall|k: int| 0 <= k < a.len() ==> !is_ws(#[trigger] a[k])) ==> words(a) == (
        if a.len() > 0 {
            seq![a]
        } else {
            Seq::empty()
        }),
    decreases a.len(),
{
    let s = a.push(c) + b;
    if a.len() == 0 {
        assert(s[0] == c);
        assert(s.subrange(1, s.len() as int) =~= b);
        assert(trim_start(s) == trim_start(b));
        assert(trim_start(a).len() == 0);
        assert(words(s) == words(b));
        assert(words(a) =~= Seq::<Seq<char>>::empty());
        assert(words(a) + words(b) =~= words(b));
    } else if is_ws(a[0]) {
        let rest = a.subrange(1, a.len() as int);
        law_words(rest, c, b);
        assert(s[0] == a[0]);
        assert(s.subrange(1, s.len() as int) =~= rest.push(c) + b);
        assert(trim_start(s) == trim_start(rest.push(c) + b));
        assert(trim_start(a) == trim_start(rest));
        assert(words(s) == words(rest.push(c) + b));
        assert(words(a) == words(rest));
    } else {
        let n = word_len(a) as int;
        lemma_word_len(a);
        lemma_word_len(s);
        assert(s.subrange(0, a.len() as int) =~= a);
        lemma_same_word(a, s, n);
        let rest = a.subrange(n, a.len() as int);
        law_words(rest, c, b);
        assert(s[0] == a[0]);
        assert(trim_start(s) == s);
        assert(trim_start(a) == a);
        assert(s.subrange(0, n) =~= a.subrange(0, n));
        assert(s.subrange(n, s.len() as int) =~= rest.push(c) + b);
        assert(words(a) == seq![a.subrange(0, n)] + words(rest));
        assert(words(s) == seq![a.subrange(0, n)] + words(rest.push(c) + b));
        assert(words(s) =~= words(a) + words(b));
        if forall|k: int| 0 <= k < a.len() ==> !is_ws(#[trigger] a[k]) {
            lemma_one_word(a);
        }
    }
}

/// A word ends at the first white space.
proof fn lemma_same_word(a: Seq<char>, s: Seq<char>, n: int)
    requires
        n == word_len(a),
        a.len() < s.len(),
        s.subrange(0, a.len() as int) == a,
        is_ws(s[a.len() as int]),
    ensures
        word_len(s) == n,
{
    lemma_word_len(a);
    lemma_word_len(s);
    let m = word_len(s) as int;
    assert(forall|k: int| 0 <= k < a.len() ==> s[k] == s.subrange(0, a.len() as int)[k]);
    if m < n {
        assert(!is_ws(a[m]));
        assert(s[m] == a[m]);
    }
    if n < m {
        assert(!is_ws(s[n]));
        if n < a.len() {
            assert(s[n] == a[n]);
        }
    }
}

// ---------------------------------------------------------------------------
// Times
// ---------------------------------------------------------------------------

/// A time is hours, minutes, seconds and hundredths of a second, in this order.
pub proof fn law_time_value(h: nat, m: nat, s: nat, c: nat, n: nat)
    requires
        h <= u64::MAX,
        m < 100,
        s < 100,
        c < 100,
    ensures
        ass_time(dec(h) + ":"@ + dec2(m) + ":"@ + dec2(s) + "."@ + dec2(c), n) == Ok::<
            nat,
            ErrorView,
        >(3_600_000 * h + 60_000 * m + 1000 * s + 10 * c),
{
    let t = dec(h) + ":"@ + dec2(m) + ":"@ + dec2(s) + "."@ + dec2(c);
    lemma_dec(h);
    lemma_dec2(m);
    lemma_dec2(s);
    lemma_dec2(c);
    lemma_time_shape(dec(h), dec2(m), dec2(s), dec2(c));
    lemma_time_sum(t, dec(h).len() as int, h, m, s, c, n);
}

/// What the numbers of a time at the front add up to.
proof fn lemma_time_sum(t: Seq<char>, j: int, h: nat, m: nat, s: nat, c: nat, n: nat)
    requires
        time_at(t, 0),
        digit_run(t, 0) == j,
        parse_dec(t.subrange(0, j), u64::MAX as nat) == Some(h),
        parse_dec(t.subrange(j + 1, j + 3), u64::MAX as nat) == Some(m),
        parse_dec(t.subrange(j + 4, j + 6), u64::MAX as nat) == Some(s),
        parse_dec(t.subrange(j + 7, j + 9), u64::MAX as nat) == Some(c),
    ensures
        ass_time(t, n) == Ok::<nat, ErrorView>(3_600_000 * h + 60_000 * m + 1000 * s + 10 * c),
{
    assert(first_time(t, 0) == 0);
}

// ---------------------------------------------------------------------------
// Karaoke texts
// ---------------------------------------------------------------------------

/// What is behind a text does not lengthen the digits in it.
proof fn lemma_run_stays(s: Seq<char>, x: Seq<char>, i: int)
    requires
        0 <= i <= s.len(),
        x.len() > 0,
        x[0] == '{',
    ensures
        digit_run(s + x, i) == digit_run(s, i),
    decreases s.len() - i,
{
    if i < s.len() {
        assert((s + x)[i] == s[i]);
        if is_digit(s[i]) {
            lemma_run_stays(s, x, i + 1);
        }
    } else {
        assert((s + x)[i] == '{');
    }
}

/// What is behind a text makes no tags of what stands in it.
proof fn lemma_tags_stay(s: Seq<char>, x: Seq<char>, i: int)
    requires
        0 <= i < s.len(),
        x.len() > 0,
        x[0] == '{',
    ensures
        tag_at(s + x, i) == tag_at(s, i),
{
    let t = s + x;
    assert(t[s.len() as int] == '{');
    assert forall|k: int| 0 <= k < s.len() implies t[k] == #[trigger] s[k] by {}
    if i + 3 <= s.len() {
        lemma_run_stays(s, x, i + 3);
        lemma_digit_run(s, i + 3);
    } else {
        assert(digit_run(s, i + 3) == i + 3);
    }
}

/// The next tag stays where it is, or is the one behind the text.
proof fn lemma_next_tag_stays(s: Seq<char>, x: Seq<char>, i: int)
    requires
        0 <= i <= s.len(),
        x.len() > 0,
        x[0] == '{',
        tag_at(s + x, s.len() as int),
    ensures
        next_tag(s + x, i) == next_tag(s, i),
    decreases s.len() - i,
{
    if i < s.len() {
        lemma_tags_stay(s, x, i);
        if !tag_at(s, i) {
            lemma_next_tag_stays(s, x, i + 1);
        }
    }
}

/// Digits at the end of a text are digits of its end.
proof fn lemma_run_behind(s: Seq<char>, t: Seq<char>, at: int, i: int)
    requires
        0 <= at,
        s.len() == at + t.len(),
        forall|k: int| 0 <= k < t.len() ==> s[at + k] == #[trigger] t[k],
        0 <= i <= t.len(),
    ensures
        digit_run(s, at + i) == at + digit_run(t, i),
    decreases t.len() - i,
{
    if i < t.len() {
        assert(s[at + i] == t[i]);
        if is_digit(t[i]) {
            lemma_run_behind(s, t, at, i + 1);
        }
    }
}

/// A text whose end holds no tag has none from there on.
proof fn lemma_no_tags_behind(s: Seq<char>, t: Seq<char>, at: int, i: int)
    requires
        0 <= at,
        s.len() == at + t.len(),
        forall|k: int| 0 <= k < t.len() ==> s[at + k] == #[trigger] t[k],
        0 <= i <= t.len(),
        forall|k: int| 0 <= k < t.len() ==> !tag_at(t, k),
    ensures
        next_tag(s, at + i) == s.len(),
    decreases t.len() - i,
{
    if i < t.len() {
        assert(!tag_at(s, at + i)) by {
            if tag_at(s, at + i) {
                let j = digit_run(s, at + i + 3);
                lemma_same_tag(s, t, at, i, j);
                assert(!tag_at(t, i));
            }
        }
        lemma_no_tags_behind(s, t, at, i + 1);
    }
}

/// A tag that stands in the end of a text stands in that end.
proof fn lemma_same_tag(s: Seq<char>, t: Seq<char>, at: int, i: int, j: int)
    requires
        0 <= at,
        s.len() == at + t.len(),
        forall|k: int| 0 <= k < t.len() ==> s[at + k] == #[trigger] t[k],
        0 <= i < t.len(),
        tag_at(s, at + i),
        j == digit_run(s, at + i + 3),
    ensures
        tag_at(t, i),
{
    assert(i + 3 < t.len());
    lemma_run_behind(s, t, at, i + 3);
    assert(at + (i + 3) == at + i + 3);
    assert(s[at + i] == t[i]);
    assert(s[at + (i + 1)] == t[i + 1]);
    assert(s[at + (i + 2)] == t[i + 2]);
    assert(s[at + (j - at)] == t[j - at]);
}

/// A tag with a text behind it is read after what stands before.
proof fn lemma_read_on(
    s: Seq<char>,
    c: nat,
    t: Seq<char>,
    pos: int,
    cs: nat,
    k: KaraokeView,
    n: nat,
)
    requires
        0 <= pos <= s.len(),
        c <= u32::MAX,
        forall|q: int| 0 <= q < t.len() ==> !tag_at(t, q),
        karaoke_from(s, pos, cs, k, n).error is None,
    ensures
        karaoke_from(s + (tag(c) + t), pos, cs, k, n) == after_piece(
            karaoke_from(s, pos, cs, k, n),
            t,
            c,
        ),
    decreases s.len() - pos,
{
    let x = tag(c) + t;
    let all = s + x;
    reveal_strlit("{\\k");
    reveal_strlit("}");
    lemma_dec(c);
    assert(x[0] == '{');
    let at = s.len() as int;
    assert(all[at] == x[0] && all[at + 1] == x[1] && all[at + 2] == x[2]);
    let e = at + 3 + dec(c).len();
    assert(all[e] == x[e - at]);
    assert(all[e] == '}');
    assert forall|q: int| at + 3 <= q < e implies is_ascii_digit(#[trigger] all[q]) by {
        assert(all[q] == x[q - at]);
        assert(x[q - at] == dec(c)[q - at - 3]);
    }
    lemma_run_of(all, at + 3, e);
    assert(tag_at(all, at));
    lemma_next_tag_stays(s, x, pos);
    lemma_next_tag(s, pos);
    let i = next_tag(s, pos);
    if i < s.len() {
        lemma_run_stays(s, x, i + 3);
        lemma_digit_run(s, i + 3);
        let j = digit_run(s, i + 3);
        assert(all.subrange(i + 3, j) =~= s.subrange(i + 3, j));
        assert(all.subrange(pos, i) =~= s.subrange(pos, i));
        let next = parse_dec(s.subrange(i + 3, j), u32::MAX as nat);
        assert(next is Some);
        lemma_read_on(s, c, t, j + 1, next->0, after_piece(k, s.subrange(pos, i), cs), n);
    } else {
        assert(all.subrange(at + 3, e) =~= dec(c));
        assert(all.subrange(pos, at) =~= s.subrange(pos, at));
        let k1 = after_piece(k, s.subrange(pos, at), cs);
        assert(karaoke_from(all, pos, cs, k, n) == karaoke_from(all, e + 1, c, k1, n));
        assert forall|q: int| 0 <= q < t.len() implies all[e + 1 + q] == #[trigger] t[q] by {
            assert(all[e + 1 + q] == x[e + 1 + q - at]);
        }
        lemma_no_tags_behind(all, t, e + 1, 0);
        assert(all.subrange(e + 1, all.len() as int) =~= t);
    }
}

/// A tag `{\kN}` with a text behind it adds to a karaoke text `N` hundredths of a
/// second, from where the text before it ends. A text that is not blank is a
/// syllable of that time, without the white space at its end, which is a space
/// behind it. A blank text is a space behind the syllable before it where it lasts,
/// and no text is a pause.
pub proof fn law_karaoke_tag(s: Seq<char>, c: nat, t: Seq<char>, start: nat, n: nat)
    requires
        c <= u32::MAX,
        forall|q: int| 0 <= q < t.len() ==> !tag_at(t, q),
        karaoke(s, start, n).error is None,
    ensures
        ({
            let was = karaoke(s, start, n);
            let r = karaoke(s + "{\\k"@ + dec(c) + "}"@ + t, start, n);
            let text = trim_end(t);
            let last = was.syllables.len() - 1;
            &&& r.error is None
            &&& r.end == was.end + 10 * c
            &&& text.len() > 0 ==> r.syllables == was.syllables.push(
                SyllableView {
                    text,
                    start: was.end,
                    end: was.end + 10 * c,
                    space: text.len() < t.len(),
                },
            )
            &&& text.len() == 0 && (t.len() == 0 || c == 0 || last < 0) ==> r.syllables
                == was.syllables
            &&& text.len() == 0 && t.len() > 0 && c > 0 && last >= 0 ==> r.syllables
                == was.syllables.update(
                last,
                SyllableView { space: true, ..was.syllables[last] },
            )
        }),
{
    let k0 = KaraokeView { syllables: Seq::<SyllableView>::empty(), end: start, error: None };
    let was = karaoke(s, start, n);
    lemma_read_on(s, c, t, 0, 0, k0, n);
    assert(s + (tag(c) + t) =~= s + "{\\k"@ + dec(c) + "}"@ + t);
    lemma_trim_end(t);
    let r = karaoke(s + (tag(c) + t), start, n);
    let last = was.syllables.len() - 1;
    if trim_end(t).len() == 0 && t.len() > 0 && c > 0 && last >= 0 {
        assert(r.syllables =~= was.syllables.update(
            last,
            SyllableView { space: true, ..was.syllables[last] },
        ));
    }
}

/// A text without tags takes no time; where it is not blank it is a syllable.
pub proof fn law_karaoke_without_tags(t: Seq<char>, start: nat, n: nat)
    requires
        forall|q: int| 0 <= q < t.len() ==> !tag_at(t, q),
    ensures
        ({
            let r = karaoke(t, start, n);
            &&& r.error is None
            &&& r.end == start
            &&& trim_end(t).len() == 0 ==> r.syllables.len() == 0
            &&& trim_end(t).len() > 0 ==> r.syllables == seq![
                SyllableView {
                    text: trim_end(t),
                    start,
                    end: start,
                    space: trim_end(t).len() < t.len(),
                },
            ]
        }),
{
    let k0 = KaraokeView { syllables: Seq::<SyllableView>::empty(), end: start, error: None };
    lemma_no_tags_behind(t, t, 0, 0);
    assert(t.subrange(0, t.len() as int) =~= t);
    lemma_trim_end(t);
    assert(karaoke(t, start, n).syllables =~= if trim_end(t).len() == 0 {
        Seq::empty()
    } else {
        seq![
            SyllableView {
                text: trim_end(t),
                start,
                end: start,
                space: trim_end(t).len() < t.len(),
            },
        ]
    });
}

// ---------------------------------------------------------------------------
// Song parts
// ---------------------------------------------------------------------------

/// No directive stands where its equals sign does not.
proof fn lemma_no_directive_at(field: Seq<char>, i: int)
    requires
        0 <= i,
        i + 16 < field.len() ==> field[i + 16] != '=',
    ensures
        song_part_at(field, i) is None,
{
    reveal_strlit("itunes:song-part=");
    if stands_at(field, "itunes:song-part="@, i) {
        assert(field.subrange(i, i + 17)[16] == "itunes:song-part="@[16]);
        assert("itunes:song-part="@[16] == '=');
    }
}

/// The first equals sign is that of the first directive.
proof fn lemma_first_at(field: Seq<char>, i: int, at: int)
    requires
        forall|k: int| 0 <= k < at + 16 ==> #[trigger] field[k] != '=',
        0 <= i <= at < field.len(),
        song_part_at(field, at) is Some,
    ensures
        first_song_part(field, i) == at,
    decreases at - i,
{
    if i < at {
        lemma_no_directive_at(field, i);
        lemma_first_at(field, i + 1, at);
    }
}

/// A directive behind a text without an equals sign is the first one.
proof fn lemma_first_directive(field: Seq<char>, a: Seq<char>, rest: Seq<char>)
    requires
        field == a + "itunes:song-part="@ + rest,
        forall|k: int| 0 <= k < a.len() ==> #[trigger] a[k] != '=',
        song_part_at(field, a.len() as int) is Some,
    ensures
        first_song_part(field, 0) == a.len(),
{
    reveal_strlit("itunes:song-part=");
    let d = "itunes:song-part="@;
    assert forall|k: int| 0 <= k < a.len() + 16 implies #[trigger] field[k] != '=' by {
        if k < a.len() {
            assert(field[k] == a[k]);
        } else {
            assert(field[k] == d[k - a.len()]);
        }
    }
    lemma_first_at(field, 0, a.len() as int);
}

/// How a field with the directive is laid out.
proof fn lemma_directive_field(a: Seq<char>, rest: Seq<char>)
    requires
        rest.len() > 0,
    ensures
        ({
            let field = a + "itunes:song-part="@ + rest;
            let i = a.len() as int;
            &&& field.len() == i + 17 + rest.len()
            &&& stands_at(field, "itunes:song-part="@, i)
            &&& field.subrange(0, i) == a
            &&& forall|k: int| i + 17 <= k < field.len() ==> #[trigger] field[k] == rest[k - i - 17]
        }),
{
    reveal_strlit("itunes:song-part=");
    let field = a + "itunes:song-part="@ + rest;
    let i = a.len() as int;
    assert(field.subrange(i, i + 17) =~= "itunes:song-part="@);
    assert(field.subrange(0, i) =~= a);
}

/// A field that holds `itunes:song-part=` with a value in double or single quotes
/// names the song part with that value, and what is left is what stands before and
/// behind it.
pub proof fn law_song_part(a: Seq<char>, q: char, v: Seq<char>, b: Seq<char>)
    requires
        q == '"' || q == '\'',
        forall|k: int| 0 <= k < a.len() ==> #[trigger] a[k] != '=',
        forall|k: int| 0 <= k < v.len() ==> #[trigger] v[k] != q,
    ensures
        split_song_part(a + "itunes:song-part="@ + (seq![q] + v + seq![q] + b)) == (
            Some(v),
            a + b,
        ),
{
    let rest = seq![q] + v + seq![q] + b;
    let field = a + "itunes:song-part="@ + rest;
    lemma_directive_field(a, rest);
    let i = a.len() as int;
    let w = i + 17;
    let e = w + 1 + v.len();
    assert(field[w] == rest[0]);
    assert(field[e] == rest[e - w]);
    let ds = seq![q];
    assert(ds[0] == q);
    lemma_next_of(field, ds, w + 1);
    let at = next_of(field, ds, w + 1);
    assert(ds.contains(field[e]));
    if at < e {
        assert(field[at] == rest[at - w]);
        assert(rest[at - w] == v[at - w - 1]);
        let k = choose|k: int| 0 <= k < ds.len() && ds[k] == field[at];
        assert(k == 0);
    }
    assert(at == e);
    assert(seq![field[w]] =~= ds);
    assert(song_part_at(field, i) == Some((w + 1, e, e + 1)));
    lemma_first_directive(field, a, rest);
    assert(field.subrange(w + 1, e) =~= v);
    assert(field.subrange(e + 1, field.len() as int) =~= b);
}

/// A bare value ends at the first white space.
pub proof fn law_bare_song_part(a: Seq<char>, v: Seq<char>, b: Seq<char>)
    requires
        forall|k: int| 0 <= k < a.len() ==> #[trigger] a[k] != '=',
        v.len() > 0,
        forall|k: int| 0 <= k < v.len() ==> !is_ws(#[trigger] v[k]) && v[k] != '"' && v[k] != '\'',
        b.len() > 0 ==> is_ws(b[0]),
    ensures
        split_song_part(a + "itunes:song-part="@ + (v + b)) == (Some(v), a + b),
{
    let rest = v + b;
    let field = a + "itunes:song-part="@ + rest;
    lemma_directive_field(a, rest);
    let i = a.len() as int;
    let w = i + 17;
    let e = w + v.len();
    assert(field[w] == v[0]) by {
        assert(field[w] == rest[0]);
    }
    assert(!is_ws(v[0]) && v[0] != '"' && v[0] != '\'');
    lemma_bare_value(field, w, v, b);
    lemma_bare_part(field, i, e);
    lemma_first_directive(field, a, rest);
    assert(field.subrange(w, e) == v && field.subrange(e, field.len() as int) == b) by {
        lemma_rest(field, w, v, b);
    }
}

/// What stands behind `w` is `v` and then `b`.
proof fn lemma_rest(s: Seq<char>, w: int, v: Seq<char>, b: Seq<char>)
    requires
        0 <= w,
        s.len() == w + v.len() + b.len(),
        forall|k: int| w <= k < s.len() ==> #[trigger] s[k] == (v + b)[k - w],
    ensures
        s.subrange(w, w + v.len()) == v,
        s.subrange(w + v.len(), s.len() as int) == b,
{
    assert(s.subrange(w, w + v.len()) =~= v);
    assert(s.subrange(w + v.len(), s.len() as int) =~= b);
}

/// A directive with a bare value.
proof fn lemma_bare_part(s: Seq<char>, i: int, e: int)
    requires
        stands_at(s, "itunes:song-part="@, i),
        i + 17 < s.len(),
        s[i + 17] != '"',
        s[i + 17] != '\'',
        bare_end(s, i + 17) == e,
        i + 17 < e,
    ensures
        song_part_at(s, i) == Some((i + 17, e, e)),
{
}

/// A bare value that stands at `w` ends where it ends.
proof fn lemma_bare_value(s: Seq<char>, w: int, v: Seq<char>, b: Seq<char>)
    requires
        0 <= w,
        s.len() == w + v.len() + b.len(),
        forall|k: int| w <= k < s.len() ==> #[trigger] s[k] == (v + b)[k - w],
        forall|k: int| 0 <= k < v.len() ==> !is_ws(#[trigger] v[k]) && v[k] != '"' && v[k] != '\'',
        b.len() > 0 ==> is_ws(b[0]),
    ensures
        bare_end(s, w) == w + v.len(),
{
    let e = w + v.len();
    assert forall|k: int| w <= k < e implies !is_ws(#[trigger] s[k]) && s[k] != '"' && s[k]
        != '\'' by {
        assert((v + b)[k - w] == v[k - w]);
    }
    if b.len() > 0 {
        assert(s[e] == (v + b)[v.len() as int]);
    }
    lemma_bare_end(s, w, e);
}

/// Where a bare value ends.
proof fn lemma_bare_end(s: Seq<char>, i: int, e: int)
    requires
        0 <= i <= e <= s.len(),
        forall|k: int| i <= k < e ==> !is_ws(#[trigger] s[k]) && s[k] != '"' && s[k] != '\'',
        e < s.len() ==> is_ws(s[e]),
    ensures
        bare_end(s, i) == e,
    decreases e - i,
{
    if i < e {
        assert(!is_ws(s[i]));
        lemma_bare_end(s, i + 1, e);
    }
}

/// A field without the directive names no song part and is left as it is.
pub proof fn law_no_song_part(field: Seq<char>)
    requires
        !occurs_in("itunes:song-part="@, field),
    ensures
        split_song_part(field) == (None::<Seq<char>>, field),
{
    lemma_without_directive(field, 0);
}

/// Without the directive there is no song part.
proof fn lemma_without_directive(s: Seq<char>, i: int)
    requires
        !occurs_in("itunes:song-part="@, s),
        0 <= i <= s.len(),
    ensures
        first_song_part(s, i) == s.len(),
    decreases s.len() - i,
{
    if i < s.len() {
        assert(!stands_at(s, "itunes:song-part="@, i));
        lemma_without_directive(s, i + 1);
    }
}

/// A text that holds no time is told with the number of its line.
pub proof fn law_no_time(s: Seq<char>, n: nat)
    requires
        forall|i: int| 0 <= i < s.len() ==> !time_at(s, i),
    ensures
        ass_time(s, n) == Err::<nat, ErrorView>(ErrorView::InvalidAssTime(n, s)),
{
    lemma_no_time(s, 0);
}

/// No time is found where there is none.
proof fn lemma_no_time(s: Seq<char>, i: int)
    requires
        0 <= i <= s.len(),
        forall|k: int| 0 <= k < s.len() ==> !time_at(s, k),
    ensures
        first_time(s, i) == s.len(),
    decreases s.len() - i,
{
    if i < s.len() {
        lemma_no_time(s, i + 1);
    }
}

/// The first time in a text counts, whatever stands behind it.
pub proof fn law_first_time(a: Seq<char>, t: Seq<char>, b: Seq<char>, n: nat)
    requires
        time_at(t, 0),
        forall|i: int| 0 <= i < a.len() ==> !time_at(a + t + b, i),
    ensures
        first_time(a + t + b, 0) == a.len(),
{
    let s = a + t + b;
    let at = a.len() as int;
    assert(s.subrange(at, at + t.len()) =~= t);
    lemma_time_moves(s, t, at);
    lemma_digit_run(t, 0);
    lemma_first_time(s, 0, at);
}

/// The first time is found.
proof fn lemma_first_time(s: Seq<char>, i: int, at: int)
    requires
        0 <= i <= at < s.len(),
        time_at(s, at),
        forall|k: int| 0 <= k < at ==> !time_at(s, k),
    ensures
        first_time(s, i) == at,
    decreases at - i,
{
    if i < at {
        lemma_first_time(s, i + 1, at);
    }
}

/// A time whose hours are too large a number to be read is told as such.
pub proof fn law_hours_too_large(h: nat, m: nat, s: nat, c: nat, n: nat)
    requires
        h > u64::MAX,
        m < 100,
        s < 100,
        c < 100,
    ensures
        ass_time(dec(h) + ":"@ + dec2(m) + ":"@ + dec2(s) + "."@ + dec2(c), n) == Err::<
            nat,
            ErrorView,
        >(ErrorView::ParseInt(IntProblem::PosOverflow)),
{
    let t = dec(h) + ":"@ + dec2(m) + ":"@ + dec2(s) + "."@ + dec2(c);
    lemma_dec(h);
    lemma_dec2(m);
    lemma_dec2(s);
    lemma_dec2(c);
    lemma_time_shape(dec(h), dec2(m), dec2(s), dec2(c));
    assert(first_time(t, 0) == 0);
    law_number_or_problem(dec(h), u64::MAX as nat);
}

/// A tag whose number is too large is told with the number of the line and its digits.
pub proof fn law_bad_karaoke_tag(s: Seq<char>, c: nat, t: Seq<char>, start: nat, n: nat)
    requires
        c > u32::MAX,
        karaoke(s, start, n).error is None,
    ensures
        karaoke(s + "{\\k"@ + dec(c) + "}"@ + t, start, n).error == Some(
            ErrorView::InvalidAssKaraoke(n, "无效的K值: "@ + dec(c)),
        ),
{
    assert(s + (tag(c) + t) =~= s + "{\\k"@ + dec(c) + "}"@ + t);
    let k0 = KaraokeView { syllables: Seq::<SyllableView>::empty(), end: start, error: None };
    lemma_read_bad(s, c, t, 0, 0, k0, n);
}

/// A tag whose number is too large ends the reading.
proof fn lemma_read_bad(
    s: Seq<char>,
    c: nat,
    t: Seq<char>,
    pos: int,
    cs: nat,
    k: KaraokeView,
    n: nat,
)
    requires
        0 <= pos <= s.len(),
        c > u32::MAX,
        karaoke_from(s, pos, cs, k, n).error is None,
    ensures
        karaoke_from(s + (tag(c) + t), pos, cs, k, n).error == Some(
            ErrorView::InvalidAssKaraoke(n, "无效的K值: "@ + dec(c)),
        ),
    decreases s.len() - pos,
{
    let x = tag(c) + t;
    let all = s + x;
    let at = s.len() as int;
    let e = at + 3 + dec(c).len();
    lemma_tag_behind(s, c, t);
    lemma_next_tag_stays(s, x, pos);
    lemma_next_tag(s, pos);
    let i = next_tag(s, pos);
    if i < s.len() {
        lemma_run_stays(s, x, i + 3);
        lemma_digit_run(s, i + 3);
        let j = digit_run(s, i + 3);
        assert(all.subrange(i + 3, j) =~= s.subrange(i + 3, j));
        assert(all.subrange(pos, i) =~= s.subrange(pos, i));
        let next = parse_dec(s.subrange(i + 3, j), u32::MAX as nat);
        assert(next is Some);
        lemma_read_bad(s, c, t, j + 1, next->0, after_piece(k, s.subrange(pos, i), cs), n);
    } else {
        lemma_dec(c);
        assert(all.subrange(at + 3, e) == dec(c));
    }
}

/// A tag that stands behind a text.
proof fn lemma_tag_behind(s: Seq<char>, c: nat, t: Seq<char>)
    ensures
        ({
            let x = tag(c) + t;
            let all = s + x;
            let at = s.len() as int;
            let e = at + 3 + dec(c).len();
            &&& x.len() > 0
            &&& x[0] == '{'
            &&& e < all.len()
            &&& digit_run(all, at + 3) == e
            &&& tag_at(all, at)
            &&& all.subrange(at + 3, e) == dec(c)
        }),
{
    let x = tag(c) + t;
    let all = s + x;
    reveal_strlit("{\\k");
    reveal_strlit("}");
    lemma_dec(c);
    assert(x[0] == '{');
    let at = s.len() as int;
    assert(all[at] == x[0] && all[at + 1] == x[1] && all[at + 2] == x[2]);
    let e = at + 3 + dec(c).len();
    assert(all[e] == x[e - at]);
    assert(all[e] == '}');
    assert forall|q: int| at + 3 <= q < e implies is_ascii_digit(#[trigger] all[q]) by {
        assert(all[q] == x[q - at]);
        assert(x[q - at] == dec(c)[q - at - 3]);
    }
    lemma_run_of(all, at + 3, e);
    assert(all.subrange(at + 3, e) =~= dec(c));
}

/// A karaoke tag is `{\k`, a number and `}`.
pub proof fn law_karaoke_tags(s: Seq<char>, i: int)
    ensures
        tag_at(s, i) <==> exists|j: int|
            {
                &&& 0 <= i
                &&& i + 3 < j < s.len()
                &&& s.subrange(i, i + 3) == "{\\k"@
                &&& #[trigger] s[j] == '}'
                &&& forall|k: int| i + 3 <= k < j ==> is_digit(#[trigger] s[k])
            },
{
    reveal_strlit("{\\k");
    let open = "{\\k"@;
    if tag_at(s, i) {
        let j = digit_run(s, i + 3);
        lemma_digit_run(s, i + 3);
        assert(s.subrange(i, i + 3) =~= open);
        assert(s[j] == '}');
    }
    if exists|j: int|
        {
            &&& 0 <= i
            &&& i + 3 < j < s.len()
            &&& s.subrange(i, i + 3) == open
            &&& #[trigger] s[j] == '}'
            &&& forall|k: int| i + 3 <= k < j ==> is_digit(#[trigger] s[k])
        } {
        let j = choose|j: int|
            {
                &&& 0 <= i
                &&& i + 3 < j < s.len()
                &&& s.subrange(i, i + 3) == open
                &&& #[trigger] s[j] == '}'
                &&& forall|k: int| i + 3 <= k < j ==> is_digit(#[trigger] s[k])
            };
        lemma_run_to(s, i + 3, j);
        assert(s[i] == s.subrange(i, i + 3)[0]);
        assert(s[i + 1] == s.subrange(i, i + 3)[1]);
        assert(s[i + 2] == s.subrange(i, i + 3)[2]);
    }
}

/// Digits up to another character are a run of digits.
proof fn lemma_run_to(s: Seq<char>, i: int, j: int)
    requires
        0 <= i <= j < s.len(),
        forall|k: int| i <= k < j ==> is_digit(#[trigger] s[k]),
        !is_digit(s[j]),
    ensures
        digit_run(s, i) == j,
    decreases j - i,
{
    if i < j {
        assert(is_digit(s[i]));
        lemma_run_to(s, i + 1, j);
    }
}

/// Whether two digits stand at `i`.
pub open spec fn two_digits(s: Seq<char>, i: int) -> bool {
    is_digit(s[i]) && is_digit(s[i + 1])
}

/// A time is a number, a colon, two digits, a colon, two digits, a point and two digits.
/// Of the ASCII characters those from `0` to `9` are digits.
pub proof fn law_times(s: Seq<char>, i: int, c: char)
    ensures
        time_at(s, i) <==> exists|j: int|
            {
                &&& 0 <= i < j
                &&& j + 9 <= s.len()
                &&& forall|k: int| i <= k < j ==> is_digit(#[trigger] s[k])
                &&& #[trigger] s[j] == ':'
                &&& two_digits(s, j + 1)
                &&& s[j + 3] == ':'
                &&& two_digits(s, j + 4)
                &&& s[j + 6] == '.'
                &&& two_digits(s, j + 7)
            },
        '\u{80}' > c ==> (is_digit(c) <==> '0' <= c <= '9'),
{
    if time_at(s, i) {
        let j = digit_run(s, i);
        lemma_digit_run(s, i);
        assert(s[j] == ':');
        assert(two_digits(s, j + 1));
    }
    if exists|j: int|
        {
            &&& 0 <= i < j
            &&& j + 9 <= s.len()
            &&& forall|k: int| i <= k < j ==> is_digit(#[trigger] s[k])
            &&& #[trigger] s[j] == ':'
            &&& two_digits(s, j + 1)
            &&& s[j + 3] == ':'
            &&& two_digits(s, j + 4)
            &&& s[j + 6] == '.'
            &&& two_digits(s, j + 7)
        } {
        let j = choose|j: int|
            {
                &&& 0 <= i < j
                &&& j + 9 <= s.len()
                &&& forall|k: int| i <= k < j ==> is_digit(#[trigger] s[k])
                &&& #[trigger] s[j] == ':'
                &&& two_digits(s, j + 1)
                &&& s[j + 3] == ':'
                &&& two_digits(s, j + 4)
                &&& s[j + 6] == '.'
                &&& two_digits(s, j + 7)
            };
        lemma_run_to(s, i, j);
    }
}

} // verus!
