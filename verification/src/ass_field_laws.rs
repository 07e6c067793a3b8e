//! Where the fields of an event line stand.

use vstd::prelude::*;

use crate::ass_event_laws::lemma_time_moves;
use crate::ass_generator::{bare_bg_text, without_back, without_front};
use crate::ass_parser::{
    comma_after, digit_run, event_fields, event_head, field_end, is_digit, skip_ws, time_at,
    time_end, EventView,
};
use crate::text::{
    all_ascii_digits, is_ascii_digit, is_ws, lemma_next_of, next_of, stands_at, trim, trim_end,
};
use crate::text_laws::law_trim;

verus! {

/// What stands behind `p`, taken apart.
proof fn lemma_apart(s: Seq<char>, p: int, f: Seq<char>, more: Seq<char>)
    requires
        0 <= p <= s.len(),
        s.subrange(p, s.len() as int) == f + more,
    ensures
        p + f.len() <= s.len(),
        s.subrange(p, p + f.len()) == f,
        s.subrange(p + f.len(), s.len() as int) == more,
        forall|k: int| 0 <= k < f.len() ==> s[p + k] == #[trigger] f[k],
        more.len() > 0 ==> p + f.len() < s.len() && s[p + f.len()] == more[0],
{
    let t = s.subrange(p, s.len() as int);
    assert(t.len() == f.len() + more.len());
    assert(s.subrange(p, p + f.len()) =~= t.subrange(0, f.len() as int));
    assert(t.subrange(0, f.len() as int) =~= f);
    assert(s.subrange(p + f.len(), s.len() as int) =~= t.subrange(f.len() as int, t.len() as int));
    assert(t.subrange(f.len() as int, t.len() as int) =~= more);
    assert forall|k: int| 0 <= k < f.len() implies s[p + k] == #[trigger] f[k] by {
        assert(t[k] == s[p + k]);
    }
    if more.len() > 0 {
        assert(t[f.len() as int] == more[0]);
    }
}

/// A field without a comma ends at the comma behind it.
proof fn lemma_field(s: Seq<char>, p: int, f: Seq<char>, more: Seq<char>)
    requires
        0 <= p <= s.len(),
        s.subrange(p, s.len() as int) == f + (seq![','] + more),
        forall|k: int| 0 <= k < f.len() ==> #[trigger] f[k] != ',',
    ensures
        field_end(s, p) == p + f.len(),
        p + f.len() + 1 <= s.len(),
        s.subrange(p, p + f.len()) == f,
        s.subrange(p + f.len() + 1, s.len() as int) == more,
{
    let ds = seq![','];
    lemma_apart(s, p, f, ds + more);
    lemma_apart(s, p + f.len(), ds, more);
    assert(ds[0] == ',');
    lemma_next_of(s, ds, p);
    let e = next_of(s, ds, p);
    assert(s[p + f.len()] == ',');
    assert(ds.contains(s[p + f.len()]));
    if e < p + f.len() {
        assert(s[p + (e - p)] == f[e - p]);
        let m = choose|m: int| 0 <= m < ds.len() && ds[m] == s[e];
        assert(m == 0);
    }
}

/// The white space behind the kind, the layer, the start and the end of an event.
pub struct Gaps {
    pub kind: Seq<char>,
    pub layer: Seq<char>,
    pub start: Seq<char>,
    pub end: Seq<char>,
}

/// Whether a text is white space, if anything.
pub open spec fn all_ws(s: Seq<char>) -> bool {
    forall|k: int| 0 <= k < s.len() ==> is_ws(#[trigger] s[k])
}

/// The fields of an event line with commas between them.
pub open spec fn event_text(
    kind: Seq<char>,
    layer: Seq<char>,
    start: Seq<char>,
    end: Seq<char>,
    gaps: Gaps,
    rest: Seq<char>,
) -> Seq<char> {
    kind + (gaps.kind + (layer + (gaps.layer + (seq![','] + (start + (gaps.start + (seq![','] + (
    end + (gaps.end + (seq![','] + rest))))))))))
}

/// The fields from the style on.
pub open spec fn fields_text(
    style: Seq<char>,
    actor: Seq<char>,
    margins: (Seq<char>, Seq<char>, Seq<char>),
    effect: Seq<char>,
    text: Seq<char>,
) -> Seq<char> {
    style + (seq![','] + (actor + (seq![','] + (margins.0 + (seq![','] + (margins.1 + (seq![',']
        + (margins.2 + (seq![','] + (effect + (seq![','] + text)))))))))))
}

/// Whether a text holds no comma.
pub open spec fn no_comma(s: Seq<char>) -> bool {
    forall|k: int| 0 <= k < s.len() ==> #[trigger] s[k] != ','
}

/// Whether a text is a time and nothing else.
pub open spec fn is_time(s: Seq<char>) -> bool {
    time_at(s, 0) && time_end(s, 0) == s.len()
}

/// Where the front of an event line stands.
pub open spec fn is_front(
    s: Seq<char>,
    kind: Seq<char>,
    layer: Seq<char>,
    start: Seq<char>,
    end: Seq<char>,
    gaps: Gaps,
) -> bool {
    let n = kind.len() as int;
    let l = n + gaps.kind.len();
    let m = l + layer.len();
    let a = m + gaps.layer.len();
    let p = a + 1 + start.len();
    let b = p + gaps.start.len();
    let q = b + 1 + end.len();
    let c = q + gaps.end.len();
    &&& c < s.len()
    &&& s.subrange(0, n) == kind
    &&& s.subrange(n, l) == gaps.kind
    &&& s.subrange(l, m) == layer
    &&& s.subrange(m, a) == gaps.layer
    &&& s[a] == ','
    &&& s.subrange(a + 1, p) == start
    &&& s.subrange(p, b) == gaps.start
    &&& s[b] == ','
    &&& s.subrange(b + 1, q) == end
    &&& s.subrange(q, c) == gaps.end
    &&& s[c] == ','
}

/// Where the style starts.
pub open spec fn front_len(
    kind: Seq<char>,
    layer: Seq<char>,
    start: Seq<char>,
    end: Seq<char>,
    gaps: Gaps,
) -> int {
    kind.len() as int + gaps.kind.len() + layer.len() + gaps.layer.len() + 1 + start.len()
        + gaps.start.len() + 1 + end.len() + gaps.end.len() + 1
}

/// An event line has its front in front.
proof fn lemma_layout(
    kind: Seq<char>,
    layer: Seq<char>,
    start: Seq<char>,
    end: Seq<char>,
    gaps: Gaps,
    rest: Seq<char>,
)
    ensures
        ({
            let s = event_text(kind, layer, start, end, gaps, rest);
            let c = front_len(kind, layer, start, end, gaps);
            &&& is_front(s, kind, layer, start, end, gaps)
            &&& 0 <= c <= s.len()
            &&& s.subrange(c, s.len() as int) == rest
        }),
{
    let s = event_text(kind, layer, start, end, gaps, rest);
    let comma = seq![','];
    let r8 = comma + rest;
    let r7 = gaps.end + r8;
    let r6 = end + r7;
    let r5 = comma + r6;
    let r4 = gaps.start + r5;
    let r3 = start + r4;
    let r2 = comma + r3;
    let r1 = gaps.layer + r2;
    let r0 = layer + r1;
    let n = kind.len() as int;
    let l = n + gaps.kind.len();
    let m = l + layer.len();
    let a = m + gaps.layer.len();
    let p = a + 1 + start.len();
    let b = p + gaps.start.len();
    let q = b + 1 + end.len();
    let c = q + gaps.end.len();
    assert(s.subrange(0, s.len() as int) =~= s);
    lemma_apart(s, 0, kind, gaps.kind + r0);
    lemma_apart(s, n, gaps.kind, r0);
    lemma_apart(s, l, layer, r1);
    lemma_apart(s, m, gaps.layer, r2);
    lemma_apart(s, a, comma, r3);
    lemma_apart(s, a + 1, start, r4);
    lemma_apart(s, p, gaps.start, r5);
    lemma_apart(s, b, comma, r6);
    lemma_apart(s, b + 1, end, r7);
    lemma_apart(s, q, gaps.end, r8);
    lemma_apart(s, c, comma, rest);
}

/// White space is skipped up to what is none.
proof fn lemma_skip(s: Seq<char>, i: int, e: int)
    requires
        0 <= i <= e < s.len(),
        all_ws(s.subrange(i, e)),
        !is_ws(s[e]),
    ensures
        skip_ws(s, i) == e,
    decreases e - i,
{
    if i < e {
        assert(s[i] == s.subrange(i, e)[0]);
        assert forall|k: int| 0 <= k < s.subrange(i + 1, e).len() implies is_ws(
            #[trigger] s.subrange(i + 1, e)[k],
        ) by {
            assert(s.subrange(i + 1, e)[k] == s.subrange(i, e)[k + 1]);
        }
        lemma_skip(s, i + 1, e);
    }
}

/// A comma behind white space is found.
proof fn lemma_comma(s: Seq<char>, i: int, e: int)
    requires
        0 <= i <= e < s.len(),
        all_ws(s.subrange(i, e)),
        s[e] == ',',
    ensures
        comma_after(s, i) == Some(e + 1),
{
    assert(!is_ws(','));
    lemma_skip(s, i, e);
}

/// The layer stands behind the kind.
proof fn lemma_layer(s: Seq<char>, n: int, l: int, m: int, layer: Seq<char>)
    requires
        0 <= n <= l < m < s.len(),
        all_ws(s.subrange(n, l)),
        s.subrange(l, m) == layer,
        all_ascii_digits(layer),
        s[m] == ',' || is_ws(s[m]),
    ensures
        skip_ws(s, n) == l,
        digit_run(s, l) == m || is_digit(s[m]),
{
    assert forall|k: int| l <= k < m implies is_ascii_digit(#[trigger] s[k]) by {
        assert(s[k] == layer[k - l]);
    }
    assert(is_ascii_digit(s[l]));
    lemma_skip(s, n, l);
    if !is_digit(s[m]) {
        lemma_digits_end(s, l, m);
    }
}

/// The front of an event line.
proof fn lemma_front(
    s: Seq<char>,
    kind: Seq<char>,
    layer: Seq<char>,
    start: Seq<char>,
    end: Seq<char>,
    gaps: Gaps,
)
    requires
        kind == "Dialogue:"@ || kind == "Comment:"@,
        layer.len() > 0,
        all_ascii_digits(layer),
        is_time(start),
        is_time(end),
        all_ws(gaps.kind),
        all_ws(gaps.layer),
        all_ws(gaps.start),
        all_ws(gaps.end),
        gaps.layer.len() > 0 ==> !is_digit(gaps.layer[0]),
        is_front(s, kind, layer, start, end, gaps),
    ensures
        ({
            let a = kind.len() + gaps.kind.len() + layer.len() + gaps.layer.len() + 1;
            let b = a + start.len() + gaps.start.len() + 1;
            let c = front_len(kind, layer, start, end, gaps);
            &&& event_head(s) == Some((kind == "Dialogue:"@, a as int, b as int, c))
            &&& time_end(s, a as int) == a + start.len()
            &&& time_end(s, b as int) == b + end.len()
            &&& s.subrange(a as int, a as int + start.len()) == start
            &&& s.subrange(b as int, b as int + end.len()) == end
        }),
{
    let n = kind.len() as int;
    let l = n + gaps.kind.len();
    let m = l + layer.len();
    let a = m + gaps.layer.len();
    let p = a + 1 + start.len();
    let b = p + gaps.start.len();
    let q = b + 1 + end.len();
    let c = q + gaps.end.len();
    lemma_kind(s, kind);
    if gaps.layer.len() > 0 {
        assert(s[m] == s.subrange(m, a)[0]);
        assert(is_ws(gaps.layer[0]));
    }
    lemma_layer(s, n, l, m, layer);
    assert(!is_digit(','));
    lemma_comma(s, m, a);
    lemma_time_moves(s, start, a + 1);
    lemma_comma(s, p, b);
    lemma_time_moves(s, end, b + 1);
    lemma_comma(s, q, c);
}

/// Which kind an event is.
proof fn lemma_kind(s: Seq<char>, kind: Seq<char>)
    requires
        kind == "Dialogue:"@ || kind == "Comment:"@,
        kind.len() <= s.len(),
        s.subrange(0, kind.len() as int) == kind,
    ensures
        stands_at(s, "Dialogue:"@, 0) <==> kind == "Dialogue:"@,
        stands_at(s, "Comment:"@, 0) <==> kind == "Comment:"@,
        kind == "Dialogue:"@ ==> kind.len() == 9,
        kind == "Comment:"@ ==> kind.len() == 8,
{
    reveal_strlit("Dialogue:");
    reveal_strlit("Comment:");
    assert(s[0] == s.subrange(0, kind.len() as int)[0]);
    assert("Dialogue:"@[0] == 'D' && "Comment:"@[0] == 'C');
    if stands_at(s, "Dialogue:"@, 0) {
        assert(s.subrange(0, 9)[0] == 'D');
    }
    if stands_at(s, "Comment:"@, 0) {
        assert(s.subrange(0, 8)[0] == 'C');
    }
}

/// Digits end at what is none.
proof fn lemma_digits_end(s: Seq<char>, i: int, e: int)
    requires
        0 <= i <= e < s.len(),
        forall|k: int| i <= k < e ==> is_ascii_digit(#[trigger] s[k]),
        !is_digit(s[e]),
    ensures
        digit_run(s, i) == e,
    decreases e - i,
{
    if i < e {
        assert(is_ascii_digit(s[i]));
        assert(is_digit(s[i]));
        lemma_digits_end(s, i + 1, e);
    }
}

/// The fields from the style on.
proof fn lemma_back(
    s: Seq<char>,
    c: int,
    style: Seq<char>,
    actor: Seq<char>,
    margins: (Seq<char>, Seq<char>, Seq<char>),
    effect: Seq<char>,
    text: Seq<char>,
)
    requires
        0 <= c <= s.len(),
        s.subrange(c, s.len() as int) == fields_text(style, actor, margins, effect, text),
        no_comma(style),
        no_comma(actor),
        no_comma(margins.0),
        no_comma(margins.1),
        no_comma(margins.2),
        no_comma(effect),
    ensures
        ({
            let x = field_end(s, c) + 1;
            let l = field_end(s, x) + 1;
            let r = field_end(s, l) + 1;
            let v = field_end(s, r) + 1;
            let f = field_end(s, v) + 1;
            let t = field_end(s, f) + 1;
            &&& x <= s.len() && l <= s.len() && r <= s.len()
            &&& v <= s.len() && f <= s.len() && t <= s.len()
            &&& s.subrange(c, x - 1) == style
            &&& s.subrange(x, l - 1) == actor
            &&& s.subrange(f, t - 1) == effect
            &&& s.subrange(t, s.len() as int) == text
        }),
{
    let ds = seq![','];
    let t6 = text;
    let t5 = effect + (ds + t6);
    let t4 = margins.2 + (ds + t5);
    let t3 = margins.1 + (ds + t4);
    let t2 = margins.0 + (ds + t3);
    let t1 = actor + (ds + t2);
    lemma_field(s, c, style, t1);
    let x = c + style.len() + 1;
    lemma_field(s, x, actor, t2);
    let l = x + actor.len() + 1;
    lemma_field(s, l, margins.0, t3);
    let r = l + margins.0.len() + 1;
    lemma_field(s, r, margins.1, t4);
    let v = r + margins.1.len() + 1;
    lemma_field(s, v, margins.2, t5);
    let f = v + margins.2.len() + 1;
    lemma_field(s, f, effect, t6);
}

/// The fields of an event line are its kind, a layer, its start, its end, its style, its
/// actor, three margins, its effect and its text, in this order, with commas between
/// them. White space may stand behind each of the first four. Style, actor and effect are
/// read without the white space round them and the text without that at its end. Only the
/// text may hold commas. A comment is no dialogue.
pub proof fn law_event_fields(
    kind: Seq<char>,
    layer: Seq<char>,
    start: Seq<char>,
    end: Seq<char>,
    style: Seq<char>,
    actor: Seq<char>,
    margins: (Seq<char>, Seq<char>, Seq<char>),
    effect: Seq<char>,
    text: Seq<char>,
    gaps: Gaps,
)
    requires
        kind == "Dialogue:"@ || kind == "Comment:"@,
        layer.len() > 0,
        all_ascii_digits(layer),
        is_time(start),
        is_time(end),
        all_ws(gaps.kind),
        all_ws(gaps.layer),
        all_ws(gaps.start),
        all_ws(gaps.end),
        gaps.layer.len() > 0 ==> !is_digit(gaps.layer[0]),
        no_comma(style),
        no_comma(actor),
        no_comma(margins.0),
        no_comma(margins.1),
        no_comma(margins.2),
        no_comma(effect),
    ensures
        event_fields(
            event_text(
                kind,
                layer,
                start,
                end,
                gaps,
                fields_text(style, actor, margins, effect, text),
            ),
        ) == Some(
            EventView {
                is_dialogue: kind == "Dialogue:"@,
                start,
                end,
                style: trim(style),
                actor: trim(actor),
                effect: trim(effect),
                text: trim_end(text),
            },
        ),
{
    let rest = fields_text(style, actor, margins, effect, text);
    let s = event_text(kind, layer, start, end, gaps, rest);
    lemma_layout(kind, layer, start, end, gaps, rest);
    lemma_front(s, kind, layer, start, end, gaps);
    let c = front_len(kind, layer, start, end, gaps);
    lemma_back(s, c, style, actor, margins, effect, text);
}

/// A line that begins neither with `Dialogue:` nor with `Comment:` is no event.
pub proof fn law_other_lines(s: Seq<char>)
    requires
        s.len() < 9 || s.subrange(0, 9) != "Dialogue:"@,
        s.len() < 8 || s.subrange(0, 8) != "Comment:"@,
    ensures
        event_fields(s) is None,
{
    reveal_strlit("Dialogue:");
    reveal_strlit("Comment:");
}

/// The text of a background voice is written without the parentheses round it, of
/// either width, and without the white space round these and within them.
pub proof fn law_background_text(
    a: Seq<char>,
    open: Seq<char>,
    x: Seq<char>,
    close: Seq<char>,
    b: Seq<char>,
)
    requires
        forall|k: int| 0 <= k < a.len() ==> is_ws(#[trigger] a[k]),
        forall|k: int| 0 <= k < b.len() ==> is_ws(#[trigger] b[k]),
        forall|k: int| 0 <= k < open.len() ==> #[trigger] open[k] == '(' || open[k] == '（',
        forall|k: int| 0 <= k < close.len() ==> #[trigger] close[k] == ')' || close[k] == '）',
        x.len() > 0,
        x[0] != '(' && x[0] != '（',
        x.last() != ')' && x.last() != '）',
        !is_ws(x[0]),
        !is_ws(x.last()),
    ensures
        bare_bg_text(a + (open + x + close) + b) == x,
{
    let m = open + x + close;
    assert(m[0] == (if open.len() > 0 {
        open[0]
    } else {
        x[0]
    }));
    assert(m.last() == (if close.len() > 0 {
        close[close.len() - 1]
    } else {
        x[x.len() - 1]
    }));
    law_trim(a, m, b);
    let front = seq!['(', '（'];
    let back = seq![')', '）'];
    assert(front[0] == '(' && front[1] == '（');
    assert(back[0] == ')' && back[1] == '）');
    lemma_strip_front(open, x + close, front);
    assert(m =~= open + (x + close));
    lemma_strip_back(x, close, back);
    let none = Seq::<char>::empty();
    law_trim(none, x, none);
    assert(none + x + none =~= x);
}

/// Characters in front are stripped up to the first that is another.
proof fn lemma_strip_front(open: Seq<char>, x: Seq<char>, ds: Seq<char>)
    requires
        ds == seq!['(', '（'],
        forall|k: int| 0 <= k < open.len() ==> #[trigger] open[k] == '(' || open[k] == '（',
        x.len() > 0,
        x[0] != '(' && x[0] != '（',
    ensures
        without_front(open + x, ds) == x,
    decreases open.len(),
{
    assert(ds[0] == '(' && ds[1] == '（');
    let s = open + x;
    if open.len() == 0 {
        assert(s =~= x);
        if ds.contains(x[0]) {
            let m = choose|m: int| 0 <= m < ds.len() && ds[m] == x[0];
            assert(m == 0 || m == 1);
        }
    } else {
        let rest = open.subrange(1, open.len() as int);
        assert(s[0] == open[0]);
        assert(ds.contains(s[0]));
        assert(s.subrange(1, s.len() as int) =~= rest + x);
        lemma_strip_front(rest, x, ds);
    }
}

/// Characters at the end are stripped up to the last that is another.
proof fn lemma_strip_back(x: Seq<char>, close: Seq<char>, ds: Seq<char>)
    requires
        ds == seq![')', '）'],
        forall|k: int| 0 <= k < close.len() ==> #[trigger] close[k] == ')' || close[k] == '）',
        x.len() > 0,
        x.last() != ')' && x.last() != '）',
    ensures
        without_back(x + close, ds) == x,
    decreases close.len(),
{
    assert(ds[0] == ')' && ds[1] == '）');
    let s = x + close;
    if close.len() == 0 {
        assert(s =~= x);
        if ds.contains(x.last()) {
            let m = choose|m: int| 0 <= m < ds.len() && ds[m] == x.last();
            assert(m == 0 || m == 1);
        }
    } else {
        assert(s.last() == close[close.len() - 1]);
        assert(ds.contains(s.last()));
        assert(s.drop_last() =~= x + close.drop_last());
        lemma_strip_back(x, close.drop_last(), ds);
    }
}

} // verus!
