//! Writes KRC files.

use vstd::prelude::*;

use crate::ass_generator::{minus, strip_back, without_back};
use crate::text::{dec, push_dec, string_of, to_chars};
use crate::types::{
    paragraph_views, ConvertError, ParagraphView, SyllableView, TtmlParagraph,
};

verus! {

/// The tag of a line.
pub open spec fn line_tag(start: nat, duration: nat) -> Seq<char> {
    "["@ + dec(start) + ","@ + dec(duration) + "]"@
}

/// The tag of a syllable: its offset from the start of the line and its duration.
pub open spec fn syllable_tag(offset: nat, duration: nat) -> Seq<char> {
    "<"@ + dec(offset) + ","@ + dec(duration) + ",0>"@
}

/// A syllable of a line that starts at `line_start`. One without a text is a pause
/// where it lasts, and nothing where it does not. A space behind a syllable is an
/// empty tag and two spaces, unless the syllable is the last.
pub open spec fn syllable_part(s: SyllableView, line_start: nat, is_last: bool) -> Seq<char> {
    let duration = minus(s.end, s.start);
    let own = if s.text.len() > 0 || duration > 0 {
        syllable_tag(minus(s.start, line_start), duration) + s.text
    } else {
        Seq::empty()
    };
    if s.space && !is_last {
        own + "<0,0,0>  "@
    } else {
        own
    }
}

/// The first `n` syllables of a line that starts at `line_start`.
pub open spec fn syllable_parts(
    syllables: Seq<SyllableView>,
    line_start: nat,
    n: nat,
) -> Seq<char>
    decreases n,
{
    if n == 0 {
        Seq::empty()
    } else {
        syllable_parts(syllables, line_start, (n - 1) as nat) + syllable_part(
            syllables[n - 1],
            line_start,
            n == syllables.len(),
        )
    }
}

/// The duration of a line with syllables: that of the paragraph, or that of the
/// syllables where the paragraph has none.
pub open spec fn line_duration(p: ParagraphView) -> nat {
    if p.end > p.start {
        minus(p.end, p.start)
    } else {
        minus(p.syllables.last().end, p.syllables[0].start)
    }
}

/// The line of a paragraph. Without syllables it is a bare tag where the
/// paragraph lasts, and nothing where it does not.
pub open spec fn krc_line(p: ParagraphView) -> Seq<char> {
    if p.syllables.len() > 0 {
        line_tag(p.start, line_duration(p)) + syllable_parts(
            p.syllables,
            p.start,
            p.syllables.len(),
        ) + "\n"@
    } else if p.end > p.start {
        line_tag(p.start, minus(p.end, p.start)) + "\n"@
    } else {
        Seq::empty()
    }
}

/// The lines of the first `n` paragraphs.
pub open spec fn krc_lines(paragraphs: Seq<ParagraphView>, n: nat) -> Seq<char>
    decreases n,
{
    if n == 0 {
        Seq::empty()
    } else {
        krc_lines(paragraphs, (n - 1) as nat) + krc_line(paragraphs[n - 1])
    }
}

/// A text that ends in one newline, or in none where it is empty.
pub open spec fn one_newline(s: Seq<char>) -> Seq<char> {
    let body = without_back(s, seq!['\n']);
    if body.len() == 0 {
        Seq::empty()
    } else {
        body + "\n"@
    }
}

/// A whole file.
pub open spec fn krc_file(paragraphs: Seq<ParagraphView>, metadata: Seq<char>) -> Seq<char> {
    one_newline(metadata + krc_lines(paragraphs, paragraphs.len()))
}

/// Appends the tag of a line.
fn push_line_tag(out: &mut String, start: u64, duration: u64)
    ensures
        final(out)@ == old(out)@ + line_tag(start as nat, duration as nat),
{
    out.append("[");
    push_dec(out, start);
    out.append(",");
    push_dec(out, duration);
    out.append("]");
    proof {
        assert(out@ =~= old(out)@ + line_tag(start as nat, duration as nat));
    }
}

/// Appends the tag of a syllable.
fn push_syllable_tag(out: &mut String, offset: u64, duration: u64)
    ensures
        final(out)@ == old(out)@ + syllable_tag(offset as nat, duration as nat),
{
    out.append("<");
    push_dec(out, offset);
    out.append(",");
    push_dec(out, duration);
    out.append(",0>");
    proof {
        assert(out@ =~= old(out)@ + syllable_tag(offset as nat, duration as nat));
    }
}

/// Appends the line of a paragraph.
fn push_line(out: &mut String, p: &TtmlParagraph)
    ensures
        final(out)@ == old(out)@ + krc_line(p@),
{
    let duration = p.p_end_ms.saturating_sub(p.p_start_ms);
    let n = p.main_syllables.len();
    if n == 0 {
        if duration > 0 {
            push_line_tag(out, p.p_start_ms, duration);
            out.append("\n");
        }
        proof {
            assert(p@.syllables.len() == 0);
            assert(out@ =~= old(out)@ + krc_line(p@));
        }
        return ;
    }
    let first = p.main_syllables[0].start_ms;
    let last_end = p.main_syllables[n - 1].end_ms;
    let ghost list = p@.syllables;
    proof {
        assert(list[0] == p.main_syllables@[0]@);
        assert(list.last() == p.main_syllables@[n - 1]@);
    }
    let shown: u64 = if duration == 0 {
        last_end.saturating_sub(first)
    } else {
        duration
    };
    push_line_tag(out, p.p_start_ms, shown);
    let ghost head = out@;
    proof {
        assert(out@ =~= head + syllable_parts(list, p@.start, 0));
    }
    let mut i: usize = 0;
    while i < n
        invariant
            i <= n,
            n == p.main_syllables@.len(),
            list == p@.syllables,
            list.len() > 0,
            out@ == head + syllable_parts(list, p@.start, i as nat),
        decreases n - i,
    {
        let s = &p.main_syllables[i];
        let ghost before = out@;
        proof {
            assert(list[i as int] == s@);
        }
        let length = s.end_ms.saturating_sub(s.start_ms);
        if !s.text.as_str().is_empty() || length > 0 {
            push_syllable_tag(out, s.start_ms.saturating_sub(p.p_start_ms), length);
            out.append(s.text.as_str());
        }
        if s.ends_with_space && i < n - 1 {
            out.append("<0,0,0>  ");
        }
        proof {
            assert(out@ =~= before + syllable_part(
                list[i as int],
                p@.start,
                (i + 1) as nat == list.len(),
            ));
            assert(out@ =~= head + syllable_parts(list, p@.start, (i + 1) as nat));
        }
        i += 1;
    }
    out.append("\n");
    proof {
        assert(out@ =~= old(out)@ + krc_line(p@));
    }
}

/// Writes paragraphs as a KRC file that starts with `metadata`.
pub fn generate_krc_from_ttml_data(paragraphs: &[TtmlParagraph], metadata: &str) -> (r: Result<
    String,
    ConvertError,
>)
    ensures
        r is Ok,
        r->Ok_0@ == krc_file(paragraph_views(paragraphs@), metadata@),
{
    let mut out = String::new();
    out.append(metadata);
    let ghost list = paragraph_views(paragraphs@);
    proof {
        assert(out@ =~= metadata@ + krc_lines(list, 0));
    }
    let mut i: usize = 0;
    while i < paragraphs.len()
        invariant
            i <= paragraphs.len(),
            list == paragraph_views(paragraphs@),
            out@ == metadata@ + krc_lines(list, i as nat),
        decreases paragraphs.len() - i,
    {
        push_line(&mut out, &paragraphs[i]);
        proof {
            assert(list[i as int] == paragraphs@[i as int]@);
            assert(out@ =~= metadata@ + (krc_lines(list, i as nat) + krc_line(list[i as int])));
        }
        i += 1;
    }
    let v = to_chars(out.as_str());
    let newline: [char; 1] = ['\n'];
    proof {
        assert(newline@ =~= seq!['\n']);
    }
    let body = strip_back(v.as_slice(), &newline);
    if body.len() == 0 {
        return Ok(String::new());
    }
    let mut file = string_of(body);
    file.append("\n");
    Ok(file)
}

/// What is left when characters are stripped from the end of a text does not end
/// in one of them.
proof fn lemma_without_back(s: Seq<char>, ds: Seq<char>)
    ensures
        without_back(s, ds).len() > 0 ==> !ds.contains(without_back(s, ds).last()),
    decreases s.len(),
{
    if s.len() > 0 && ds.contains(s.last()) {
        lemma_without_back(s.drop_last(), ds);
    }
}

/// A file is empty or ends in a single newline.
pub proof fn law_krc_ends_in_one_newline(paragraphs: Seq<ParagraphView>, metadata: Seq<char>)
    ensures
        ({
            let file = krc_file(paragraphs, metadata);
            file.len() == 0 || (file.len() >= 2 && file.last() == '\n' && file[file.len() - 2]
                != '\n')
        }),
{
    reveal_strlit("\n");
    let s = metadata + krc_lines(paragraphs, paragraphs.len());
    let body = without_back(s, seq!['\n']);
    lemma_without_back(s, seq!['\n']);
    if body.len() > 0 {
        assert(krc_file(paragraphs, metadata)[body.len() - 1] == body.last());
        if body.last() == '\n' {
            assert(seq!['\n'][0] == body.last());
            assert(seq!['\n'].contains(body.last()));
        }
    }
}

/// Whether two lists of syllables have the same texts, times and spaces, but for the
/// space behind the last.
pub open spec fn same_but_last_space(a: Seq<SyllableView>, b: Seq<SyllableView>) -> bool {
    &&& a.len() == b.len()
    &&& forall|i: int|
        0 <= i < a.len() ==> (#[trigger] a[i]).text == b[i].text && a[i].start == b[i].start
            && a[i].end == b[i].end && (i + 1 < a.len() ==> a[i].space == b[i].space)
}

/// Syllables that differ in the space behind the last alone are written alike.
proof fn lemma_last_space_is_not_written(
    a: Seq<SyllableView>,
    b: Seq<SyllableView>,
    line_start: nat,
    n: nat,
)
    requires
        same_but_last_space(a, b),
        n <= a.len(),
    ensures
        syllable_parts(a, line_start, n) == syllable_parts(b, line_start, n),
    decreases n,
{
    if n > 0 {
        lemma_last_space_is_not_written(a, b, line_start, (n - 1) as nat);
        assert(a[n - 1].text == b[n - 1].text);
    }
}

/// Translations, romanizations, background voices and the space behind the last
/// syllable are not written: paragraphs that differ in them alone give the same
/// lines.
pub proof fn law_krc_holds_main_syllables(a: Seq<ParagraphView>, b: Seq<ParagraphView>, n: nat)
    requires
        a.len() == b.len(),
        n <= a.len(),
        forall|i: int|
            0 <= i < a.len() ==> (#[trigger] a[i]).start == b[i].start && a[i].end == b[i].end
                && same_but_last_space(a[i].syllables, b[i].syllables),
    ensures
        krc_lines(a, n) == krc_lines(b, n),
    decreases n,
{
    if n > 0 {
        law_krc_holds_main_syllables(a, b, (n - 1) as nat);
        let i = n - 1;
        assert(a[i].start == b[i].start);
        let x = a[i].syllables;
        let y = b[i].syllables;
        lemma_last_space_is_not_written(x, y, a[i].start, x.len());
        if x.len() > 0 {
            assert(x[0].start == y[0].start);
            assert(x[x.len() - 1].end == y[y.len() - 1].end);
        }
        assert(krc_line(a[i]) == krc_line(b[i]));
    }
}

} // verus!
