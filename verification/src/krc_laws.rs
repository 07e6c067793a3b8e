//! What stands in a KRC file, said of the paragraphs that it is written from.

use vstd::prelude::*;

use crate::ass_generator::without_back;
use crate::krc_generator::{krc_file, krc_line, krc_lines, syllable_part, syllable_parts};
use crate::text::{all_ascii_digits, dec, dec_value, lemma_dec};
use crate::types::{paragraph_views, TtmlParagraph, TtmlSyllable};

verus! {

/// The milliseconds from `a` to `b`, none where `b` comes first.
pub open spec fn millis(a: u64, b: u64) -> nat {
    if a <= b {
        (b - a) as nat
    } else {
        0
    }
}

/// What the syllable `s` of a line that starts at `start` is written as: the time
/// from the start of the line to its own, its duration, a zero and its text. A
/// syllable without a text that does not last is not written. Behind it stand an
/// empty tag and two spaces where a space follows it within the line.
pub open spec fn written_syllable(s: TtmlSyllable, start: u64, is_last: bool) -> Seq<char> {
    (if s.text@.len() > 0 || s.start_ms < s.end_ms {
        "<"@ + dec(millis(start, s.start_ms)) + ","@ + dec(millis(s.start_ms, s.end_ms)) + ",0>"@
            + s.text@
    } else {
        Seq::empty()
    }) + (if s.ends_with_space && !is_last {
        "<0,0,0>  "@
    } else {
        Seq::empty()
    })
}

/// The syllables of a line, each written.
pub open spec fn written_syllables(p: TtmlParagraph) -> Seq<Seq<char>> {
    Seq::new(
        p.main_syllables@.len(),
        |k: int|
            written_syllable(
                p.main_syllables@[k],
                p.p_start_ms,
                k == p.main_syllables@.len() - 1,
            ),
    )
}

/// The written syllables in front stand in front.
proof fn lemma_parts(p: TtmlParagraph, n: nat)
    requires
        n <= p.main_syllables@.len(),
    ensures
        syllable_parts(p@.syllables, p@.start, n) == written_syllables(p).take(
            n as int,
        ).flatten_alt(),
    decreases n,
{
    let w = written_syllables(p);
    if n > 0 {
        lemma_parts(p, (n - 1) as nat);
        assert(w.take(n as int).drop_last() =~= w.take(n - 1));
        assert(p@.syllables[n - 1] == p.main_syllables@[n - 1]@);
        assert(syllable_part(p@.syllables[n - 1], p@.start, n == p@.syllables.len())
            =~= w[n - 1]);
    }
}

/// The line of a paragraph with syllables begins with the start of the paragraph
/// and its duration in brackets, the start first, and holds its syllables in order.
/// Where the paragraph does not end after its start, the duration is that from the
/// start of the first syllable to the end of the last. A paragraph without
/// syllables has a line of the two numbers alone, or none where it does not last.
pub proof fn law_krc_line(paragraphs: Seq<TtmlParagraph>, i: int)
    requires
        0 <= i < paragraphs.len(),
    ensures
        ({
            let list = paragraph_views(paragraphs);
            let p = paragraphs[i];
            let syllables = p.main_syllables@;
            let before = krc_lines(list, i as nat);
            let after = krc_lines(list, (i + 1) as nat);
            let start = dec(p.p_start_ms as nat);
            &&& syllables.len() > 0 && p.p_start_ms < p.p_end_ms ==> after == before + "["@ + start
                + ","@ + dec((p.p_end_ms - p.p_start_ms) as nat) + "]"@ + written_syllables(
                p,
            ).flatten() + "\n"@
            &&& syllables.len() > 0 && p.p_start_ms >= p.p_end_ms ==> after == before + "["@
                + start + ","@ + dec(millis(syllables.first().start_ms, syllables.last().end_ms))
                + "]"@ + written_syllables(p).flatten() + "\n"@
            &&& syllables.len() == 0 && p.p_start_ms < p.p_end_ms ==> after == before + "["@ + start
                + ","@ + dec((p.p_end_ms - p.p_start_ms) as nat) + "]"@ + "\n"@
            &&& syllables.len() == 0 && p.p_start_ms >= p.p_end_ms ==> after == before
        }),
{
    let list = paragraph_views(paragraphs);
    let p = paragraphs[i];
    let before = krc_lines(list, i as nat);
    let after = krc_lines(list, (i + 1) as nat);
    let w = written_syllables(p);
    let start = dec(p.p_start_ms as nat);
    assert(list[i] == p@);
    assert(after == before + krc_line(p@));
    assert(p@.syllables.len() == p.main_syllables@.len());
    lemma_parts(p, p.main_syllables@.len());
    assert(w.take(w.len() as int) =~= w);
    w.lemma_flatten_and_flatten_alt_are_equivalent();
    let d = if p.p_start_ms < p.p_end_ms {
        dec((p.p_end_ms - p.p_start_ms) as nat)
    } else {
        dec(millis(p.main_syllables@.first().start_ms, p.main_syllables@.last().end_ms))
    };
    if p.main_syllables@.len() > 0 {
        assert(p@.syllables[0] == p.main_syllables@[0]@);
        assert(p@.syllables.last() == p.main_syllables@.last()@);
        assert(after =~= before + "["@ + start + ","@ + d + "]"@ + w.flatten() + "\n"@);
    } else if p.p_start_ms < p.p_end_ms {
        assert(after =~= before + "["@ + start + ","@ + d + "]"@ + "\n"@);
    } else {
        assert(after =~= before);
    }
}

/// Where a text begins with a bracket, two numbers and a comma between them, the
/// numbers can be read back: the digits up to the comma are the first and the digits
/// from there to the closing bracket the second.
pub proof fn law_krc_line_tag_reads_back(paragraphs: Seq<TtmlParagraph>, i: int)
    requires
        0 <= i < paragraphs.len(),
        paragraphs[i].p_start_ms < paragraphs[i].p_end_ms,
    ensures
        ({
            let list = paragraph_views(paragraphs);
            let before = krc_lines(list, i as nat).len() as int;
            let line = krc_lines(list, (i + 1) as nat).skip(before);
            exists|a: int, b: int|
                {
                    &&& 1 < a < b - 1
                    &&& b < line.len()
                    &&& line[0] == '['
                    &&& #[trigger] line[a] == ','
                    &&& #[trigger] line[b] == ']'
                    &&& all_ascii_digits(line.subrange(1, a))
                    &&& all_ascii_digits(line.subrange(a + 1, b))
                    &&& dec_value(line.subrange(1, a)) == paragraphs[i].p_start_ms
                    &&& dec_value(line.subrange(a + 1, b)) == paragraphs[i].p_end_ms
                        - paragraphs[i].p_start_ms
                }
        }),
{
    let list = paragraph_views(paragraphs);
    let p = paragraphs[i];
    let front = krc_lines(list, i as nat);
    let line = krc_lines(list, (i + 1) as nat).skip(front.len() as int);
    law_krc_line(paragraphs, i);
    reveal_strlit("[");
    reveal_strlit(",");
    reveal_strlit("]");
    reveal_strlit("\n");
    let start = dec(p.p_start_ms as nat);
    let d = dec((p.p_end_ms - p.p_start_ms) as nat);
    lemma_dec(p.p_start_ms as nat);
    lemma_dec((p.p_end_ms - p.p_start_ms) as nat);
    let tail = if p.main_syllables@.len() > 0 {
        written_syllables(p).flatten() + "\n"@
    } else {
        "\n"@
    };
    assert(line =~= "["@ + start + ","@ + d + "]"@ + tail);
    let a = (1 + start.len()) as int;
    let b = (a + 1 + d.len()) as int;
    assert(line.subrange(1, a) =~= start);
    assert(line.subrange(a + 1, b) =~= d);
    assert(line[a] == ',');
    assert(line[b] == ']');
}

/// A file holds the metadata and then the lines, and nothing else, but for the
/// newlines at its end, of which there is one.
pub proof fn law_krc_file(paragraphs: Seq<TtmlParagraph>, metadata: Seq<char>)
    ensures
        ({
            let list = paragraph_views(paragraphs);
            let file = krc_file(list, metadata);
            let all = metadata + krc_lines(list, list.len());
            &&& krc_lines(list, 0) == Seq::<char>::empty()
            &&& (forall|k: int| 0 <= k < all.len() ==> #[trigger] all[k] == '\n') ==> file.len()
                == 0
            &&& !(forall|k: int| 0 <= k < all.len() ==> #[trigger] all[k] == '\n') ==> {
                &&& file.len() >= 2
                &&& file.last() == '\n'
                &&& file[file.len() - 2] != '\n'
                &&& file.len() - 1 <= all.len()
                &&& file.drop_last() == all.take(file.len() - 1)
                &&& forall|k: int| file.len() - 1 <= k < all.len() ==> #[trigger] all[k] == '\n'
            }
        }),
{
    let list = paragraph_views(paragraphs);
    let all = metadata + krc_lines(list, list.len());
    let file = krc_file(list, metadata);
    let body = without_back(all, seq!['\n']);
    reveal_strlit("\n");
    lemma_newlines(all);
    if body.len() > 0 {
        assert(all[body.len() - 1] == body[body.len() - 1]);
        assert(file.drop_last() =~= body);
    }
}

/// What is left of a text without the newlines at its end.
proof fn lemma_newlines(s: Seq<char>)
    ensures
        ({
            let body = without_back(s, seq!['\n']);
            &&& body.len() <= s.len()
            &&& body == s.take(body.len() as int)
            &&& body.len() > 0 ==> body.last() != '\n'
            &&& forall|k: int| body.len() <= k < s.len() ==> #[trigger] s[k] == '\n'
        }),
    decreases s.len(),
{
    assert(seq!['\n'][0] == '\n');
    if s.len() > 0 && seq!['\n'].contains(s.last()) {
        lemma_newlines(s.drop_last());
        let body = without_back(s.drop_last(), seq!['\n']);
        assert(s.drop_last().take(body.len() as int) =~= s.take(body.len() as int));
        assert forall|k: int| body.len() <= k < s.len() implies #[trigger] s[k] == '\n' by {
            if k < s.len() - 1 {
                assert(s.drop_last()[k] == s[k]);
            }
        }
    } else {
        assert(s.take(s.len() as int) =~= s);
        if s.len() > 0 && s.last() == '\n' {
            assert(seq!['\n'].contains(s.last()));
        }
    }
}

} // verus!
