//! The diff renderer: split the typed text into maximal contiguous spans of
//! equal correctness against the target text, and hand back the untyped
//! remainder of the target.
//!
//! [`spans_of`] is the mathematical description of the split; [`render`] is
//! the executable function, proved to return exactly those spans. Rendering
//! mutates nothing: it is a pure projection of the two texts.

use vstd::prelude::*;

verus! {

/// A position of the typed text is classified correct iff its character
/// equals the target text's character at the same index.
pub open spec fn classified_correct(target: Seq<char>, typed: Seq<char>, i: int) -> bool {
    typed[i] == target[i]
}

/// The model of one correctness span: a run of typed characters that all
/// share the same classification.
pub ghost struct SpanModel {
    pub chars: Seq<char>,
    pub correct: bool,
}

/// One correctness span of the typed text, ready to be styled.
#[derive(Clone, Debug, PartialEq, Eq)]
pub struct Span {
    pub chars: Vec<char>,
    pub correct: bool,
}

impl View for Span {
    type V = SpanModel;

    open spec fn view(&self) -> SpanModel {
        SpanModel { chars: self.chars@, correct: self.correct }
    }
}

/// The spans of the first `n` typed characters: each new character either
/// extends the last span, when its classification matches, or opens a new one.
pub open spec fn spans_upto(target: Seq<char>, typed: Seq<char>, n: int) -> Seq<SpanModel>
    decreases n,
{
    if n <= 0 {
        Seq::empty()
    } else {
        let prev = spans_upto(target, typed, n - 1);
        let ok = classified_correct(target, typed, n - 1);
        let ch = typed[n - 1];
        if prev.len() > 0 && prev.last().correct == ok {
            prev.update(
                prev.len() - 1,
                SpanModel { chars: prev.last().chars.push(ch), correct: ok },
            )
        } else {
            prev.push(SpanModel { chars: seq![ch], correct: ok })
        }
    }
}

/// The correctness spans of the whole typed text.
pub open spec fn spans_of(target: Seq<char>, typed: Seq<char>) -> Seq<SpanModel> {
    spans_upto(target, typed, typed.len() as int)
}

/// All the spans' characters, in order.
pub open spec fn concat_spans(spans: Seq<SpanModel>) -> Seq<char>
    decreases spans.len(),
{
    if spans.len() == 0 {
        Seq::empty()
    } else {
        concat_spans(spans.drop_last()) + spans.last().chars
    }
}

proof fn lemma_spans_upto_properties(target: Seq<char>, typed: Seq<char>, n: int)
    requires
        0 <= n <= typed.len(),
    ensures
        concat_spans(spans_upto(target, typed, n)) == typed.subrange(0, n),
        forall|k: int|
            0 <= k < spans_upto(target, typed, n).len() ==> #[trigger] spans_upto(
                target,
                typed,
                n,
            )[k].chars.len() > 0,
        forall|k: int|
            0 <= k < spans_upto(target, typed, n).len() - 1 ==> #[trigger] spans_upto(
                target,
                typed,
                n,
            )[k].correct != spans_upto(target, typed, n)[k + 1].correct,
        n > 0 ==> spans_upto(target, typed, n).len() > 0 && spans_upto(
            target,
            typed,
            n,
        ).last().correct == classified_correct(target, typed, n - 1),
    decreases n,
{
    if n <= 0 {
        assert(concat_spans(spans_upto(target, typed, n)) =~= typed.subrange(0, 0));
    } else {
        lemma_spans_upto_properties(target, typed, n - 1);
        let prev = spans_upto(target, typed, n - 1);
        let cur = spans_upto(target, typed, n);
        let ok = classified_correct(target, typed, n - 1);
        let ch = typed[n - 1];
        if prev.len() > 0 && prev.last().correct == ok {
            assert(cur.drop_last() =~= prev.drop_last());
            assert(concat_spans(cur) == concat_spans(prev.drop_last()) + prev.last().chars.push(
                ch,
            ));
            assert(concat_spans(prev.drop_last()) + prev.last().chars.push(ch) =~= (concat_spans(
                prev.drop_last(),
            ) + prev.last().chars).push(ch));
            assert(concat_spans(cur) == typed.subrange(0, n - 1).push(ch));
        } else {
            assert(cur.drop_last() =~= prev);
            assert(concat_spans(cur) == typed.subrange(0, n - 1) + seq![ch]);
        }
        assert(typed.subrange(0, n - 1).push(ch) =~= typed.subrange(0, n));
        assert(typed.subrange(0, n - 1) + seq![ch] =~= typed.subrange(0, n));
    }
}

/// Law: the spans' characters, concatenated in order, are exactly the typed
/// text — nothing is lost, reordered or invented by the split.
pub proof fn lemma_spans_reconstruct_typed(target: Seq<char>, typed: Seq<char>)
    ensures
        concat_spans(spans_of(target, typed)) == typed,
{
    lemma_spans_upto_properties(target, typed, typed.len() as int);
    assert(typed.subrange(0, typed.len() as int) =~= typed);
}

/// The index of the typed text where span `k` begins: the total length of
/// the spans before it.
pub open spec fn span_start(spans: Seq<SpanModel>, k: int) -> int {
    concat_spans(spans.take(k)).len() as int
}

/// Entry `j` of span `k` is the typed character at the span's start plus `j`,
/// and that position's classification agrees with the span's tag.
pub open spec fn span_entry_ok(
    target: Seq<char>,
    typed: Seq<char>,
    spans: Seq<SpanModel>,
    k: int,
    j: int,
) -> bool {
    spans[k].chars[j] == typed[span_start(spans, k) + j] && classified_correct(
        target,
        typed,
        span_start(spans, k) + j,
    ) == spans[k].correct
}

#[verifier::rlimit(100)]
proof fn lemma_spans_upto_classify(target: Seq<char>, typed: Seq<char>, n: int)
    requires
        0 <= n <= typed.len(),
    ensures
        forall|k: int, j: int|
            0 <= k < spans_upto(target, typed, n).len() && 0 <= j < spans_upto(
                target,
                typed,
                n,
            )[k].chars.len() ==> #[trigger] span_entry_ok(
                target,
                typed,
                spans_upto(target, typed, n),
                k,
                j,
            ),
    decreases n,
{
    if n > 0 {
        lemma_spans_upto_classify(target, typed, n - 1);
        lemma_spans_upto_properties(target, typed, n - 1);
        let prev = spans_upto(target, typed, n - 1);
        let cur = spans_upto(target, typed, n);
        let ok = classified_correct(target, typed, n - 1);
        let ch = typed[n - 1];
        assert(concat_spans(prev).len() == n - 1);
        if prev.len() > 0 && prev.last().correct == ok {
            let li: int = prev.len() - 1;
            assert(prev.take(li) =~= prev.drop_last());
            assert(span_start(prev, li) + prev.last().chars.len() == n - 1);
            assert forall|k: int, j: int|
                0 <= k < cur.len() && 0 <= j < cur[k].chars.len() implies #[trigger] span_entry_ok(
                target,
                typed,
                cur,
                k,
                j,
            ) by {
                assert(cur.take(k) =~= prev.take(k));
                assert(span_start(cur, k) == span_start(prev, k));
                if k < li {
                    assert(cur[k] == prev[k]);
                    assert(span_entry_ok(target, typed, prev, k, j));
                } else {
                    if j < prev[li].chars.len() {
                        assert(span_entry_ok(target, typed, prev, li, j));
                        assert(cur[li].chars[j] == prev[li].chars[j]);
                    } else {
                        assert(cur[li].chars[j] == ch);
                        assert(span_start(cur, li) + j == n - 1);
                    }
                }
            }
        } else {
            assert forall|k: int, j: int|
                0 <= k < cur.len() && 0 <= j < cur[k].chars.len() implies #[trigger] span_entry_ok(
                target,
                typed,
                cur,
                k,
                j,
            ) by {
                if k < prev.len() {
                    assert(cur.take(k) =~= prev.take(k));
                    assert(span_start(cur, k) == span_start(prev, k));
                    assert(cur[k] == prev[k]);
                    assert(span_entry_ok(target, typed, prev, k, j));
                } else {
                    assert(cur.take(k) =~= prev);
                    assert(span_start(cur, k) == n - 1);
                    assert(cur[k] == (SpanModel { chars: seq![ch], correct: ok }));
                    assert(cur[k].chars[j] == ch);
                }
            }
        }
    }
}

/// Law: span `k` holds exactly the typed characters from its start index on,
/// and each of those positions is classified correct iff the span is tagged
/// correct.
pub proof fn lemma_spans_classified(target: Seq<char>, typed: Seq<char>)
    ensures
        forall|k: int, j: int|
            0 <= k < spans_of(target, typed).len() && 0 <= j < spans_of(
                target,
                typed,
            )[k].chars.len() ==> #[trigger] span_entry_ok(
                target,
                typed,
                spans_of(target, typed),
                k,
                j,
            ),
{
    lemma_spans_upto_classify(target, typed, typed.len() as int);
}

/// Law: every span is non-empty and adjacent spans carry opposite
/// classifications, so each span is a maximal run.
pub proof fn lemma_spans_maximal(target: Seq<char>, typed: Seq<char>)
    ensures
        forall|k: int|
            0 <= k < spans_of(target, typed).len() ==> #[trigger] spans_of(
                target,
                typed,
            )[k].chars.len() > 0,
        forall|k: int|
            0 <= k < spans_of(target, typed).len() - 1 ==> #[trigger] spans_of(
                target,
                typed,
            )[k].correct != spans_of(target, typed)[k + 1].correct,
{
    lemma_spans_upto_properties(target, typed, typed.len() as int);
}

/// The glyph a typed character is shown as: spaces become a visible bullet,
/// everything else is shown as itself. Display only — the stored text, the
/// comparisons and the counters all keep the real character.
pub open spec fn glyph_of(c: char) -> char {
    if c == ' ' {
        '\u{2022}'
    } else {
        c
    }
}

/// Map a span's characters to their display glyphs.
pub fn display_glyphs(chars: &Vec<char>) -> (r: Vec<char>)
    ensures
        r@ == chars@.map_values(|c: char| glyph_of(c)),
{
    let mut out: Vec<char> = Vec::new();
    let mut i: usize = 0;
    while i < chars.len()
        invariant
            i <= chars@.len(),
            out@ == chars@.subrange(0, i as int).map_values(|c: char| glyph_of(c)),
        decreases chars@.len() - i,
    {
        let c = chars[i];
        if c == ' ' {
            out.push('\u{2022}');
        } else {
            out.push(c);
        }
        proof {
            assert(out@ =~= chars@.subrange(0, i + 1 as int).map_values(|c: char| glyph_of(c)));
        }
        i = i + 1;
    }
    proof {
        assert(chars@.subrange(0, chars@.len() as int) =~= chars@);
    }
    out
}

/// What [`render`] returns: the correctness spans of the typed text and the
/// untyped remainder of the target text.
#[derive(Clone, Debug, PartialEq, Eq)]
pub struct RenderOutput {
    pub spans: Vec<Span>,
    pub remainder: Vec<char>,
}

/// Split the typed text into its correctness spans against the target and
/// collect the target's untyped remainder. Pure: both inputs are borrowed and
/// nothing is mutated.
pub fn render(target: &Vec<char>, typed: &Vec<char>) -> (r: RenderOutput)
    requires
        typed@.len() <= target@.len(),
    ensures
        r.spans@.map_values(|s: Span| s@) == spans_of(target@, typed@),
        concat_spans(r.spans@.map_values(|s: Span| s@)) == typed@,
        r.remainder@ == target@.subrange(typed@.len() as int, target@.len() as int),
{
    let mut spans: Vec<Span> = Vec::new();
    let mut i: usize = 0;
    while i < typed.len()
        invariant
            i <= typed@.len() <= target@.len(),
            spans@.map_values(|s: Span| s@) == spans_upto(target@, typed@, i as int),
        decreases typed@.len() - i,
    {
        let c = typed[i];
        let ok = c == target[i];
        let n: usize = spans.len();
        if n > 0 && spans[n - 1].correct == ok {
            let mut last = spans.pop().unwrap();
            last.chars.push(c);
            spans.push(last);
        } else {
            let mut chars: Vec<char> = Vec::new();
            chars.push(c);
            spans.push(Span { chars, correct: ok });
        }
        proof {
            assert(spans@.map_values(|s: Span| s@) =~~= spans_upto(
                target@,
                typed@,
                i + 1 as int,
            ));
        }
        i = i + 1;
    }
    let mut remainder: Vec<char> = Vec::new();
    let mut j: usize = typed.len();
    while j < target.len()
        invariant
            typed@.len() <= j <= target@.len(),
            remainder@ == target@.subrange(typed@.len() as int, j as int),
        decreases target@.len() - j,
    {
        remainder.push(target[j]);
        proof {
            assert(remainder@ =~= target@.subrange(typed@.len() as int, j + 1 as int));
        }
        j = j + 1;
    }
    proof {
        lemma_spans_reconstruct_typed(target@, typed@);
    }
    RenderOutput { spans, remainder }
}

} // verus!
