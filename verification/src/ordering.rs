//! The order of blocks and instructions: scanning finds the blocks of a
//! template from left to right, and compiling keeps that order.

use crate::balsa_compiler::{compile_tokens, InstructionView};
use crate::grammar::{
    block_model, document_model, flatten, lemma_block_span, scan_rule, scan_step_model, token_span,
    TokenView,
};
use crate::parser::{all_but, lemma_run_len, run_len, Outcome};
use crate::repetition::many_of;
use vstd::prelude::*;

verus! {

/// The spans lie between `from` and `to`, none of them is empty, and each
/// ends before the next one starts.
pub open spec fn spans_ordered(spans: Seq<(int, int)>, from: int, to: int) -> bool {
    &&& forall|i: int| 0 <= i < spans.len() ==> from <= (#[trigger] spans[i]).0 < spans[i].1 <= to
    &&& forall|i: int, j: int|
        0 <= i < j < spans.len() ==> (#[trigger] spans[i]).1 <= (#[trigger] spans[j]).0
}

/// The spans of a list of blocks.
pub open spec fn token_spans(tokens: Seq<TokenView>) -> Seq<(int, int)> {
    tokens.map_values(|token: TokenView| token_span(token))
}

/// The spans of a list of instructions.
pub open spec fn instruction_spans(instructions: Seq<InstructionView>) -> Seq<(int, int)> {
    instructions.map_values(
        |instruction: InstructionView| (instruction.start as int, instruction.end as int),
    )
}

/// The items that are there in a list with one more item at its front.
pub proof fn lemma_flatten_front<V>(first: Option<V>, items: Seq<Option<V>>)
    ensures
        flatten(seq![first] + items) == match first {
            Some(item) => seq![item] + flatten(items),
            None => flatten(items),
        },
    decreases items.len(),
{
    let all = seq![first] + items;
    if items.len() == 0 {
        assert(all.drop_last() =~= Seq::<Option<V>>::empty());
        assert(flatten(all.drop_last()) =~= Seq::<V>::empty());
        match first {
            Some(item) => {
                assert(Seq::<V>::empty().push(item) =~= seq![item] + Seq::<V>::empty());
            },
            None => {},
        }
    } else {
        assert(all.drop_last() =~= seq![first] + items.drop_last());
        assert(all.last() == items.last());
        lemma_flatten_front(first, items.drop_last());
        match (first, items.last()) {
            (Some(item), Some(last)) => {
                assert((seq![item] + flatten(items.drop_last())).push(last) =~= seq![item]
                    + flatten(items.drop_last()).push(last));
            },
            _ => {},
        }
    }
}

/// Scanning from `pos` finds blocks whose spans lie in what it consumes, in
/// the order of the text and without overlap.
pub proof fn lemma_scan_ordered(pos: int, input: Seq<char>)
    ensures
        match many_of(scan_rule(), pos, input) {
            Outcome::Matched { consumed, token } => {
                &&& consumed <= input.len()
                &&& spans_ordered(token_spans(flatten(token)), pos, pos + consumed)
            },
            _ => true,
        },
    decreases input.len(),
{
    if let Outcome::Matched { consumed: width, token: first } = scan_step_model(pos, input) {
        if 0 < width <= input.len() {
            let rest = input.skip(width as int);
            lemma_scan_ordered(pos + width, rest);
            if let Outcome::Matched { consumed: more, token: later } = many_of(
                scan_rule(),
                pos + width,
                rest,
            ) {
                lemma_flatten_front(first, later);
                let text = run_len(input, all_but('{'));
                lemma_run_len(input, all_but('{'));
                lemma_block_span(pos + text, input.skip(text as int));
                let tail = token_spans(flatten(later));
                let all = token_spans(flatten(seq![first] + later));
                match first {
                    Some(block) => {
                        assert(all =~= seq![token_span(block)] + tail);
                        assert(token_span(block) == (pos + text, pos + width));
                        assert forall|i: int| 0 <= i < all.len() implies pos <= (
                        #[trigger] all[i]).0 < all[i].1 <= pos + width + more by {
                            if i > 0 {
                                assert(all[i] == tail[i - 1]);
                            }
                        }
                        assert forall|i: int, j: int| 0 <= i < j < all.len() implies (
                        #[trigger] all[i]).1 <= (#[trigger] all[j]).0 by {
                            assert(all[j] == tail[j - 1]);
                            if i > 0 {
                                assert(all[i] == tail[i - 1]);
                            }
                        }
                    },
                    None => {
                        assert(all =~= tail);
                    },
                }
            }
        } else {
            assert(flatten(Seq::<Option<TokenView>>::empty()) =~= Seq::<TokenView>::empty());
        }
    } else {
        assert(flatten(Seq::<Option<TokenView>>::empty()) =~= Seq::<TokenView>::empty());
    }
}

/// The blocks of a document lie within it, in the order of the text and
/// without overlap.
pub proof fn lemma_document_ordered(raw: Seq<char>)
    ensures
        document_model(0, raw) matches Outcome::Matched { token, .. } ==> spans_ordered(
            token_spans(token),
            0,
            raw.len() as int,
        ),
{
    lemma_scan_ordered(0, raw);
}

/// Compiling keeps the order: the instructions that ordered blocks compile to
/// are ordered within the same bounds.
pub proof fn lemma_compile_keeps_order(tokens: Seq<TokenView>, from: int, to: int)
    requires
        0 <= from,
        spans_ordered(token_spans(tokens), from, to),
    ensures
        compile_tokens(tokens) matches Ok(compiled) ==> spans_ordered(
            instruction_spans(compiled.replacements),
            from,
            to,
        ),
    decreases tokens.len(),
{
    if tokens.len() > 0 {
        let front = tokens.drop_last();
        let last = tokens.last();
        let spans = token_spans(tokens);
        let bound = token_span(last).0;
        assert(spans[tokens.len() - 1] == token_span(last));
        assert(spans_ordered(token_spans(front), from, bound)) by {
            let front_spans = token_spans(front);
            assert forall|i: int| 0 <= i < front_spans.len() implies from <= (
            #[trigger] front_spans[i]).0 < front_spans[i].1 <= bound by {
                assert(front_spans[i] == spans[i]);
                assert(spans[i].1 <= spans[tokens.len() - 1].0);
            }
            assert forall|i: int, j: int| 0 <= i < j < front_spans.len() implies (
            #[trigger] front_spans[i]).1 <= (#[trigger] front_spans[j]).0 by {
                assert(front_spans[i] == spans[i]);
                assert(front_spans[j] == spans[j]);
            }
        }
        lemma_compile_keeps_order(front, from, bound);
        if let Ok(compiled) = compile_tokens(tokens) {
            let earlier = compile_tokens(front)->Ok_0;
            let before = instruction_spans(earlier.replacements);
            let after = instruction_spans(compiled.replacements);
            match last {
                TokenView::ParameterBlock(block) => {
                    assert(after =~= before.push((block.start, block.end)));
                    assert forall|i: int| 0 <= i < after.len() implies from <= (
                    #[trigger] after[i]).0 < after[i].1 <= to by {
                        if i < before.len() {
                            assert(after[i] == before[i]);
                        }
                    }
                    assert forall|i: int, j: int| 0 <= i < j < after.len() implies (
                    #[trigger] after[i]).1 <= (#[trigger] after[j]).0 by {
                        assert(after[i] == before[i]);
                        if j < before.len() {
                            assert(after[j] == before[j]);
                        }
                    }
                },
                TokenView::DeclarationBlock(block) => {
                    assert(after =~= before);
                    assert forall|i: int| 0 <= i < after.len() implies from <= (
                    #[trigger] after[i]).0 < after[i].1 <= to by {
                        assert(after[i] == before[i]);
                    }
                },
            }
        }
    } else {
        assert(instruction_spans(Seq::<InstructionView>::empty()) =~= Seq::<(int, int)>::empty());
    }
}

/// Where no block matches at any position of a text, scanning the text from
/// `pos` finds no block.
pub proof fn lemma_scan_no_blocks(raw: Seq<char>, pos: int)
    requires
        0 <= pos <= raw.len(),
        forall|k: int| 0 <= k <= raw.len() ==> #[trigger] block_model(k, raw.skip(k)) is NotMatched,
    ensures
        many_of(scan_rule(), pos, raw.skip(pos)) is Matched,
        flatten(many_of(scan_rule(), pos, raw.skip(pos))->token) == Seq::<TokenView>::empty(),
    decreases raw.len() - pos,
{
    let input = raw.skip(pos);
    let text = run_len(input, all_but('{'));
    lemma_run_len(input, all_but('{'));
    assert(input.skip(text as int) =~= raw.skip(pos + text));
    assert(block_model(pos + text, raw.skip(pos + text)) is NotMatched);
    assert(flatten(Seq::<Option<TokenView>>::empty()) =~= Seq::<TokenView>::empty());
    if let Outcome::Matched { consumed: width, token: first } = scan_step_model(pos, input) {
        assert(first is None);
        assert(width == text + 1);
        if 0 < width <= input.len() {
            assert(input.skip(width as int) =~= raw.skip(pos + width));
            lemma_scan_no_blocks(raw, pos + width);
            lemma_flatten_front(first, many_of(scan_rule(), pos + width, raw.skip(pos + width))->token);
        }
    }
}

/// A text without any `{` holds no block.
pub proof fn lemma_no_brace_no_block(raw: Seq<char>)
    requires
        !raw.contains('{'),
    ensures
        forall|k: int| 0 <= k <= raw.len() ==> #[trigger] block_model(k, raw.skip(k)) is NotMatched,
{
    reveal_strlit("{{");
    reveal_strlit("{{@");
    assert forall|k: int| 0 <= k <= raw.len() implies #[trigger] block_model(k, raw.skip(k)) is NotMatched by {
        let input = raw.skip(k);
        if input.len() > 0 {
            assert(raw.contains(raw[k]));
            if "{{"@.is_prefix_of(input) {
                assert("{{"@[0] == input.subrange(0, 2)[0]);
            }
            if "{{@"@.is_prefix_of(input) {
                assert("{{@"@[0] == input.subrange(0, 3)[0]);
            }
        }
    }
}

} // verus!
