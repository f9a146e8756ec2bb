//! Parsers that apply another parser again and again.

use crate::combinators::{chain, fmap, optional, right, KeepRight, Right, TokenMap, Total};
use crate::combinators::FmapResultChain;
use crate::parser::{in_bounds, productive, Outcome, ParseError, ParseResult, Parsed, Parser};
use vstd::prelude::*;

verus! {

/// Puts what was parsed before (`consumed` characters, giving `tokens`) in front
/// of the outcome `rest` of parsing what follows.
pub open spec fn prepend<V>(consumed: nat, tokens: Seq<V>, rest: Outcome<Seq<V>>) -> Outcome<
    Seq<V>,
> {
    match rest {
        Outcome::Matched { consumed: more, token } => Outcome::Matched {
            consumed: consumed + more,
            token: tokens + token,
        },
        Outcome::NotMatched => Outcome::NotMatched,
        Outcome::Malformed { at } => Outcome::Malformed { at },
    }
}

/// The model of zero-or-more: `p` is applied until it does not match, and the
/// tokens are collected in order. Invalid content inside any item fails the
/// whole repetition.
pub open spec fn many_model<P: Parser>(p: P, pos: int, input: Seq<char>) -> Outcome<
    Seq<<P::Token as DeepView>::V>,
>
    decreases input.len(),
{
    match p.spec_parse(pos, input) {
        Outcome::Matched { consumed, token } => {
            if 0 < consumed <= input.len() {
                prepend(
                    consumed,
                    seq![token],
                    many_model(p, pos + consumed, input.skip(consumed as int)),
                )
            } else {
                Outcome::Matched { consumed: 0, token: Seq::empty() }
            }
        },
        Outcome::NotMatched => Outcome::Matched { consumed: 0, token: Seq::empty() },
        Outcome::Malformed { at } => Outcome::Malformed { at },
    }
}

/// Zero-or-more never fails to match, and stays within the text.
pub proof fn lemma_many_model<P: Parser>(p: P, pos: int, input: Seq<char>)
    requires
        p.wf(),
    ensures
        !(many_model(p, pos, input) is NotMatched),
        in_bounds(many_model(p, pos, input), pos, input.len()),
    decreases input.len(),
{
    p.lemma_in_bounds(pos, input);
    if let Outcome::Matched { consumed, token } = p.spec_parse(pos, input) {
        if 0 < consumed <= input.len() {
            lemma_many_model(p, pos + consumed, input.skip(consumed as int));
        }
    }
}

/// Applies a parser zero or more times.
pub struct Many<P> {
    pub parser: P,
}

impl<P: Parser> Parser for Many<P> {
    type Token = Vec<P::Token>;

    open spec fn wf(&self) -> bool {
        self.parser.wf() && productive(self.parser)
    }

    open spec fn spec_parse(&self, pos: int, input: Seq<char>) -> Outcome<
        Seq<<P::Token as DeepView>::V>,
    > {
        many_model(self.parser, pos, input)
    }

    proof fn lemma_in_bounds(&self, pos: int, input: Seq<char>) {
        lemma_many_model(self.parser, pos, input);
    }

    fn parse<'a>(&self, pos: i32, input: &'a str) -> (r: ParseResult<'a, Vec<P::Token>>) {
        let mut tokens: Vec<P::Token> = Vec::new();
        let mut end_pos: i32 = pos;
        let mut remainder: &'a str = input;
        let ghost mut done: nat = 0;
        loop
            invariant
                self.wf(),
                pos + input@.len() <= i32::MAX,
                done <= input@.len(),
                end_pos == pos + done,
                remainder@ == input@.skip(done as int),
                many_model(self.parser, pos as int, input@) == prepend(
                    done,
                    tokens.deep_view(),
                    many_model(self.parser, end_pos as int, remainder@),
                ),
            ensures
                self.parser.spec_parse(end_pos as int, remainder@) is NotMatched,
            decreases input@.len() - done,
        {
            proof {
                self.parser.lemma_in_bounds(end_pos as int, remainder@);
            }
            match self.parser.parse(end_pos, remainder) {
                Ok((new_remainder, parsed)) => {
                    proof {
                        let step = self.parser.spec_parse(end_pos as int, remainder@);
                        let n = step->consumed;
                        let ghost_tokens = tokens.deep_view();
                        let later = many_model(self.parser, end_pos + n, remainder@.skip(n as int));
                        assert(input@.skip(done as int).skip(n as int) =~= input@.skip(
                            (done + n) as int,
                        ));
                        assert(prepend(done, ghost_tokens, prepend(n, seq![step->token], later))
                            == prepend(done + n, ghost_tokens.push(step->token), later)) by {
                            if let Outcome::Matched { consumed: more, token } = later {
                                assert(ghost_tokens + (seq![step->token] + token)
                                    =~= ghost_tokens.push(step->token) + token);
                            }
                        }
                        done = done + n;
                    }
                    let ghost before = tokens.deep_view();
                    remainder = new_remainder;
                    end_pos = parsed.end_pos;
                    tokens.push(parsed.token);
                    assert(tokens.deep_view() =~= before.push(parsed.token.deep_view()));
                },
                Err(ParseError::NotMatched) => {
                    break ;
                },
                Err(e) => {
                    return Err(e);
                },
            }
        }
        assert(tokens.deep_view() + Seq::empty() =~= tokens.deep_view());
        Ok((remainder, Parsed { start_pos: pos, end_pos, token: tokens }))
    }
}

/// A parser that applies `parser` until it does not match and returns the
/// tokens as a list, which may be empty. The parser must consume at least one
/// character whenever it matches.
pub fn many<P: Parser>(parser: P) -> (p: Many<P>)
    ensures
        p.parser == parser,
{
    Many { parser }
}

/// Two parsers that do the same everywhere give the same repetition.
pub proof fn lemma_many_model_same<P: Parser, Q: Parser<Token = P::Token>>(
    p: P,
    q: Q,
    pos: int,
    input: Seq<char>,
)
    requires
        forall|at: int, text: Seq<char>| #[trigger] p.spec_parse(at, text) == q.spec_parse(at, text),
    ensures
        many_model(p, pos, input) == many_model(q, pos, input),
    decreases input.len(),
{
    if let Outcome::Matched { consumed, token } = p.spec_parse(pos, input) {
        if 0 < consumed <= input.len() {
            lemma_many_model_same(p, q, pos + consumed, input.skip(consumed as int));
        }
    }
}

/// Zero-or-more of a rule that is given by its model: `step` is applied until
/// it does not match, and the tokens are collected in order.
pub open spec fn many_of<V>(
    step: spec_fn(int, Seq<char>) -> Outcome<V>,
    pos: int,
    input: Seq<char>,
) -> Outcome<Seq<V>>
    decreases input.len(),
{
    match step(pos, input) {
        Outcome::Matched { consumed, token } => {
            if 0 < consumed <= input.len() {
                prepend(
                    consumed,
                    seq![token],
                    many_of(step, pos + consumed, input.skip(consumed as int)),
                )
            } else {
                Outcome::Matched { consumed: 0, token: Seq::empty() }
            }
        },
        Outcome::NotMatched => Outcome::Matched { consumed: 0, token: Seq::empty() },
        Outcome::Malformed { at } => Outcome::Malformed { at },
    }
}

/// The repetition of a parser that does what a model says is the repetition
/// of the model.
pub proof fn lemma_many_model_of<P: Parser>(
    p: P,
    step: spec_fn(int, Seq<char>) -> Outcome<<P::Token as DeepView>::V>,
    pos: int,
    input: Seq<char>,
)
    requires
        forall|at: int, text: Seq<char>| #[trigger] p.spec_parse(at, text) == step(at, text),
    ensures
        many_model(p, pos, input) == many_of(step, pos, input),
    decreases input.len(),
{
    if let Outcome::Matched { consumed, token } = p.spec_parse(pos, input) {
        if 0 < consumed <= input.len() {
            lemma_many_model_of(p, step, pos + consumed, input.skip(consumed as int));
        }
    }
}

/// Applies a parser one or more times.
pub struct OneToMany<P> {
    pub many: Many<P>,
}

impl<P: Parser> Parser for OneToMany<P> {
    type Token = Vec<P::Token>;

    open spec fn wf(&self) -> bool {
        self.many.wf()
    }

    open spec fn spec_parse(&self, pos: int, input: Seq<char>) -> Outcome<
        Seq<<P::Token as DeepView>::V>,
    > {
        match self.many.spec_parse(pos, input) {
            Outcome::Matched { consumed, token } => {
                if token.len() == 0 {
                    Outcome::NotMatched
                } else {
                    Outcome::Matched { consumed, token }
                }
            },
            other => other,
        }
    }

    proof fn lemma_in_bounds(&self, pos: int, input: Seq<char>) {
        self.many.lemma_in_bounds(pos, input);
    }

    fn parse<'a>(&self, pos: i32, input: &'a str) -> (r: ParseResult<'a, Vec<P::Token>>) {
        match self.many.parse(pos, input) {
            Ok((remainder, parsed)) => {
                assert(parsed.token.deep_view().len() == parsed.token.len());
                if parsed.token.is_empty() {
                    Err(ParseError::NotMatched)
                } else {
                    Ok((remainder, parsed))
                }
            },
            res => res,
        }
    }
}

/// A parser that applies `parser` until it does not match and returns the
/// tokens as a list. It does not match where the list would be empty. The
/// parser must consume at least one character whenever it matches.
pub fn one_to_many<P: Parser>(parser: P) -> (p: OneToMany<P>)
    ensures
        p.many.parser == parser,
{
    OneToMany { many: many(parser) }
}

/// Gives the list that is there, and the empty list where there is none.
pub struct OrEmpty;

impl<T: DeepView> TokenMap<Option<Vec<T>>> for OrEmpty {
    type Output = Vec<T>;

    open spec fn spec_apply(&self, token: Option<Seq<T::V>>, start: int, end: int) -> Seq<T::V> {
        match token {
            Some(list) => list,
            None => Seq::empty(),
        }
    }

    fn apply(&self, token: Option<Vec<T>>, start: i32, end: i32) -> (out: Vec<T>) {
        match token {
            Some(list) => list,
            None => {
                let list: Vec<T> = Vec::new();
                assert(list.deep_view() =~= Seq::empty());
                list
            },
        }
    }
}

/// Parses items separated by delimiters.
pub struct DelimitedList<P, D> {
    pub item: P,
    pub delimiter: D,
}

impl<P: Parser, D: Parser> DelimitedList<P, D> {
    /// The parser of what follows the first item, time and again: a delimiter
    /// and an item, of which the item's token is kept.
    pub open spec fn separated(&self) -> Right<D, P> {
        FmapResultChain {
            left: self.delimiter,
            right: self.item,
            combinator: Total { function: KeepRight },
        }
    }
}

impl<P: Parser, D: Parser> Parser for DelimitedList<P, D> {
    type Token = Vec<P::Token>;

    open spec fn wf(&self) -> bool {
        self.item.wf() && self.delimiter.wf() && productive(self.separated())
    }

    open spec fn spec_parse(&self, pos: int, input: Seq<char>) -> Outcome<
        Seq<<P::Token as DeepView>::V>,
    > {
        match self.item.spec_parse(pos, input) {
            Outcome::Matched { consumed, token } => prepend(
                consumed,
                seq![token],
                many_model(self.separated(), pos + consumed, input.skip(consumed as int)),
            ),
            Outcome::NotMatched => Outcome::Matched { consumed: 0, token: Seq::empty() },
            Outcome::Malformed { at } => Outcome::Malformed { at },
        }
    }

    proof fn lemma_in_bounds(&self, pos: int, input: Seq<char>) {
        self.item.lemma_in_bounds(pos, input);
        if let Outcome::Matched { consumed, .. } = self.item.spec_parse(pos, input) {
            lemma_many_model(self.separated(), pos + consumed, input.skip(consumed as int));
        }
    }

    fn parse<'a>(&self, pos: i32, input: &'a str) -> (r: ParseResult<'a, Vec<P::Token>>) {
        let step = right(&self.delimiter, &self.item);
        assert forall|at: int, text: Seq<char>| #[trigger]
            step.spec_parse(at, text) == self.separated().spec_parse(at, text) by {}
        assert(productive(step)) by {
            assert forall|at: int, text: Seq<char>|
                (#[trigger] step.spec_parse(at, text)) is Matched implies step.spec_parse(
                    at,
                    text,
                )->consumed > 0 by {
                assert(step.spec_parse(at, text) == self.separated().spec_parse(at, text));
            }
        }
        let list = fmap(optional(chain(&self.item, optional(many(step)))), OrEmpty);
        proof {
            self.item.lemma_in_bounds(pos as int, input@);
            if let Outcome::Matched { consumed, token } = self.item.spec_parse(pos as int, input@) {
                let rest = input@.skip(consumed as int);
                lemma_many_model_same(step, self.separated(), pos + consumed, rest);
                lemma_many_model(step, pos + consumed, rest);
            }
        }
        list.parse(pos, input)
    }
}

/// A parser of zero or more `item`s separated by `delimiter`s, which returns
/// the list of the items' tokens. Where there is no item the list is empty. A
/// delimiter that no item follows is left unread. A delimiter and an item
/// together must consume at least one character.
pub fn delimited_list<P: Parser, D: Parser>(item: P, delimiter: D) -> (p: DelimitedList<P, D>)
    ensures
        p.item == item,
        p.delimiter == delimiter,
{
    DelimitedList { item, delimiter }
}

} // verus!
