//! Combinators that map tokens, run parsers in sequence, and choose between
//! alternatives.

use crate::parser::{Outcome, ParseError, ParseResult, Parsed, Parser};
use vstd::prelude::*;

verus! {

/// A total function from a token and its span to another token.
pub trait TokenMap<T: DeepView> {
    type Output: DeepView;

    /// What the function returns, over the views of the tokens.
    spec fn spec_apply(&self, token: T::V, start: int, end: int) -> <Self::Output as DeepView>::V;

    fn apply(&self, token: T, start: i32, end: i32) -> (out: Self::Output)
        ensures
            out.deep_view() == self.spec_apply(token.deep_view(), start as int, end as int),
    ;
}

/// A function from a token and its span to another token that may fail.
pub trait TokenTryMap<T: DeepView> {
    type Output: DeepView;

    /// What the function returns, over the views of the tokens, `None` where it fails.
    spec fn spec_try_apply(&self, token: T::V, start: int, end: int) -> Option<
        <Self::Output as DeepView>::V,
    >;

    fn try_apply(&self, token: T, start: i32, end: i32) -> (out: Option<Self::Output>)
        ensures
            out.deep_view() == self.spec_try_apply(token.deep_view(), start as int, end as int),
    ;
}

/// A total function that merges the tokens of two parsers run in sequence.
pub trait TokenMerge<L: DeepView, R: DeepView> {
    type Output: DeepView;

    /// What the function returns, over the views of the tokens.
    spec fn spec_merge(&self, left: L::V, right: R::V) -> <Self::Output as DeepView>::V;

    fn merge(&self, left: L, right: R) -> (out: Self::Output)
        ensures
            out.deep_view() == self.spec_merge(left.deep_view(), right.deep_view()),
    ;
}

/// A function that merges the tokens of two parsers run in sequence and may fail.
pub trait TokenTryMerge<L: DeepView, R: DeepView> {
    type Output: DeepView;

    /// What the function returns, over the views of the tokens, `None` where it fails.
    spec fn spec_try_merge(&self, left: L::V, right: R::V) -> Option<
        <Self::Output as DeepView>::V,
    >;

    fn try_merge(&self, left: L, right: R) -> (out: Option<Self::Output>)
        ensures
            out.deep_view() == self.spec_try_merge(left.deep_view(), right.deep_view()),
    ;
}

/// A total function taken as one that may fail and never does.
pub struct Total<F> {
    pub function: F,
}

impl<T: DeepView, F: TokenMap<T>> TokenTryMap<T> for Total<F> {
    type Output = F::Output;

    open spec fn spec_try_apply(&self, token: T::V, start: int, end: int) -> Option<
        <F::Output as DeepView>::V,
    > {
        Some(self.function.spec_apply(token, start, end))
    }

    fn try_apply(&self, token: T, start: i32, end: i32) -> (out: Option<F::Output>) {
        Some(self.function.apply(token, start, end))
    }
}

impl<L: DeepView, R: DeepView, F: TokenMerge<L, R>> TokenTryMerge<L, R> for Total<F> {
    type Output = F::Output;

    open spec fn spec_try_merge(&self, left: L::V, right: R::V) -> Option<
        <F::Output as DeepView>::V,
    > {
        Some(self.function.spec_merge(left, right))
    }

    fn try_merge(&self, left: L, right: R) -> (out: Option<F::Output>) {
        Some(self.function.merge(left, right))
    }
}

/// Maps the token of a parser with a function that may fail. Where the
/// function fails, the input is malformed at the start of the token's span.
pub struct FmapResult<P, F> {
    pub parser: P,
    pub function: F,
}

impl<P: Parser, F: TokenTryMap<P::Token>> Parser for FmapResult<P, F> {
    type Token = F::Output;

    open spec fn wf(&self) -> bool {
        self.parser.wf()
    }

    open spec fn spec_parse(&self, pos: int, input: Seq<char>) -> Outcome<
        <F::Output as DeepView>::V,
    > {
        match self.parser.spec_parse(pos, input) {
            Outcome::Matched { consumed, token } => {
                match self.function.spec_try_apply(token, pos, pos + consumed) {
                    Some(mapped) => Outcome::Matched { consumed, token: mapped },
                    None => Outcome::Malformed { at: pos },
                }
            },
            Outcome::NotMatched => Outcome::NotMatched,
            Outcome::Malformed { at } => Outcome::Malformed { at },
        }
    }

    proof fn lemma_in_bounds(&self, pos: int, input: Seq<char>) {
        self.parser.lemma_in_bounds(pos, input);
    }

    fn parse<'a>(&self, pos: i32, input: &'a str) -> (r: ParseResult<'a, F::Output>) {
        match self.parser.parse(pos, input) {
            Ok((remainder, output)) => {
                let start_pos = output.start_pos;
                let end_pos = output.end_pos;
                match self.function.try_apply(output.token, start_pos, end_pos) {
                    Some(token) => Ok((remainder, Parsed { start_pos, end_pos, token })),
                    None => Err(ParseError::MalformedInput(start_pos)),
                }
            },
            Err(e) => Err(e),
        }
    }
}

/// A parser that maps the token of `parser` with `function`, which may fail.
pub fn fmap_result<P: Parser, F: TokenTryMap<P::Token>>(parser: P, function: F) -> (p: FmapResult<
    P,
    F,
>)
    ensures
        p.parser == parser,
        p.function == function,
{
    FmapResult { parser, function }
}

/// A parser that maps the token of `parser` with the total function `function`.
/// The span stays as it is.
pub fn fmap<P: Parser, F: TokenMap<P::Token>>(parser: P, function: F) -> (p: FmapResult<
    P,
    Total<F>,
>)
    ensures
        p.parser == parser,
        p.function.function == function,
{
    fmap_result(parser, Total { function })
}

/// Runs two parsers in sequence and merges their tokens with a function that
/// may fail. The span reaches from the start of the left to the end of the
/// right. Where the function fails, the input is malformed at that start.
pub struct FmapResultChain<L, R, F> {
    pub left: L,
    pub right: R,
    pub combinator: F,
}

impl<L: Parser, R: Parser, F: TokenTryMerge<L::Token, R::Token>> Parser for FmapResultChain<
    L,
    R,
    F,
> {
    type Token = F::Output;

    open spec fn wf(&self) -> bool {
        self.left.wf() && self.right.wf()
    }

    open spec fn spec_parse(&self, pos: int, input: Seq<char>) -> Outcome<
        <F::Output as DeepView>::V,
    > {
        match self.left.spec_parse(pos, input) {
            Outcome::Matched { consumed: first, token: left_token } => {
                match self.right.spec_parse(pos + first, input.skip(first as int)) {
                    Outcome::Matched { consumed: second, token: right_token } => {
                        match self.combinator.spec_try_merge(left_token, right_token) {
                            Some(token) => Outcome::Matched { consumed: first + second, token },
                            None => Outcome::Malformed { at: pos },
                        }
                    },
                    Outcome::NotMatched => Outcome::NotMatched,
                    Outcome::Malformed { at } => Outcome::Malformed { at },
                }
            },
            Outcome::NotMatched => Outcome::NotMatched,
            Outcome::Malformed { at } => Outcome::Malformed { at },
        }
    }

    proof fn lemma_in_bounds(&self, pos: int, input: Seq<char>) {
        self.left.lemma_in_bounds(pos, input);
        if let Outcome::Matched { consumed: first, .. } = self.left.spec_parse(pos, input) {
            self.right.lemma_in_bounds(pos + first, input.skip(first as int));
        }
    }

    fn parse<'a>(&self, pos: i32, input: &'a str) -> (r: ParseResult<'a, F::Output>) {
        proof {
            self.left.lemma_in_bounds(pos as int, input@);
        }
        match self.left.parse(pos, input) {
            Ok((remainder, left_parsed)) => {
                let ghost first = self.left.spec_parse(pos as int, input@)->consumed;
                proof {
                    self.right.lemma_in_bounds(pos + first, input@.skip(first as int));
                }
                match self.right.parse(left_parsed.end_pos, remainder) {
                    Ok((remainder, right_parsed)) => {
                        let ghost second = self.right.spec_parse(
                            pos + first,
                            input@.skip(first as int),
                        )->consumed;
                        assert(input@.skip(first as int).skip(second as int) =~= input@.skip(
                            (first + second) as int,
                        ));
                        let start_pos = left_parsed.start_pos;
                        let end_pos = right_parsed.end_pos;
                        match self.combinator.try_merge(left_parsed.token, right_parsed.token) {
                            Some(token) => Ok((remainder, Parsed { start_pos, end_pos, token })),
                            None => Err(ParseError::MalformedInput(start_pos)),
                        }
                    },
                    Err(e) => Err(e),
                }
            },
            Err(e) => Err(e),
        }
    }
}

/// A parser that runs `left`, then `right` on what is left, and merges the two
/// tokens with `combinator`, which may fail.
pub fn fmap_result_chain<L: Parser, R: Parser, F: TokenTryMerge<L::Token, R::Token>>(
    left: L,
    right: R,
    combinator: F,
) -> (p: FmapResultChain<L, R, F>)
    ensures
        p.left == left,
        p.right == right,
        p.combinator == combinator,
{
    FmapResultChain { left, right, combinator }
}

/// A parser that runs `left`, then `right` on what is left, and merges the two
/// tokens with the total function `combinator`.
pub fn fmap_chain<L: Parser, R: Parser, F: TokenMerge<L::Token, R::Token>>(
    left: L,
    right: R,
    combinator: F,
) -> (p: FmapResultChain<L, R, Total<F>>)
    ensures
        p.left == left,
        p.right == right,
        p.combinator.function == combinator,
{
    fmap_result_chain(left, right, Total { function: combinator })
}

/// Two token types whose values can be combined into one.
pub trait Combinable<T: DeepView>: DeepView + Sized {
    type Output: DeepView;

    /// The combined value, over the views of the two.
    spec fn spec_combine(left: Self::V, right: T::V) -> <Self::Output as DeepView>::V;

    fn combine(self, with: T) -> (out: Self::Output)
        ensures
            out.deep_view() == Self::spec_combine(self.deep_view(), with.deep_view()),
    ;
}

/// Appends one character to a string: what `String::push` does.
pub assume_specification[ std::string::String::push ](s: &mut std::string::String, ch: char)
    ensures
        final(s)@ == old(s)@.push(ch),
;

/// Two characters make a string of the two.
impl Combinable<char> for char {
    type Output = String;

    open spec fn spec_combine(left: char, right: char) -> Seq<char> {
        seq![left, right]
    }

    fn combine(self, with: char) -> (out: String) {
        let mut s = String::new();
        s.push(self);
        s.push(with);
        assert(s@ =~= seq![self, with]);
        s
    }
}

/// A string and a character make the string with the character at its end.
impl Combinable<char> for String {
    type Output = String;

    open spec fn spec_combine(left: Seq<char>, right: char) -> Seq<char> {
        left.push(right)
    }

    fn combine(self, with: char) -> (out: String) {
        let mut s = self;
        s.push(with);
        s
    }
}

/// Two strings make their concatenation.
impl Combinable<String> for String {
    type Output = String;

    open spec fn spec_combine(left: Seq<char>, right: Seq<char>) -> Seq<char> {
        left + right
    }

    fn combine(self, with: String) -> (out: String) {
        self.concat(with.as_str())
    }
}

/// An element and a list make the list with the element at its front.
impl<T: DeepView> Combinable<Vec<T>> for T {
    type Output = Vec<T>;

    open spec fn spec_combine(left: T::V, right: Seq<T::V>) -> Seq<T::V> {
        seq![left] + right
    }

    fn combine(self, with: Vec<T>) -> (out: Vec<T>) {
        let ghost head = self.deep_view();
        let ghost tail = with.deep_view();
        let mut list = with;
        list.insert(0, self);
        assert(list.deep_view() =~= seq![head] + tail);
        list
    }
}

/// An element and an optional list make the list, empty if there is none, with
/// the element at its front.
impl<T: DeepView> Combinable<Option<Vec<T>>> for T {
    type Output = Vec<T>;

    open spec fn spec_combine(left: T::V, right: Option<Seq<T::V>>) -> Seq<T::V> {
        match right {
            Some(list) => seq![left] + list,
            None => seq![left],
        }
    }

    fn combine(self, with: Option<Vec<T>>) -> (out: Vec<T>) {
        let ghost head = self.deep_view();
        match with {
            Some(list) => {
                let ghost tail = list.deep_view();
                let mut list = list;
                list.insert(0, self);
                assert(list.deep_view() =~= seq![head] + tail);
                list
            },
            None => {
                let mut list = Vec::new();
                list.push(self);
                assert(list.deep_view() =~= seq![head]);
                list
            },
        }
    }
}

/// Merges two tokens as [`Combinable`] combines them.
pub struct Combine;

impl<R: DeepView, L: Combinable<R>> TokenMerge<L, R> for Combine {
    type Output = L::Output;

    open spec fn spec_merge(&self, left: L::V, right: R::V) -> <L::Output as DeepView>::V {
        L::spec_combine(left, right)
    }

    fn merge(&self, left: L, right: R) -> (out: L::Output) {
        left.combine(right)
    }
}

/// Keeps the left token of two.
pub struct KeepLeft;

impl<L: DeepView, R: DeepView> TokenMerge<L, R> for KeepLeft {
    type Output = L;

    open spec fn spec_merge(&self, left: L::V, right: R::V) -> L::V {
        left
    }

    fn merge(&self, left: L, right: R) -> (out: L) {
        left
    }
}

/// Keeps the right token of two.
pub struct KeepRight;

impl<L: DeepView, R: DeepView> TokenMerge<L, R> for KeepRight {
    type Output = R;

    open spec fn spec_merge(&self, left: L::V, right: R::V) -> R::V {
        right
    }

    fn merge(&self, left: L, right: R) -> (out: R) {
        right
    }
}

/// Gives the unit, whatever the tokens.
pub struct ToUnit;

impl<T: DeepView> TokenMap<T> for ToUnit {
    type Output = ();

    open spec fn spec_apply(&self, token: T::V, start: int, end: int) -> () {
        ()
    }

    fn apply(&self, token: T, start: i32, end: i32) -> (out: ()) {
        ()
    }
}

impl<L: DeepView, R: DeepView> TokenMerge<L, R> for ToUnit {
    type Output = ();

    open spec fn spec_merge(&self, left: L::V, right: R::V) -> () {
        ()
    }

    fn merge(&self, left: L, right: R) -> (out: ()) {
        ()
    }
}

/// Makes a pair of two tokens.
pub struct MakePair;

impl<L: DeepView, R: DeepView> TokenMerge<L, R> for MakePair {
    type Output = (L, R);

    open spec fn spec_merge(&self, left: L::V, right: R::V) -> (L::V, R::V) {
        (left, right)
    }

    fn merge(&self, left: L, right: R) -> (out: (L, R)) {
        (left, right)
    }
}

/// The parser that [`chain`] makes.
pub type Chain<L, R> = FmapResultChain<L, R, Total<Combine>>;

/// The parser that [`left`] makes.
pub type Left<L, R> = FmapResultChain<L, R, Total<KeepLeft>>;

/// The parser that [`right`] makes.
pub type Right<L, R> = FmapResultChain<L, R, Total<KeepRight>>;

/// The parser that [`middle`] makes.
pub type Middle<L, M, R> = Right<L, Left<M, R>>;

/// The parser that [`key_sep_value`] makes.
pub type KeySepValue<K, D, V> = FmapResultChain<K, Right<D, V>, Total<MakePair>>;

/// A parser that runs `left`, then `right` on what is left, and combines the
/// two tokens as [`Combinable`] says. It fails where either of them fails.
pub fn chain<L: Parser, R: Parser>(left: L, right: R) -> (p: Chain<L, R>) where
    L::Token: Combinable<R::Token>,

    ensures
        p.left == left,
        p.right == right,
{
    fmap_chain(left, right, Combine)
}

/// A parser that runs `left_p`, then `right_p`, and keeps the token of the
/// left. The span covers both.
pub fn left<L: Parser, R: Parser>(left_p: L, right_p: R) -> (p: Left<L, R>)
    ensures
        p.left == left_p,
        p.right == right_p,
{
    fmap_chain(left_p, right_p, KeepLeft)
}

/// A parser that runs `left_p`, then `right_p`, and keeps the token of the
/// right. The span covers both.
pub fn right<L: Parser, R: Parser>(left_p: L, right_p: R) -> (p: Right<L, R>)
    ensures
        p.left == left_p,
        p.right == right_p,
{
    fmap_chain(left_p, right_p, KeepRight)
}

/// A parser that runs three parsers in sequence and keeps the token of the
/// middle one. The span covers all three.
pub fn middle<L: Parser, M: Parser, R: Parser>(left_p: L, middle_p: M, right_p: R) -> (p: Middle<
    L,
    M,
    R,
>)
    ensures
        p.left == left_p,
        p.right.left == middle_p,
        p.right.right == right_p,
{
    right(left_p, left(middle_p, right_p))
}

/// A parser of `<key><delimiter><value>` that returns the pair of the key's
/// and the value's token.
pub fn key_sep_value<K: Parser, D: Parser, V: Parser>(key: K, delimiter: D, value: V) -> (p:
    KeySepValue<K, D, V>)
    ensures
        p.left == key,
        p.right.left == delimiter,
        p.right.right == value,
{
    fmap_chain(key, right(delimiter, value), MakePair)
}

/// Tries the left parser, and the right one at the same position where the left
/// one does not match. Invalid content on either side fails the whole.
pub struct Or<L, R> {
    pub left: L,
    pub right: R,
}

impl<L: Parser, R: Parser<Token = L::Token>> Parser for Or<L, R> {
    type Token = L::Token;

    open spec fn wf(&self) -> bool {
        self.left.wf() && self.right.wf()
    }

    open spec fn spec_parse(&self, pos: int, input: Seq<char>) -> Outcome<
        <L::Token as DeepView>::V,
    > {
        match self.left.spec_parse(pos, input) {
            Outcome::NotMatched => self.right.spec_parse(pos, input),
            other => other,
        }
    }

    proof fn lemma_in_bounds(&self, pos: int, input: Seq<char>) {
        self.left.lemma_in_bounds(pos, input);
        self.right.lemma_in_bounds(pos, input);
    }

    fn parse<'a>(&self, pos: i32, input: &'a str) -> (r: ParseResult<'a, L::Token>) {
        match self.left.parse(pos, input) {
            Err(ParseError::NotMatched) => self.right.parse(pos, input),
            other => other,
        }
    }
}

/// A parser that tries `left` and, where it does not match, `right` at the
/// same position.
pub fn or<L: Parser, R: Parser<Token = L::Token>>(left: L, right: R) -> (p: Or<L, R>)
    ensures
        p.left == left,
        p.right == right,
{
    Or { left, right }
}

/// Turns "not matched" into a match of nothing.
pub struct Optional<P> {
    pub parser: P,
}

impl<P: Parser> Parser for Optional<P> {
    type Token = Option<P::Token>;

    open spec fn wf(&self) -> bool {
        self.parser.wf()
    }

    open spec fn spec_parse(&self, pos: int, input: Seq<char>) -> Outcome<
        Option<<P::Token as DeepView>::V>,
    > {
        match self.parser.spec_parse(pos, input) {
            Outcome::Matched { consumed, token } => Outcome::Matched {
                consumed,
                token: Some(token),
            },
            Outcome::NotMatched => Outcome::Matched { consumed: 0, token: None },
            Outcome::Malformed { at } => Outcome::Malformed { at },
        }
    }

    proof fn lemma_in_bounds(&self, pos: int, input: Seq<char>) {
        self.parser.lemma_in_bounds(pos, input);
    }

    fn parse<'a>(&self, pos: i32, input: &'a str) -> (r: ParseResult<'a, Option<P::Token>>) {
        match self.parser.parse(pos, input) {
            Ok((remainder, parsed)) => Ok(
                (
                    remainder,
                    Parsed {
                        start_pos: parsed.start_pos,
                        end_pos: parsed.end_pos,
                        token: Some(parsed.token),
                    },
                ),
            ),
            Err(ParseError::NotMatched) => {
                assert(input@.skip(0) =~= input@);
                Ok((input, Parsed { start_pos: pos, end_pos: pos, token: None }))
            },
            Err(e) => Err(e),
        }
    }
}

/// A parser that returns `None`, consuming nothing, where `parser` does not
/// match, and `Some` of its token where it does.
pub fn optional<P: Parser>(parser: P) -> (p: Optional<P>)
    ensures
        p.parser == parser,
{
    Optional { parser }
}

} // verus!
