//! A generic, position-tracking parser-combinator engine.
//!
//! Every parser has a mathematical model, [`Parser::spec_parse`], which says for
//! a position and a text what the parser does there. The executable
//! [`Parser::parse`] is proved to agree with that model.

use vstd::prelude::*;

verus! {

/// A token together with the span `[start_pos, end_pos)` it was read from.
#[derive(Debug, PartialEq)]
pub struct Parsed<T> {
    pub start_pos: i32,
    pub end_pos: i32,
    pub token: T,
}

/// The two ways in which a parser fails.
#[derive(Debug, PartialEq, Eq, Clone, Copy)]
pub enum ParseError {
    /// The input was not recognised here. Nothing was consumed, and an
    /// alternative may be tried.
    NotMatched,
    /// The shape of the input was recognised but its content is invalid at the
    /// given position. No alternative is tried.
    MalformedInput(i32),
}

/// What running a parser gives: the text that is left and the token, or a failure.
pub type ParseResult<'a, T> = Result<(&'a str, Parsed<T>), ParseError>;

/// The model of one run of a parser.
pub enum Outcome<V> {
    /// The parser consumed the first `consumed` characters and produced `token`.
    Matched { consumed: nat, token: V },
    /// The parser did not recognise the input.
    NotMatched,
    /// The parser found invalid content at position `at`.
    Malformed { at: int },
}

/// A model outcome stays within a text of `len` characters that starts at `pos`.
pub open spec fn in_bounds<V>(o: Outcome<V>, pos: int, len: nat) -> bool {
    match o {
        Outcome::Matched { consumed, .. } => consumed <= len,
        Outcome::NotMatched => true,
        Outcome::Malformed { at } => pos <= at <= pos + len,
    }
}

/// The result `r` of running a parser at `pos` on `input` is the one that the
/// model outcome `o` describes: the span starts at `pos` and covers what was
/// consumed, the remainder is the input without it, and the token's view is
/// the model's token.
pub open spec fn agrees<T: DeepView>(
    r: ParseResult<'_, T>,
    o: Outcome<T::V>,
    pos: int,
    input: Seq<char>,
) -> bool {
    match o {
        Outcome::Matched { consumed, token } => {
            &&& r is Ok
            &&& r->Ok_0.0@ =~= input.skip(consumed as int)
            &&& r->Ok_0.1.start_pos == pos
            &&& r->Ok_0.1.end_pos == pos + consumed
            &&& r->Ok_0.1.token.deep_view() == token
        },
        Outcome::NotMatched => r == Err::<(&str, Parsed<T>), ParseError>(ParseError::NotMatched),
        Outcome::Malformed { at } => {
            &&& r is Err
            &&& r->Err_0 is MalformedInput
            &&& r->Err_0->MalformedInput_0 == at
        },
    }
}

/// A parser of text, with its model.
pub trait Parser {
    /// The type of token that the parser produces.
    type Token: DeepView;

    /// The parser's parts are put together so that it can be run.
    spec fn wf(&self) -> bool;

    /// What the parser does at position `pos` on the text `input`.
    spec fn spec_parse(&self, pos: int, input: Seq<char>) -> Outcome<
        <Self::Token as DeepView>::V,
    >;

    /// The model never consumes more than there is.
    proof fn lemma_in_bounds(&self, pos: int, input: Seq<char>)
        requires
            self.wf(),
        ensures
            in_bounds(self.spec_parse(pos, input), pos, input.len()),
    ;

    /// Runs the parser at position `pos` on `input`.
    fn parse<'a>(&self, pos: i32, input: &'a str) -> (r: ParseResult<'a, Self::Token>)
        requires
            self.wf(),
            pos + input@.len() <= i32::MAX,
        ensures
            agrees(r, self.spec_parse(pos as int, input@), pos as int, input@),
    ;
}

/// The parser `p` can be run, and does everywhere what `model` says.
pub open spec fn recognizes<P: Parser>(
    p: P,
    model: spec_fn(int, Seq<char>) -> Outcome<<P::Token as DeepView>::V>,
) -> bool {
    &&& p.wf()
    &&& forall|pos: int, input: Seq<char>| #[trigger] p.spec_parse(pos, input) == model(pos, input)
}

/// The outcome of a sequence: `first`, and then what `next` gives for the
/// number of characters that `first` consumed and for its token. The
/// sequence consumes what both consumed.
pub open spec fn and_then<A, B>(first: Outcome<A>, next: spec_fn(nat, A) -> Outcome<B>) -> Outcome<
    B,
> {
    match first {
        Outcome::Matched { consumed, token } => match next(consumed, token) {
            Outcome::Matched { consumed: more, token: last } => Outcome::Matched {
                consumed: consumed + more,
                token: last,
            },
            Outcome::NotMatched => Outcome::NotMatched,
            Outcome::Malformed { at } => Outcome::Malformed { at },
        },
        Outcome::NotMatched => Outcome::NotMatched,
        Outcome::Malformed { at } => Outcome::Malformed { at },
    }
}

/// The outcome `o` with its token mapped by `f`.
pub open spec fn map_token<A, B>(o: Outcome<A>, f: spec_fn(A) -> B) -> Outcome<B> {
    match o {
        Outcome::Matched { consumed, token } => Outcome::Matched { consumed, token: f(token) },
        Outcome::NotMatched => Outcome::NotMatched,
        Outcome::Malformed { at } => Outcome::Malformed { at },
    }
}

/// The outcome `o` with its token mapped by `f`, which is also given the
/// number of characters consumed.
pub open spec fn map_span<A, B>(o: Outcome<A>, f: spec_fn(nat, A) -> B) -> Outcome<B> {
    match o {
        Outcome::Matched { consumed, token } => Outcome::Matched {
            consumed,
            token: f(consumed, token),
        },
        Outcome::NotMatched => Outcome::NotMatched,
        Outcome::Malformed { at } => Outcome::Malformed { at },
    }
}

/// The outcome of a choice: `first`, and `second` where `first` did not match.
pub open spec fn or_else<A>(first: Outcome<A>, second: Outcome<A>) -> Outcome<A> {
    match first {
        Outcome::NotMatched => second,
        _ => first,
    }
}

/// The parser never matches without consuming at least one character.
pub open spec fn productive<P: Parser>(p: P) -> bool {
    forall|pos: int, input: Seq<char>|
        (#[trigger] p.spec_parse(pos, input)) matches Outcome::Matched { consumed, .. }
            ==> consumed > 0
}

/// The end of a span that starts at `pos` and covers `n` characters.
fn span_end(pos: i32, n: usize) -> (end: i32)
    requires
        pos + n <= i32::MAX,
    ensures
        end == pos + n,
{
    let wide: i64 = pos as i64 + n as i64;
    wide as i32
}

/// A borrowed parser parses as the parser itself.
impl<'b, P: Parser> Parser for &'b P {
    type Token = P::Token;

    open spec fn wf(&self) -> bool {
        (**self).wf()
    }

    open spec fn spec_parse(&self, pos: int, input: Seq<char>) -> Outcome<
        <P::Token as DeepView>::V,
    > {
        (**self).spec_parse(pos, input)
    }

    proof fn lemma_in_bounds(&self, pos: int, input: Seq<char>) {
        (**self).lemma_in_bounds(pos, input);
    }

    fn parse<'a>(&self, pos: i32, input: &'a str) -> (r: ParseResult<'a, P::Token>) {
        (**self).parse(pos, input)
    }
}

/// Holds a parser in a [`Box`].
pub struct ParserB<P> {
    pub parser: Box<P>,
}

impl<P: Parser> ParserB<P> {
    /// Boxes `parser`.
    pub fn new(parser: P) -> (b: ParserB<P>)
        ensures
            *b.parser == parser,
    {
        ParserB { parser: Box::new(parser) }
    }
}

impl<P: Parser> Parser for ParserB<P> {
    type Token = P::Token;

    open spec fn wf(&self) -> bool {
        (*self.parser).wf()
    }

    open spec fn spec_parse(&self, pos: int, input: Seq<char>) -> Outcome<
        <P::Token as DeepView>::V,
    > {
        (*self.parser).spec_parse(pos, input)
    }

    proof fn lemma_in_bounds(&self, pos: int, input: Seq<char>) {
        (*self.parser).lemma_in_bounds(pos, input);
    }

    fn parse<'a>(&self, pos: i32, input: &'a str) -> (r: ParseResult<'a, P::Token>) {
        (*self.parser).parse(pos, input)
    }
}

/// Matches one given character.
pub struct CharParser {
    pub value: char,
}

impl Parser for CharParser {
    type Token = char;

    open spec fn wf(&self) -> bool {
        true
    }

    open spec fn spec_parse(&self, pos: int, input: Seq<char>) -> Outcome<char> {
        if input.len() > 0 && input[0] == self.value {
            Outcome::Matched { consumed: 1, token: self.value }
        } else {
            Outcome::NotMatched
        }
    }

    proof fn lemma_in_bounds(&self, pos: int, input: Seq<char>) {
    }

    fn parse<'a>(&self, pos: i32, input: &'a str) -> (r: ParseResult<'a, char>) {
        if !input.is_empty() && input.get_char(0) == self.value {
            let len: usize = input.unicode_len();
            let rest = input.substring_char(1, len);
            Ok((rest, Parsed { start_pos: pos, end_pos: pos + 1, token: self.value }))
        } else {
            Err(ParseError::NotMatched)
        }
    }
}

/// A parser that matches the character `value` and returns it as its token.
pub fn char_parser(value: char) -> (p: CharParser)
    ensures
        p.value == value,
{
    CharParser { value }
}

/// Matches a given string, character by character.
pub struct StringParser {
    pub value: String,
}

impl Parser for StringParser {
    type Token = String;

    open spec fn wf(&self) -> bool {
        self.value@.len() > 0
    }

    open spec fn spec_parse(&self, pos: int, input: Seq<char>) -> Outcome<Seq<char>> {
        if self.value@.is_prefix_of(input) {
            Outcome::Matched { consumed: self.value@.len(), token: self.value@ }
        } else {
            Outcome::NotMatched
        }
    }

    proof fn lemma_in_bounds(&self, pos: int, input: Seq<char>) {
    }

    fn parse<'a>(&self, pos: i32, input: &'a str) -> (r: ParseResult<'a, String>) {
        let wanted: usize = self.value.as_str().unicode_len();
        let len: usize = input.unicode_len();
        if wanted > len {
            return Err(ParseError::NotMatched);
        }
        let mut i: usize = 0;
        while i < wanted
            invariant
                i <= wanted <= len,
                wanted == self.value@.len(),
                len == input@.len(),
                forall|k: int| 0 <= k < i ==> self.value@[k] == input@[k],
            decreases wanted - i,
        {
            if self.value.as_str().get_char(i) != input.get_char(i) {
                assert(self.value@[i as int] != input@.subrange(0, wanted as int)[i as int]);
                return Err(ParseError::NotMatched);
            }
            i += 1;
        }
        assert(self.value@ =~= input@.subrange(0, wanted as int));
        let rest = input.substring_char(wanted, len);
        Ok((rest, Parsed { start_pos: pos, end_pos: span_end(pos, wanted), token: self.value.clone() }))
    }
}

/// A parser that matches the string `value` and returns it as its token.
/// There is no parser for the empty string.
pub fn string_parser(value: &str) -> (p: StringParser)
    requires
        value@.len() > 0,
    ensures
        p.value@ == value@,
{
    StringParser { value: String::from_str(value) }
}

/// The number of characters at the front of `input` that are all in `allowed`.
pub open spec fn run_len(input: Seq<char>, allowed: Set<char>) -> nat
    decreases input.len(),
{
    if input.len() > 0 && allowed.contains(input[0]) {
        1 + run_len(input.skip(1), allowed)
    } else {
        0
    }
}

/// The run at the front of `input` lies within it, holds allowed characters
/// only, and ends at the end of the input or before a character that is not
/// allowed.
pub proof fn lemma_run_len(input: Seq<char>, allowed: Set<char>)
    ensures
        run_len(input, allowed) <= input.len(),
        forall|k: int| 0 <= k < run_len(input, allowed) ==> allowed.contains(#[trigger] input[k]),
        run_len(input, allowed) < input.len() ==> !allowed.contains(
            input[run_len(input, allowed) as int],
        ),
    decreases input.len(),
{
    if input.len() > 0 && allowed.contains(input[0]) {
        let tail = input.skip(1);
        lemma_run_len(tail, allowed);
        assert forall|k: int| 0 <= k < run_len(input, allowed) implies allowed.contains(
            #[trigger] input[k],
        ) by {
            if k > 0 {
                assert(input[k] == tail[k - 1]);
            }
        }
        if run_len(input, allowed) < input.len() {
            assert(input[run_len(input, allowed) as int] == tail[run_len(tail, allowed) as int]);
        }
    }
}

/// A run of `n` allowed characters that cannot be made longer is the run at
/// the front of `input`.
pub proof fn lemma_run_len_is(input: Seq<char>, allowed: Set<char>, n: nat)
    requires
        n <= input.len(),
        forall|k: int| 0 <= k < n ==> allowed.contains(#[trigger] input[k]),
        n < input.len() ==> !allowed.contains(input[n as int]),
    ensures
        run_len(input, allowed) == n,
    decreases n,
{
    if n > 0 {
        let tail = input.skip(1);
        assert(allowed.contains(input[0]));
        assert forall|k: int| 0 <= k < n - 1 implies allowed.contains(#[trigger] tail[k]) by {
            assert(tail[k] == input[k + 1]);
        }
        if n - 1 < tail.len() {
            assert(tail[n - 1] == input[n as int]);
        }
        lemma_run_len_is(tail, allowed, (n - 1) as nat);
    }
}

/// What a parser does that takes the longest run of allowed characters: it
/// does not match where the run is empty.
pub open spec fn take_run(input: Seq<char>, allowed: Set<char>) -> Outcome<Seq<char>> {
    let n = run_len(input, allowed);
    if n == 0 {
        Outcome::NotMatched
    } else {
        Outcome::Matched { consumed: n, token: input.take(n as int) }
    }
}

/// The result of a parser that found a run of `n` characters at the front of `input`.
fn run_result<'a>(pos: i32, input: &'a str, n: usize, len: usize) -> (r: ParseResult<'a, String>)
    requires
        n <= len == input@.len(),
        pos + input@.len() <= i32::MAX,
    ensures
        n == 0 ==> r == Err::<(&str, Parsed<String>), ParseError>(ParseError::NotMatched),
        n > 0 ==> agrees(
            r,
            Outcome::Matched { consumed: n as nat, token: input@.take(n as int) },
            pos as int,
            input@,
        ),
{
    if n == 0 {
        Err(ParseError::NotMatched)
    } else {
        let token = String::from_str(input.substring_char(0, n));
        let rest = input.substring_char(n, len);
        Ok((rest, Parsed { start_pos: pos, end_pos: span_end(pos, n), token }))
    }
}

/// All characters but `terminator`.
pub open spec fn all_but(terminator: char) -> Set<char> {
    Set::new(|c: char| c != terminator)
}

/// Takes characters up to a terminator.
pub struct TakeUntilChar {
    pub terminator: char,
}

impl Parser for TakeUntilChar {
    type Token = String;

    open spec fn wf(&self) -> bool {
        true
    }

    open spec fn spec_parse(&self, pos: int, input: Seq<char>) -> Outcome<Seq<char>> {
        take_run(input, all_but(self.terminator))
    }

    proof fn lemma_in_bounds(&self, pos: int, input: Seq<char>) {
        lemma_run_len(input, all_but(self.terminator));
    }

    fn parse<'a>(&self, pos: i32, input: &'a str) -> (r: ParseResult<'a, String>) {
        let len: usize = input.unicode_len();
        let mut n: usize = 0;
        while n < len && input.get_char(n) != self.terminator
            invariant
                n <= len == input@.len(),
                forall|k: int| 0 <= k < n ==> all_but(self.terminator).contains(#[trigger] input@[k]),
            decreases len - n,
        {
            n += 1;
        }
        proof {
            lemma_run_len_is(input@, all_but(self.terminator), n as nat);
        }
        run_result(pos, input, n, len)
    }
}

/// A parser that takes the characters before the first `terminator`, or all
/// of them where there is none. It does not match where there is no such
/// character.
pub fn take_until_char_parser(terminator: char) -> (p: TakeUntilChar)
    ensures
        p.terminator == terminator,
{
    TakeUntilChar { terminator }
}

/// Whether `c` is among `chars`.
fn contains_char(chars: &Vec<char>, c: char) -> (found: bool)
    ensures
        found == chars@.to_set().contains(c),
{
    let mut i: usize = 0;
    while i < chars.len()
        invariant
            i <= chars.len(),
            forall|k: int| 0 <= k < i ==> chars@[k] != c,
        decreases chars.len() - i,
    {
        if chars[i] == c {
            assert(chars@.contains(c));
            return true;
        }
        i += 1;
    }
    assert(!chars@.contains(c));
    false
}

/// Takes characters as long as they are in a given set.
pub struct TakeWhileChars {
    pub allowed_chars: Vec<char>,
}

impl Parser for TakeWhileChars {
    type Token = String;

    open spec fn wf(&self) -> bool {
        true
    }

    open spec fn spec_parse(&self, pos: int, input: Seq<char>) -> Outcome<Seq<char>> {
        take_run(input, self.allowed_chars@.to_set())
    }

    proof fn lemma_in_bounds(&self, pos: int, input: Seq<char>) {
        lemma_run_len(input, self.allowed_chars@.to_set());
    }

    fn parse<'a>(&self, pos: i32, input: &'a str) -> (r: ParseResult<'a, String>) {
        let len: usize = input.unicode_len();
        let mut n: usize = 0;
        while n < len && contains_char(&self.allowed_chars, input.get_char(n))
            invariant
                n <= len == input@.len(),
                forall|k: int|
                    0 <= k < n ==> self.allowed_chars@.to_set().contains(#[trigger] input@[k]),
            decreases len - n,
        {
            n += 1;
        }
        proof {
            lemma_run_len_is(input@, self.allowed_chars@.to_set(), n as nat);
        }
        run_result(pos, input, n, len)
    }
}

/// A parser that takes characters until it reaches one that is not among
/// `allowed_chars`. It does not match where the first character is none of
/// them.
pub fn take_while_chars_parser(allowed_chars: Vec<char>) -> (p: TakeWhileChars)
    ensures
        p.allowed_chars@ == allowed_chars@,
{
    TakeWhileChars { allowed_chars }
}

} // verus!
