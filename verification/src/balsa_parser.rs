//! The parsers of templates: for each rule of the grammar a parser built from
//! combinators, which is proved to do what the rule's model says.

use crate::balsa_types::{BalsaExpression, BalsaType, BalsaValue, ExpressionView, ValueView};
use crate::combinators::{
    chain, fmap, fmap_chain, fmap_result, key_sep_value, middle, optional, or, right, Chain,
    FmapResult, FmapResultChain, KeySepValue, Middle, Optional, Or, Right, TokenMap, TokenMerge,
    TokenTryMap, Total, ToUnit,
};
use crate::errors::{BalsaError, ErrorView};
use crate::grammar::{
    block_model, declaration_block_model, declaration_rule, delimiter_model, digit_chars,
    document_model, enclosed_model, expr_model, flatten, identifier_chars, identifier_model,
    int_literal_model, key_value_model, key_value_rule, lemma_many_of_same,
    lemma_scan_step_consumes, lemma_skip_skip, list_model, literal_model, name_type_model,
    nonempty_list_model, padded_model, parameter_block_model, parameter_content_model, parse_model,
    scan_rule, scan_step_model, separated_rule, string_literal_model, type_model, value_model,
    ws_chars, ws_model, BlockView, DeclarationView, ParameterBlockView, TokenView,
};
use crate::ordering::{lemma_document_ordered, spans_ordered, token_spans};
use crate::parser::{
    all_but, char_parser, lemma_run_len, map_token, productive, recognizes, run_len, string_parser,
    take_until_char_parser, take_while_chars_parser, CharParser, Outcome, Parser, StringParser,
    TakeUntilChar, TakeWhileChars,
};
use crate::repetition::{
    delimited_list, lemma_many_model, lemma_many_model_of, many, DelimitedList, Many,
};
use crate::string_map::{put_all, tuple_vec_to_map, StringMap};
use crate::text::{digits_to_i64, is_digit, parse_digits};
use vstd::prelude::*;

verus! {

/// A block of a template: what it holds, and the span `[start_pos, end_pos)`
/// of the block in the template, braces included.
#[derive(Debug, PartialEq)]
pub struct Block<T> {
    pub start_pos: i32,
    pub end_pos: i32,
    pub token: T,
}

impl<T: DeepView> DeepView for Block<T> {
    type V = BlockView<T::V>;

    open spec fn deep_view(&self) -> BlockView<T::V> {
        BlockView {
            start: self.start_pos as int,
            end: self.end_pos as int,
            token: self.token.deep_view(),
        }
    }
}

/// One declaration of a declaration block, as it was parsed: the expressions
/// that stand for the name, the type and the value.
#[derive(Debug, PartialEq)]
pub struct Declaration {
    pub identifier: BalsaExpression,
    pub variable_type: BalsaExpression,
    pub value: BalsaExpression,
}

impl DeepView for Declaration {
    type V = DeclarationView;

    open spec fn deep_view(&self) -> DeclarationView {
        DeclarationView {
            identifier: self.identifier@,
            variable_type: self.variable_type@,
            value: self.value@,
        }
    }
}

/// The options of a parameter block, such as `defaultValue: "test"`, by name.
pub type OptionsMap = StringMap<BalsaExpression>;

/// A parameter block as it was parsed.
#[derive(Debug, PartialEq)]
pub struct ParameterBlockIntermediate {
    /// The expression that stands for the parameter's name.
    pub variable_name: BalsaExpression,
    /// The expression that stands for the parameter's type.
    pub variable_type: BalsaExpression,
    /// The options, where a comma follows the type.
    pub options: Option<OptionsMap>,
}

impl DeepView for ParameterBlockIntermediate {
    type V = ParameterBlockView;

    open spec fn deep_view(&self) -> ParameterBlockView {
        ParameterBlockView {
            variable_name: self.variable_name@,
            variable_type: self.variable_type@,
            options: self.options.deep_view(),
        }
    }
}

/// A block of a template.
#[derive(Debug, PartialEq)]
pub enum BalsaToken {
    DeclarationBlock(Block<Vec<Declaration>>),
    ParameterBlock(Block<ParameterBlockIntermediate>),
}

impl DeepView for BalsaToken {
    type V = TokenView;

    open spec fn deep_view(&self) -> TokenView {
        match self {
            BalsaToken::DeclarationBlock(b) => TokenView::DeclarationBlock(b.deep_view()),
            BalsaToken::ParameterBlock(b) => TokenView::ParameterBlock(b.deep_view()),
        }
    }
}

/// Maps any token to a given type.
pub struct ToType {
    pub balsa_type: BalsaType,
}

impl<T: DeepView> TokenMap<T> for ToType {
    type Output = BalsaType;

    open spec fn spec_apply(&self, token: T::V, start: int, end: int) -> BalsaType {
        self.balsa_type
    }

    fn apply(&self, token: T, start: i32, end: i32) -> (out: BalsaType) {
        self.balsa_type
    }
}

/// Maps a text to the string value that holds it.
pub struct ToStringValue;

impl TokenMap<String> for ToStringValue {
    type Output = BalsaValue;

    open spec fn spec_apply(&self, token: Seq<char>, start: int, end: int) -> ValueView {
        ValueView::String(token)
    }

    fn apply(&self, token: String, start: i32, end: i32) -> (out: BalsaValue) {
        BalsaValue::String(token)
    }
}

/// Maps digits to the integer value that they stand for, if it fits in 64 bits.
pub struct ToIntegerValue;

impl TokenTryMap<String> for ToIntegerValue {
    type Output = BalsaValue;

    open spec fn spec_try_apply(&self, token: Seq<char>, start: int, end: int) -> Option<
        ValueView,
    > {
        match parse_digits(token) {
            Some(value) => Some(ValueView::Integer(value)),
            None => None,
        }
    }

    fn try_apply(&self, token: String, start: i32, end: i32) -> (out: Option<BalsaValue>) {
        match digits_to_i64(token.as_str()) {
            Some(value) => Some(BalsaValue::Integer(value)),
            None => None,
        }
    }
}

/// Maps a value to the expression that is this value.
pub struct ToValueExpression;

impl TokenMap<BalsaValue> for ToValueExpression {
    type Output = BalsaExpression;

    open spec fn spec_apply(&self, token: ValueView, start: int, end: int) -> ExpressionView {
        ExpressionView::Value(token)
    }

    fn apply(&self, token: BalsaValue, start: i32, end: i32) -> (out: BalsaExpression) {
        BalsaExpression::Value(token)
    }
}

/// Maps a type to the expression that is this type.
pub struct ToTypeExpression;

impl TokenMap<BalsaType> for ToTypeExpression {
    type Output = BalsaExpression;

    open spec fn spec_apply(&self, token: BalsaType, start: int, end: int) -> ExpressionView {
        ExpressionView::Type(token)
    }

    fn apply(&self, token: BalsaType, start: i32, end: i32) -> (out: BalsaExpression) {
        BalsaExpression::Type(token)
    }
}

/// Maps a name to the expression that is this identifier.
pub struct ToIdentifierExpression;

impl TokenMap<String> for ToIdentifierExpression {
    type Output = BalsaExpression;

    open spec fn spec_apply(&self, token: Seq<char>, start: int, end: int) -> ExpressionView {
        ExpressionView::Identifier(token)
    }

    fn apply(&self, token: String, start: i32, end: i32) -> (out: BalsaExpression) {
        BalsaExpression::Identifier(token)
    }
}

/// The parser of a fixed text.
pub type LiteralP = FmapResult<StringParser, Total<ToUnit>>;

/// The parser of a fixed text.
fn literal_p(text: &str) -> (p: LiteralP)
    requires
        text@.len() > 0,
    ensures
        recognizes(p, |pos: int, input: Seq<char>| literal_model(text@, input)),
{
    fmap(string_parser(text), ToUnit)
}

/// The parser of `{{`, which opens a parameter block.
pub fn parameter_open_bracket_p() -> (p: LiteralP)
    ensures
        recognizes(p, |pos: int, input: Seq<char>| literal_model("{{"@, input)),
{
    proof {
        reveal_strlit("{{");
    }
    literal_p("{{")
}

/// The parser of `{{@`, which opens a declaration block.
pub fn declaration_open_bracket_p() -> (p: LiteralP)
    ensures
        recognizes(p, |pos: int, input: Seq<char>| literal_model("{{@"@, input)),
{
    proof {
        reveal_strlit("{{@");
    }
    literal_p("{{@")
}

/// The parser of `}}`, which closes a block.
pub fn closing_bracket_p() -> (p: LiteralP)
    ensures
        recognizes(p, |pos: int, input: Seq<char>| literal_model("}}"@, input)),
{
    proof {
        reveal_strlit("}}");
    }
    literal_p("}}")
}

/// The parser of whitespace.
pub type WsP = FmapResult<Optional<TakeWhileChars>, Total<ToUnit>>;

/// The parser of whitespace: a run of spaces, tabs and newlines that may be empty.
pub fn ws_p() -> (p: WsP)
    ensures
        recognizes(p, |pos: int, input: Seq<char>| ws_model(input)),
{
    let allowed = vec![' ', '\t', '\n'];
    assert(allowed@.to_set() =~= ws_chars()) by {
        assert(allowed@[0] == ' ' && allowed@[1] == '\t' && allowed@[2] == '\n');
    }
    fmap(optional(take_while_chars_parser(allowed)), ToUnit)
}

/// The parser of something with whitespace around it.
pub type WsPaddedP<P> = Middle<WsP, P, WsP>;

/// The parser of what `parser` matches with whitespace before and after it.
pub fn ws_padded_p<P: Parser>(parser: P) -> (p: WsPaddedP<P>)
    requires
        parser.wf(),
    ensures
        recognizes(
            p,
            |pos: int, input: Seq<char>|
                padded_model(
                    input,
                    |lead: nat| parser.spec_parse(pos + lead, input.skip(lead as int)),
                ),
        ),
{
    let p = middle(ws_p(), parser, ws_p());
    assert forall|pos: int, input: Seq<char>| #[trigger]
        p.spec_parse(pos, input) == padded_model(
            input,
            |lead: nat| parser.spec_parse(pos + lead, input.skip(lead as int)),
        ) by {
        let lead = run_len(input, ws_chars());
        lemma_run_len(input, ws_chars());
        parser.lemma_in_bounds(pos + lead, input.skip(lead as int));
        if let Outcome::Matched { consumed, .. } = parser.spec_parse(
            pos + lead,
            input.skip(lead as int),
        ) {
            assert(input.skip(lead as int).skip(consumed as int) =~= input.skip(
                (lead + consumed) as int,
            ));
        }
    }
    p
}

/// The characters from `first` to `last` in order.
pub open spec fn char_range(first: u8, last: u8) -> Seq<char> {
    Seq::new((last - first + 1) as nat, |i: int| (first + i) as char)
}

/// Appends the characters from `first` to `last` to `chars`.
fn push_range(chars: &mut Vec<char>, first: u8, last: u8)
    requires
        first <= last < 128,
    ensures
        final(chars)@ == old(chars)@ + char_range(first, last),
{
    let mut next: u8 = first;
    while next <= last
        invariant
            first <= next <= last + 1,
            last < 128,
            chars@ == old(chars)@ + Seq::new((next - first) as nat, |i: int| (first + i) as char),
        decreases last + 1 - next,
    {
        chars.push(next as char);
        next += 1;
        assert(chars@ =~= old(chars)@ + Seq::new(
            (next - first) as nat,
            |i: int| (first + i) as char,
        ));
    }
    assert(chars@ =~= old(chars)@ + char_range(first, last));
}

/// The parser of an identifier: one or more letters, digits, `_` or `-`.
pub fn variable_name_p() -> (p: TakeWhileChars)
    ensures
        recognizes(p, |pos: int, input: Seq<char>| identifier_model(input)),
{
    let mut allowed: Vec<char> = Vec::new();
    push_range(&mut allowed, 97, 122);
    push_range(&mut allowed, 65, 90);
    push_range(&mut allowed, 48, 57);
    allowed.push('-');
    allowed.push('_');
    assert(allowed@.to_set() =~= identifier_chars()) by {
        let all = allowed@;
        assert(all =~= char_range(97, 122) + char_range(65, 90) + char_range(48, 57) + seq![
            '-',
            '_',
        ]);
        assert forall|c: char| identifier_chars().contains(c) implies all.contains(c) by {
            if 'a' <= c <= 'z' {
                assert(all[c as int - 97] == c);
            } else if 'A' <= c <= 'Z' {
                assert(all[26 + (c as int - 65)] == c);
            } else if is_digit(c) {
                assert(all[52 + (c as int - 48)] == c);
            } else if c == '-' {
                assert(all[62] == c);
            } else {
                assert(all[63] == c);
            }
        }
        assert forall|c: char| all.contains(c) implies identifier_chars().contains(c) by {
            let i = choose|i: int| 0 <= i < all.len() && all[i] == c;
            assert(all[i] == c);
        }
    }
    take_while_chars_parser(allowed)
}

/// The parser of a string literal.
pub type StringLiteralP = FmapResult<
    Middle<CharParser, TakeUntilChar, CharParser>,
    Total<ToStringValue>,
>;

/// The parser of a string literal: the text between two double quotes.
pub fn string_literal_p() -> (p: StringLiteralP)
    ensures
        recognizes(p, |pos: int, input: Seq<char>| string_literal_model(input)),
{
    let p = fmap(
        middle(char_parser('"'), take_until_char_parser('"'), char_parser('"')),
        ToStringValue,
    );
    assert forall|pos: int, input: Seq<char>| #[trigger]
        p.spec_parse(pos, input) == string_literal_model(input) by {
        if input.len() > 0 && input[0] == '"' {
            let body = input.skip(1);
            let n = run_len(body, all_but('"'));
            lemma_run_len(body, all_but('"'));
            if n > 0 {
                assert(body.take(n as int) =~= input.subrange(1, n + 1 as int));
                assert(body.skip(n as int) =~= input.skip(n + 1 as int));
                if n + 1 < input.len() {
                    assert(body[n as int] == input[n + 1 as int]);
                    assert(input.skip(n + 1 as int)[0] == input[n + 1 as int]);
                }
            }
        }
    }
    p
}

/// The parser of an integer literal.
pub type IntLiteralP = FmapResult<TakeWhileChars, ToIntegerValue>;

/// The parser of an integer literal: digits that stand for a 64-bit signed integer.
pub fn int_literal_p() -> (p: IntLiteralP)
    ensures
        recognizes(p, |pos: int, input: Seq<char>| int_literal_model(pos, input)),
{
    let mut digits: Vec<char> = Vec::new();
    push_range(&mut digits, 48, 57);
    assert(digits@.to_set() =~= digit_chars()) by {
        let all = digits@;
        assert(all =~= char_range(48, 57));
        assert forall|c: char| digit_chars().contains(c) implies all.contains(c) by {
            assert(all[c as int - 48] == c);
        }
    }
    fmap_result(take_while_chars_parser(digits), ToIntegerValue)
}

/// The parser of one type keyword.
pub type KeywordP = FmapResult<StringParser, Total<ToType>>;

/// The parser of the keyword `keyword`, which stands for the type `balsa_type`.
fn keyword_p(keyword: &str, balsa_type: BalsaType) -> (p: KeywordP)
    requires
        keyword@.len() > 0,
    ensures
        recognizes(
            p,
            |pos: int, input: Seq<char>|
                map_token(literal_model(keyword@, input), |u: ()| balsa_type),
        ),
{
    fmap(string_parser(keyword), ToType { balsa_type })
}

/// The parser of a type keyword.
pub type BalsaTypeP = Or<KeywordP, Or<KeywordP, Or<KeywordP, KeywordP>>>;

/// The parser of a type keyword: `string`, `color`, `int` or `float`.
pub fn balsa_type_p() -> (p: BalsaTypeP)
    ensures
        recognizes(p, |pos: int, input: Seq<char>| type_model(input)),
{
    proof {
        reveal_strlit("string");
        reveal_strlit("color");
        reveal_strlit("int");
        reveal_strlit("float");
    }
    or(
        keyword_p("string", BalsaType::String),
        or(
            keyword_p("color", BalsaType::Color),
            or(keyword_p("int", BalsaType::Integer), keyword_p("float", BalsaType::Float)),
        ),
    )
}

/// The parser of a value literal.
pub type BalsaValueP = Or<StringLiteralP, IntLiteralP>;

/// The parser of a value literal: a string literal, else an integer literal.
pub fn balsa_value_p() -> (p: BalsaValueP)
    ensures
        recognizes(p, |pos: int, input: Seq<char>| value_model(pos, input)),
{
    or(string_literal_p(), int_literal_p())
}

/// The parser of an expression.
pub type BalsaExprP = Or<
    FmapResult<BalsaValueP, Total<ToValueExpression>>,
    Or<
        FmapResult<BalsaTypeP, Total<ToTypeExpression>>,
        FmapResult<TakeWhileChars, Total<ToIdentifierExpression>>,
    >,
>;

/// The parser of an expression: a value literal, else a type keyword, else an
/// identifier.
pub fn balsa_expr_p() -> (p: BalsaExprP)
    ensures
        recognizes(p, |pos: int, input: Seq<char>| expr_model(pos, input)),
{
    or(
        fmap(balsa_value_p(), ToValueExpression),
        or(fmap(balsa_type_p(), ToTypeExpression), fmap(variable_name_p(), ToIdentifierExpression)),
    )
}

/// The parser of a delimiter.
pub type DelimiterP = FmapResult<WsPaddedP<CharParser>, Total<ToUnit>>;

/// The parser of the character `delimiter` with whitespace around it.
fn delimiter_p(delimiter: char) -> (p: DelimiterP)
    ensures
        recognizes(p, |pos: int, input: Seq<char>| delimiter_model(delimiter, input)),
{
    fmap(ws_padded_p(char_parser(delimiter)), ToUnit)
}

/// The parser of the colon between a key and its value.
pub fn key_value_delimiter_p() -> (p: DelimiterP)
    ensures
        recognizes(p, |pos: int, input: Seq<char>| delimiter_model(':', input)),
{
    delimiter_p(':')
}

/// The parser of the comma between the elements of a list.
pub fn list_delimeter() -> (p: DelimiterP)
    ensures
        recognizes(p, |pos: int, input: Seq<char>| delimiter_model(',', input)),
{
    delimiter_p(',')
}

/// The parser of the equals sign between a declaration and its value.
pub fn declaration_delimiter_p() -> (p: DelimiterP)
    ensures
        recognizes(p, |pos: int, input: Seq<char>| delimiter_model('=', input)),
{
    delimiter_p('=')
}

/// The parser of a name and a type.
pub type VariableWithTypeP = KeySepValue<BalsaExprP, DelimiterP, BalsaExprP>;

/// The parser of a name and a type: two expressions with a colon between them.
pub fn variable_with_type_p() -> (p: VariableWithTypeP)
    ensures
        recognizes(p, |pos: int, input: Seq<char>| name_type_model(pos, input)),
{
    let p = key_sep_value(balsa_expr_p(), key_value_delimiter_p(), balsa_expr_p());
    assert forall|pos: int, input: Seq<char>| #[trigger]
        p.spec_parse(pos, input) == name_type_model(pos, input) by {
        p.left.lemma_in_bounds(pos, input);
        if let Outcome::Matched { consumed: first, .. } = p.left.spec_parse(pos, input) {
            let rest = input.skip(first as int);
            p.right.left.lemma_in_bounds(pos + first, rest);
            if let Outcome::Matched { consumed: second, .. } = p.right.left.spec_parse(
                pos + first,
                rest,
            ) {
                lemma_skip_skip(input, first, second);
            }
        }
    }
    p
}

/// The parser of an option.
pub type KeyValueP = KeySepValue<TakeWhileChars, DelimiterP, BalsaExprP>;

/// The parser of an option: an identifier and an expression with a colon
/// between them.
pub fn key_value_p() -> (p: KeyValueP)
    ensures
        recognizes(p, |pos: int, input: Seq<char>| key_value_model(pos, input)),
{
    let p = key_sep_value(variable_name_p(), key_value_delimiter_p(), balsa_expr_p());
    assert forall|pos: int, input: Seq<char>| #[trigger]
        p.spec_parse(pos, input) == key_value_model(pos, input) by {
        p.left.lemma_in_bounds(pos, input);
        if let Outcome::Matched { consumed: first, .. } = p.left.spec_parse(pos, input) {
            let rest = input.skip(first as int);
            p.right.left.lemma_in_bounds(pos + first, rest);
            if let Outcome::Matched { consumed: second, .. } = p.right.left.spec_parse(
                pos + first,
                rest,
            ) {
                lemma_skip_skip(input, first, second);
            }
        }
    }
    p
}

/// Makes a declaration of a name and a type, and a value.
pub struct MakeDeclaration;

impl TokenMerge<(BalsaExpression, BalsaExpression), BalsaExpression> for MakeDeclaration {
    type Output = Declaration;

    open spec fn spec_merge(
        &self,
        left: (ExpressionView, ExpressionView),
        right: ExpressionView,
    ) -> DeclarationView {
        DeclarationView { identifier: left.0, variable_type: left.1, value: right }
    }

    fn merge(&self, left: (BalsaExpression, BalsaExpression), right: BalsaExpression) -> (out:
        Declaration) {
        Declaration { identifier: left.0, variable_type: left.1, value: right }
    }
}

/// Makes the token of a declaration block of its declarations and its span.
pub struct ToDeclarationBlock;

impl TokenMap<Vec<Declaration>> for ToDeclarationBlock {
    type Output = BalsaToken;

    open spec fn spec_apply(&self, token: Seq<DeclarationView>, start: int, end: int) -> TokenView {
        TokenView::DeclarationBlock(BlockView { start, end, token })
    }

    fn apply(&self, token: Vec<Declaration>, start: i32, end: i32) -> (out: BalsaToken) {
        BalsaToken::DeclarationBlock(Block { start_pos: start, end_pos: end, token })
    }
}

/// The parser of a declaration.
pub type DeclarationP = FmapResultChain<
    VariableWithTypeP,
    Right<DelimiterP, BalsaExprP>,
    Total<MakeDeclaration>,
>;

/// The parser of a declaration: a name and a type, an equals sign, and an
/// expression.
pub fn declaration_p() -> (p: DeclarationP)
    ensures
        recognizes(p, declaration_rule()),
{
    let p = fmap_chain(
        variable_with_type_p(),
        right(declaration_delimiter_p(), balsa_expr_p()),
        MakeDeclaration,
    );
    assert forall|pos: int, input: Seq<char>| #[trigger]
        p.spec_parse(pos, input) == declaration_rule()(pos, input) by {
        p.left.lemma_in_bounds(pos, input);
        if let Outcome::Matched { consumed: first, .. } = p.left.spec_parse(pos, input) {
            let rest = input.skip(first as int);
            p.right.left.lemma_in_bounds(pos + first, rest);
            if let Outcome::Matched { consumed: second, .. } = p.right.left.spec_parse(
                pos + first,
                rest,
            ) {
                lemma_skip_skip(input, first, second);
            }
        }
    }
    p
}

/// The parser of a comma and an item after it.
pub type SeparatedP<P> = Right<DelimiterP, P>;

/// The parser of a comma and what `item` matches after it.
fn separated_p<P: Parser>(item: P) -> (p: SeparatedP<P>)
    requires
        item.wf(),
    ensures
        recognizes(p, separated_rule(|pos: int, input: Seq<char>| item.spec_parse(pos, input))),
        productive(p),
{
    let p = right(list_delimeter(), item);
    assert forall|pos: int, input: Seq<char>|
        (#[trigger] p.spec_parse(pos, input)) is Matched implies p.spec_parse(
            pos,
            input,
        )->consumed > 0 by {
        lemma_run_len(input, ws_chars());
    }
    p
}

/// The parser of a list of one or more items.
pub type NonEmptyListP<P> = Chain<P, Many<SeparatedP<P>>>;

/// The parser of one or more items with commas between them. `first` and
/// `more` both parse an item, as `rule` says.
fn nonempty_list_p<P: Parser>(
    first: P,
    more: P,
    Ghost(rule): Ghost<spec_fn(int, Seq<char>) -> Outcome<<P::Token as DeepView>::V>>,
) -> (p: NonEmptyListP<P>)
    requires
        recognizes(first, rule),
        recognizes(more, rule),
    ensures
        recognizes(p, |pos: int, input: Seq<char>| nonempty_list_model(rule, pos, input)),
{
    let step = separated_p(more);
    let p = chain(first, many(step));
    assert forall|pos: int, input: Seq<char>| #[trigger]
        p.spec_parse(pos, input) == nonempty_list_model(rule, pos, input) by {
        first.lemma_in_bounds(pos, input);
        if let Outcome::Matched { consumed, .. } = first.spec_parse(pos, input) {
            let rest = input.skip(consumed as int);
            lemma_many_model_of(
                step,
                separated_rule(|at: int, text: Seq<char>| more.spec_parse(at, text)),
                pos + consumed,
                rest,
            );
            lemma_many_of_same(
                separated_rule(|at: int, text: Seq<char>| more.spec_parse(at, text)),
                separated_rule(rule),
                pos + consumed,
                rest,
            );
            lemma_many_model(step, pos + consumed, rest);
        }
    }
    p
}

/// Makes a parameter block of a name and a type, and the list of options.
pub struct MakeParameterBlock;

impl TokenMerge<
    (BalsaExpression, BalsaExpression),
    Option<Vec<(String, BalsaExpression)>>,
> for MakeParameterBlock {
    type Output = ParameterBlockIntermediate;

    open spec fn spec_merge(
        &self,
        left: (ExpressionView, ExpressionView),
        right: Option<Seq<(Seq<char>, ExpressionView)>>,
    ) -> ParameterBlockView {
        ParameterBlockView {
            variable_name: left.0,
            variable_type: left.1,
            options: match right {
                Some(pairs) => Some(put_all(Seq::empty(), pairs)),
                None => None,
            },
        }
    }

    fn merge(
        &self,
        left: (BalsaExpression, BalsaExpression),
        right: Option<Vec<(String, BalsaExpression)>>,
    ) -> (out: ParameterBlockIntermediate) {
        let options = match right {
            Some(pairs) => Some(tuple_vec_to_map(pairs)),
            None => None,
        };
        ParameterBlockIntermediate { variable_name: left.0, variable_type: left.1, options }
    }
}

/// Makes the token of a parameter block of its content and its span.
pub struct ToParameterBlock;

impl TokenMap<ParameterBlockIntermediate> for ToParameterBlock {
    type Output = BalsaToken;

    open spec fn spec_apply(&self, token: ParameterBlockView, start: int, end: int) -> TokenView {
        TokenView::ParameterBlock(BlockView { start, end, token })
    }

    fn apply(&self, token: ParameterBlockIntermediate, start: i32, end: i32) -> (out: BalsaToken) {
        BalsaToken::ParameterBlock(Block { start_pos: start, end_pos: end, token })
    }
}

/// Maps a token to `Some` of it.
pub struct ToSome;

impl<T: DeepView> TokenMap<T> for ToSome {
    type Output = Option<T>;

    open spec fn spec_apply(&self, token: T::V, start: int, end: int) -> Option<T::V> {
        Some(token)
    }

    fn apply(&self, token: T, start: i32, end: i32) -> (out: Option<T>) {
        Some(token)
    }
}

/// Maps any token to no block.
pub struct ToNoBlock;

impl<T: DeepView> TokenMap<T> for ToNoBlock {
    type Output = Option<BalsaToken>;

    open spec fn spec_apply(&self, token: T::V, start: int, end: int) -> Option<TokenView> {
        None
    }

    fn apply(&self, token: T, start: i32, end: i32) -> (out: Option<BalsaToken>) {
        None
    }
}

/// The last item of a list pushed in front of the list's reverse is the
/// reverse of the whole.
proof fn lemma_reverse_push<V>(items: Seq<V>, last: V)
    ensures
        items.push(last).reverse() == seq![last] + items.reverse(),
{
    assert(items.push(last).reverse() =~= seq![last] + items.reverse());
}

/// Maps a list of optional items to the list of those that are there.
pub struct Flatten;

impl<T: DeepView> TokenMap<Vec<Option<T>>> for Flatten {
    type Output = Vec<T>;

    open spec fn spec_apply(&self, token: Seq<Option<T::V>>, start: int, end: int) -> Seq<T::V> {
        flatten(token)
    }

    fn apply(&self, token: Vec<Option<T>>, start: i32, end: i32) -> (out: Vec<T>) {
        let ghost all = token.deep_view();
        let mut rest = token;
        let mut reversed: Vec<T> = Vec::new();
        assert(reversed.deep_view().reverse() =~= Seq::empty());
        while rest.len() > 0
            invariant
                flatten(all) == flatten(rest.deep_view()) + reversed.deep_view().reverse(),
            decreases rest.len(),
        {
            let ghost before = rest.deep_view();
            let ghost kept = reversed.deep_view();
            let last = rest.pop().unwrap();
            assert(before.drop_last() =~= rest.deep_view());
            assert(before.last() == last.deep_view());
            if let Some(item) = last {
                reversed.push(item);
                assert(reversed.deep_view() =~= kept.push(item.deep_view()));
                proof {
                    lemma_reverse_push(kept, item.deep_view());
                }
                assert(flatten(rest.deep_view()).push(item.deep_view()) + kept.reverse()
                    =~= flatten(rest.deep_view()) + (seq![item.deep_view()] + kept.reverse()));
            }
        }
        let ghost wanted = flatten(all);
        let mut out: Vec<T> = Vec::new();
        assert(out.deep_view() =~= Seq::empty());
        assert(Seq::<T::V>::empty() + reversed.deep_view().reverse() =~= wanted);
        while reversed.len() > 0
            invariant
                wanted == out.deep_view() + reversed.deep_view().reverse(),
            decreases reversed.len(),
        {
            let ghost before = reversed.deep_view();
            let ghost done = out.deep_view();
            let item = reversed.pop().unwrap();
            assert(before.drop_last() =~= reversed.deep_view());
            assert(before =~= reversed.deep_view().push(item.deep_view()));
            out.push(item);
            assert(out.deep_view() =~= done.push(item.deep_view()));
            proof {
                lemma_reverse_push(reversed.deep_view(), item.deep_view());
            }
            assert(done.push(item.deep_view()) + reversed.deep_view().reverse() =~= done + (
            seq![item.deep_view()] + reversed.deep_view().reverse()));
        }
        assert(reversed.deep_view().reverse() =~= Seq::empty());
        assert(out.deep_view() + Seq::<T::V>::empty() =~= out.deep_view());
        out
    }
}

/// The parser of what stands between brackets.
pub type EnclosedP<P> = Middle<LiteralP, WsPaddedP<P>, LiteralP>;

/// The parser of an opening bracket, whitespace, what `content` matches,
/// whitespace, and `}}`.
fn enclosed_p<P: Parser>(open: LiteralP, content: P, Ghost(open_text): Ghost<Seq<char>>) -> (p:
    EnclosedP<P>)
    requires
        recognizes(open, |pos: int, input: Seq<char>| literal_model(open_text, input)),
        content.wf(),
    ensures
        recognizes(
            p,
            |pos: int, input: Seq<char>|
                enclosed_model(
                    open_text,
                    pos,
                    input,
                    |at: int, text: Seq<char>| content.spec_parse(at, text),
                ),
        ),
{
    let p = middle(open, ws_padded_p(content), closing_bracket_p());
    assert forall|pos: int, input: Seq<char>| #[trigger]
        p.spec_parse(pos, input) == enclosed_model(
            open_text,
            pos,
            input,
            |at: int, text: Seq<char>| content.spec_parse(at, text),
        ) by {
        p.left.lemma_in_bounds(pos, input);
        if let Outcome::Matched { consumed: first, .. } = p.left.spec_parse(pos, input) {
            let inside = input.skip(first as int);
            p.right.left.lemma_in_bounds(pos + first, inside);
            if let Outcome::Matched { consumed: second, .. } = p.right.left.spec_parse(
                pos + first,
                inside,
            ) {
                lemma_skip_skip(input, first, second);
            }
        }
    }
    p
}

/// The parser of a declaration block.
pub type DeclarationBlockP = FmapResult<
    EnclosedP<NonEmptyListP<DeclarationP>>,
    Total<ToDeclarationBlock>,
>;

/// The parser of a declaration block: `{{@`, one or more declarations with
/// commas between them, and `}}`.
pub fn declaration_block_p() -> (p: DeclarationBlockP)
    ensures
        recognizes(p, |pos: int, input: Seq<char>| declaration_block_model(pos, input)),
{
    let list = nonempty_list_p(declaration_p(), declaration_p(), Ghost(declaration_rule()));
    fmap(enclosed_p(declaration_open_bracket_p(), list, Ghost("{{@"@)), ToDeclarationBlock)
}

/// The parser of a list of items.
pub type ListP<P> = DelimitedList<P, DelimiterP>;

/// The parser of items with commas between them, where `item` parses an item
/// as `rule` says.
fn list_p<P: Parser>(
    item: P,
    Ghost(rule): Ghost<spec_fn(int, Seq<char>) -> Outcome<<P::Token as DeepView>::V>>,
) -> (p: ListP<P>)
    requires
        recognizes(item, rule),
    ensures
        recognizes(p, |pos: int, input: Seq<char>| list_model(rule, pos, input)),
{
    let p = delimited_list(item, list_delimeter());
    assert(productive(p.separated())) by {
        assert forall|pos: int, input: Seq<char>|
            (#[trigger] p.separated().spec_parse(pos, input)) is Matched implies p.separated().spec_parse(
            pos, input)->consumed > 0 by {
            lemma_run_len(input, ws_chars());
        }
    }
    assert forall|pos: int, input: Seq<char>| #[trigger]
        p.spec_parse(pos, input) == list_model(rule, pos, input) by {
        item.lemma_in_bounds(pos, input);
        if let Outcome::Matched { consumed, .. } = item.spec_parse(pos, input) {
            let rest = input.skip(consumed as int);
            lemma_many_model_of(p.separated(), separated_rule(rule), pos + consumed, rest);
            lemma_many_model(p.separated(), pos + consumed, rest);
        }
    }
    p
}

/// The parser of what a parameter block holds.
pub type ParameterContentP = FmapResultChain<
    VariableWithTypeP,
    Optional<Right<DelimiterP, ListP<KeyValueP>>>,
    Total<MakeParameterBlock>,
>;

/// The parser of what a parameter block holds between its brackets.
fn parameter_content_p() -> (p: ParameterContentP)
    ensures
        recognizes(p, |pos: int, input: Seq<char>| parameter_content_model(pos, input)),
{
    let p = fmap_chain(
        variable_with_type_p(),
        optional(right(list_delimeter(), list_p(key_value_p(), Ghost(key_value_rule())))),
        MakeParameterBlock,
    );
    assert forall|pos: int, input: Seq<char>| #[trigger]
        p.spec_parse(pos, input) == parameter_content_model(pos, input) by {
        p.left.lemma_in_bounds(pos, input);
    }
    p
}

/// The parser of a parameter block.
pub type ParameterBlockP = FmapResult<EnclosedP<ParameterContentP>, Total<ToParameterBlock>>;

/// The parser of a parameter block: `{{`, a name and a type, options, and `}}`.
pub fn parameter_block_p() -> (p: ParameterBlockP)
    ensures
        recognizes(p, |pos: int, input: Seq<char>| parameter_block_model(pos, input)),
{
    fmap(
        enclosed_p(parameter_open_bracket_p(), parameter_content_p(), Ghost("{{"@)),
        ToParameterBlock,
    )
}

/// The parser of a block.
pub type BlockP = Or<ParameterBlockP, DeclarationBlockP>;

/// The parser of a block of either kind.
pub fn block_p() -> (p: BlockP)
    ensures
        recognizes(p, |pos: int, input: Seq<char>| block_model(pos, input)),
{
    or(parameter_block_p(), declaration_block_p())
}

/// The parser of one step of scanning.
pub type ScanStepP = Right<
    Optional<TakeUntilChar>,
    Or<FmapResult<BlockP, Total<ToSome>>, FmapResult<CharParser, Total<ToNoBlock>>>,
>;

/// The parser of one step of scanning a document.
fn scan_step_p() -> (p: ScanStepP)
    ensures
        recognizes(p, scan_rule()),
        productive(p),
{
    let p = right(
        optional(take_until_char_parser('{')),
        or(fmap(block_p(), ToSome), fmap(char_parser('{'), ToNoBlock)),
    );
    assert forall|pos: int, input: Seq<char>| #[trigger]
        p.spec_parse(pos, input) == scan_rule()(pos, input) by {
        lemma_run_len(input, all_but('{'));
    }
    assert forall|pos: int, input: Seq<char>|
        (#[trigger] p.spec_parse(pos, input)) is Matched implies p.spec_parse(
            pos,
            input,
        )->consumed > 0 by {
        assert(p.spec_parse(pos, input) == scan_step_model(pos, input));
        lemma_scan_step_consumes(pos, input);
    }
    p
}

/// The parser of a document.
pub type BalsaP = FmapResult<Many<ScanStepP>, Total<Flatten>>;

/// The parser of a document, which returns the blocks in the order of the text.
pub fn balsa_p() -> (p: BalsaP)
    ensures
        recognizes(p, |pos: int, input: Seq<char>| document_model(pos, input)),
{
    let step = scan_step_p();
    let p = fmap(many(step), Flatten);
    assert forall|pos: int, input: Seq<char>| #[trigger]
        p.spec_parse(pos, input) == document_model(pos, input) by {
        lemma_many_model_of(step, scan_rule(), pos, input);
    }
    p
}

/// The parser of templates.
pub struct BalsaParser;

impl BalsaParser {
    /// Parses a template into the list of its blocks, which lie within the
    /// template in the order of the text and without overlap.
    pub fn parse(input: String) -> (r: Result<Vec<BalsaToken>, BalsaError>)
        ensures
            match parse_model(input@) {
                Some(tokens) => r is Ok && r->Ok_0.deep_view() == tokens,
                None => r is Err && r->Err_0@ == (ErrorView::TemplateParseFail { pos: 0 }),
            },
            r matches Ok(tokens) ==> spans_ordered(
                token_spans(tokens.deep_view()),
                0,
                input@.len() as int,
            ),
    {
        if input.as_str().unicode_len() > 2147483647 {
            return Err(BalsaError::generic_template_parse_fail(0));
        }
        proof {
            lemma_document_ordered(input@);
        }
        let p = balsa_p();
        match p.parse(0, input.as_str()) {
            Ok((_, parsed)) => Ok(parsed.token),
            Err(_) => Err(BalsaError::generic_template_parse_fail(0)),
        }
    }
}

} // verus!
