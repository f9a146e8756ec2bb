//! The grammar of templates, as mathematics: what the blocks hold, and for each
//! rule its model, a function from a position and a text to an outcome.
//!
//! The rules, leaves first: whitespace, identifiers, string and integer
//! literals, type keywords, expressions, options and declarations, the two
//! kinds of block, and the scanning of a whole document.

use crate::balsa_types::{BalsaType, ExpressionView, ValueView};
use crate::parser::{all_but, and_then, map_span, map_token, or_else, run_len, take_run, Outcome};
use crate::repetition::many_of;
use crate::string_map::put_all;
use crate::text::{is_digit, parse_digits};
use vstd::prelude::*;

verus! {

/// What a [`Block`] holds.
pub struct BlockView<V> {
    pub start: int,
    pub end: int,
    pub token: V,
}

/// What a [`Declaration`] holds.
pub struct DeclarationView {
    pub identifier: ExpressionView,
    pub variable_type: ExpressionView,
    pub value: ExpressionView,
}

/// What a [`ParameterBlockIntermediate`] holds.
pub struct ParameterBlockView {
    pub variable_name: ExpressionView,
    pub variable_type: ExpressionView,
    pub options: Option<Seq<(Seq<char>, ExpressionView)>>,
}

/// What a [`BalsaToken`] holds.
pub enum TokenView {
    DeclarationBlock(BlockView<Seq<DeclarationView>>),
    ParameterBlock(BlockView<ParameterBlockView>),
}

/// The span of a block.
pub open spec fn token_span(token: TokenView) -> (int, int) {
    match token {
        TokenView::ParameterBlock(block) => (block.start, block.end),
        TokenView::DeclarationBlock(block) => (block.start, block.end),
    }
}

/// The characters that count as whitespace: space, tab and newline.
pub open spec fn ws_chars() -> Set<char> {
    set![' ', '\t', '\n']
}

/// The characters of which identifiers are made: letters, digits, `_` and `-`.
pub open spec fn identifier_chars() -> Set<char> {
    Set::new(
        |c: char| ('a' <= c <= 'z') || ('A' <= c <= 'Z') || is_digit(c) || c == '_' || c == '-',
    )
}

/// The ten digits.
pub open spec fn digit_chars() -> Set<char> {
    Set::new(|c: char| is_digit(c))
}

/// A fixed text: it matches where the input starts with it.
pub open spec fn literal_model(literal: Seq<char>, input: Seq<char>) -> Outcome<()> {
    if literal.is_prefix_of(input) {
        Outcome::Matched { consumed: literal.len(), token: () }
    } else {
        Outcome::NotMatched
    }
}

/// Whitespace: a run of whitespace characters, which may be empty.
pub open spec fn ws_model(input: Seq<char>) -> Outcome<()> {
    Outcome::Matched { consumed: run_len(input, ws_chars()), token: () }
}

/// What `inner` matches, with whitespace before and after it. `inner` is the
/// outcome of the padded rule at the end of the leading whitespace.
pub open spec fn padded_model<V>(input: Seq<char>, inner: spec_fn(nat) -> Outcome<V>) -> Outcome<
    V,
> {
    and_then(
        ws_model(input),
        |lead: nat, u: ()|
            and_then(
                inner(lead),
                |width: nat, token: V|
                    map_token(ws_model(input.skip((lead + width) as int)), |u: ()| token),
            ),
    )
}

/// A delimiter: the character `delimiter` with whitespace around it.
pub open spec fn delimiter_model(delimiter: char, input: Seq<char>) -> Outcome<()> {
    padded_model(
        input,
        |lead: nat|
            {
                let rest = input.skip(lead as int);
                if rest.len() > 0 && rest[0] == delimiter {
                    Outcome::Matched { consumed: 1, token: () }
                } else {
                    Outcome::NotMatched
                }
            },
    )
}

/// An identifier: one or more identifier characters.
pub open spec fn identifier_model(input: Seq<char>) -> Outcome<Seq<char>> {
    take_run(input, identifier_chars())
}

/// A string literal: one or more characters between two double quotes, none
/// of them a double quote. Nothing is escaped.
pub open spec fn string_literal_model(input: Seq<char>) -> Outcome<ValueView> {
    let n = run_len(input.skip(1), all_but('"'));
    if input.len() > 0 && input[0] == '"' && n > 0 && n + 1 < input.len() {
        Outcome::Matched { consumed: n + 2, token: ValueView::String(input.subrange(1, n + 1 as int)) }
    } else {
        Outcome::NotMatched
    }
}

/// An integer literal: one or more digits. Digits that stand for a number too
/// large for 64 bits are malformed input.
pub open spec fn int_literal_model(pos: int, input: Seq<char>) -> Outcome<ValueView> {
    let n = run_len(input, digit_chars());
    if n == 0 {
        Outcome::NotMatched
    } else {
        match parse_digits(input.take(n as int)) {
            Some(value) => Outcome::Matched { consumed: n, token: ValueView::Integer(value) },
            None => Outcome::Malformed { at: pos },
        }
    }
}

/// A type keyword: `string`, `color`, `int` or `float`, tried in this order.
pub open spec fn type_model(input: Seq<char>) -> Outcome<BalsaType> {
    or_else(
        map_token(literal_model("string"@, input), |u: ()| BalsaType::String),
        or_else(
            map_token(literal_model("color"@, input), |u: ()| BalsaType::Color),
            or_else(
                map_token(literal_model("int"@, input), |u: ()| BalsaType::Integer),
                map_token(literal_model("float"@, input), |u: ()| BalsaType::Float),
            ),
        ),
    )
}

/// A value literal: a string literal, else an integer literal.
pub open spec fn value_model(pos: int, input: Seq<char>) -> Outcome<ValueView> {
    or_else(string_literal_model(input), int_literal_model(pos, input))
}

/// An expression: a value literal, else a type keyword, else an identifier.
pub open spec fn expr_model(pos: int, input: Seq<char>) -> Outcome<ExpressionView> {
    or_else(
        map_token(value_model(pos, input), |v: ValueView| ExpressionView::Value(v)),
        or_else(
            map_token(type_model(input), |t: BalsaType| ExpressionView::Type(t)),
            map_token(identifier_model(input), |s: Seq<char>| ExpressionView::Identifier(s)),
        ),
    )
}

/// A name and a type: two expressions with a colon between them.
pub open spec fn name_type_model(pos: int, input: Seq<char>) -> Outcome<
    (ExpressionView, ExpressionView),
> {
    and_then(
        expr_model(pos, input),
        |first: nat, name: ExpressionView|
            and_then(
                delimiter_model(':', input.skip(first as int)),
                |second: nat, u: ()|
                    map_token(
                        expr_model(pos + first + second, input.skip((first + second) as int)),
                        |type_: ExpressionView| (name, type_),
                    ),
            ),
    )
}

/// An option: an identifier and an expression with a colon between them.
pub open spec fn key_value_model(pos: int, input: Seq<char>) -> Outcome<
    (Seq<char>, ExpressionView),
> {
    and_then(
        identifier_model(input),
        |first: nat, key: Seq<char>|
            and_then(
                delimiter_model(':', input.skip(first as int)),
                |second: nat, u: ()|
                    map_token(
                        expr_model(pos + first + second, input.skip((first + second) as int)),
                        |value: ExpressionView| (key, value),
                    ),
            ),
    )
}

/// The rule of an option, as a function.
pub open spec fn key_value_rule() -> spec_fn(int, Seq<char>) -> Outcome<
    (Seq<char>, ExpressionView),
> {
    |pos: int, input: Seq<char>| key_value_model(pos, input)
}

/// A declaration: a name and a type, an equals sign, and an expression.
pub open spec fn declaration_model(pos: int, input: Seq<char>) -> Outcome<DeclarationView> {
    and_then(
        name_type_model(pos, input),
        |first: nat, name_type: (ExpressionView, ExpressionView)|
            and_then(
                delimiter_model('=', input.skip(first as int)),
                |second: nat, u: ()|
                    map_token(
                        expr_model(pos + first + second, input.skip((first + second) as int)),
                        |value: ExpressionView|
                            DeclarationView {
                                identifier: name_type.0,
                                variable_type: name_type.1,
                                value,
                            },
                    ),
            ),
    )
}

/// The rule of a declaration, as a function.
pub open spec fn declaration_rule() -> spec_fn(int, Seq<char>) -> Outcome<DeclarationView> {
    |pos: int, input: Seq<char>| declaration_model(pos, input)
}

/// The rule of a comma and an item after it, of which the item's token is kept.
pub open spec fn separated_rule<V>(item: spec_fn(int, Seq<char>) -> Outcome<V>) -> spec_fn(
    int,
    Seq<char>,
) -> Outcome<V> {
    |pos: int, input: Seq<char>|
        and_then(
            delimiter_model(',', input),
            |width: nat, u: ()| item(pos + width, input.skip(width as int)),
        )
}

/// A list of one or more items with commas between them.
pub open spec fn nonempty_list_model<V>(
    item: spec_fn(int, Seq<char>) -> Outcome<V>,
    pos: int,
    input: Seq<char>,
) -> Outcome<Seq<V>> {
    and_then(
        item(pos, input),
        |width: nat, first: V|
            map_token(
                many_of(separated_rule(item), pos + width, input.skip(width as int)),
                |more: Seq<V>| seq![first] + more,
            ),
    )
}

/// A list of items with commas between them, which may be empty. A comma
/// that no item follows is not part of the list.
pub open spec fn list_model<V>(
    item: spec_fn(int, Seq<char>) -> Outcome<V>,
    pos: int,
    input: Seq<char>,
) -> Outcome<Seq<V>> {
    match item(pos, input) {
        Outcome::NotMatched => Outcome::Matched { consumed: 0, token: Seq::empty() },
        _ => nonempty_list_model(item, pos, input),
    }
}

/// What stands between an opening bracket and `}}`: whitespace, the content,
/// and whitespace.
pub open spec fn enclosed_model<V>(
    open: Seq<char>,
    pos: int,
    input: Seq<char>,
    content: spec_fn(int, Seq<char>) -> Outcome<V>,
) -> Outcome<V> {
    and_then(
        literal_model(open, input),
        |first: nat, u: ()|
            {
                let inside = input.skip(first as int);
                and_then(
                    padded_model(
                        inside,
                        |lead: nat| content(pos + first + lead, inside.skip(lead as int)),
                    ),
                    |second: nat, token: V|
                        map_token(
                            literal_model("}}"@, input.skip((first + second) as int)),
                            |u: ()| token,
                        ),
                )
            },
    )
}

/// A declaration block: `{{@`, one or more declarations with commas between
/// them, and `}}`. Its span is that of the whole block.
pub open spec fn declaration_block_model(pos: int, input: Seq<char>) -> Outcome<TokenView> {
    map_span(
        enclosed_model(
            "{{@"@,
            pos,
            input,
            |at: int, text: Seq<char>| nonempty_list_model(declaration_rule(), at, text),
        ),
        |width: nat, declarations: Seq<DeclarationView>|
            TokenView::DeclarationBlock(
                BlockView { start: pos, end: pos + width, token: declarations },
            ),
    )
}

/// The options of a parameter block: a comma and a list of options, or nothing.
pub open spec fn options_model(pos: int, input: Seq<char>) -> Outcome<
    Option<Seq<(Seq<char>, ExpressionView)>>,
> {
    match and_then(
        delimiter_model(',', input),
        |width: nat, u: ()| list_model(key_value_rule(), pos + width, input.skip(width as int)),
    ) {
        Outcome::Matched { consumed, token } => Outcome::Matched { consumed, token: Some(token) },
        Outcome::NotMatched => Outcome::Matched { consumed: 0, token: None },
        Outcome::Malformed { at } => Outcome::Malformed { at },
    }
}

/// What a parameter block holds between its brackets: a name and a type, and
/// the options. Of two options with the same name the later one stays.
pub open spec fn parameter_content_model(pos: int, input: Seq<char>) -> Outcome<
    ParameterBlockView,
> {
    and_then(
        name_type_model(pos, input),
        |first: nat, name_type: (ExpressionView, ExpressionView)|
            map_token(
                options_model(pos + first, input.skip(first as int)),
                |options: Option<Seq<(Seq<char>, ExpressionView)>>|
                    ParameterBlockView {
                        variable_name: name_type.0,
                        variable_type: name_type.1,
                        options: match options {
                            Some(pairs) => Some(put_all(Seq::empty(), pairs)),
                            None => None,
                        },
                    },
            ),
    )
}

/// A parameter block: `{{`, a name and a type, options, and `}}`. Its span is
/// that of the whole block.
pub open spec fn parameter_block_model(pos: int, input: Seq<char>) -> Outcome<TokenView> {
    map_span(
        enclosed_model(
            "{{"@,
            pos,
            input,
            |at: int, text: Seq<char>| parameter_content_model(at, text),
        ),
        |width: nat, content: ParameterBlockView|
            TokenView::ParameterBlock(BlockView { start: pos, end: pos + width, token: content }),
    )
}

/// A block: a parameter block, else a declaration block.
pub open spec fn block_model(pos: int, input: Seq<char>) -> Outcome<TokenView> {
    or_else(parameter_block_model(pos, input), declaration_block_model(pos, input))
}

/// One step of scanning a document: the text before the next `{`, which may
/// be empty, and then a block, or else the `{` alone, which is then text.
pub open spec fn scan_step_model(pos: int, input: Seq<char>) -> Outcome<Option<TokenView>> {
    let width = run_len(input, all_but('{'));
    let rest = input.skip(width as int);
    and_then(
        Outcome::Matched { consumed: width, token: () },
        |width: nat, u: ()|
            or_else(
                map_token(block_model(pos + width, rest), |token: TokenView| Some(token)),
                if rest.len() > 0 && rest[0] == '{' {
                    Outcome::Matched { consumed: 1, token: None }
                } else {
                    Outcome::NotMatched
                },
            ),
    )
}

/// The rule of one step of scanning, as a function.
pub open spec fn scan_rule() -> spec_fn(int, Seq<char>) -> Outcome<Option<TokenView>> {
    |pos: int, input: Seq<char>| scan_step_model(pos, input)
}

/// The items of a list that are there, in order.
pub open spec fn flatten<V>(items: Seq<Option<V>>) -> Seq<V>
    decreases items.len(),
{
    if items.len() == 0 {
        Seq::empty()
    } else {
        match items.last() {
            Some(item) => flatten(items.drop_last()).push(item),
            None => flatten(items.drop_last()),
        }
    }
}

/// A document: the blocks that scanning finds, in the order of the text.
pub open spec fn document_model(pos: int, input: Seq<char>) -> Outcome<Seq<TokenView>> {
    map_token(
        many_of(scan_rule(), pos, input),
        |found: Seq<Option<TokenView>>| flatten(found),
    )
}

/// The blocks of a template: those of the document, where the template can be
/// parsed. A template of more characters than a position can count is not
/// parsed, nor is one in which a block holds malformed input.
pub open spec fn parse_model(raw: Seq<char>) -> Option<Seq<TokenView>> {
    if raw.len() > i32::MAX {
        None
    } else {
        match document_model(0, raw) {
            Outcome::Matched { token, .. } => Some(token),
            _ => None,
        }
    }
}

/// In a text of which `first` characters and then `second` more are within
/// it, to skip the first and then the second is to skip both.
pub proof fn lemma_skip_skip(input: Seq<char>, first: nat, second: nat)
    requires
        first + second <= input.len(),
    ensures
        input.skip(first as int).skip(second as int) == input.skip((first + second) as int),
{
    assert(input.skip(first as int).skip(second as int) =~= input.skip((first + second) as int));
}

/// Two rules that say the same everywhere give the same repetition.
pub proof fn lemma_many_of_same<V>(
    one: spec_fn(int, Seq<char>) -> Outcome<V>,
    other: spec_fn(int, Seq<char>) -> Outcome<V>,
    pos: int,
    input: Seq<char>,
)
    requires
        forall|at: int, text: Seq<char>| #[trigger] one(at, text) == other(at, text),
    ensures
        many_of(one, pos, input) == many_of(other, pos, input),
    decreases input.len(),
{
    if let Outcome::Matched { consumed, token } = one(pos, input) {
        if 0 < consumed <= input.len() {
            lemma_many_of_same(one, other, pos + consumed, input.skip(consumed as int));
        }
    }
}

/// A block consumes at least its opening bracket, and its span is what it consumes.
pub proof fn lemma_block_span(pos: int, input: Seq<char>)
    ensures
        match block_model(pos, input) {
            Outcome::Matched { consumed, token } => {
                &&& consumed >= 2
                &&& token_span(token) == (pos, pos + consumed)
            },
            _ => true,
        },
{
    reveal_strlit("{{");
    reveal_strlit("{{@");
}

/// A step of scanning consumes at least one character.
pub proof fn lemma_scan_step_consumes(pos: int, input: Seq<char>)
    ensures
        scan_step_model(pos, input) matches Outcome::Matched { consumed, .. } ==> consumed > 0,
{
    let width = run_len(input, all_but('{'));
    lemma_block_span(pos + width, input.skip(width as int));
}

} // verus!
