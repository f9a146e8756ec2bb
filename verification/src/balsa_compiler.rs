//! The compiler: from the blocks of a template to the constants it declares
//! and the instructions that say what replaces each parameter block.

use crate::balsa_parser::{BalsaToken, Block, Declaration, ParameterBlockIntermediate};
use crate::grammar::{BlockView, DeclarationView, ParameterBlockView, TokenView};
use crate::balsa_type_cast::cast;
use crate::balsa_types::{type_of, BalsaType, BalsaValue, ExpressionView, ValueView};
use crate::errors::{BalsaError, ErrorView};
use crate::parameter_names::DEFAULT_VALUE;
use crate::string_map::{put, same_text, StringMap};
use vstd::prelude::*;

verus! {

/// A parameter of a template: its name, its type, and its default value,
/// which is of that type.
#[derive(Debug, PartialEq)]
pub struct ParameterDescription {
    pub variable_name: String,
    pub variable_type: BalsaType,
    pub default_value: Option<BalsaValue>,
}

/// What a [`ParameterDescription`] holds.
pub struct ParameterView {
    pub variable_name: Seq<char>,
    pub variable_type: BalsaType,
    pub default_value: Option<ValueView>,
}

impl View for ParameterDescription {
    type V = ParameterView;

    open spec fn view(&self) -> ParameterView {
        ParameterView {
            variable_name: self.variable_name@,
            variable_type: self.variable_type,
            default_value: match self.default_value {
                Some(v) => Some(v@),
                None => None,
            },
        }
    }
}

/// What takes the place of a span of the template.
#[derive(Debug, PartialEq)]
pub enum ReplaceWith {
    /// The value of a parameter.
    Parameter(ParameterDescription),
    /// Nothing.
    Nothing,
}

/// What a [`ReplaceWith`] holds.
pub enum ReplaceWithView {
    Parameter(ParameterView),
    Nothing,
}

impl View for ReplaceWith {
    type V = ReplaceWithView;

    open spec fn view(&self) -> ReplaceWithView {
        match self {
            ReplaceWith::Parameter(p) => ReplaceWithView::Parameter(p@),
            ReplaceWith::Nothing => ReplaceWithView::Nothing,
        }
    }
}

/// An instruction to replace the span `[start_pos, end_pos)` of the template.
#[derive(Debug, PartialEq)]
pub struct ReplacementInstruction {
    pub start_pos: usize,
    pub end_pos: usize,
    pub replace_with: ReplaceWith,
}

/// What a [`ReplacementInstruction`] holds.
pub struct InstructionView {
    pub start: nat,
    pub end: nat,
    pub replace_with: ReplaceWithView,
}

impl View for ReplacementInstruction {
    type V = InstructionView;

    open spec fn view(&self) -> InstructionView {
        InstructionView {
            start: self.start_pos as nat,
            end: self.end_pos as nat,
            replace_with: self.replace_with@,
        }
    }
}

impl DeepView for ReplacementInstruction {
    type V = InstructionView;

    open spec fn deep_view(&self) -> InstructionView {
        self.view()
    }
}

/// The constants that a template declares, by name.
#[derive(Debug, PartialEq)]
pub struct Scope {
    pub variables: StringMap<BalsaValue>,
}

/// A compiled template: the constants it declares, and the instructions in
/// the order of the blocks they come from. It is made once and never changed.
#[derive(Debug, PartialEq)]
pub struct CompiledTemplate {
    pub global_scope: Scope,
    pub replacements: Vec<ReplacementInstruction>,
}

/// What a [`CompiledTemplate`] holds.
pub struct CompiledView {
    pub global_scope: Seq<(Seq<char>, ValueView)>,
    pub replacements: Seq<InstructionView>,
}

impl View for CompiledTemplate {
    type V = CompiledView;

    open spec fn view(&self) -> CompiledView {
        CompiledView {
            global_scope: self.global_scope.variables@,
            replacements: self.replacements.deep_view(),
        }
    }
}

/// The default value that the options of a parameter block of type
/// `variable_type` at `pos` give, taken in order. The only option is
/// `defaultValue`: it holds a value, which is cast to the block's type. The
/// first option that is not as it should be gives the error.
pub open spec fn options_default(
    options: Seq<(Seq<char>, ExpressionView)>,
    pos: nat,
    variable_type: BalsaType,
) -> Result<Option<ValueView>, ErrorView>
    decreases options.len(),
{
    if options.len() == 0 {
        Ok(None)
    } else {
        match options_default(options.drop_last(), pos, variable_type) {
            Err(e) => Err(e),
            Ok(_) => {
                let (key, expression) = options.last();
                if key == DEFAULT_VALUE@ {
                    match expression {
                        ExpressionView::Value(value) => match cast(value, variable_type) {
                            Some(default) => Ok(Some(default)),
                            None => Err(
                                ErrorView::InvalidTypeCast {
                                    pos,
                                    value,
                                    from: type_of(value),
                                    to: variable_type,
                                },
                            ),
                        },
                        _ => Err(ErrorView::InvalidExpression { pos, expression }),
                    }
                } else {
                    Err(ErrorView::InvalidParameter { pos, parameter_name: key })
                }
            },
        }
    }
}

/// The instruction that a parameter block gives, or the first error in it:
/// the name is an identifier, the type is a type, and the options give the
/// default value.
pub open spec fn compile_parameter(block: BlockView<ParameterBlockView>) -> Result<
    InstructionView,
    ErrorView,
> {
    let pos = block.start as nat;
    match block.token.variable_name {
        ExpressionView::Identifier(name) => match block.token.variable_type {
            ExpressionView::Type(variable_type) => {
                let default = match block.token.options {
                    Some(options) => options_default(options, pos, variable_type),
                    None => Ok(None),
                };
                match default {
                    Ok(default_value) => Ok(
                        InstructionView {
                            start: block.start as nat,
                            end: block.end as nat,
                            replace_with: ReplaceWithView::Parameter(
                                ParameterView { variable_name: name, variable_type, default_value },
                            ),
                        },
                    ),
                    Err(e) => Err(e),
                }
            },
            expression => Err(ErrorView::InvalidTypeExpression { pos, expression }),
        },
        expression => Err(ErrorView::InvalidIdentifierForParameterBlock { pos, expression }),
    }
}

/// The name and the value that a declaration of the block at `pos` gives, or
/// the first error in it: the name is an identifier, the type is a type, the
/// value is a value, and the value can be cast to the type.
pub open spec fn compile_declaration(declaration: DeclarationView, pos: nat) -> Result<
    (Seq<char>, ValueView),
    ErrorView,
> {
    match declaration.identifier {
        ExpressionView::Identifier(name) => match declaration.variable_type {
            ExpressionView::Type(variable_type) => match declaration.value {
                ExpressionView::Value(value) => match cast(value, variable_type) {
                    Some(constant) => Ok((name, constant)),
                    None => Err(
                        ErrorView::InvalidTypeCast {
                            pos,
                            value,
                            from: type_of(value),
                            to: variable_type,
                        },
                    ),
                },
                expression => Err(ErrorView::InvalidExpression { pos, expression }),
            },
            expression => Err(ErrorView::InvalidTypeExpression { pos, expression }),
        },
        expression => Err(ErrorView::InvalidIdentifierForDeclarationBlock { pos, expression }),
    }
}

/// The constants after the declarations of the block at `pos` are added to
/// `scope` in order, or the first error in them. A constant that is declared
/// again is overwritten.
pub open spec fn compile_declarations(
    declarations: Seq<DeclarationView>,
    pos: nat,
    scope: Seq<(Seq<char>, ValueView)>,
) -> Result<Seq<(Seq<char>, ValueView)>, ErrorView>
    decreases declarations.len(),
{
    if declarations.len() == 0 {
        Ok(scope)
    } else {
        match compile_declarations(declarations.drop_last(), pos, scope) {
            Err(e) => Err(e),
            Ok(earlier) => match compile_declaration(declarations.last(), pos) {
                Ok((name, constant)) => Ok(put(earlier, name, constant)),
                Err(e) => Err(e),
            },
        }
    }
}

/// The template that a list of blocks compiles to, or the first error in
/// them. Each parameter block gives one instruction, in the order of the
/// blocks. A declaration block gives constants and no instruction.
pub open spec fn compile_tokens(tokens: Seq<TokenView>) -> Result<CompiledView, ErrorView>
    decreases tokens.len(),
{
    if tokens.len() == 0 {
        Ok(CompiledView { global_scope: Seq::empty(), replacements: Seq::empty() })
    } else {
        match compile_tokens(tokens.drop_last()) {
            Err(e) => Err(e),
            Ok(earlier) => match tokens.last() {
                TokenView::ParameterBlock(block) => match compile_parameter(block) {
                    Ok(instruction) => Ok(
                        CompiledView {
                            global_scope: earlier.global_scope,
                            replacements: earlier.replacements.push(instruction),
                        },
                    ),
                    Err(e) => Err(e),
                },
                TokenView::DeclarationBlock(block) => match compile_declarations(
                    block.token,
                    block.start as nat,
                    earlier.global_scope,
                ) {
                    Ok(global_scope) => Ok(
                        CompiledView { global_scope, replacements: earlier.replacements },
                    ),
                    Err(e) => Err(e),
                },
            },
        }
    }
}

/// The span of a block starts at or after the start of the template and does
/// not end before it starts.
pub open spec fn valid_span(token: TokenView) -> bool {
    match token {
        TokenView::ParameterBlock(block) => 0 <= block.start <= block.end,
        TokenView::DeclarationBlock(block) => 0 <= block.start <= block.end,
    }
}

/// The state of a compilation: what the blocks compiled so far have given.
pub struct Compiler {
    pub global_scope: Scope,
    pub replacements: Vec<ReplacementInstruction>,
}

impl View for Compiler {
    type V = CompiledView;

    open spec fn view(&self) -> CompiledView {
        CompiledView {
            global_scope: self.global_scope.variables@,
            replacements: self.replacements.deep_view(),
        }
    }
}

impl Compiler {
    /// Compiles a list of blocks. The first block that is not as it should be
    /// gives the error, and nothing else is returned then.
    pub fn compile_from_tokens(tokens: &[BalsaToken]) -> (r: Result<CompiledTemplate, BalsaError>)
        requires
            forall|i: int| 0 <= i < tokens.len() ==> valid_span(#[trigger] tokens.deep_view()[i]),
        ensures
            match compile_tokens(tokens.deep_view()) {
                Ok(compiled) => r is Ok && r->Ok_0@ == compiled,
                Err(e) => r is Err && r->Err_0@ == e,
            },
    {
        let ghost all = tokens.deep_view();
        let variables: StringMap<BalsaValue> = StringMap::new();
        let mut compiler = Compiler {
            global_scope: Scope { variables },
            replacements: Vec::new(),
        };
        assert(compiler.replacements.deep_view() =~= Seq::empty());
        assert(all.take(0) =~= Seq::empty());
        let mut i: usize = 0;
        while i < tokens.len()
            invariant
                i <= tokens.len(),
                all == tokens.deep_view(),
                forall|k: int| 0 <= k < tokens.len() ==> valid_span(#[trigger] all[k]),
                compile_tokens(all.take(i as int)) == Ok::<CompiledView, ErrorView>(compiler@),
            decreases tokens.len() - i,
        {
            assert(all.take(i + 1).drop_last() =~= all.take(i as int));
            assert(all.take(i + 1).last() == all[i as int]);
            assert(valid_span(all[i as int]));
            proof {
                lemma_compile_tokens_error(all, i + 1);
            }
            let next = match &tokens[i] {
                BalsaToken::ParameterBlock(p) => compiler.parse_param_block(p),
                BalsaToken::DeclarationBlock(d) => compiler.parse_dec_block(d),
            };
            match next {
                Ok(state) => {
                    compiler = state;
                },
                Err(e) => {
                    return Err(e);
                },
            }
            i += 1;
        }
        assert(all.take(i as int) =~= all);
        Ok(
            CompiledTemplate {
                global_scope: compiler.global_scope,
                replacements: compiler.replacements,
            },
        )
    }

    /// Compiles a parameter block: adds its instruction to what was compiled
    /// so far.
    #[verifier::loop_isolation(false)]
    pub fn parse_param_block(self, block: &Block<ParameterBlockIntermediate>) -> (r: Result<
        Compiler,
        BalsaError,
    >)
        requires
            0 <= block.start_pos <= block.end_pos,
        ensures
            match compile_parameter(block.deep_view()) {
                Ok(instruction) => r is Ok && r->Ok_0@ == (CompiledView {
                    global_scope: self@.global_scope,
                    replacements: self@.replacements.push(instruction),
                }),
                Err(e) => r is Err && r->Err_0@ == e,
            },
    {
        let pos: usize = block.start_pos as usize;
        let name = match block.token.variable_name.as_identifier() {
            Some(name) => name,
            None => {
                return Err(
                    BalsaError::invalid_identifier_in_parameter_block(
                        pos,
                        block.token.variable_name.clone(),
                    ),
                );
            },
        };
        let type_ = match block.token.variable_type.as_type() {
            Some(type_) => type_,
            None => {
                return Err(
                    BalsaError::invalid_type_expression(pos, block.token.variable_type.clone()),
                );
            },
        };
        let mut default_value: Option<BalsaValue> = None;
        if let Some(map) = &block.token.options {
            let ghost options = map@;
            assert(options.take(0) =~= Seq::empty());
            let mut i: usize = 0;
            let count: usize = map.len();
            while i < count
                invariant
                    i <= count == options.len(),
                    options == map@,
                    options_default(options.take(i as int), pos as nat, type_) == Ok::<
                        Option<ValueView>,
                        ErrorView,
                    >(default_value.deep_view()),
                decreases count - i,
            {
                assert(options.take(i + 1).drop_last() =~= options.take(i as int));
                assert(options.take(i + 1).last() == options[i as int]);
                proof {
                    lemma_options_default_error(options, i + 1, pos as nat, type_);
                }
                let (key, value) = map.entry(i);
                if same_text(key.as_str(), DEFAULT_VALUE) {
                    let literal = match value.as_value() {
                        Some(literal) => literal,
                        None => {
                            return Err(BalsaError::invalid_expression(pos, value.clone()));
                        },
                    };
                    match literal.try_cast(type_) {
                        Ok(cast_value) => {
                            default_value = Some(cast_value);
                        },
                        Err(error) => {
                            return Err(
                                BalsaError::invalid_type_cast(
                                    pos,
                                    error.value,
                                    error.from,
                                    error.to,
                                ),
                            );
                        },
                    }
                } else {
                    return Err(BalsaError::invalid_parameter(pos, key.clone()));
                }
                i += 1;
            }
            assert(options.take(i as int) =~= options);
        }
        let instr = ReplacementInstruction {
            start_pos: pos,
            end_pos: block.end_pos as usize,
            replace_with: ReplaceWith::Parameter(
                ParameterDescription { variable_name: name, variable_type: type_, default_value },
            ),
        };
        let ghost before = self.replacements.deep_view();
        let mut replacements = self.replacements;
        replacements.push(instr);
        assert(replacements.deep_view() =~= before.push(instr@));
        Ok(Compiler { global_scope: self.global_scope, replacements })
    }

    /// Compiles a declaration block: adds its constants to what was compiled
    /// so far.
    #[verifier::loop_isolation(false)]
    pub fn parse_dec_block(self, block: &Block<Vec<Declaration>>) -> (r: Result<
        Compiler,
        BalsaError,
    >)
        requires
            0 <= block.start_pos <= block.end_pos,
        ensures
            match compile_declarations(
                block.deep_view().token,
                block.deep_view().start as nat,
                self@.global_scope,
            ) {
                Ok(global_scope) => r is Ok && r->Ok_0@ == (CompiledView {
                    global_scope,
                    replacements: self@.replacements,
                }),
                Err(e) => r is Err && r->Err_0@ == e,
            },
    {
        let pos: usize = block.start_pos as usize;
        let ghost declarations = block.token.deep_view();
        let ghost start = self.global_scope.variables@;
        let mut variables = self.global_scope.variables;
        assert(declarations.take(0) =~= Seq::empty());
        let mut i: usize = 0;
        while i < block.token.len()
            invariant
                i <= block.token.len(),
                declarations == block.token.deep_view(),
                compile_declarations(declarations.take(i as int), pos as nat, start) == Ok::<
                    Seq<(Seq<char>, ValueView)>,
                    ErrorView,
                >(variables@),
            decreases block.token.len() - i,
        {
            assert(declarations.take(i + 1).drop_last() =~= declarations.take(i as int));
            assert(declarations.take(i + 1).last() == declarations[i as int]);
            proof {
                lemma_compile_declarations_error(declarations, i + 1, pos as nat, start);
            }
            let declaration = &block.token[i];
            let identifier = match declaration.identifier.as_identifier() {
                Some(identifier) => identifier,
                None => {
                    return Err(
                        BalsaError::invalid_identifier_in_declaration_block(
                            pos,
                            declaration.identifier.clone(),
                        ),
                    );
                },
            };
            let type_ = match declaration.variable_type.as_type() {
                Some(type_) => type_,
                None => {
                    return Err(
                        BalsaError::invalid_type_expression(
                            pos,
                            declaration.variable_type.clone(),
                        ),
                    );
                },
            };
            let literal = match declaration.value.as_value() {
                Some(literal) => literal,
                None => {
                    return Err(BalsaError::invalid_expression(pos, declaration.value.clone()));
                },
            };
            let value = match literal.try_cast(type_) {
                Ok(value) => value,
                Err(error) => {
                    return Err(
                        BalsaError::invalid_type_cast(pos, error.value, error.from, error.to),
                    );
                },
            };
            variables = variables.insert(identifier, value);
            i += 1;
        }
        assert(declarations.take(i as int) =~= declarations);
        Ok(Compiler { global_scope: Scope { variables }, replacements: self.replacements })
    }
}

/// An error in the first `n` options is the error of all of them.
pub proof fn lemma_options_default_error(
    options: Seq<(Seq<char>, ExpressionView)>,
    n: int,
    pos: nat,
    variable_type: BalsaType,
)
    requires
        0 <= n <= options.len(),
    ensures
        options_default(options.take(n), pos, variable_type) is Err ==> options_default(
            options,
            pos,
            variable_type,
        ) == options_default(options.take(n), pos, variable_type),
    decreases options.len() - n,
{
    if n < options.len() {
        assert(options.take(n + 1).drop_last() =~= options.take(n));
        lemma_options_default_error(options, n + 1, pos, variable_type);
    } else {
        assert(options.take(n) =~= options);
    }
}

/// An error in the first `n` declarations is the error of all of them.
pub proof fn lemma_compile_declarations_error(
    declarations: Seq<DeclarationView>,
    n: int,
    pos: nat,
    scope: Seq<(Seq<char>, ValueView)>,
)
    requires
        0 <= n <= declarations.len(),
    ensures
        compile_declarations(declarations.take(n), pos, scope) is Err ==> compile_declarations(
            declarations,
            pos,
            scope,
        ) == compile_declarations(declarations.take(n), pos, scope),
    decreases declarations.len() - n,
{
    if n < declarations.len() {
        assert(declarations.take(n + 1).drop_last() =~= declarations.take(n));
        lemma_compile_declarations_error(declarations, n + 1, pos, scope);
    } else {
        assert(declarations.take(n) =~= declarations);
    }
}

/// An error in the first `n` blocks is the error of all of them.
pub proof fn lemma_compile_tokens_error(tokens: Seq<TokenView>, n: int)
    requires
        0 <= n <= tokens.len(),
    ensures
        compile_tokens(tokens.take(n)) is Err ==> compile_tokens(tokens) == compile_tokens(
            tokens.take(n),
        ),
    decreases tokens.len() - n,
{
    if n < tokens.len() {
        assert(tokens.take(n + 1).drop_last() =~= tokens.take(n));
        lemma_compile_tokens_error(tokens, n + 1);
    } else {
        assert(tokens.take(n) =~= tokens);
    }
}

} // verus!
