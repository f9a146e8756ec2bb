//! The errors of compiling and of rendering a template, as structured data.

use crate::balsa_types::{BalsaExpression, BalsaType, BalsaValue, ExpressionView, ValueView};
use vstd::prelude::*;

verus! {

/// Any error of the engine.
#[derive(Debug, Clone, PartialEq)]
pub enum BalsaError {
    /// A failure while a template was compiled, before any rendering.
    CompileError(BalsaCompileError),
    /// A failure while a compiled template was rendered.
    RenderError(BalsaRenderError),
}

/// An error of compiling a template.
#[derive(Debug, Clone, PartialEq)]
pub enum BalsaCompileError {
    /// The template could not be parsed.
    TemplateParseFail(TemplateErrorContext<TemplateParseFail>),
    /// A literal could not be cast to the declared type.
    InvalidTypeCast(TemplateErrorContext<InvalidTypeCast>),
    /// An expression stands where a type is expected and is none.
    InvalidTypeExpression(TemplateErrorContext<InvalidTypeExpression>),
    /// An expression stands where a value is expected and is none.
    InvalidExpression(TemplateErrorContext<InvalidExpression>),
    /// The name of a parameter block is no identifier.
    InvalidIdentifierForParameterBlock(TemplateErrorContext<InvalidIdentifierForParameterBlock>),
    /// The name of a declaration is no identifier.
    InvalidIdentifierForDeclarationBlock(
        TemplateErrorContext<InvalidIdentifierForDeclarationBlock>,
    ),
    /// A parameter block holds an option that is not known.
    InvalidParameter(TemplateErrorContext<InvalidParameter>),
}

/// An error together with the position in the template at which it occurred.
#[derive(Debug, Clone, PartialEq)]
pub struct TemplateErrorContext<T> {
    /// The character position within the raw template.
    pub pos: usize,
    /// The error that occurred there.
    pub error: T,
}

/// The ways in which parsing a template fails.
#[derive(Debug, Clone, PartialEq)]
pub enum TemplateParseFail {
    /// The parser failed.
    Generic,
}

/// A failed attempt to cast `value` from type `from` to type `to`.
#[derive(Debug, Clone, PartialEq)]
pub struct InvalidTypeCast {
    pub value: BalsaValue,
    pub from: BalsaType,
    pub to: BalsaType,
}

/// An expression that is no type.
#[derive(Debug, Clone, PartialEq)]
pub struct InvalidTypeExpression {
    pub expression: BalsaExpression,
}

/// An expression of another variant than the one expected.
#[derive(Debug, Clone, PartialEq)]
pub struct InvalidExpression {
    pub expression: BalsaExpression,
}

/// An expression that stands for the name of a parameter block and is no identifier.
#[derive(Debug, Clone, PartialEq)]
pub struct InvalidIdentifierForParameterBlock {
    pub expression: BalsaExpression,
}

/// An expression that stands for the name of a declaration and is no identifier.
#[derive(Debug, Clone, PartialEq)]
pub struct InvalidIdentifierForDeclarationBlock {
    pub expression: BalsaExpression,
}

/// An option of a parameter block that is not known.
#[derive(Debug, Clone, PartialEq)]
pub struct InvalidParameter {
    pub parameter_name: String,
}

/// An error of rendering a compiled template.
#[derive(Debug, Clone, PartialEq)]
pub enum BalsaRenderError {
    /// A parameter has neither a value nor a default.
    MissingParameter(MissingParameter),
    /// The value of a parameter cannot be cast to the parameter's type.
    InvalidParameterType(InvalidParameterType),
}

/// A parameter that has neither a value nor a default.
#[derive(Debug, Clone, PartialEq)]
pub struct MissingParameter {
    pub parameter_name: String,
}

/// A parameter whose value cannot be cast to its declared type.
#[derive(Debug, Clone, PartialEq)]
pub struct InvalidParameterType {
    pub parameter_name: String,
    /// The value that was found for the parameter.
    pub received_value: BalsaValue,
    /// The type of that value.
    pub received_type: BalsaType,
    /// The type that the parameter was declared with.
    pub expected_type: BalsaType,
}

/// What a [`BalsaError`] holds.
pub enum ErrorView {
    TemplateParseFail { pos: nat },
    InvalidTypeCast { pos: nat, value: ValueView, from: BalsaType, to: BalsaType },
    InvalidTypeExpression { pos: nat, expression: ExpressionView },
    InvalidExpression { pos: nat, expression: ExpressionView },
    InvalidIdentifierForParameterBlock { pos: nat, expression: ExpressionView },
    InvalidIdentifierForDeclarationBlock { pos: nat, expression: ExpressionView },
    InvalidParameter { pos: nat, parameter_name: Seq<char> },
    MissingParameter { parameter_name: Seq<char> },
    InvalidParameterType {
        parameter_name: Seq<char>,
        received_value: ValueView,
        received_type: BalsaType,
        expected_type: BalsaType,
    },
}

impl View for InvalidTypeCast {
    type V = (ValueView, BalsaType, BalsaType);

    open spec fn view(&self) -> (ValueView, BalsaType, BalsaType) {
        (self.value@, self.from, self.to)
    }
}

impl View for BalsaCompileError {
    type V = ErrorView;

    open spec fn view(&self) -> ErrorView {
        match self {
            BalsaCompileError::TemplateParseFail(c) => ErrorView::TemplateParseFail {
                pos: c.pos as nat,
            },
            BalsaCompileError::InvalidTypeCast(c) => ErrorView::InvalidTypeCast {
                pos: c.pos as nat,
                value: c.error.value@,
                from: c.error.from,
                to: c.error.to,
            },
            BalsaCompileError::InvalidTypeExpression(c) => ErrorView::InvalidTypeExpression {
                pos: c.pos as nat,
                expression: c.error.expression@,
            },
            BalsaCompileError::InvalidExpression(c) => ErrorView::InvalidExpression {
                pos: c.pos as nat,
                expression: c.error.expression@,
            },
            BalsaCompileError::InvalidIdentifierForParameterBlock(c) => {
                ErrorView::InvalidIdentifierForParameterBlock {
                    pos: c.pos as nat,
                    expression: c.error.expression@,
                }
            },
            BalsaCompileError::InvalidIdentifierForDeclarationBlock(c) => {
                ErrorView::InvalidIdentifierForDeclarationBlock {
                    pos: c.pos as nat,
                    expression: c.error.expression@,
                }
            },
            BalsaCompileError::InvalidParameter(c) => ErrorView::InvalidParameter {
                pos: c.pos as nat,
                parameter_name: c.error.parameter_name@,
            },
        }
    }
}

impl View for BalsaRenderError {
    type V = ErrorView;

    open spec fn view(&self) -> ErrorView {
        match self {
            BalsaRenderError::MissingParameter(e) => ErrorView::MissingParameter {
                parameter_name: e.parameter_name@,
            },
            BalsaRenderError::InvalidParameterType(e) => ErrorView::InvalidParameterType {
                parameter_name: e.parameter_name@,
                received_value: e.received_value@,
                received_type: e.received_type,
                expected_type: e.expected_type,
            },
        }
    }
}

impl View for BalsaError {
    type V = ErrorView;

    open spec fn view(&self) -> ErrorView {
        match self {
            BalsaError::CompileError(e) => e@,
            BalsaError::RenderError(e) => e@,
        }
    }
}

impl BalsaError {
    /// A compile error.
    pub fn new_compile_error(error: BalsaCompileError) -> (e: BalsaError)
        ensures
            e == BalsaError::CompileError(error),
    {
        BalsaError::CompileError(error)
    }

    /// The error of a template that could not be parsed.
    pub fn generic_template_parse_fail(pos: usize) -> (e: BalsaError)
        ensures
            e@ == (ErrorView::TemplateParseFail { pos: pos as nat }),
    {
        Self::new_compile_error(
            BalsaCompileError::TemplateParseFail(
                Self::template_context(pos, TemplateParseFail::Generic),
            ),
        )
    }

    /// The error of a literal at `pos` that could not be cast.
    pub fn invalid_type_cast(
        pos: usize,
        value: BalsaValue,
        from_type: BalsaType,
        to_type: BalsaType,
    ) -> (e: BalsaError)
        ensures
            e@ == (ErrorView::InvalidTypeCast {
                pos: pos as nat,
                value: value@,
                from: from_type,
                to: to_type,
            }),
    {
        Self::new_compile_error(
            BalsaCompileError::InvalidTypeCast(
                Self::template_context(
                    pos,
                    InvalidTypeCast { value, from: from_type, to: to_type },
                ),
            ),
        )
    }

    /// The error of an expression at `pos` that is no type.
    pub fn invalid_type_expression(pos: usize, expression: BalsaExpression) -> (e: BalsaError)
        ensures
            e@ == (ErrorView::InvalidTypeExpression { pos: pos as nat, expression: expression@ }),
    {
        Self::new_compile_error(
            BalsaCompileError::InvalidTypeExpression(
                Self::template_context(pos, InvalidTypeExpression { expression }),
            ),
        )
    }

    /// The error of an expression at `pos` that is no value.
    pub fn invalid_expression(pos: usize, expression: BalsaExpression) -> (e: BalsaError)
        ensures
            e@ == (ErrorView::InvalidExpression { pos: pos as nat, expression: expression@ }),
    {
        Self::new_compile_error(
            BalsaCompileError::InvalidExpression(
                Self::template_context(pos, InvalidExpression { expression }),
            ),
        )
    }

    /// The error of a parameter block at `pos` whose name is no identifier.
    pub fn invalid_identifier_in_parameter_block(pos: usize, expression: BalsaExpression) -> (e:
        BalsaError)
        ensures
            e@ == (ErrorView::InvalidIdentifierForParameterBlock {
                pos: pos as nat,
                expression: expression@,
            }),
    {
        Self::new_compile_error(
            BalsaCompileError::InvalidIdentifierForParameterBlock(
                Self::template_context(pos, InvalidIdentifierForParameterBlock { expression }),
            ),
        )
    }

    /// The error of a declaration in the block at `pos` whose name is no identifier.
    pub fn invalid_identifier_in_declaration_block(pos: usize, expression: BalsaExpression) -> (e:
        BalsaError)
        ensures
            e@ == (ErrorView::InvalidIdentifierForDeclarationBlock {
                pos: pos as nat,
                expression: expression@,
            }),
    {
        Self::new_compile_error(
            BalsaCompileError::InvalidIdentifierForDeclarationBlock(
                Self::template_context(pos, InvalidIdentifierForDeclarationBlock { expression }),
            ),
        )
    }

    /// The error of a parameter block at `pos` with an option that is not known.
    pub fn invalid_parameter(pos: usize, parameter_name: String) -> (e: BalsaError)
        ensures
            e@ == (ErrorView::InvalidParameter {
                pos: pos as nat,
                parameter_name: parameter_name@,
            }),
    {
        Self::new_compile_error(
            BalsaCompileError::InvalidParameter(
                Self::template_context(pos, InvalidParameter { parameter_name }),
            ),
        )
    }

    /// A render error.
    pub fn new_render_error(error: BalsaRenderError) -> (e: BalsaError)
        ensures
            e == BalsaError::RenderError(error),
    {
        BalsaError::RenderError(error)
    }

    /// The error of a parameter that has neither a value nor a default.
    pub fn missing_parameter(parameter_name: String) -> (e: BalsaError)
        ensures
            e@ == (ErrorView::MissingParameter { parameter_name: parameter_name@ }),
    {
        Self::new_render_error(
            BalsaRenderError::MissingParameter(MissingParameter { parameter_name }),
        )
    }

    /// The error of a parameter whose value cannot be cast to its type.
    pub fn invalid_parameter_type(
        parameter_name: String,
        received_value: BalsaValue,
        received_type: BalsaType,
        expected_type: BalsaType,
    ) -> (e: BalsaError)
        ensures
            e@ == (ErrorView::InvalidParameterType {
                parameter_name: parameter_name@,
                received_value: received_value@,
                received_type,
                expected_type,
            }),
    {
        Self::new_render_error(
            BalsaRenderError::InvalidParameterType(
                InvalidParameterType {
                    parameter_name,
                    received_value,
                    received_type,
                    expected_type,
                },
            ),
        )
    }

    /// `error` with the position `pos` at which it occurred.
    pub fn template_context<T>(pos: usize, error: T) -> (c: TemplateErrorContext<T>)
        ensures
            c.pos == pos,
            c.error == error,
    {
        TemplateErrorContext { pos, error }
    }
}

} // verus!
