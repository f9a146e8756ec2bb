//! Compiling a template and rendering it, and the builder that leads there.

use crate::balsa_compiler::{compile_tokens, CompiledTemplate, CompiledView, Compiler};
use crate::balsa_compiler::valid_span;
use crate::balsa_parser::BalsaParser;
use crate::grammar::{block_model, parse_model, token_span};
use crate::balsa_renderer::{
    lemma_render_without_instructions, render_model, renders_to, Renderer,
};
use crate::balsa_types::ValueView;
use crate::errors::{BalsaError, ErrorView};
use crate::ordering::{
    instruction_spans, lemma_compile_keeps_order, lemma_document_ordered,
    lemma_no_brace_no_block, lemma_scan_no_blocks, spans_ordered, token_spans,
};
use crate::parameters_builder::{AsParameters, BalsaParameters};
use std::marker::PhantomData;
use vstd::prelude::*;

verus! {

/// The result of the operations of the engine.
pub type BalsaResult<T> = Result<T, BalsaError>;

/// What compiling a template gives: what its blocks compile to, or the error
/// of a template that cannot be parsed.
pub open spec fn compile_model(raw: Seq<char>) -> Result<CompiledView, ErrorView> {
    match parse_model(raw) {
        Some(tokens) => compile_tokens(tokens),
        None => Err(ErrorView::TemplateParseFail { pos: 0 }),
    }
}

/// The result `r` of a compilation is the one that `expected` describes.
pub open spec fn compiles_to(
    r: Result<CompiledTemplate, BalsaError>,
    expected: Result<CompiledView, ErrorView>,
) -> bool {
    match expected {
        Ok(compiled) => r is Ok && r->Ok_0@ == compiled,
        Err(e) => r is Err && r->Err_0@ == e,
    }
}

/// The instructions of a template compiled from `raw` lie within the text,
/// each ends before the next one starts, and none is empty.
pub proof fn lemma_compiled_in_order(raw: Seq<char>)
    ensures
        compile_model(raw) matches Ok(compiled) ==> spans_ordered(
            instruction_spans(compiled.replacements),
            0,
            raw.len() as int,
        ),
{
    lemma_document_ordered(raw);
    if let Some(tokens) = parse_model(raw) {
        lemma_compile_keeps_order(tokens, 0, raw.len() as int);
    }
}

/// A template in which no block matches at any position compiles to no
/// constants and no instructions, and is rendered as it is, whatever the
/// parameters.
pub proof fn lemma_no_block_identity(raw: Seq<char>, parameters: Seq<(Seq<char>, ValueView)>)
    requires
        raw.len() <= i32::MAX,
        forall|k: int| 0 <= k <= raw.len() ==> #[trigger] block_model(k, raw.skip(k)) is NotMatched,
    ensures
        compile_model(raw) == Ok::<CompiledView, ErrorView>(
            CompiledView { global_scope: Seq::empty(), replacements: Seq::empty() },
        ),
        render_model(raw, compile_model(raw)->Ok_0.replacements, parameters) == Ok::<
            Seq<char>,
            ErrorView,
        >(raw),
{
    lemma_scan_no_blocks(raw, 0);
    assert(raw.skip(0) =~= raw);
    lemma_render_without_instructions(raw, parameters);
}

/// A template without any `{` compiles to no constants and no instructions,
/// and is rendered as it is, whatever the parameters.
pub proof fn lemma_no_brace_identity(raw: Seq<char>, parameters: Seq<(Seq<char>, ValueView)>)
    requires
        raw.len() <= i32::MAX,
        !raw.contains('{'),
    ensures
        compile_model(raw) == Ok::<CompiledView, ErrorView>(
            CompiledView { global_scope: Seq::empty(), replacements: Seq::empty() },
        ),
        render_model(raw, compile_model(raw)->Ok_0.replacements, parameters) == Ok::<
            Seq<char>,
            ErrorView,
        >(raw),
{
    lemma_no_brace_no_block(raw);
    lemma_no_block_identity(raw, parameters);
}

/// Compiles a template: finds its blocks, checks them, and returns the
/// constants and the instructions they give, or the first error.
pub fn compile(raw_template: &str) -> (r: Result<CompiledTemplate, BalsaError>)
    ensures
        compiles_to(r, compile_model(raw_template@)),
        r matches Ok(compiled) ==> spans_ordered(
            instruction_spans(compiled@.replacements),
            0,
            raw_template@.len() as int,
        ),
{
    let tokens = BalsaParser::parse(String::from_str(raw_template))?;
    proof {
        lemma_compiled_in_order(raw_template@);
        let spans = token_spans(tokens.deep_view());
        assert forall|i: int| 0 <= i < tokens.len() implies valid_span(
            #[trigger] tokens.deep_view()[i],
        ) by {
            assert(spans[i] == token_span(tokens.deep_view()[i]));
        }
    }
    Compiler::compile_from_tokens(tokens.as_slice())
}

/// Renders a compiled template against the text it was compiled from, with
/// the given parameters.
pub fn render(
    raw_template: &str,
    compiled_template: &CompiledTemplate,
    parameters: &BalsaParameters,
) -> (r: Result<String, BalsaError>)
    ensures
        renders_to(
            r,
            render_model(raw_template@, compiled_template@.replacements, parameters@),
        ),
{
    Renderer::new(raw_template, compiled_template).render_with_parameters(parameters)
}

/// The entry point: starts the building of a template.
#[derive(Debug)]
pub struct Balsa;

/// Builds a template from its text.
#[derive(Debug)]
pub struct BalsaBuilder {
    pub raw_template: String,
}

/// A compiled template together with its text.
#[derive(Debug)]
pub struct Template {
    pub raw_template: String,
    pub compiled_template: CompiledTemplate,
}

/// A compiled template that is rendered with parameters of the type `T` only.
#[derive(Debug)]
pub struct TypedTemplate<T: AsParameters> {
    pub template: Template,
    pub _type: PhantomData<T>,
}

/// A compiled template that can be rendered with a value of type `T`.
pub trait BalsaTemplate<T> {
    /// Renders the template with the parameters that `params` stands for.
    fn render_html_string(&self, params: &T) -> BalsaResult<String>;
}

impl Balsa {
    /// A builder of the template whose text is `raw_template`.
    pub fn from_string(raw_template: &str) -> (b: BalsaBuilder)
        ensures
            b.raw_template@ == raw_template@,
    {
        BalsaBuilder { raw_template: String::from_str(raw_template) }
    }
}

impl BalsaBuilder {
    /// Compiles the template.
    pub fn build(&self) -> (r: BalsaResult<Template>)
        ensures
            match compile_model(self.raw_template@) {
                Ok(compiled) => r is Ok && r->Ok_0.raw_template@ == self.raw_template@
                    && r->Ok_0.compiled_template@ == compiled,
                Err(e) => r is Err && r->Err_0@ == e,
            },
    {
        let compiled_template = compile(self.raw_template.as_str())?;
        Ok(Template { raw_template: self.raw_template.clone(), compiled_template })
    }

    /// Compiles the template into one that is rendered with parameters of the
    /// type `T` only.
    pub fn build_struct<T: AsParameters>(&self) -> (r: BalsaResult<TypedTemplate<T>>)
        ensures
            match compile_model(self.raw_template@) {
                Ok(compiled) => r is Ok && r->Ok_0.template.raw_template@ == self.raw_template@
                    && r->Ok_0.template.compiled_template@ == compiled,
                Err(e) => r is Err && r->Err_0@ == e,
            },
    {
        let template = self.build()?;
        Ok(TypedTemplate { template, _type: PhantomData })
    }
}

impl Template {
    /// Renders the template with `parameters`.
    pub fn render(&self, parameters: &BalsaParameters) -> (r: BalsaResult<String>)
        ensures
            renders_to(
                r,
                render_model(
                    self.raw_template@,
                    self.compiled_template@.replacements,
                    parameters@,
                ),
            ),
    {
        render(self.raw_template.as_str(), &self.compiled_template, parameters)
    }
}

impl<T: AsParameters> BalsaTemplate<T> for Template {
    /// Renders the template with the parameters that `params` gives.
    fn render_html_string(&self, params: &T) -> (r: BalsaResult<String>)
        ensures
            exists|parameters: Seq<(Seq<char>, ValueView)>|
                renders_to(
                    r,
                    #[trigger] render_model(
                        self.raw_template@,
                        self.compiled_template@.replacements,
                        parameters,
                    ),
                ),
    {
        let parameters = params.as_parameters();
        self.render(&parameters)
    }
}

impl<T: AsParameters> BalsaTemplate<T> for TypedTemplate<T> {
    /// Renders the template with the parameters that `params` gives.
    fn render_html_string(&self, params: &T) -> (r: BalsaResult<String>)
        ensures
            exists|parameters: Seq<(Seq<char>, ValueView)>|
                renders_to(
                    r,
                    #[trigger] render_model(
                        self.template.raw_template@,
                        self.template.compiled_template@.replacements,
                        parameters,
                    ),
                ),
    {
        let parameters = params.as_parameters();
        self.template.render(&parameters)
    }
}

} // verus!
