//! The renderer: replays the instructions of a compiled template against the
//! text it was compiled from, and puts the parameters' values in.

use crate::balsa_compiler::{
    CompiledTemplate, InstructionView, ParameterDescription, ParameterView, ReplaceWith,
    ReplaceWithView, ReplacementInstruction,
};
use crate::balsa_type_cast::cast;
use crate::balsa_types::{type_of, BalsaValue, ValueView};
use crate::errors::{BalsaError, ErrorView};
use crate::parameters_builder::BalsaParameters;
use crate::string_map::lookup;
use crate::text::{decimal, i64_to_decimal};
use vstd::prelude::*;

verus! {

/// How far a rendering has come: the output so far, and the position in the
/// template up to which the text has been read.
pub struct RenderState {
    pub output: Seq<char>,
    pub cursor: nat,
}

/// The smaller of two numbers.
pub open spec fn at_most(n: nat, limit: nat) -> nat {
    if n <= limit {
        n
    } else {
        limit
    }
}

/// The characters of `raw` from position `from` up to position `to`, as far
/// as `raw` reaches.
pub open spec fn clip(raw: Seq<char>, from: nat, to: nat) -> Seq<char> {
    if from < to {
        raw.subrange(at_most(from, raw.len()) as int, at_most(to, raw.len()) as int)
    } else {
        Seq::empty()
    }
}

/// The state after the text before an instruction's span is copied and the
/// span itself is passed over. Text that was read before is not read again.
pub open spec fn advance(raw: Seq<char>, state: RenderState, start: nat, end: nat) -> RenderState {
    let copied = if state.cursor < start {
        RenderState { output: state.output + clip(raw, state.cursor, start), cursor: start }
    } else {
        state
    };
    if copied.cursor < end {
        RenderState { output: copied.output, cursor: end }
    } else {
        copied
    }
}

/// The text form of a value: a string or colour as it is, an integer as its
/// decimal numeral, a float as its decimal rendering.
pub open spec fn text_of(value: ValueView) -> Seq<char> {
    match value {
        ValueView::String(s) => s,
        ValueView::Color(s) => s,
        ValueView::Integer(i) => decimal(i),
        ValueView::Float(f) => f,
    }
}

/// The value that a parameter has: the one handed in under its name, else
/// its default.
pub open spec fn resolve(parameter: ParameterView, parameters: Seq<(Seq<char>, ValueView)>) -> Option<
    ValueView,
> {
    match lookup(parameters, parameter.variable_name) {
        Some(value) => Some(value),
        None => parameter.default_value,
    }
}

/// The text that takes the place of a parameter block: the text form of the
/// parameter's value cast to the parameter's type. A parameter without a
/// value is missing, and a value that cannot be cast is of an invalid type.
pub open spec fn parameter_text(
    parameter: ParameterView,
    parameters: Seq<(Seq<char>, ValueView)>,
) -> Result<Seq<char>, ErrorView> {
    match resolve(parameter, parameters) {
        None => Err(ErrorView::MissingParameter { parameter_name: parameter.variable_name }),
        Some(value) => match cast(value, parameter.variable_type) {
            Some(cast_value) => Ok(text_of(cast_value)),
            None => Err(
                ErrorView::InvalidParameterType {
                    parameter_name: parameter.variable_name,
                    received_value: value,
                    received_type: type_of(value),
                    expected_type: parameter.variable_type,
                },
            ),
        },
    }
}

/// The state after one instruction, or the error that it gives.
pub open spec fn render_step(
    raw: Seq<char>,
    state: RenderState,
    instruction: InstructionView,
    parameters: Seq<(Seq<char>, ValueView)>,
) -> Result<RenderState, ErrorView> {
    let moved = advance(raw, state, instruction.start, instruction.end);
    match instruction.replace_with {
        ReplaceWithView::Nothing => Ok(moved),
        ReplaceWithView::Parameter(parameter) => match parameter_text(parameter, parameters) {
            Ok(text) => Ok(RenderState { output: moved.output + text, cursor: moved.cursor }),
            Err(e) => Err(e),
        },
    }
}

/// The state after the instructions are carried out in order, or the first
/// error among them.
pub open spec fn render_steps(
    raw: Seq<char>,
    instructions: Seq<InstructionView>,
    parameters: Seq<(Seq<char>, ValueView)>,
) -> Result<RenderState, ErrorView>
    decreases instructions.len(),
{
    if instructions.len() == 0 {
        Ok(RenderState { output: Seq::empty(), cursor: 0 })
    } else {
        match render_steps(raw, instructions.drop_last(), parameters) {
            Ok(state) => render_step(raw, state, instructions.last(), parameters),
            Err(e) => Err(e),
        }
    }
}

/// What rendering gives: the output after all instructions, followed by the
/// rest of the template, or the first error.
pub open spec fn render_model(
    raw: Seq<char>,
    instructions: Seq<InstructionView>,
    parameters: Seq<(Seq<char>, ValueView)>,
) -> Result<Seq<char>, ErrorView> {
    match render_steps(raw, instructions, parameters) {
        Ok(state) => Ok(state.output + raw.skip(at_most(state.cursor, raw.len()) as int)),
        Err(e) => Err(e),
    }
}

/// The result `r` of a rendering is the one that `expected` describes.
pub open spec fn renders_to(r: Result<String, BalsaError>, expected: Result<Seq<char>, ErrorView>) -> bool {
    match expected {
        Ok(text) => r is Ok && r->Ok_0@ == text,
        Err(e) => r is Err && r->Err_0@ == e,
    }
}

/// Rendering is a function of the text, the instructions and the parameters:
/// two renderings of the same give the same text, or the same error.
pub proof fn lemma_render_is_pure(
    first: Result<String, BalsaError>,
    second: Result<String, BalsaError>,
    raw: Seq<char>,
    instructions: Seq<InstructionView>,
    parameters: Seq<(Seq<char>, ValueView)>,
)
    requires
        renders_to(first, render_model(raw, instructions, parameters)),
        renders_to(second, render_model(raw, instructions, parameters)),
    ensures
        first is Ok <==> second is Ok,
        first is Ok ==> first->Ok_0@ == second->Ok_0@,
        first is Err ==> first->Err_0@ == second->Err_0@,
{
}

/// Without instructions, rendering gives the text as it is, whatever the
/// parameters.
pub proof fn lemma_render_without_instructions(
    raw: Seq<char>,
    parameters: Seq<(Seq<char>, ValueView)>,
)
    ensures
        render_model(raw, Seq::empty(), parameters) == Ok::<Seq<char>, ErrorView>(raw),
{
    assert(Seq::<char>::empty() + raw.skip(0) =~= raw);
}

/// An error among the first `n` instructions is the error of all of them.
pub proof fn lemma_render_steps_error(
    raw: Seq<char>,
    instructions: Seq<InstructionView>,
    n: int,
    parameters: Seq<(Seq<char>, ValueView)>,
)
    requires
        0 <= n <= instructions.len(),
    ensures
        render_steps(raw, instructions.take(n), parameters) is Err ==> render_steps(
            raw,
            instructions,
            parameters,
        ) == render_steps(raw, instructions.take(n), parameters),
    decreases instructions.len() - n,
{
    if n < instructions.len() {
        assert(instructions.take(n + 1).drop_last() =~= instructions.take(n));
        lemma_render_steps_error(raw, instructions, n + 1, parameters);
    } else {
        assert(instructions.take(n) =~= instructions);
    }
}

/// Renders one compiled template, which it holds together with the text that
/// the template was compiled from.
pub struct Renderer<'a> {
    pub raw_template: &'a str,
    pub compiled_template: &'a CompiledTemplate,
}

/// The state of a rendering in progress.
pub struct RenderContext<'a> {
    pub output: String,
    pub chars_written: usize,
    pub raw_template: &'a str,
    pub parameters: &'a BalsaParameters,
}

impl<'a> View for RenderContext<'a> {
    type V = RenderState;

    open spec fn view(&self) -> RenderState {
        RenderState { output: self.output@, cursor: self.chars_written as nat }
    }
}

impl<'a> Renderer<'a> {
    /// A renderer of `compiled_template`, which was compiled from `raw_template`.
    pub fn new(raw_template: &'a str, compiled_template: &'a CompiledTemplate) -> (r: Renderer<'a>)
        ensures
            r.raw_template@ == raw_template@,
            r.compiled_template@ == compiled_template@,
    {
        Renderer { raw_template, compiled_template }
    }

    /// Renders the template with `parameters`. The first instruction that
    /// cannot be carried out gives the error, and no text is returned then.
    pub fn render_with_parameters(&self, parameters: &BalsaParameters) -> (r: Result<
        String,
        BalsaError,
    >)
        ensures
            renders_to(
                r,
                render_model(
                    self.raw_template@,
                    self.compiled_template@.replacements,
                    parameters@,
                ),
            ),
    {
        let mut ctx = RenderContext::new(self.raw_template, parameters);
        let ghost all = self.compiled_template.replacements.deep_view();
        let count: usize = self.compiled_template.replacements.len();
        assert(all.take(0) =~= Seq::empty());
        let mut i: usize = 0;
        while i < count
            invariant
                i <= count == all.len(),
                all == self.compiled_template.replacements.deep_view(),
                ctx.raw_template@ == self.raw_template@,
                ctx.parameters@ == parameters@,
                render_steps(self.raw_template@, all.take(i as int), parameters@) == Ok::<
                    RenderState,
                    ErrorView,
                >(ctx@),
            decreases count - i,
        {
            assert(all.take(i + 1).drop_last() =~= all.take(i as int));
            assert(all.take(i + 1).last() == all[i as int]);
            proof {
                lemma_render_steps_error(self.raw_template@, all, i + 1, parameters@);
            }
            match ctx.next(&self.compiled_template.replacements[i]) {
                Ok(()) => {},
                Err(e) => {
                    return Err(e);
                },
            }
            i += 1;
        }
        assert(all.take(i as int) =~= all);
        Ok(ctx.output())
    }
}

impl<'a> RenderContext<'a> {
    /// The state at the start of a rendering of `raw_template` with `parameters`.
    pub fn new(raw_template: &'a str, parameters: &'a BalsaParameters) -> (ctx: RenderContext<'a>)
        ensures
            ctx@ == (RenderState { output: Seq::empty(), cursor: 0 }),
            ctx.raw_template@ == raw_template@,
            ctx.parameters@ == parameters@,
    {
        RenderContext { output: String::new(), chars_written: 0, raw_template, parameters }
    }

    /// Carries out the next instruction.
    pub fn next(&mut self, replacement: &ReplacementInstruction) -> (r: Result<(), BalsaError>)
        ensures
            final(self).raw_template@ == old(self).raw_template@,
            final(self).parameters@ == old(self).parameters@,
            match render_step(
                old(self).raw_template@,
                old(self)@,
                replacement@,
                old(self).parameters@,
            ) {
                Ok(state) => r is Ok && final(self)@ == state,
                Err(e) => r is Err && r->Err_0@ == e,
            },
    {
        self.prepend_missing_chars(replacement);
        match &replacement.replace_with {
            ReplaceWith::Parameter(p) => {
                let text = parameter_value_text(p, self.parameters)?;
                self.output.append(text.as_str());
            },
            ReplaceWith::Nothing => {},
        }
        Ok(())
    }

    /// Copies the text before the span of `replacement` that was not copied
    /// before, and passes over the span.
    pub fn prepend_missing_chars(&mut self, replacement: &ReplacementInstruction)
        ensures
            final(self).raw_template@ == old(self).raw_template@,
            final(self).parameters@ == old(self).parameters@,
            final(self)@ == advance(
                old(self).raw_template@,
                old(self)@,
                replacement@.start,
                replacement@.end,
            ),
    {
        if self.chars_written < replacement.start_pos {
            let len: usize = self.raw_template.unicode_len();
            let from: usize = if self.chars_written <= len {
                self.chars_written
            } else {
                len
            };
            let to: usize = if replacement.start_pos <= len {
                replacement.start_pos
            } else {
                len
            };
            self.output.append(self.raw_template.substring_char(from, to));
            self.chars_written = replacement.start_pos;
        }
        if self.chars_written < replacement.end_pos {
            self.chars_written = replacement.end_pos;
        }
    }

    /// The output of the rendering: what was written, and the rest of the template.
    pub fn output(self) -> (text: String)
        ensures
            text@ == self@.output + self.raw_template@.skip(
                at_most(self@.cursor, self.raw_template@.len()) as int,
            ),
    {
        let len: usize = self.raw_template.unicode_len();
        let from: usize = if self.chars_written <= len {
            self.chars_written
        } else {
            len
        };
        let mut text = self.output;
        text.append(self.raw_template.substring_char(from, len));
        assert(self.raw_template@.subrange(from as int, len as int) =~= self.raw_template@.skip(
            from as int,
        ));
        text
    }
}

/// The text form of a value.
pub fn value_text(value: &BalsaValue) -> (text: String)
    ensures
        text@ == text_of(value@),
{
    match value {
        BalsaValue::String(s) => s.clone(),
        BalsaValue::Color(s) => s.clone(),
        BalsaValue::Integer(i) => i64_to_decimal(*i),
        BalsaValue::Float(f) => String::from_str(f.as_str()),
    }
}

/// The text that takes the place of the block of `parameter` when it is
/// rendered with `parameters`.
pub fn parameter_value_text(parameter: &ParameterDescription, parameters: &BalsaParameters) -> (r:
    Result<String, BalsaError>)
    ensures
        renders_to(r, parameter_text(parameter@, parameters@)),
{
    let value = match parameters.get(parameter.variable_name.as_str()) {
        Some(value) => Some(value),
        None => match &parameter.default_value {
            Some(default) => Some(default.clone()),
            None => None,
        },
    };
    match value {
        None => Err(BalsaError::missing_parameter(parameter.variable_name.clone())),
        Some(v) => match v.try_cast(parameter.variable_type) {
            Ok(cast_value) => Ok(value_text(&cast_value)),
            Err(_) => {
                let received_type = v.get_type();
                Err(
                    BalsaError::invalid_parameter_type(
                        parameter.variable_name.clone(),
                        v,
                        received_type,
                        parameter.variable_type,
                    ),
                )
            },
        },
    }
}

} // verus!
