//! The values that a template is rendered with, by name.

use crate::balsa_types::{BalsaFloat, BalsaValue, ValueView};
use crate::string_map::{lookup, put, StringMap};
use vstd::prelude::*;

verus! {

/// The parameters of one rendering: values by name. It is built up call by
/// call, starting from [`BalsaParameters::new`].
#[derive(Debug, PartialEq)]
pub struct BalsaParameters {
    parameters: StringMap<BalsaValue>,
}

impl View for BalsaParameters {
    type V = Seq<(Seq<char>, ValueView)>;

    closed spec fn view(&self) -> Seq<(Seq<char>, ValueView)> {
        self.parameters@
    }
}

impl BalsaParameters {
    /// No parameters.
    pub fn new() -> (p: BalsaParameters)
        ensures
            p@ == Seq::<(Seq<char>, ValueView)>::empty(),
    {
        BalsaParameters { parameters: StringMap::new() }
    }

    /// The parameters with the string `value` under the name `key`.
    pub fn string(self, key: &str, value: &str) -> (p: BalsaParameters)
        ensures
            p@ == put(self@, key@, ValueView::String(value@)),
    {
        self.insert(key, BalsaValue::String(String::from_str(value)))
    }

    /// The parameters with the colour `value` under the name `key`.
    pub fn color(self, key: &str, value: &str) -> (p: BalsaParameters)
        ensures
            p@ == put(self@, key@, ValueView::Color(value@)),
    {
        self.insert(key, BalsaValue::Color(String::from_str(value)))
    }

    /// The parameters with the integer `value` under the name `key`.
    pub fn integer(self, key: &str, value: i64) -> (p: BalsaParameters)
        ensures
            p@ == put(self@, key@, ValueView::Integer(value as int)),
    {
        self.insert(key, BalsaValue::Integer(value))
    }

    /// The parameters with the floating-point number `value` under the name `key`.
    pub fn float(self, key: &str, value: BalsaFloat) -> (p: BalsaParameters)
        ensures
            p@ == put(self@, key@, ValueView::Float(value@)),
    {
        self.insert(key, BalsaValue::Float(value))
    }

    /// The parameters with `value` under the name `key`. A value that was
    /// there is overwritten.
    pub fn insert(self, key: &str, value: BalsaValue) -> (p: BalsaParameters)
        ensures
            p@ == put(self@, key@, value@),
    {
        BalsaParameters { parameters: self.parameters.insert(String::from_str(key), value) }
    }

    /// The value under the name `key`, if there is one.
    pub fn get(&self, key: &str) -> (r: Option<BalsaValue>)
        ensures
            r.deep_view() == lookup(self@, key@),
    {
        match self.parameters.get(key) {
            Some(value) => Some(value.clone()),
            None => None,
        }
    }
}

/// A type whose values can be handed to a template as its parameters.
pub trait AsParameters {
    /// The parameters that the value stands for.
    fn as_parameters(&self) -> BalsaParameters;
}

} // verus!
