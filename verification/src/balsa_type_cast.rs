//! Casting a value from its type to another.

use crate::balsa_types::{type_of, BalsaFloat, BalsaType, BalsaValue, ValueView};
use crate::errors::InvalidTypeCast;
use crate::text::decimal;
use crate::validators::{is_css_color, is_valid_color};
use vstd::prelude::*;

verus! {

/// The rules of casting, where `valid_color` says whether a string value is a
/// valid colour. A string is a string, and a colour where it is a valid one. A
/// colour is a colour or a string. An integer is an integer, and a float where
/// it fits in 32 bits. A float is a float. There is no other cast.
pub open spec fn cast_given(value: ValueView, to: BalsaType, valid_color: bool) -> Option<
    ValueView,
> {
    match (value, to) {
        (ValueView::String(s), BalsaType::String) => Some(ValueView::String(s)),
        (ValueView::String(s), BalsaType::Color) => if valid_color {
            Some(ValueView::Color(s))
        } else {
            None
        },
        (ValueView::Color(s), BalsaType::String) => Some(ValueView::String(s)),
        (ValueView::Color(s), BalsaType::Color) => Some(ValueView::Color(s)),
        (ValueView::Integer(i), BalsaType::Integer) => Some(ValueView::Integer(i)),
        (ValueView::Integer(i), BalsaType::Float) => if i32::MIN <= i <= i32::MAX {
            Some(ValueView::Float(decimal(i)))
        } else {
            None
        },
        (ValueView::Float(f), BalsaType::Float) => Some(ValueView::Float(f)),
        _ => None,
    }
}

/// Whether `value` is a string that is a valid colour.
pub open spec fn is_color_string(value: ValueView) -> bool {
    value matches ValueView::String(s) && is_css_color(s)
}

/// What casting `value` to the type `to` gives, and `None` where the cast fails.
pub open spec fn cast(value: ValueView, to: BalsaType) -> Option<ValueView> {
    cast_given(value, to, is_color_string(value))
}

/// The result `r` of a cast of `value` to `to` is the one that `expected`
/// describes: the value cast, or the error that names the value, its type and
/// the target type.
pub open spec fn cast_result_is(
    r: Result<BalsaValue, InvalidTypeCast>,
    value: ValueView,
    to: BalsaType,
    expected: Option<ValueView>,
) -> bool {
    match expected {
        Some(v) => r is Ok && r->Ok_0@ == v,
        None => r is Err && r->Err_0@ == (value, type_of(value), to),
    }
}

impl BalsaValue {
    /// Casts the value to `target_type`, where `valid_color` says whether the
    /// value, if it is a string, is a valid colour.
    pub fn cast_with(&self, target_type: BalsaType, valid_color: bool) -> (r: Result<
        BalsaValue,
        InvalidTypeCast,
    >)
        ensures
            cast_result_is(r, self@, target_type, cast_given(self@, target_type, valid_color)),
    {
        match self {
            BalsaValue::String(value) => match target_type {
                BalsaType::String => Ok(self.clone()),
                BalsaType::Color => {
                    if valid_color {
                        Ok(BalsaValue::Color(value.clone()))
                    } else {
                        Err(self.cast_error(target_type))
                    }
                },
                _ => Err(self.cast_error(target_type)),
            },
            BalsaValue::Color(value) => match target_type {
                BalsaType::String => Ok(BalsaValue::String(value.clone())),
                BalsaType::Color => Ok(self.clone()),
                _ => Err(self.cast_error(target_type)),
            },
            BalsaValue::Integer(value) => match target_type {
                BalsaType::Integer => Ok(self.clone()),
                BalsaType::Float => {
                    if -2147483648 <= *value && *value <= 2147483647 {
                        Ok(BalsaValue::Float(BalsaFloat::from_i32(*value as i32)))
                    } else {
                        Err(self.cast_error(target_type))
                    }
                },
                _ => Err(self.cast_error(target_type)),
            },
            BalsaValue::Float(_value) => match target_type {
                BalsaType::Float => Ok(self.clone()),
                _ => Err(self.cast_error(target_type)),
            },
        }
    }

    /// The error of a cast of the value to `target_type` that failed.
    fn cast_error(&self, target_type: BalsaType) -> (e: InvalidTypeCast)
        ensures
            e@ == (self@, type_of(self@), target_type),
    {
        InvalidTypeCast { value: self.clone(), from: self.get_type(), to: target_type }
    }

    /// Casts the value to `target_type`. A string is cast to a colour only
    /// where it is a valid one.
    pub fn try_cast(&self, target_type: BalsaType) -> (r: Result<BalsaValue, InvalidTypeCast>)
        ensures
            cast_result_is(r, self@, target_type, cast(self@, target_type)),
    {
        let valid_color = match self {
            BalsaValue::String(value) => is_valid_color(value.as_str()),
            _ => false,
        };
        self.cast_with(target_type, valid_color)
    }
}

/// The pairs of types between which there is a cast: from a string or a
/// colour to either of the two, from an integer to an integer or a float, and
/// from a float to a float.
pub open spec fn castable(from: BalsaType, to: BalsaType) -> bool {
    match (from, to) {
        (BalsaType::String, BalsaType::String) => true,
        (BalsaType::String, BalsaType::Color) => true,
        (BalsaType::Color, BalsaType::String) => true,
        (BalsaType::Color, BalsaType::Color) => true,
        (BalsaType::Integer, BalsaType::Integer) => true,
        (BalsaType::Integer, BalsaType::Float) => true,
        (BalsaType::Float, BalsaType::Float) => true,
        _ => false,
    }
}

/// A cast succeeds only between types between which there is one, and where
/// it succeeds the value it gives is of the target type.
pub proof fn lemma_cast_only_where_allowed(value: ValueView, to: BalsaType)
    ensures
        cast(value, to) is Some ==> castable(type_of(value), to),
        cast(value, to) matches Some(cast_value) ==> type_of(cast_value) == to,
{
}

/// There is no cast across kinds: an integer is never cast to a string, and a
/// float is cast to nothing but a float.
pub proof fn lemma_no_cross_cast(value: ValueView, to: BalsaType)
    ensures
        type_of(value) == BalsaType::Integer && to == BalsaType::String ==> cast(value, to) is None,
        type_of(value) == BalsaType::Float && to != BalsaType::Float ==> cast(value, to) is None,
{
}

/// A cast to the value's own type gives the value itself.
pub proof fn lemma_cast_to_own_type(value: ValueView)
    ensures
        cast(value, type_of(value)) == Some(value),
{
}

/// An integer is cast to a float exactly where it fits in 32 bits.
pub proof fn lemma_integer_to_float(i: int)
    ensures
        cast(ValueView::Integer(i), BalsaType::Float) is Some <==> i32::MIN <= i <= i32::MAX,
{
}

} // verus!
