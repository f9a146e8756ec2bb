//! The types, values and expressions of the template language.

use crate::text::{decimal, digits_of, i64_to_decimal, is_digit, lemma_digits_of};
use vstd::prelude::*;

verus! {

/// A type of the template language. Types are compared for equality only.
#[derive(Debug, Clone, Copy, PartialEq, Eq, Structural, Hash)]
pub enum BalsaType {
    /// A basic string.
    String,
    /// A colour, as a hex code, a functional notation or a name.
    Color,
    /// A 64-bit signed integer.
    Integer,
    /// A 64-bit floating-point number.
    Float,
}

impl View for BalsaType {
    type V = BalsaType;

    open spec fn view(&self) -> BalsaType {
        *self
    }
}

impl DeepView for BalsaType {
    type V = BalsaType;

    open spec fn deep_view(&self) -> BalsaType {
        *self
    }
}

/// `text` is an unsigned decimal numeral: digits with at most one point, which
/// stands between two digits.
pub open spec fn is_unsigned_decimal(text: Seq<char>) -> bool {
    &&& text.len() > 0
    &&& is_digit(text[0])
    &&& is_digit(text.last())
    &&& forall|k: int| 0 <= k < text.len() ==> is_digit(#[trigger] text[k]) || text[k] == '.'
    &&& forall|i: int, j: int|
        0 <= i < text.len() && 0 <= j < text.len() && #[trigger] text[i] == '.' && #[trigger] text[j]
            == '.' ==> i == j
}

/// `text` is the decimal rendering of a floating-point number: a decimal
/// numeral with an optional minus sign, `NaN`, `inf` or `-inf`.
pub open spec fn is_float_text(text: Seq<char>) -> bool {
    ||| text == seq!['N', 'a', 'N']
    ||| text == seq!['i', 'n', 'f']
    ||| text == seq!['-', 'i', 'n', 'f']
    ||| is_unsigned_decimal(text)
    ||| (text.len() > 0 && text[0] == '-' && is_unsigned_decimal(text.skip(1)))
}

/// A floating-point number, held as its decimal rendering.
#[derive(Debug, PartialEq)]
pub struct BalsaFloat {
    text: String,
}

impl View for BalsaFloat {
    type V = Seq<char>;

    closed spec fn view(&self) -> Seq<char> {
        self.text@
    }
}

/// Whether the characters of `text` from `from` on are an unsigned decimal numeral.
fn check_unsigned_decimal(text: &str, from: usize, len: usize) -> (ok: bool)
    requires
        from <= len == text@.len(),
    ensures
        ok == is_unsigned_decimal(text@.skip(from as int)),
{
    let ghost body = text@.skip(from as int);
    if from == len {
        return false;
    }
    let first: char = text.get_char(from);
    let last: char = text.get_char(len - 1);
    assert(body[0] == first && body.last() == last);
    if first < '0' || first > '9' || last < '0' || last > '9' {
        return false;
    }
    let mut seen_point: bool = false;
    let ghost mut point_at: int = 0;
    let mut i: usize = from;
    while i < len
        invariant
            from <= i <= len == text@.len(),
            body == text@.skip(from as int),
            forall|k: int| 0 <= k < i - from ==> is_digit(#[trigger] body[k]) || body[k] == '.',
            seen_point ==> 0 <= point_at < i - from && body[point_at] == '.',
            forall|k: int| 0 <= k < i - from && #[trigger] body[k] == '.' ==> seen_point && k == point_at,
        decreases len - i,
    {
        let c: char = text.get_char(i);
        assert(body[i - from] == c);
        if c == '.' {
            if seen_point {
                return false;
            }
            seen_point = true;
            proof {
                point_at = i - from;
            }
        } else if c < '0' || c > '9' {
            return false;
        }
        i += 1;
    }
    true
}

impl BalsaFloat {
    #[verifier::type_invariant]
    spec fn well_formed(&self) -> bool {
        is_float_text(self.text@)
    }

    /// The number whose decimal rendering is `text`, where `text` is one.
    pub fn from_text(text: &str) -> (r: Option<BalsaFloat>)
        ensures
            r is Some == is_float_text(text@),
            r matches Some(f) ==> f@ == text@,
    {
        let len: usize = text.unicode_len();
        let special = len == 3 && text.get_char(0) == 'N' && text.get_char(1) == 'a'
            && text.get_char(2) == 'N' || len == 3 && text.get_char(0) == 'i' && text.get_char(1)
            == 'n' && text.get_char(2) == 'f' || len == 4 && text.get_char(0) == '-'
            && text.get_char(1) == 'i' && text.get_char(2) == 'n' && text.get_char(3) == 'f';
        assert(special == (text@ =~= seq!['N', 'a', 'N'] || text@ =~= seq!['i', 'n', 'f'] || text@
            =~= seq!['-', 'i', 'n', 'f']));
        assert(text@.skip(0) =~= text@);
        let ok = special || check_unsigned_decimal(text, 0, len) || (len > 0 && text.get_char(0)
            == '-' && check_unsigned_decimal(text, 1, len));
        if ok {
            Some(BalsaFloat { text: String::from_str(text) })
        } else {
            None
        }
    }

    /// The floating-point number that equals the integer `n`.
    pub fn from_i32(n: i32) -> (r: BalsaFloat)
        ensures
            r@ == decimal(n as int),
    {
        let text = i64_to_decimal(n as i64);
        proof {
            if n < 0 {
                lemma_digits_of((-n) as nat);
                assert(text@.skip(1) =~= digits_of((-n) as nat));
            } else {
                lemma_digits_of(n as nat);
            }
        }
        BalsaFloat { text }
    }

    /// The decimal rendering of the number.
    pub fn as_str(&self) -> (r: &str)
        ensures
            r@ == self@,
            is_float_text(r@),
    {
        proof {
            use_type_invariant(self);
        }
        self.text.as_str()
    }
}

impl Clone for BalsaFloat {
    fn clone(&self) -> (r: BalsaFloat)
        ensures
            r@ == self@,
    {
        proof {
            use_type_invariant(self);
        }
        BalsaFloat { text: self.text.clone() }
    }
}

/// A typed value: a literal of a template, or a value handed in at render time.
#[derive(Debug, PartialEq)]
pub enum BalsaValue {
    /// A basic string.
    String(String),
    /// A colour, as a hex code, a functional notation or a name.
    Color(String),
    /// A 64-bit signed integer.
    Integer(i64),
    /// A 64-bit floating-point number.
    Float(BalsaFloat),
}

/// What a [`BalsaValue`] holds.
pub enum ValueView {
    String(Seq<char>),
    Color(Seq<char>),
    Integer(int),
    /// A floating-point number, as its decimal rendering.
    Float(Seq<char>),
}

impl View for BalsaValue {
    type V = ValueView;

    open spec fn view(&self) -> ValueView {
        match self {
            BalsaValue::String(s) => ValueView::String(s@),
            BalsaValue::Color(s) => ValueView::Color(s@),
            BalsaValue::Integer(i) => ValueView::Integer(*i as int),
            BalsaValue::Float(f) => ValueView::Float(f@),
        }
    }
}

impl DeepView for BalsaValue {
    type V = ValueView;

    open spec fn deep_view(&self) -> ValueView {
        self.view()
    }
}

impl Clone for BalsaValue {
    fn clone(&self) -> (r: BalsaValue)
        ensures
            r@ == self@,
    {
        match self {
            BalsaValue::String(s) => BalsaValue::String(s.clone()),
            BalsaValue::Color(s) => BalsaValue::Color(s.clone()),
            BalsaValue::Integer(i) => BalsaValue::Integer(*i),
            BalsaValue::Float(f) => BalsaValue::Float(f.clone()),
        }
    }
}

/// The type of a value.
pub open spec fn type_of(value: ValueView) -> BalsaType {
    match value {
        ValueView::String(_) => BalsaType::String,
        ValueView::Color(_) => BalsaType::Color,
        ValueView::Integer(_) => BalsaType::Integer,
        ValueView::Float(_) => BalsaType::Float,
    }
}

impl BalsaValue {
    /// The type of the value.
    pub fn get_type(&self) -> (t: BalsaType)
        ensures
            t == type_of(self@),
    {
        match self {
            BalsaValue::String(_) => BalsaType::String,
            BalsaValue::Color(_) => BalsaType::Color,
            BalsaValue::Integer(_) => BalsaType::Integer,
            BalsaValue::Float(_) => BalsaType::Float,
        }
    }

    /// Whether the value is of type `type_`.
    pub fn is_type(&self, type_: BalsaType) -> (r: bool)
        ensures
            r == (type_of(self@) == type_),
    {
        self.get_type() == type_
    }
}

/// A parsed expression, before it is known whether it stands where an
/// identifier, a type or a value is expected.
#[derive(Debug, PartialEq)]
pub enum BalsaExpression {
    Identifier(String),
    Type(BalsaType),
    Value(BalsaValue),
}

/// What a [`BalsaExpression`] holds.
pub enum ExpressionView {
    Identifier(Seq<char>),
    Type(BalsaType),
    Value(ValueView),
}

impl View for BalsaExpression {
    type V = ExpressionView;

    open spec fn view(&self) -> ExpressionView {
        match self {
            BalsaExpression::Identifier(s) => ExpressionView::Identifier(s@),
            BalsaExpression::Type(t) => ExpressionView::Type(*t),
            BalsaExpression::Value(v) => ExpressionView::Value(v@),
        }
    }
}

impl DeepView for BalsaExpression {
    type V = ExpressionView;

    open spec fn deep_view(&self) -> ExpressionView {
        self.view()
    }
}

impl Clone for BalsaExpression {
    fn clone(&self) -> (r: BalsaExpression)
        ensures
            r@ == self@,
    {
        match self {
            BalsaExpression::Identifier(s) => BalsaExpression::Identifier(s.clone()),
            BalsaExpression::Type(t) => BalsaExpression::Type(*t),
            BalsaExpression::Value(v) => BalsaExpression::Value(v.clone()),
        }
    }
}

impl BalsaExpression {
    /// The name, where the expression is an identifier.
    pub fn as_identifier(&self) -> (r: Option<String>)
        ensures
            r is Some == self@ is Identifier,
            r matches Some(s) ==> self@ == ExpressionView::Identifier(s@),
    {
        if let BalsaExpression::Identifier(s) = self {
            Some(s.clone())
        } else {
            None
        }
    }

    /// The type, where the expression is one.
    pub fn as_type(&self) -> (r: Option<BalsaType>)
        ensures
            r is Some == self@ is Type,
            r matches Some(t) ==> self@ == ExpressionView::Type(t),
    {
        if let BalsaExpression::Type(t) = self {
            Some(*t)
        } else {
            None
        }
    }

    /// The value, where the expression is one.
    pub fn as_value(&self) -> (r: Option<BalsaValue>)
        ensures
            r is Some == self@ is Value,
            r matches Some(v) ==> self@ == ExpressionView::Value(v@),
    {
        if let BalsaExpression::Value(v) = self {
            Some(v.clone())
        } else {
            None
        }
    }
}

} // verus!
