//! Partially evaluated JavaScript expressions: the result of compile-time
//! evaluation of literals, arrays, template strings, conditionals and
//! regular expressions, consumed by code generation.
//!
//! A numeric value is carried as its IEEE-754 double bit pattern, so the
//! library itself stays free of floating point; comparison follows the
//! double equality relation expressed over the bits. Big integers are
//! carried as a sign and magnitude digits.

use vstd::prelude::*;

use crate::dependency::DependencyLocation;

verus! {

/// The kind of a template string: cooked (escapes interpreted) or raw.
#[derive(Clone, Copy, Debug, PartialEq, Eq, Structural)]
pub enum TemplateStringKind {
    Cooked,
    Raw,
}

/// Type of a partially evaluated expression.
#[derive(Clone, Copy, Debug, PartialEq, Eq, Structural)]
pub enum Ty {
    Unknown,
    Undefined,
    Null,
    Str,
    Number,
    Boolean,
    RegExp,
    Conditional,
    Array,
    ConstArray,
    BigInt,
    TemplateString,
}

/// An arbitrary-precision integer: sign and magnitude digits, most
/// significant first. Two values are equal when their fields are.
#[derive(Clone, Debug)]
pub struct BigIntValue {
    pub negative: bool,
    pub digits: Vec<u32>,
}

/// Structural equality of big integers.
pub open spec fn bigint_eq_spec(a: BigIntValue, b: BigIntValue) -> bool {
    a.negative == b.negative && a.digits@ == b.digits@
}

fn bigint_eq(a: &BigIntValue, b: &BigIntValue) -> (r: bool)
    ensures
        r == bigint_eq_spec(*a, *b),
{
    if a.negative != b.negative {
        return false;
    }
    if a.digits.len() != b.digits.len() {
        return false;
    }
    let mut i: usize = 0;
    while i < a.digits.len()
        invariant
            i <= a.digits@.len(),
            a.digits@.len() == b.digits@.len(),
            a.negative == b.negative,
            forall|j: int| 0 <= j < i ==> a.digits@[j] == b.digits@[j],
        decreases a.digits@.len() - i,
    {
        if a.digits[i] != b.digits[i] {
            return false;
        }
        i = i + 1;
    }
    proof {
        assert(a.digits@ =~= b.digits@);
    }
    true
}

/// The bit pattern encodes an IEEE-754 double NaN.
pub open spec fn f64_is_nan_bits(b: u64) -> bool {
    (b >> 52u64) & 0x7ffu64 == 0x7ffu64 && (b & 0xf_ffff_ffff_ffffu64) != 0u64
}

/// The bit pattern encodes positive or negative zero.
pub open spec fn f64_is_zero_bits(b: u64) -> bool {
    b & 0x7fff_ffff_ffff_ffffu64 == 0u64
}

/// IEEE-754 double equality over bit patterns: NaN equals nothing, the two
/// zeros are equal, every other value equals only its own bit pattern.
pub open spec fn f64_eq_bits(a: u64, b: u64) -> bool {
    &&& !f64_is_nan_bits(a)
    &&& !f64_is_nan_bits(b)
    &&& (a == b || (f64_is_zero_bits(a) && f64_is_zero_bits(b)))
}

fn f64_eq(a: u64, b: u64) -> (r: bool)
    ensures
        r == f64_eq_bits(a, b),
{
    let a_nan = (a >> 52u64) & 0x7ffu64 == 0x7ffu64 && (a & 0xf_ffff_ffff_ffffu64) != 0u64;
    let b_nan = (b >> 52u64) & 0x7ffu64 == 0x7ffu64 && (b & 0xf_ffff_ffff_ffffu64) != 0u64;
    if a_nan || b_nan {
        return false;
    }
    if a == b {
        return true;
    }
    a & 0x7fff_ffff_ffff_ffffu64 == 0u64 && b & 0x7fff_ffff_ffff_ffffu64 == 0u64
}

/// Result of partially evaluating an expression at compile time.
#[derive(Debug)]
pub struct BasicEvaluatedExpression {
    pub ty: Ty,
    pub range: Option<DependencyLocation>,
    pub falsy: bool,
    pub truthy: bool,
    pub side_effects: bool,
    pub nullish: Option<bool>,
    pub boolean: Option<bool>,
    pub number: Option<u64>,
    pub string: Option<String>,
    pub bigint: Option<BigIntValue>,
    pub regexp: Option<(String, String)>,
    pub items: Option<Vec<BasicEvaluatedExpression>>,
    pub quasis: Option<Vec<BasicEvaluatedExpression>>,
    pub parts: Option<Vec<BasicEvaluatedExpression>>,
    pub template_string_kind: Option<TemplateStringKind>,
    pub options: Option<Vec<BasicEvaluatedExpression>>,
}

/// Some element of the list may have side effects.
pub open spec fn any_side_effects(items: Seq<BasicEvaluatedExpression>) -> bool {
    exists|i: int| 0 <= i < items.len() && (#[trigger] items[i]).side_effects
}

fn compute_any_side_effects(items: &Vec<BasicEvaluatedExpression>) -> (r: bool)
    ensures
        r == any_side_effects(items@),
{
    let mut i: usize = 0;
    while i < items.len()
        invariant
            i <= items@.len(),
            forall|j: int| 0 <= j < i ==> !(#[trigger] items@[j]).side_effects,
        decreases items@.len() - i,
    {
        if items[i].could_have_side_effects() {
            assert(items@[i as int].side_effects);
            return true;
        }
        i = i + 1;
    }
    false
}

impl BasicEvaluatedExpression {
    /// Every value carried for the current type is present.
    pub open spec fn wf(self) -> bool {
        &&& self.ty == Ty::Str ==> self.string is Some
        &&& self.ty == Ty::Boolean ==> self.boolean is Some
        &&& self.ty == Ty::Number ==> self.number is Some
        &&& self.ty == Ty::BigInt ==> self.bigint is Some
        &&& self.ty == Ty::RegExp ==> self.regexp is Some
        &&& self.ty == Ty::TemplateString ==> self.parts is Some && self.quasis is Some
            && self.template_string_kind is Some
        &&& self.ty == Ty::Array ==> self.items is Some
    }

    pub fn new() -> (r: BasicEvaluatedExpression)
        ensures
            r.wf(),
            r.ty == Ty::Unknown,
            r.range is None,
            !r.falsy,
            !r.truthy,
            r.side_effects,
            r.nullish is None,
            r.boolean is None,
            r.number is None,
            r.string is None,
            r.bigint is None,
            r.regexp is None,
            r.items is None,
            r.quasis is None,
            r.parts is None,
            r.template_string_kind is None,
            r.options is None,
    {
        BasicEvaluatedExpression {
            ty: Ty::Unknown,
            range: None,
            falsy: false,
            truthy: false,
            side_effects: true,
            nullish: None,
            boolean: None,
            number: None,
            string: None,
            bigint: None,
            regexp: None,
            items: None,
            quasis: None,
            parts: None,
            template_string_kind: None,
            options: None,
        }
    }

    /// A fresh evaluation carrying only its source span: every other
    /// observable equals that of `new()`.
    pub fn with_range(start: u32, end: u32) -> (r: BasicEvaluatedExpression)
        ensures
            r.wf(),
            r.ty == Ty::Unknown,
            r.range == Some(DependencyLocation { start, end }),
            !r.falsy,
            !r.truthy,
            r.side_effects,
            r.nullish is None,
            r.boolean is None,
            r.number is None,
            r.string is None,
            r.bigint is None,
            r.regexp is None,
            r.items is None,
            r.quasis is None,
            r.parts is None,
            r.template_string_kind is None,
            r.options is None,
    {
        let mut expr = BasicEvaluatedExpression::new();
        expr.set_range(start, end);
        expr
    }

    pub fn is_null(&self) -> (r: bool)
        ensures
            r == (self.ty == Ty::Null),
    {
        matches!(self.ty, Ty::Null)
    }

    pub fn is_undefined(&self) -> (r: bool)
        ensures
            r == (self.ty == Ty::Undefined),
    {
        matches!(self.ty, Ty::Undefined)
    }

    pub fn is_conditional(&self) -> (r: bool)
        ensures
            r == (self.ty == Ty::Conditional),
    {
        matches!(self.ty, Ty::Conditional)
    }

    pub fn is_string(&self) -> (r: bool)
        ensures
            r == (self.ty == Ty::Str),
    {
        matches!(self.ty, Ty::Str)
    }

    pub fn is_bool(&self) -> (r: bool)
        ensures
            r == (self.ty == Ty::Boolean),
    {
        matches!(self.ty, Ty::Boolean)
    }

    pub fn is_array(&self) -> (r: bool)
        ensures
            r == (self.ty == Ty::Array),
    {
        matches!(self.ty, Ty::Array)
    }

    pub fn is_template_string(&self) -> (r: bool)
        ensures
            r == (self.ty == Ty::TemplateString),
    {
        matches!(self.ty, Ty::TemplateString)
    }

    pub fn is_regexp(&self) -> (r: bool)
        ensures
            r == (self.ty == Ty::RegExp),
    {
        matches!(self.ty, Ty::RegExp)
    }

    /// The value is known completely at compile time.
    pub open spec fn is_compile_time_value_spec(self) -> bool {
        match self.ty {
            Ty::Undefined => true,
            Ty::Null => true,
            Ty::Str => true,
            Ty::Number => true,
            Ty::Boolean => true,
            Ty::RegExp => true,
            Ty::ConstArray => true,
            Ty::BigInt => true,
            _ => false,
        }
    }

    pub fn is_compile_time_value(&self) -> (r: bool)
        ensures
            r == self.is_compile_time_value_spec(),
    {
        matches!(
            self.ty,
            Ty::Undefined | Ty::Null | Ty::Str | Ty::Number | Ty::Boolean | Ty::RegExp
                | Ty::ConstArray | Ty::BigInt
        )
    }

    pub fn is_nullish(&self) -> (r: Option<bool>)
        ensures
            r == self.nullish,
    {
        self.nullish
    }

    /// Whether the value is of a primitive type, when that is decidable
    /// from the evaluation alone.
    pub open spec fn is_primitive_type_spec(self) -> Option<bool> {
        match self.ty {
            Ty::Undefined => Some(true),
            Ty::Null => Some(true),
            Ty::Str => Some(true),
            Ty::Number => Some(true),
            Ty::Boolean => Some(true),
            Ty::BigInt => Some(true),
            Ty::TemplateString => Some(true),
            Ty::RegExp => Some(false),
            Ty::Array => Some(false),
            Ty::ConstArray => Some(false),
            _ => None,
        }
    }

    pub fn is_primitive_type(&self) -> (r: Option<bool>)
        ensures
            r == self.is_primitive_type_spec(),
    {
        match self.ty {
            Ty::Undefined
            | Ty::Null
            | Ty::Str
            | Ty::Number
            | Ty::Boolean
            | Ty::BigInt
            | Ty::TemplateString => Some(true),
            Ty::RegExp | Ty::Array | Ty::ConstArray => Some(false),
            _ => None,
        }
    }

    /// The compile-time string rendering: booleans and null render to their
    /// keyword, strings to themselves, everything else is unknown.
    pub fn as_string(&self) -> (r: Option<String>)
        requires
            self.wf(),
        ensures
            self.ty == Ty::Boolean ==> (r matches Some(s) && (self.boolean->0 ==> s@ == "true"@)
                && (!self.boolean->0 ==> s@ == "false"@)),
            self.ty == Ty::Null ==> (r matches Some(s) && s@ == "null"@),
            self.ty == Ty::Str ==> (r matches Some(s) && s@ == self.string->0@),
            self.ty != Ty::Boolean && self.ty != Ty::Null && self.ty != Ty::Str ==> r is None,
    {
        if self.is_bool() {
            if self.bool() {
                Some(String::from_str("true"))
            } else {
                Some(String::from_str("false"))
            }
        } else if self.is_null() {
            Some(String::from_str("null"))
        } else if self.is_string() {
            Some(self.string().clone())
        } else {
            None
        }
    }

    /// The compile-time truthiness: a marked truthy value is true, a marked
    /// falsy or nullish value is false, otherwise the boolean if present.
    pub fn as_bool(&self) -> (r: Option<bool>)
        ensures
            self.truthy ==> r == Some(true),
            !self.truthy && (self.falsy || self.nullish == Some(true)) ==> r == Some(false),
            !self.truthy && !self.falsy && self.nullish != Some(true) ==> r == self.boolean,
    {
        if self.truthy {
            Some(true)
        } else if self.falsy || matches!(self.nullish, Some(true)) {
            Some(false)
        } else {
            self.boolean
        }
    }

    /// The compile-time nullishness, when decidable.
    pub fn as_nullish(&self) -> (r: Option<bool>)
        ensures
            (self.nullish == Some(true) || self.ty == Ty::Null || self.ty == Ty::Undefined) ==> r
                == Some(true),
            !(self.nullish == Some(true) || self.ty == Ty::Null || self.ty == Ty::Undefined) && (
            self.nullish == Some(false) || self.ty == Ty::Boolean || self.ty == Ty::Str
                || self.ty == Ty::TemplateString) ==> r == Some(false),
            !(self.nullish == Some(true) || self.ty == Ty::Null || self.ty == Ty::Undefined) && !(
            self.nullish == Some(false) || self.ty == Ty::Boolean || self.ty == Ty::Str
                || self.ty == Ty::TemplateString) ==> r is None,
    {
        let nullish = self.is_nullish();
        if matches!(nullish, Some(true)) || self.is_null() || self.is_undefined() {
            Some(true)
        } else if matches!(nullish, Some(false)) || self.is_bool() || self.is_string()
            || self.is_template_string() {
            Some(false)
        } else {
            None
        }
    }

    /// The types on which compile-time comparison is defined.
    pub open spec fn comparable_ty(t: Ty) -> bool {
        match t {
            Ty::Undefined => true,
            Ty::Null => true,
            Ty::Str => true,
            Ty::Number => true,
            Ty::Boolean => true,
            Ty::RegExp => true,
            Ty::BigInt => true,
            _ => false,
        }
    }

    /// Compile-time equality of two evaluated values: false across types,
    /// by value within a comparable type, and never for regular expressions.
    pub open spec fn compare_ct_spec(a: BasicEvaluatedExpression, b: BasicEvaluatedExpression) -> bool {
        if a.ty != b.ty {
            false
        } else {
            match a.ty {
                Ty::Undefined => true,
                Ty::Null => true,
                Ty::Str => a.string->0@ == b.string->0@,
                Ty::Number => f64_eq_bits(a.number->0, b.number->0),
                Ty::Boolean => a.boolean->0 == b.boolean->0,
                Ty::RegExp => false,
                Ty::BigInt => bigint_eq_spec(a.bigint->0, b.bigint->0),
                _ => false,
            }
        }
    }

    /// Compare two compile-time values for equality.
    pub fn compare_compile_time_value(&self, b: &BasicEvaluatedExpression) -> (r: bool)
        requires
            self.wf(),
            b.wf(),
            self.ty == b.ty ==> Self::comparable_ty(self.ty),
        ensures
            r == Self::compare_ct_spec(*self, *b),
    {
        if self.ty != b.ty {
            false
        } else {
            match self.ty {
                Ty::Undefined => true,
                Ty::Null => true,
                Ty::Str => self.string.as_ref().unwrap().eq(b.string.as_ref().unwrap()),
                Ty::Number => f64_eq(self.number.unwrap(), b.number.unwrap()),
                Ty::Boolean => self.boolean.unwrap() == b.boolean.unwrap(),
                Ty::RegExp => false,
                Ty::BigInt => bigint_eq(
                    self.bigint.as_ref().unwrap(),
                    b.bigint.as_ref().unwrap(),
                ),
                _ => false,
            }
        }
    }

    pub fn could_have_side_effects(&self) -> (r: bool)
        ensures
            r == self.side_effects,
    {
        self.side_effects
    }

    pub fn set_side_effects(&mut self, side_effects: bool)
        ensures
            *final(self) == (BasicEvaluatedExpression { side_effects, ..*old(self) }),
    {
        self.side_effects = side_effects;
    }

    pub fn set_null(&mut self)
        requires
            old(self).wf(),
        ensures
            final(self).wf(),
            *final(self) == (BasicEvaluatedExpression {
                ty: Ty::Null,
                side_effects: false,
                ..*old(self)
            }),
    {
        self.ty = Ty::Null;
        self.side_effects = false;
    }

    /// An array value: side effects exactly when some item has them.
    pub fn set_items(&mut self, items: Vec<BasicEvaluatedExpression>)
        requires
            old(self).wf(),
        ensures
            final(self).wf(),
            final(self).ty == Ty::Array,
            final(self).side_effects == any_side_effects(items@),
            final(self).items matches Some(v) && v@ == items@,
            final(self).range == old(self).range,
            final(self).string == old(self).string,
            final(self).boolean == old(self).boolean,
            final(self).options == old(self).options,
    {
        let se = compute_any_side_effects(&items);
        self.ty = Ty::Array;
        self.side_effects = se;
        self.items = Some(items);
    }

    pub fn options(&self) -> (r: &Vec<BasicEvaluatedExpression>)
        requires
            self.options is Some,
        ensures
            r@ == self.options->0@,
    {
        self.options.as_ref().unwrap()
    }

    pub fn set_options(&mut self, options: Option<Vec<BasicEvaluatedExpression>>)
        ensures
            *final(self) == (BasicEvaluatedExpression {
                ty: Ty::Conditional,
                options,
                side_effects: true,
                ..*old(self)
            }),
    {
        self.ty = Ty::Conditional;
        self.options = options;
        self.side_effects = true;
    }

    /// Add conditional branches: extend the existing options, or become a
    /// conditional with these options.
    pub fn add_options(&mut self, options: Vec<BasicEvaluatedExpression>)
        ensures
            old(self).options matches Some(o) ==> final(self).options matches Some(n) && n@ == o@
                + options@ && final(self).ty == old(self).ty && final(self).side_effects == old(
                self,
            ).side_effects,
            old(self).options is None ==> *final(self) == (BasicEvaluatedExpression {
                ty: Ty::Conditional,
                options: Some(options),
                side_effects: true,
                ..*old(self)
            }),
    {
        if self.options.is_some() {
            let mut incoming = options;
            let existing = self.options.as_mut().unwrap();
            existing.append(&mut incoming);
        } else {
            self.ty = Ty::Conditional;
            self.options = Some(options);
            self.side_effects = true;
        }
    }

    pub fn set_bool(&mut self, boolean: bool)
        requires
            old(self).wf(),
        ensures
            final(self).wf(),
            *final(self) == (BasicEvaluatedExpression {
                ty: Ty::Boolean,
                boolean: Some(boolean),
                side_effects: true,
                ..*old(self)
            }),
    {
        self.ty = Ty::Boolean;
        self.boolean = Some(boolean);
        self.side_effects = true;
    }

    pub fn set_range(&mut self, start: u32, end: u32)
        ensures
            *final(self) == (BasicEvaluatedExpression {
                range: Some(DependencyLocation { start, end }),
                ..*old(self)
            }),
    {
        self.range = Some(DependencyLocation::new(start, end));
    }

    /// A template string from its quasis and interpolated parts: side
    /// effects exactly when some part has them.
    pub fn set_template_string(
        &mut self,
        quasis: Vec<BasicEvaluatedExpression>,
        parts: Vec<BasicEvaluatedExpression>,
        kind: TemplateStringKind,
    )
        requires
            old(self).wf(),
        ensures
            final(self).wf(),
            final(self).ty == Ty::TemplateString,
            final(self).side_effects == any_side_effects(parts@),
            final(self).quasis matches Some(q) && q@ == quasis@,
            final(self).parts matches Some(p) && p@ == parts@,
            final(self).template_string_kind == Some(kind),
            final(self).range == old(self).range,
            final(self).string == old(self).string,
            final(self).options == old(self).options,
    {
        let se = compute_any_side_effects(&parts);
        self.ty = Ty::TemplateString;
        self.quasis = Some(quasis);
        self.side_effects = se;
        self.parts = Some(parts);
        self.template_string_kind = Some(kind);
    }

    pub fn set_string(&mut self, string: String)
        requires
            old(self).wf(),
        ensures
            final(self).wf(),
            *final(self) == (BasicEvaluatedExpression {
                ty: Ty::Str,
                string: Some(string),
                side_effects: false,
                ..*old(self)
            }),
    {
        self.ty = Ty::Str;
        self.string = Some(string);
        self.side_effects = false;
    }

    pub fn set_regexp(&mut self, regexp: String, flags: String)
        requires
            old(self).wf(),
        ensures
            final(self).wf(),
            *final(self) == (BasicEvaluatedExpression {
                ty: Ty::RegExp,
                regexp: Some((regexp, flags)),
                side_effects: false,
                ..*old(self)
            }),
    {
        self.ty = Ty::RegExp;
        self.regexp = Some((regexp, flags));
        self.side_effects = false;
    }

    pub fn string(&self) -> (r: &String)
        requires
            self.string is Some,
        ensures
            r@ == self.string->0@,
    {
        self.string.as_ref().unwrap()
    }

    pub fn regexp(&self) -> (r: &(String, String))
        requires
            self.regexp is Some,
        ensures
            *r == self.regexp->0,
    {
        self.regexp.as_ref().unwrap()
    }

    pub fn bool(&self) -> (r: bool)
        requires
            self.boolean is Some,
        ensures
            r == self.boolean->0,
    {
        self.boolean.unwrap()
    }

    pub fn parts(&self) -> (r: &Vec<BasicEvaluatedExpression>)
        requires
            self.parts is Some,
        ensures
            r@ == self.parts->0@,
    {
        self.parts.as_ref().unwrap()
    }

    pub fn range(&self) -> (r: (u32, u32))
        requires
            self.range is Some,
        ensures
            r.0 == self.range->0.start,
            r.1 == self.range->0.end,
    {
        let range = self.range.unwrap();
        (range.start(), range.end())
    }
}

/// Evaluate a source span to a known string value.
pub fn evaluate_to_string(value: String, start: u32, end: u32) -> (r: BasicEvaluatedExpression)
    ensures
        r.wf(),
        r.ty == Ty::Str,
        r.string matches Some(s) && s@ == value@,
        !r.side_effects,
        r.range == Some(DependencyLocation { start, end }),
{
    let mut eval = BasicEvaluatedExpression::with_range(start, end);
    eval.set_string(value);
    eval
}

/// Flag bits of a regular-expression flag set.
pub const FLAG_Y: u8 = 1;
pub const FLAG_M: u8 = 2;
pub const FLAG_I: u8 = 4;
pub const FLAG_G: u8 = 8;

/// Scan of the flag characters from position `i` with the flags in `mask`
/// already seen: valid when every remaining character is one of `g i m y`
/// and none repeats.
pub open spec fn valid_flags_from(s: Seq<char>, i: int, mask: u8) -> bool
    decreases s.len() - i,
{
    if i < 0 || i >= s.len() {
        true
    } else if s[i] == 'g' {
        mask & FLAG_G == 0 && valid_flags_from(s, i + 1, mask | FLAG_G)
    } else if s[i] == 'i' {
        mask & FLAG_I == 0 && valid_flags_from(s, i + 1, mask | FLAG_I)
    } else if s[i] == 'm' {
        mask & FLAG_M == 0 && valid_flags_from(s, i + 1, mask | FLAG_M)
    } else if s[i] == 'y' {
        mask & FLAG_Y == 0 && valid_flags_from(s, i + 1, mask | FLAG_Y)
    } else {
        false
    }
}

/// A valid JavaScript regular-expression flag string: at most four
/// characters, each of `g i m y` at most once.
pub open spec fn valid_reg_exp_flags_spec(s: Seq<char>) -> bool {
    if s.len() == 0 {
        true
    } else if s.len() > 4 {
        false
    } else {
        valid_flags_from(s, 0, 0)
    }
}

/// Check a regular-expression flag string.
pub fn is_valid_reg_exp_flags(flags: &str) -> (r: bool)
    ensures
        r == valid_reg_exp_flags_spec(flags@),
{
    let n = flags.unicode_len();
    if n == 0 {
        return true;
    }
    if n > 4 {
        return false;
    }
    let mut remaining: u8 = 0;
    let mut i: usize = 0;
    while i < n
        invariant
            i <= n,
            n == flags@.len(),
            valid_flags_from(flags@, 0, 0) == valid_flags_from(flags@, i as int, remaining),
        decreases n - i,
    {
        let c = flags.get_char(i);
        if c == 'g' {
            if remaining & FLAG_G != 0 {
                return false;
            }
            remaining = remaining | FLAG_G;
        } else if c == 'i' {
            if remaining & FLAG_I != 0 {
                return false;
            }
            remaining = remaining | FLAG_I;
        } else if c == 'm' {
            if remaining & FLAG_M != 0 {
                return false;
            }
            remaining = remaining | FLAG_M;
        } else if c == 'y' {
            if remaining & FLAG_Y != 0 {
                return false;
            }
            remaining = remaining | FLAG_Y;
        } else {
            return false;
        }
        i = i + 1;
    }
    true
}

} // verus!
