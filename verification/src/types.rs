//! The dynamic value model: the tagged union of runtime values and its
//! arithmetic, comparison and rendering operations.

use vstd::prelude::*;
use vstd::string::StringExecFns;
use crate::float::{
    float_add, float_sub, float_mul, float_div, float_lt, float_le, float_eq, float_of_int,
    float_is_zero, float_text, f64_add, f64_sub, f64_mul, f64_div, f64_lt, f64_le, f64_eq,
    f64_of_int, f64_text, SIGN_MASK,
};
use crate::text::{dec_of_int, i64_to_text, str_char_len};

verus! {

/// A runtime value. Doubles are carried as their IEEE-754 bit patterns.
/// `Range` appears only transiently, as the value of a range construct that
/// drives a for-loop.
#[derive(Debug)]
pub enum Type {
    Int(i64),
    Float(u64),
    Str(String),
    Bool(bool),
    Null,
    Range(i64),
}

/// Mathematical image of a runtime value.
pub enum TypeV {
    Int(i64),
    Float(u64),
    Str(Seq<char>),
    Bool(bool),
    Null,
    Range(i64),
}

impl View for Type {
    type V = TypeV;

    open spec fn view(&self) -> TypeV {
        match self {
            Type::Int(i) => TypeV::Int(*i),
            Type::Float(b) => TypeV::Float(*b),
            Type::Str(s) => TypeV::Str(s@),
            Type::Bool(b) => TypeV::Bool(*b),
            Type::Null => TypeV::Null,
            Type::Range(n) => TypeV::Range(*n),
        }
    }
}

impl Clone for Type {
    fn clone(&self) -> (r: Type)
        ensures
            r == *self,
    {
        match self {
            Type::Int(i) => Type::Int(*i),
            Type::Float(b) => Type::Float(*b),
            Type::Str(s) => Type::Str(s.clone()),
            Type::Bool(b) => Type::Bool(*b),
            Type::Null => Type::Null,
            Type::Range(n) => Type::Range(*n),
        }
    }
}

/// A run-time failure. Every error aborts the run where it occurs.
#[derive(Debug)]
pub enum RuntimeError {
    UndefinedVariable(String),
    UndefinedFunction(String),
    ArityMismatch { expected: usize, got: usize },
    TypeMismatch,
    DivisionByZero,
    OutOfFuel,
}

/// Mathematical image of a run-time failure.
pub enum ErrV {
    UndefinedVariable(Seq<char>),
    UndefinedFunction(Seq<char>),
    ArityMismatch { expected: nat, got: nat },
    TypeMismatch,
    DivisionByZero,
    OutOfFuel,
}

impl View for RuntimeError {
    type V = ErrV;

    open spec fn view(&self) -> ErrV {
        match self {
            RuntimeError::UndefinedVariable(n) => ErrV::UndefinedVariable(n@),
            RuntimeError::UndefinedFunction(n) => ErrV::UndefinedFunction(n@),
            RuntimeError::ArityMismatch { expected, got } => (ErrV::ArityMismatch {
                expected: *expected as nat,
                got: *got as nat,
            }),
            RuntimeError::TypeMismatch => ErrV::TypeMismatch,
            RuntimeError::DivisionByZero => ErrV::DivisionByZero,
            RuntimeError::OutOfFuel => ErrV::OutOfFuel,
        }
    }
}

/// Image of an operation's outcome: the value it produces or the error that
/// stops the run.
pub open spec fn res_view(r: Result<Type, RuntimeError>) -> Result<TypeV, ErrV> {
    match r {
        Ok(v) => Ok(v@),
        Err(e) => Err(e@),
    }
}

/// Addition with numeric promotion: integers stay integers (wrapping on
/// overflow), a double operand makes the result a double, and two strings
/// concatenate; anything else is a type error.
pub open spec fn add_v(a: TypeV, b: TypeV) -> Result<TypeV, ErrV> {
    match (a, b) {
        (TypeV::Int(x), TypeV::Int(y)) => Ok(TypeV::Int(vstd::wrapping::i64_specs::wrapping_add(x, y))),
        (TypeV::Float(x), TypeV::Float(y)) => Ok(TypeV::Float(float_add(x, y))),
        (TypeV::Int(x), TypeV::Float(y)) => Ok(TypeV::Float(float_add(float_of_int(x), y))),
        (TypeV::Float(x), TypeV::Int(y)) => Ok(TypeV::Float(float_add(x, float_of_int(y)))),
        (TypeV::Str(x), TypeV::Str(y)) => Ok(TypeV::Str(x + y)),
        _ => Err(ErrV::TypeMismatch),
    }
}

/// Subtraction with the same numeric promotion as addition.
pub open spec fn sub_v(a: TypeV, b: TypeV) -> Result<TypeV, ErrV> {
    match (a, b) {
        (TypeV::Int(x), TypeV::Int(y)) => Ok(TypeV::Int(vstd::wrapping::i64_specs::wrapping_sub(x, y))),
        (TypeV::Float(x), TypeV::Float(y)) => Ok(TypeV::Float(float_sub(x, y))),
        (TypeV::Int(x), TypeV::Float(y)) => Ok(TypeV::Float(float_sub(float_of_int(x), y))),
        (TypeV::Float(x), TypeV::Int(y)) => Ok(TypeV::Float(float_sub(x, float_of_int(y)))),
        _ => Err(ErrV::TypeMismatch),
    }
}

/// Multiplication with the same numeric promotion as addition.
pub open spec fn mul_v(a: TypeV, b: TypeV) -> Result<TypeV, ErrV> {
    match (a, b) {
        (TypeV::Int(x), TypeV::Int(y)) => Ok(TypeV::Int(vstd::wrapping::i64_specs::wrapping_mul(x, y))),
        (TypeV::Float(x), TypeV::Float(y)) => Ok(TypeV::Float(float_mul(x, y))),
        (TypeV::Int(x), TypeV::Float(y)) => Ok(TypeV::Float(float_mul(float_of_int(x), y))),
        (TypeV::Float(x), TypeV::Int(y)) => Ok(TypeV::Float(float_mul(x, float_of_int(y)))),
        _ => Err(ErrV::TypeMismatch),
    }
}

/// Whether a value is a zero divisor: the integer zero or a double whose bit
/// pattern encodes positive or negative zero.
pub open spec fn zero_divisor(b: TypeV) -> bool {
    match b {
        TypeV::Int(y) => y == 0,
        TypeV::Float(y) => float_is_zero(y),
        _ => false,
    }
}

/// Integer division truncating toward zero, wrapping on the one overflowing
/// dividend/divisor pair.
pub open spec fn div_trunc_i64(x: i64, y: i64) -> i64
    recommends
        y != 0,
{
    let a = x as int;
    let d = y as int;
    let q = if a == 0 {
        0int
    } else if a > 0 && d > 0 {
        a / d
    } else if a < 0 && d < 0 {
        (a * -1) / (d * -1)
    } else if a < 0 {
        ((a * -1) / d) * -1
    } else {
        (a / (d * -1)) * -1
    };
    if q > i64::MAX {
        i64::MIN
    } else {
        q as i64
    }
}

/// Division: a zero divisor of either numeric kind fails first, whatever the
/// left operand; then the same numeric promotion as addition applies.
pub open spec fn div_v(a: TypeV, b: TypeV) -> Result<TypeV, ErrV> {
    if zero_divisor(b) {
        Err(ErrV::DivisionByZero)
    } else {
        match (a, b) {
            (TypeV::Int(x), TypeV::Int(y)) => Ok(TypeV::Int(div_trunc_i64(x, y))),
            (TypeV::Float(x), TypeV::Float(y)) => Ok(TypeV::Float(float_div(x, y))),
            (TypeV::Int(x), TypeV::Float(y)) => Ok(TypeV::Float(float_div(float_of_int(x), y))),
            (TypeV::Float(x), TypeV::Int(y)) => Ok(TypeV::Float(float_div(x, float_of_int(y)))),
            _ => Err(ErrV::TypeMismatch),
        }
    }
}

/// Equality across every pair of variants: values of different variants are
/// simply unequal, doubles compare under IEEE-754, and no pairing fails.
pub open spec fn eq_v(a: TypeV, b: TypeV) -> bool {
    match (a, b) {
        (TypeV::Int(x), TypeV::Int(y)) => x == y,
        (TypeV::Float(x), TypeV::Float(y)) => float_eq(x, y),
        (TypeV::Str(x), TypeV::Str(y)) => x == y,
        (TypeV::Bool(x), TypeV::Bool(y)) => x == y,
        (TypeV::Null, TypeV::Null) => true,
        (TypeV::Range(x), TypeV::Range(y)) => x == y,
        _ => false,
    }
}

/// Strict order: numeric pairs with promotion; strings by length, not
/// lexicographically; anything else is a type error.
pub open spec fn lt_v(a: TypeV, b: TypeV) -> Result<TypeV, ErrV> {
    match (a, b) {
        (TypeV::Int(x), TypeV::Int(y)) => Ok(TypeV::Bool(x < y)),
        (TypeV::Float(x), TypeV::Float(y)) => Ok(TypeV::Bool(float_lt(x, y))),
        (TypeV::Int(x), TypeV::Float(y)) => Ok(TypeV::Bool(float_lt(float_of_int(x), y))),
        (TypeV::Float(x), TypeV::Int(y)) => Ok(TypeV::Bool(float_lt(x, float_of_int(y)))),
        (TypeV::Str(x), TypeV::Str(y)) => Ok(TypeV::Bool(x.len() < y.len())),
        _ => Err(ErrV::TypeMismatch),
    }
}

/// Strict order, reversed operands.
pub open spec fn gt_v(a: TypeV, b: TypeV) -> Result<TypeV, ErrV> {
    match (a, b) {
        (TypeV::Int(x), TypeV::Int(y)) => Ok(TypeV::Bool(x > y)),
        (TypeV::Float(x), TypeV::Float(y)) => Ok(TypeV::Bool(float_lt(y, x))),
        (TypeV::Int(x), TypeV::Float(y)) => Ok(TypeV::Bool(float_lt(y, float_of_int(x)))),
        (TypeV::Float(x), TypeV::Int(y)) => Ok(TypeV::Bool(float_lt(float_of_int(y), x))),
        (TypeV::Str(x), TypeV::Str(y)) => Ok(TypeV::Bool(x.len() > y.len())),
        _ => Err(ErrV::TypeMismatch),
    }
}

/// Non-strict order, with the same pairings as the strict one.
pub open spec fn le_v(a: TypeV, b: TypeV) -> Result<TypeV, ErrV> {
    match (a, b) {
        (TypeV::Int(x), TypeV::Int(y)) => Ok(TypeV::Bool(x <= y)),
        (TypeV::Float(x), TypeV::Float(y)) => Ok(TypeV::Bool(float_le(x, y))),
        (TypeV::Int(x), TypeV::Float(y)) => Ok(TypeV::Bool(float_le(float_of_int(x), y))),
        (TypeV::Float(x), TypeV::Int(y)) => Ok(TypeV::Bool(float_le(x, float_of_int(y)))),
        (TypeV::Str(x), TypeV::Str(y)) => Ok(TypeV::Bool(x.len() <= y.len())),
        _ => Err(ErrV::TypeMismatch),
    }
}

/// Non-strict order, reversed operands.
pub open spec fn ge_v(a: TypeV, b: TypeV) -> Result<TypeV, ErrV> {
    match (a, b) {
        (TypeV::Int(x), TypeV::Int(y)) => Ok(TypeV::Bool(x >= y)),
        (TypeV::Float(x), TypeV::Float(y)) => Ok(TypeV::Bool(float_le(y, x))),
        (TypeV::Int(x), TypeV::Float(y)) => Ok(TypeV::Bool(float_le(y, float_of_int(x)))),
        (TypeV::Float(x), TypeV::Int(y)) => Ok(TypeV::Bool(float_le(float_of_int(y), x))),
        (TypeV::Str(x), TypeV::Str(y)) => Ok(TypeV::Bool(x.len() >= y.len())),
        _ => Err(ErrV::TypeMismatch),
    }
}

/// Textual form of a value: strings render raw, numbers and booleans render
/// their literal form, null renders as the word null.
pub open spec fn text_of(v: TypeV) -> Seq<char> {
    match v {
        TypeV::Str(s) => s,
        TypeV::Int(i) => dec_of_int(i),
        TypeV::Float(b) => float_text(b),
        TypeV::Bool(b) => if b {
            "true"@
        } else {
            "false"@
        },
        TypeV::Null => "null"@,
        TypeV::Range(n) => "range("@ + dec_of_int(n) + ")"@,
    }
}

impl Type {
    pub fn is_null(&self) -> (r: bool)
        ensures
            r == (self@ is Null),
    {
        matches!(self, Type::Null)
    }

    /// Addition operator.
    pub fn add(self, other: Type) -> (r: Result<Type, RuntimeError>)
        ensures
            res_view(r) == add_v(self@, other@),
    {
        match (self, other) {
            (Type::Int(a), Type::Int(b)) => Ok(Type::Int(a.wrapping_add(b))),
            (Type::Float(a), Type::Float(b)) => Ok(Type::Float(f64_add(a, b))),
            (Type::Int(a), Type::Float(b)) => Ok(Type::Float(f64_add(f64_of_int(a), b))),
            (Type::Float(a), Type::Int(b)) => Ok(Type::Float(f64_add(a, f64_of_int(b)))),
            (Type::Str(a), Type::Str(b)) => Ok(Type::Str(a.concat(b.as_str()))),
            _ => Err(RuntimeError::TypeMismatch),
        }
    }

    /// Subtraction operator.
    pub fn subtract(self, other: Type) -> (r: Result<Type, RuntimeError>)
        ensures
            res_view(r) == sub_v(self@, other@),
    {
        match (self, other) {
            (Type::Int(a), Type::Int(b)) => Ok(Type::Int(a.wrapping_sub(b))),
            (Type::Float(a), Type::Float(b)) => Ok(Type::Float(f64_sub(a, b))),
            (Type::Int(a), Type::Float(b)) => Ok(Type::Float(f64_sub(f64_of_int(a), b))),
            (Type::Float(a), Type::Int(b)) => Ok(Type::Float(f64_sub(a, f64_of_int(b)))),
            _ => Err(RuntimeError::TypeMismatch),
        }
    }

    /// Multiplication operator.
    pub fn multiply(self, other: Type) -> (r: Result<Type, RuntimeError>)
        ensures
            res_view(r) == mul_v(self@, other@),
    {
        match (self, other) {
            (Type::Int(a), Type::Int(b)) => Ok(Type::Int(a.wrapping_mul(b))),
            (Type::Float(a), Type::Float(b)) => Ok(Type::Float(f64_mul(a, b))),
            (Type::Int(a), Type::Float(b)) => Ok(Type::Float(f64_mul(f64_of_int(a), b))),
            (Type::Float(a), Type::Int(b)) => Ok(Type::Float(f64_mul(a, f64_of_int(b)))),
            _ => Err(RuntimeError::TypeMismatch),
        }
    }

    /// Division operator: a zero divisor fails before anything else.
    pub fn divide(self, other: Type) -> (r: Result<Type, RuntimeError>)
        ensures
            res_view(r) == div_v(self@, other@),
    {
        let divisor_is_zero: bool = match &other {
            Type::Int(y) => *y == 0,
            Type::Float(y) => *y == 0 || *y == SIGN_MASK,
            _ => false,
        };
        if divisor_is_zero {
            return Err(RuntimeError::DivisionByZero);
        }
        match (self, other) {
            (Type::Int(a), Type::Int(b)) => {
                match a.checked_div(b) {
                    Some(q) => Ok(Type::Int(q)),
                    None => Ok(Type::Int(i64::MIN)),
                }
            },
            (Type::Float(a), Type::Float(b)) => Ok(Type::Float(f64_div(a, b))),
            (Type::Int(a), Type::Float(b)) => Ok(Type::Float(f64_div(f64_of_int(a), b))),
            (Type::Float(a), Type::Int(b)) => Ok(Type::Float(f64_div(a, f64_of_int(b)))),
            _ => Err(RuntimeError::TypeMismatch),
        }
    }

    /// Whether two values are equal; never fails.
    pub fn equals(&self, other: &Type) -> (r: bool)
        ensures
            r == eq_v(self@, other@),
    {
        match (self, other) {
            (Type::Int(a), Type::Int(b)) => *a == *b,
            (Type::Float(a), Type::Float(b)) => f64_eq(*a, *b),
            (Type::Str(a), Type::Str(b)) => a.eq(b),
            (Type::Bool(a), Type::Bool(b)) => *a == *b,
            (Type::Null, Type::Null) => true,
            (Type::Range(a), Type::Range(b)) => *a == *b,
            _ => false,
        }
    }

    /// Equality operator.
    pub fn equal(self, other: Type) -> (r: Result<Type, RuntimeError>)
        ensures
            res_view(r) == Ok::<TypeV, ErrV>(TypeV::Bool(eq_v(self@, other@))),
    {
        let b = self.equals(&other);
        Ok(Type::Bool(b))
    }

    /// Inequality operator.
    pub fn not_equal(self, other: Type) -> (r: Result<Type, RuntimeError>)
        ensures
            res_view(r) == Ok::<TypeV, ErrV>(TypeV::Bool(!eq_v(self@, other@))),
    {
        let b = self.equals(&other);
        Ok(Type::Bool(!b))
    }

    /// The `<` operator.
    pub fn less_than(self, other: Type) -> (r: Result<Type, RuntimeError>)
        ensures
            res_view(r) == lt_v(self@, other@),
    {
        match (self, other) {
            (Type::Int(a), Type::Int(b)) => Ok(Type::Bool(a < b)),
            (Type::Float(a), Type::Float(b)) => Ok(Type::Bool(f64_lt(a, b))),
            (Type::Int(a), Type::Float(b)) => Ok(Type::Bool(f64_lt(f64_of_int(a), b))),
            (Type::Float(a), Type::Int(b)) => Ok(Type::Bool(f64_lt(a, f64_of_int(b)))),
            (Type::Str(a), Type::Str(b)) => Ok(Type::Bool(str_char_len(a.as_str()) < str_char_len(b.as_str()))),
            _ => Err(RuntimeError::TypeMismatch),
        }
    }

    /// The `>` operator.
    pub fn greater_than(self, other: Type) -> (r: Result<Type, RuntimeError>)
        ensures
            res_view(r) == gt_v(self@, other@),
    {
        match (self, other) {
            (Type::Int(a), Type::Int(b)) => Ok(Type::Bool(a > b)),
            (Type::Float(a), Type::Float(b)) => Ok(Type::Bool(f64_lt(b, a))),
            (Type::Int(a), Type::Float(b)) => Ok(Type::Bool(f64_lt(b, f64_of_int(a)))),
            (Type::Float(a), Type::Int(b)) => Ok(Type::Bool(f64_lt(f64_of_int(b), a))),
            (Type::Str(a), Type::Str(b)) => Ok(Type::Bool(str_char_len(a.as_str()) > str_char_len(b.as_str()))),
            _ => Err(RuntimeError::TypeMismatch),
        }
    }

    /// The `<=` operator.
    pub fn less_than_equal(self, other: Type) -> (r: Result<Type, RuntimeError>)
        ensures
            res_view(r) == le_v(self@, other@),
    {
        match (self, other) {
            (Type::Int(a), Type::Int(b)) => Ok(Type::Bool(a <= b)),
            (Type::Float(a), Type::Float(b)) => Ok(Type::Bool(f64_le(a, b))),
            (Type::Int(a), Type::Float(b)) => Ok(Type::Bool(f64_le(f64_of_int(a), b))),
            (Type::Float(a), Type::Int(b)) => Ok(Type::Bool(f64_le(a, f64_of_int(b)))),
            (Type::Str(a), Type::Str(b)) => Ok(Type::Bool(str_char_len(a.as_str()) <= str_char_len(b.as_str()))),
            _ => Err(RuntimeError::TypeMismatch),
        }
    }

    /// The `>=` operator.
    pub fn greater_than_equal(self, other: Type) -> (r: Result<Type, RuntimeError>)
        ensures
            res_view(r) == ge_v(self@, other@),
    {
        match (self, other) {
            (Type::Int(a), Type::Int(b)) => Ok(Type::Bool(a >= b)),
            (Type::Float(a), Type::Float(b)) => Ok(Type::Bool(f64_le(b, a))),
            (Type::Int(a), Type::Float(b)) => Ok(Type::Bool(f64_le(b, f64_of_int(a)))),
            (Type::Float(a), Type::Int(b)) => Ok(Type::Bool(f64_le(f64_of_int(b), a))),
            (Type::Str(a), Type::Str(b)) => Ok(Type::Bool(str_char_len(a.as_str()) >= str_char_len(b.as_str()))),
            _ => Err(RuntimeError::TypeMismatch),
        }
    }

    /// Textual form of the value.
    pub fn to_text(&self) -> (r: String)
        ensures
            r@ == text_of(self@),
    {
        match self {
            Type::Str(s) => s.clone(),
            Type::Int(i) => i64_to_text(*i),
            Type::Float(b) => f64_text(*b),
            Type::Bool(b) => {
                if *b {
                    String::from_str("true")
                } else {
                    String::from_str("false")
                }
            },
            Type::Null => String::from_str("null"),
            Type::Range(n) => {
                let mut s = String::from_str("range(");
                crate::text::push_dec_of_i64(&mut s, *n);
                s.push(')');
                proof {
                    assert(("range("@ + dec_of_int(*n)).push(')') =~= "range("@ + dec_of_int(*n)
                        + ")"@) by {
                        reveal_strlit(")");
                    }
                }
                s
            },
        }
    }
}

} // verus!
