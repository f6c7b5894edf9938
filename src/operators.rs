use vstd::prelude::*;
use crate::ast::{BinaryOp, UnaryOp};

verus! {

/// The kinds of runtime value, as the operator rules see them.
#[derive(Debug, Clone, Copy, PartialEq, Eq, Structural)]
pub enum Kind {
    Null,
    Undefined,
    Number,
    Bool,
    Str,
    Array,
    Object,
    Function,
}

/// What a binary operator does with its two operands.
#[derive(Debug, Clone, Copy, PartialEq, Eq, Structural)]
pub enum Action {
    /// Number arithmetic (`+ - * / %`).
    Arithmetic,
    /// String concatenation with the other operand's canonical string form.
    Concat,
    /// The equality rule (`==`), or its negation (`!=`).
    Equal,
    NotEqual,
    /// Number comparison (`< <= > >=`).
    Compare,
    /// A boolean from both operands' truthiness (`&& ||`).
    Logic,
    /// A Type error naming the operator and both kinds.
    Mismatch,
}

/// The operator table.
pub open spec fn action_of(op: BinaryOp, l: Kind, r: Kind) -> Action {
    let numbers = l == Kind::Number && r == Kind::Number;
    match op {
        BinaryOp::Add => if numbers {
            Action::Arithmetic
        } else if l == Kind::Str || r == Kind::Str {
            Action::Concat
        } else {
            Action::Mismatch
        },
        BinaryOp::Sub | BinaryOp::Mul | BinaryOp::Div | BinaryOp::Mod => if numbers {
            Action::Arithmetic
        } else {
            Action::Mismatch
        },
        BinaryOp::Eq => Action::Equal,
        BinaryOp::NotEq => Action::NotEqual,
        BinaryOp::Lt | BinaryOp::Lte | BinaryOp::Gt | BinaryOp::Gte => if numbers {
            Action::Compare
        } else {
            Action::Mismatch
        },
        BinaryOp::And | BinaryOp::Or => Action::Logic,
    }
}

/// What `op` does with operands of kinds `l` and `r`.
pub fn binary_action(op: BinaryOp, l: Kind, r: Kind) -> (a: Action)
    ensures
        a == action_of(op, l, r),
{
    let numbers = l == Kind::Number && r == Kind::Number;
    match op {
        BinaryOp::Add => if numbers {
            Action::Arithmetic
        } else if l == Kind::Str || r == Kind::Str {
            Action::Concat
        } else {
            Action::Mismatch
        },
        BinaryOp::Sub | BinaryOp::Mul | BinaryOp::Div | BinaryOp::Mod => if numbers {
            Action::Arithmetic
        } else {
            Action::Mismatch
        },
        BinaryOp::Eq => Action::Equal,
        BinaryOp::NotEq => Action::NotEqual,
        BinaryOp::Lt | BinaryOp::Lte | BinaryOp::Gt | BinaryOp::Gte => if numbers {
            Action::Compare
        } else {
            Action::Mismatch
        },
        BinaryOp::And | BinaryOp::Or => Action::Logic,
    }
}

/// `+` with a string on one side concatenates, whatever stands on the
/// other side and in either order.
pub proof fn string_plus_concatenates(s: Kind, v: Kind)
    requires
        s == Kind::Str,
    ensures
        action_of(BinaryOp::Add, s, v) == Action::Concat,
        action_of(BinaryOp::Add, v, s) == Action::Concat,
{
}

/// Whether a unary operator applies: `!` to any value (it negates its
/// truthiness), `-` to a number only; otherwise it is a Type error.
pub fn unary_applies(op: UnaryOp, k: Kind) -> (r: bool)
    ensures
        r == (op == UnaryOp::Not || k == Kind::Number),
{
    match op {
        UnaryOp::Not => true,
        UnaryOp::Minus => k == Kind::Number,
    }
}

/// What truthiness reads of a value: its kind, and for a boolean its value,
/// for a number whether it is zero or NaN, for a string or an array whether
/// it is empty.
#[derive(Debug, Clone, Copy, PartialEq, Eq, Structural)]
pub enum Shape {
    Null,
    Undefined,
    Bool(bool),
    Number { zero_or_nan: bool },
    Str { empty: bool },
    Array { empty: bool },
    Object,
    Function,
}

/// Null and undefined are false; a boolean is itself; a number is false when
/// zero or NaN; a string or an array when empty; anything else is true.
pub open spec fn truthy_spec(v: Shape) -> bool {
    match v {
        Shape::Null | Shape::Undefined => false,
        Shape::Bool(b) => b,
        Shape::Number { zero_or_nan } => !zero_or_nan,
        Shape::Str { empty } | Shape::Array { empty } => !empty,
        Shape::Object | Shape::Function => true,
    }
}

pub fn truthy(v: Shape) -> (r: bool)
    ensures
        r == truthy_spec(v),
{
    match v {
        Shape::Null | Shape::Undefined => false,
        Shape::Bool(b) => b,
        Shape::Number { zero_or_nan } => !zero_or_nan,
        Shape::Str { empty } | Shape::Array { empty } => !empty,
        Shape::Object | Shape::Function => true,
    }
}

/// How `==` compares two values of given kinds.
#[derive(Debug, Clone, Copy, PartialEq, Eq, Structural)]
pub enum Equality {
    /// Always equal (null with null, undefined with undefined).
    Same,
    /// Never equal (different kinds).
    Different,
    /// Compare the numbers; NaN equals nothing.
    Numbers,
    /// Compare the contents (booleans, strings).
    Contents,
    /// Compare identities (arrays, objects, functions).
    Identity,
}

pub open spec fn equality_of(l: Kind, r: Kind) -> Equality {
    if l != r {
        Equality::Different
    } else {
        match l {
            Kind::Null | Kind::Undefined => Equality::Same,
            Kind::Number => Equality::Numbers,
            Kind::Bool | Kind::Str => Equality::Contents,
            Kind::Array | Kind::Object | Kind::Function => Equality::Identity,
        }
    }
}

pub fn equality(l: Kind, r: Kind) -> (e: Equality)
    ensures
        e == equality_of(l, r),
{
    if l != r {
        Equality::Different
    } else {
        match l {
            Kind::Null | Kind::Undefined => Equality::Same,
            Kind::Number => Equality::Numbers,
            Kind::Bool | Kind::Str => Equality::Contents,
            Kind::Array | Kind::Object | Kind::Function => Equality::Identity,
        }
    }
}

/// How `container[key]` or `container.key` is read or written.
#[derive(Debug, Clone, Copy, PartialEq, Eq, Structural)]
pub enum Access {
    /// An object's property, by a string key or a number's canonical string;
    /// a missing one reads as undefined.
    Field,
    /// The read-only `length` of an array or a string.
    Length,
    /// An array element by number; out of range is a Runtime error.
    Element,
    /// A Type error.
    Mismatch,
}

/// The reading rule; `is_length` tells whether a string key is `length`.
pub open spec fn read_access_of(container: Kind, key: Kind, is_length: bool) -> Access {
    match container {
        Kind::Object => if key == Kind::Str || key == Kind::Number { Access::Field } else { Access::Mismatch },
        Kind::Array => if key == Kind::Str && is_length {
            Access::Length
        } else if key == Kind::Number {
            Access::Element
        } else {
            Access::Mismatch
        },
        Kind::Str => if key == Kind::Str && is_length { Access::Length } else { Access::Mismatch },
        _ => Access::Mismatch,
    }
}

/// The writing rule: `length` cannot be written.
pub open spec fn write_access_of(container: Kind, key: Kind) -> Access {
    match container {
        Kind::Object => if key == Kind::Str || key == Kind::Number { Access::Field } else { Access::Mismatch },
        Kind::Array => if key == Kind::Number { Access::Element } else { Access::Mismatch },
        _ => Access::Mismatch,
    }
}

pub fn read_access(container: Kind, key: Kind, is_length: bool) -> (a: Access)
    ensures
        a == read_access_of(container, key, is_length),
{
    match container {
        Kind::Object => if key == Kind::Str || key == Kind::Number { Access::Field } else { Access::Mismatch },
        Kind::Array => if key == Kind::Str && is_length {
            Access::Length
        } else if key == Kind::Number {
            Access::Element
        } else {
            Access::Mismatch
        },
        Kind::Str => if key == Kind::Str && is_length { Access::Length } else { Access::Mismatch },
        _ => Access::Mismatch,
    }
}

pub fn write_access(container: Kind, key: Kind) -> (a: Access)
    ensures
        a == write_access_of(container, key),
{
    match container {
        Kind::Object => if key == Kind::Str || key == Kind::Number { Access::Field } else { Access::Mismatch },
        Kind::Array => if key == Kind::Number { Access::Element } else { Access::Mismatch },
        _ => Access::Mismatch,
    }
}

/// The position an index picks in an array of `len` elements, or `None`
/// when it is out of range. `index` is the index as a whole number, or
/// `None` when the number given is not a whole number from zero up.
pub fn element_slot(len: usize, index: Option<u64>) -> (r: Option<usize>)
    ensures
        r matches Some(i) ==> i < len && index == Some(i as u64),
        r is None ==> !(index matches Some(i) && i < len),
{
    match index {
        Some(i) => if i < len as u64 { Some(i as usize) } else { None },
        None => None,
    }
}

} // verus!
