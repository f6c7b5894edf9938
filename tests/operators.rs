use mew::operators::{
    binary_action, element_slot, equality, read_access, truthy, unary_applies, write_access, Access,
    Action, Equality, Kind, Shape,
};
use mew::{BinaryOp, UnaryOp};

const KINDS: [Kind; 8] = [
    Kind::Null,
    Kind::Undefined,
    Kind::Number,
    Kind::Bool,
    Kind::Str,
    Kind::Array,
    Kind::Object,
    Kind::Function,
];

#[test]
fn string_plus_anything_concatenates_both_ways() {
    for k in KINDS {
        assert_eq!(binary_action(BinaryOp::Add, Kind::Str, k), Action::Concat);
        assert_eq!(binary_action(BinaryOp::Add, k, Kind::Str), Action::Concat);
    }
}

#[test]
fn arithmetic_only_on_two_numbers() {
    for op in [BinaryOp::Add, BinaryOp::Sub, BinaryOp::Mul, BinaryOp::Div, BinaryOp::Mod] {
        assert_eq!(binary_action(op, Kind::Number, Kind::Number), Action::Arithmetic);
    }
    assert_eq!(binary_action(BinaryOp::Sub, Kind::Str, Kind::Number), Action::Mismatch);
    assert_eq!(binary_action(BinaryOp::Add, Kind::Bool, Kind::Number), Action::Mismatch);
    assert_eq!(binary_action(BinaryOp::Mul, Kind::Null, Kind::Null), Action::Mismatch);
}

#[test]
fn comparison_only_on_numbers() {
    assert_eq!(binary_action(BinaryOp::Lt, Kind::Number, Kind::Number), Action::Compare);
    assert_eq!(binary_action(BinaryOp::Gte, Kind::Str, Kind::Str), Action::Mismatch);
}

#[test]
fn equality_and_logic_take_any_kinds() {
    for a in KINDS {
        for b in KINDS {
            assert_eq!(binary_action(BinaryOp::Eq, a, b), Action::Equal);
            assert_eq!(binary_action(BinaryOp::NotEq, a, b), Action::NotEqual);
            assert_eq!(binary_action(BinaryOp::And, a, b), Action::Logic);
            assert_eq!(binary_action(BinaryOp::Or, a, b), Action::Logic);
        }
    }
}

#[test]
fn unary_operators() {
    assert!(unary_applies(UnaryOp::Minus, Kind::Number));
    assert!(!unary_applies(UnaryOp::Minus, Kind::Str));
    for k in KINDS {
        assert!(unary_applies(UnaryOp::Not, k));
    }
}

#[test]
fn truthiness_table() {
    assert!(!truthy(Shape::Null));
    assert!(!truthy(Shape::Undefined));
    assert!(truthy(Shape::Bool(true)));
    assert!(!truthy(Shape::Bool(false)));
    assert!(!truthy(Shape::Number { zero_or_nan: true }));
    assert!(truthy(Shape::Number { zero_or_nan: false }));
    assert!(!truthy(Shape::Str { empty: true }));
    assert!(truthy(Shape::Str { empty: false }));
    assert!(!truthy(Shape::Array { empty: true }));
    assert!(truthy(Shape::Array { empty: false }));
    assert!(truthy(Shape::Object));
    assert!(truthy(Shape::Function));
}

#[test]
fn equality_table() {
    assert_eq!(equality(Kind::Null, Kind::Null), Equality::Same);
    assert_eq!(equality(Kind::Undefined, Kind::Undefined), Equality::Same);
    assert_eq!(equality(Kind::Null, Kind::Undefined), Equality::Different);
    assert_eq!(equality(Kind::Number, Kind::Number), Equality::Numbers);
    assert_eq!(equality(Kind::Str, Kind::Str), Equality::Contents);
    assert_eq!(equality(Kind::Bool, Kind::Bool), Equality::Contents);
    assert_eq!(equality(Kind::Object, Kind::Object), Equality::Identity);
    assert_eq!(equality(Kind::Array, Kind::Array), Equality::Identity);
    assert_eq!(equality(Kind::Number, Kind::Str), Equality::Different);
}

#[test]
fn reading_members_and_elements() {
    assert_eq!(read_access(Kind::Object, Kind::Str, false), Access::Field);
    assert_eq!(read_access(Kind::Object, Kind::Number, false), Access::Field);
    assert_eq!(read_access(Kind::Object, Kind::Bool, false), Access::Mismatch);
    assert_eq!(read_access(Kind::Array, Kind::Str, true), Access::Length);
    assert_eq!(read_access(Kind::Array, Kind::Str, false), Access::Mismatch);
    assert_eq!(read_access(Kind::Array, Kind::Number, false), Access::Element);
    assert_eq!(read_access(Kind::Str, Kind::Str, true), Access::Length);
    assert_eq!(read_access(Kind::Null, Kind::Str, false), Access::Mismatch);
}

#[test]
fn writing_members_and_elements() {
    assert_eq!(write_access(Kind::Object, Kind::Str), Access::Field);
    assert_eq!(write_access(Kind::Array, Kind::Number), Access::Element);
    assert_eq!(write_access(Kind::Array, Kind::Str), Access::Mismatch);
    assert_eq!(write_access(Kind::Str, Kind::Number), Access::Mismatch);
}

#[test]
fn element_in_and_out_of_range() {
    // index 5 of a two-element array is out of range; index 1 is the last
    assert_eq!(element_slot(2, Some(5)), None);
    assert_eq!(element_slot(2, Some(1)), Some(1));
    assert_eq!(element_slot(2, Some(2)), None);
    assert_eq!(element_slot(0, Some(0)), None);
    assert_eq!(element_slot(3, None), None);
}
