use c_compiler::const_convert::const_convert;
use c_compiler::constants::T as Const;
use c_compiler::initializers::{is_zero, zero, StaticInit};
use c_compiler::rounding::round_way_from_zero;
use c_compiler::types::{type_eq, Type};

#[test]
fn rounds_away_from_zero() {
    assert_eq!(round_way_from_zero(16, 0), 0);
    assert_eq!(round_way_from_zero(16, 4), 16);
    assert_eq!(round_way_from_zero(16, 16), 16);
    assert_eq!(round_way_from_zero(16, 17), 32);
    assert_eq!(round_way_from_zero(16, -4), -16);
}

#[test]
fn converts_constants_between_widths() {
    assert_eq!(
        const_convert(&Type::Long, Const::ConstInt(-5)),
        Const::ConstLong(-5)
    );
    assert_eq!(
        const_convert(&Type::Int, Const::ConstLong(4294967296 + 7)),
        Const::ConstInt(7)
    );
    assert_eq!(const_convert(&Type::Int, Const::ConstInt(3)), Const::ConstInt(3));
    assert_eq!(
        const_convert(&Type::Long, Const::ConstLong(1)),
        Const::ConstLong(1)
    );
}

#[test]
fn zero_initializers() {
    assert_eq!(zero(&Type::Int), StaticInit::IntInit(0));
    assert_eq!(zero(&Type::Long), StaticInit::LongInit(0));
    assert!(is_zero(StaticInit::IntInit(0)));
    assert!(!is_zero(StaticInit::LongInit(3)));
}

#[test]
fn type_equality_is_structural() {
    assert!(type_eq(&Type::Int, &Type::Int));
    assert!(!type_eq(&Type::Int, &Type::Long));
    let f1 = Type::FunType {
        param_types: vec![Type::Int, Type::Long],
        ret_type: Box::new(Type::Int),
    };
    let f2 = Type::FunType {
        param_types: vec![Type::Int, Type::Long],
        ret_type: Box::new(Type::Int),
    };
    let f3 = Type::FunType {
        param_types: vec![Type::Long],
        ret_type: Box::new(Type::Int),
    };
    assert!(type_eq(&f1, &f2));
    assert!(!type_eq(&f1, &f3));
}
