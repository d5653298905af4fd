use sierra::context::{MockSpecializationContext, SierraApChange};
use sierra::harness::{simulate, type_arg, value_arg};
use sierra::extensions::{CoreLibFunc, SpecializationError};
use sierra::ids::{ConcreteTypeId, FunctionId, GenericLibFuncId, GenericTypeId};
use sierra::program::{GenericArg, IntValue};
use sierra::values::CoreValue::{GasBuiltin, NonZero, RangeCheck, Uint128};

#[test]
fn refund_restores_gas_taken() {
    let taken = simulate("get_gas", vec![], vec![RangeCheck, GasBuiltin(10)]);
    assert_eq!(taken, Ok((vec![RangeCheck, GasBuiltin(6)], 0)));
    let refunded = simulate("refund_gas", vec![], vec![GasBuiltin(6)]);
    assert_eq!(refunded, Ok((vec![GasBuiltin(10)], 0)));
}

#[test]
fn checked_and_wrapping_agree_without_overflow() {
    let inputs = || vec![RangeCheck, Uint128(7), Uint128(9)];
    assert_eq!(
        simulate("uint128_checked_mul", vec![], inputs()),
        simulate("uint128_wrapping_mul", vec![], inputs())
    );
    assert_eq!(
        simulate("uint128_checked_mul", vec![], inputs()),
        Ok((vec![RangeCheck, Uint128(63)], 0))
    );
    assert_eq!(
        simulate("uint128_checked_add", vec![], vec![RangeCheck, Uint128(u128::MAX), Uint128(1)]),
        Ok((vec![RangeCheck], 1))
    );
    assert_eq!(
        simulate("uint128_wrapping_add", vec![], vec![RangeCheck, Uint128(u128::MAX), Uint128(1)]),
        Ok((vec![RangeCheck, Uint128(0)], 0))
    );
}

#[test]
fn constant_operand_acts_as_input() {
    assert_eq!(
        simulate("uint128_wrapping_sub", vec![value_arg(4)], vec![RangeCheck, Uint128(10)]),
        simulate("uint128_wrapping_sub", vec![], vec![RangeCheck, Uint128(10), Uint128(4)])
    );
    assert_eq!(
        simulate("uint128_div", vec![value_arg(7)], vec![RangeCheck, Uint128(50)]),
        simulate(
            "uint128_div",
            vec![],
            vec![RangeCheck, Uint128(50), NonZero(Box::new(Uint128(7)))]
        )
    );
}

#[test]
fn quotient_and_remainder_rebuild_dividend() {
    let q = simulate(
        "uint128_div",
        vec![],
        vec![RangeCheck, Uint128(100), NonZero(Box::new(Uint128(7)))],
    );
    let r = simulate(
        "uint128_mod",
        vec![],
        vec![RangeCheck, Uint128(100), NonZero(Box::new(Uint128(7)))],
    );
    assert_eq!(q, Ok((vec![RangeCheck, Uint128(14)], 0)));
    assert_eq!(r, Ok((vec![RangeCheck, Uint128(2)], 0)));
    assert_eq!(14 * 7 + 2, 100);
}

#[test]
fn subtraction_undoes_addition() {
    assert_eq!(
        simulate("uint128_checked_sub", vec![], vec![RangeCheck, Uint128(12), Uint128(5)]),
        Ok((vec![RangeCheck, Uint128(7)], 0))
    );
    let sum = simulate("uint128_wrapping_add", vec![], vec![RangeCheck, Uint128(u128::MAX), Uint128(3)]);
    assert_eq!(sum, Ok((vec![RangeCheck, Uint128(2)], 0)));
    assert_eq!(
        simulate("uint128_wrapping_sub", vec![value_arg(3)], vec![RangeCheck, Uint128(2)]),
        Ok((vec![RangeCheck, Uint128(u128::MAX)], 0))
    );
}

#[test]
fn unwrap_gives_back_jump_value() {
    let jumped = simulate("uint128_jump_nz", vec![], vec![Uint128(9)]);
    assert_eq!(jumped, Ok((vec![NonZero(Box::new(Uint128(9)))], 1)));
    let unwrapped =
        simulate("unwrap_nz", vec![type_arg("uint128")], vec![NonZero(Box::new(Uint128(9)))]);
    assert_eq!(unwrapped, Ok((vec![Uint128(9)], 0)));
}

#[test]
fn mock_mapping_round_trip() {
    let ctx = MockSpecializationContext::new();
    let id = ConcreteTypeId::from_name("NonZeroInt");
    let info = ctx.try_get_type_info(&id).unwrap();
    assert_eq!(info.long_id.generic_id, GenericTypeId::from_name("NonZero"));
    let back = ctx.try_get_concrete_type(info.long_id.generic_id.clone(), &info.long_id.generic_args);
    assert_eq!(back, Some(id));
    assert_eq!(
        ctx.try_get_concrete_type(GenericTypeId::from_name("NonZero"), &vec![]),
        None
    );
}

#[test]
fn mock_context_functions() {
    let ctx = MockSpecializationContext::new();
    let identity = FunctionId::from_name("identity");
    assert_eq!(ctx.try_get_function_ap_change(&identity), Some(SierraApChange::NotImplemented));
    let f = ctx.try_get_function(&identity).unwrap();
    assert_eq!(f.id, identity);
    assert!(f.signature.param_types.is_empty() && f.signature.ret_types.is_empty());
    assert!(ctx.try_get_function_signature(&FunctionId::from_name("drop_all_inputs")).is_some());
    assert!(ctx.try_get_function(&FunctionId::from_name("missing")).is_none());
    let info = ctx.try_get_type_info(&ConcreteTypeId::from_name("UninitializedInt")).unwrap();
    assert!(!info.storable && info.droppable && !info.duplicatable && info.size == 0);
    assert!(ctx.try_get_type_info(&ConcreteTypeId::from_name("GasBuiltin")).is_none());
}

#[test]
fn constant_of_largest_u128() {
    let arg = GenericArg::Value(IntValue::from_u128(u128::MAX));
    assert_eq!(simulate("uint128_const", vec![arg], vec![]), Ok((vec![Uint128(u128::MAX)], 0)));
}

#[test]
fn negative_constant_is_refused() {
    let ctx = MockSpecializationContext::new();
    let libfunc = CoreLibFunc::by_id(&GenericLibFuncId::from_name("uint128_const")).unwrap();
    let arg = GenericArg::Value(IntValue::from_i64(-3));
    assert_eq!(libfunc.specialize(&ctx, &vec![arg]), Err(SpecializationError::UnsupportedGenericArg));
    let zero_divisor = CoreLibFunc::by_id(&GenericLibFuncId::from_name("uint128_div")).unwrap();
    assert_eq!(
        zero_divisor.specialize(&ctx, &vec![GenericArg::Value(IntValue::from_i64(0))]),
        Err(SpecializationError::UnsupportedGenericArg)
    );
    assert_eq!(IntValue::from_i64(-3).to_u128(), None);
    assert_eq!(IntValue::from_i64(7).to_u128(), Some(7));
}

#[test]
fn zero_has_one_form() {
    assert_eq!(IntValue::from_i64(0), IntValue::from_u128(0));
    assert_eq!(IntValue::from_i64(-1).to_u128(), None);
    assert_eq!(IntValue::from_i64(0).to_u128(), Some(0));
}
