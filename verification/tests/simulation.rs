use sierra::harness::{simulate, type_arg, user_func_arg, value_arg};
use sierra::ids::FunctionId;
use sierra::program::{GenericArg, StatementIdx};
use sierra::simulation::{LibFuncSimulationError, SimulationError};
use sierra::values::CoreValue::{self, Array, GasBuiltin, NonZero, RangeCheck, Uint128, Uninitialized};
use LibFuncSimulationError::{FunctionSimulationError, MemoryLayoutMismatch, WrongNumberOfArgs};

type Outcome = Result<(Vec<CoreValue>, usize), LibFuncSimulationError>;

fn simulate_branch(id: &str, generic_args: Vec<GenericArg>, inputs: Vec<CoreValue>) -> Outcome {
    simulate(id, generic_args, inputs)
}

fn simulate_none_branch(
    id: &str,
    generic_args: Vec<GenericArg>,
    inputs: Vec<CoreValue>,
) -> Result<Vec<CoreValue>, LibFuncSimulationError> {
    simulate(id, generic_args, inputs).map(|(outputs, chosen_branch)| {
        assert_eq!(chosen_branch, 0);
        outputs
    })
}

fn simulate_error(id: &str, generic_args: Vec<GenericArg>, inputs: Vec<CoreValue>) -> LibFuncSimulationError {
    simulate(id, generic_args, inputs).err().unwrap()
}

#[test]
fn simulate_branch_get_gas_5() {
    assert_eq!(
        simulate_branch("get_gas", vec![], vec![RangeCheck, GasBuiltin(5)]),
        Ok((vec![RangeCheck, GasBuiltin(1)], 0))
    );
}

#[test]
fn simulate_branch_get_gas_2() {
    assert_eq!(
        simulate_branch("get_gas", vec![], vec![RangeCheck, GasBuiltin(2)]),
        Ok((vec![RangeCheck, GasBuiltin(2)], 1))
    );
}

#[test]
fn simulate_branch_get_gas_exact() {
    assert_eq!(
        simulate_branch("get_gas", vec![], vec![RangeCheck, GasBuiltin(4)]),
        Ok((vec![RangeCheck, GasBuiltin(0)], 0))
    );
}

#[test]
fn simulate_branch_uint128_jump_nz_2() {
    assert_eq!(
        simulate_branch("uint128_jump_nz", vec![], vec![Uint128(2)]),
        Ok((vec![NonZero(Box::new(Uint128(2)))], 1))
    );
}

#[test]
fn simulate_branch_uint128_jump_nz_0() {
    assert_eq!(simulate_branch("uint128_jump_nz", vec![], vec![Uint128(0)]), Ok((vec![], 0)));
}

#[test]
fn simulate_branch_jump() {
    assert_eq!(simulate_branch("jump", vec![], vec![]), Ok((vec![], 0)));
}

#[test]
fn simulate_branch_uint128_checked_add_2_3() {
    assert_eq!(
        simulate_branch("uint128_checked_add", vec![], vec![RangeCheck, Uint128(2), Uint128(3)]),
        Ok((vec![RangeCheck, Uint128(5)], 0))
    );
}

#[test]
fn simulate_branch_uint128_checked_add_overflow() {
    assert_eq!(
        simulate_branch("uint128_checked_add", vec![], vec![RangeCheck, Uint128(u128::MAX), Uint128(1)]),
        Ok((vec![RangeCheck], 1))
    );
}

#[test]
fn simulate_branch_uint128_checked_sub_5_3() {
    assert_eq!(
        simulate_branch("uint128_checked_sub", vec![], vec![RangeCheck, Uint128(5), Uint128(3)]),
        Ok((vec![RangeCheck, Uint128(2)], 0))
    );
}

#[test]
fn simulate_branch_uint128_checked_mul_5_3() {
    assert_eq!(
        simulate_branch("uint128_checked_mul", vec![], vec![RangeCheck, Uint128(5), Uint128(3)]),
        Ok((vec![RangeCheck, Uint128(15)], 0))
    );
}

#[test]
fn simulate_branch_uint128_checked_mul_overflow() {
    assert_eq!(
        simulate_branch("uint128_checked_mul", vec![], vec![RangeCheck, Uint128(1u128 << 64), Uint128(1u128 << 64)]),
        Ok((vec![RangeCheck], 1))
    );
}

#[test]
fn simulate_branch_uint128_checked_sub_3_5() {
    assert_eq!(
        simulate_branch("uint128_checked_sub", vec![], vec![RangeCheck, Uint128(3), Uint128(5)]),
        Ok((vec![RangeCheck], 1))
    );
}

#[test]
fn simulate_none_branch_refund_gas_2() {
    assert_eq!(simulate_none_branch("refund_gas", vec![], vec![GasBuiltin(2)]), Ok(vec![GasBuiltin(6)]));
}

#[test]
fn simulate_none_branch_array_new() {
    assert_eq!(simulate_none_branch("array_new", vec![type_arg("uint128")], vec![]), Ok(vec![Array(vec![])]));
}

#[test]
fn simulate_none_branch_array_append() {
    assert_eq!(
        simulate_none_branch("array_append", vec![type_arg("uint128")], vec![Array(vec![]), Uint128(4)]),
        Ok(vec![Array(vec![Uint128(4)])])
    );
}

#[test]
fn simulate_none_branch_array_append_twice() {
    assert_eq!(
        simulate_none_branch("array_append", vec![type_arg("uint128")], vec![Array(vec![Uint128(1)]), Uint128(4)]),
        Ok(vec![Array(vec![Uint128(1), Uint128(4)])])
    );
}

#[test]
fn simulate_none_branch_uint128_wrapping_add_2_3() {
    assert_eq!(
        simulate_none_branch("uint128_wrapping_add", vec![], vec![RangeCheck, Uint128(2), Uint128(3)]),
        Ok(vec![RangeCheck, Uint128(5)])
    );
}

#[test]
fn simulate_none_branch_uint128_wrapping_add_wraps() {
    assert_eq!(
        simulate_none_branch("uint128_wrapping_add", vec![], vec![RangeCheck, Uint128(u128::MAX), Uint128(3)]),
        Ok(vec![RangeCheck, Uint128(2)])
    );
}

#[test]
fn simulate_none_branch_uint128_wrapping_sub_5_3() {
    assert_eq!(
        simulate_none_branch("uint128_wrapping_sub", vec![], vec![RangeCheck, Uint128(5), Uint128(3)]),
        Ok(vec![RangeCheck, Uint128(2)])
    );
}

#[test]
fn simulate_none_branch_uint128_wrapping_sub_wraps() {
    assert_eq!(
        simulate_none_branch("uint128_wrapping_sub", vec![], vec![RangeCheck, Uint128(3), Uint128(5)]),
        Ok(vec![RangeCheck, Uint128(u128::MAX - 1)])
    );
}

#[test]
fn simulate_none_branch_uint128_wrapping_mul_5_3() {
    assert_eq!(
        simulate_none_branch("uint128_wrapping_mul", vec![], vec![RangeCheck, Uint128(5), Uint128(3)]),
        Ok(vec![RangeCheck, Uint128(15)])
    );
}

#[test]
fn simulate_none_branch_uint128_div_32_5() {
    assert_eq!(
        simulate_none_branch("uint128_div", vec![], vec![RangeCheck, Uint128(32), NonZero(Box::new(Uint128(5)))]),
        Ok(vec![RangeCheck, Uint128(6)])
    );
}

#[test]
fn simulate_none_branch_uint128_mod_32_5() {
    assert_eq!(
        simulate_none_branch("uint128_mod", vec![], vec![RangeCheck, Uint128(32), NonZero(Box::new(Uint128(5)))]),
        Ok(vec![RangeCheck, Uint128(2)])
    );
}

#[test]
fn simulate_none_branch_uint128_wrapping_add_const_3() {
    assert_eq!(
        simulate_none_branch("uint128_wrapping_add", vec![value_arg(3)], vec![RangeCheck, Uint128(2)]),
        Ok(vec![RangeCheck, Uint128(5)])
    );
}

#[test]
fn simulate_none_branch_uint128_wrapping_sub_const_3() {
    assert_eq!(
        simulate_none_branch("uint128_wrapping_sub", vec![value_arg(3)], vec![RangeCheck, Uint128(5)]),
        Ok(vec![RangeCheck, Uint128(2)])
    );
}

#[test]
fn simulate_none_branch_uint128_wrapping_mul_const_3() {
    assert_eq!(
        simulate_none_branch("uint128_wrapping_mul", vec![value_arg(3)], vec![RangeCheck, Uint128(5)]),
        Ok(vec![RangeCheck, Uint128(15)])
    );
}

#[test]
fn simulate_none_branch_uint128_div_const_5() {
    assert_eq!(
        simulate_none_branch("uint128_div", vec![value_arg(5)], vec![RangeCheck, Uint128(32)]),
        Ok(vec![RangeCheck, Uint128(6)])
    );
}

#[test]
fn simulate_none_branch_uint128_mod_const_5() {
    assert_eq!(
        simulate_none_branch("uint128_mod", vec![value_arg(5)], vec![RangeCheck, Uint128(32)]),
        Ok(vec![RangeCheck, Uint128(2)])
    );
}

#[test]
fn simulate_none_branch_uint128_const_3() {
    assert_eq!(simulate_none_branch("uint128_const", vec![value_arg(3)], vec![]), Ok(vec![Uint128(3)]));
}

#[test]
fn simulate_none_branch_dup() {
    assert_eq!(
        simulate_none_branch("dup", vec![type_arg("uint128")], vec![Uint128(24)]),
        Ok(vec![Uint128(24), Uint128(24)])
    );
}

#[test]
fn simulate_none_branch_dup_array() {
    assert_eq!(
        simulate_none_branch("dup", vec![type_arg("uint128")], vec![Array(vec![Uint128(1), NonZero(Box::new(Uint128(2)))])]),
        Ok(vec![
            Array(vec![Uint128(1), NonZero(Box::new(Uint128(2)))]),
            Array(vec![Uint128(1), NonZero(Box::new(Uint128(2)))])
        ])
    );
}

#[test]
fn simulate_none_branch_drop() {
    assert_eq!(simulate_none_branch("drop", vec![type_arg("uint128")], vec![Uint128(2)]), Ok(vec![]));
}

#[test]
fn simulate_none_branch_unwrap_nz() {
    assert_eq!(
        simulate_none_branch("unwrap_nz", vec![type_arg("uint128")], vec![NonZero(Box::new(Uint128(6)))]),
        Ok(vec![Uint128(6)])
    );
}

#[test]
fn simulate_none_branch_store_temp() {
    assert_eq!(simulate_none_branch("store_temp", vec![type_arg("uint128")], vec![Uint128(6)]), Ok(vec![Uint128(6)]));
}

#[test]
fn simulate_none_branch_align_temps() {
    assert_eq!(simulate_none_branch("align_temps", vec![type_arg("uint128")], vec![]), Ok(vec![]));
}

#[test]
fn simulate_none_branch_store_local() {
    assert_eq!(
        simulate_none_branch("store_local", vec![type_arg("uint128")], vec![Uninitialized, Uint128(6)]),
        Ok(vec![Uint128(6)])
    );
}

#[test]
fn simulate_none_branch_finalize_locals() {
    assert_eq!(simulate_none_branch("finalize_locals", vec![], vec![]), Ok(vec![]));
}

#[test]
fn simulate_none_branch_rename() {
    assert_eq!(simulate_none_branch("rename", vec![type_arg("uint128")], vec![Uint128(6)]), Ok(vec![Uint128(6)]));
}

#[test]
fn simulate_none_branch_function_call_drop_all_inputs() {
    assert_eq!(
        simulate_none_branch("function_call", vec![user_func_arg("drop_all_inputs")], vec![Uint128(3), Uint128(5)]),
        Ok(vec![])
    );
}

#[test]
fn simulate_none_branch_function_call_identity() {
    assert_eq!(
        simulate_none_branch("function_call", vec![user_func_arg("identity")], vec![Uint128(3), Uint128(5)]),
        Ok(vec![Uint128(3), Uint128(5)])
    );
}

#[test]
fn simulate_error_get_gas_empty() {
    assert_eq!(simulate_error("get_gas", vec![], vec![RangeCheck, Uninitialized]), MemoryLayoutMismatch);
}

#[test]
fn simulate_error_get_gas() {
    assert_eq!(simulate_error("get_gas", vec![], vec![]), WrongNumberOfArgs);
}

#[test]
fn simulate_error_refund_gas_empty() {
    assert_eq!(simulate_error("refund_gas", vec![], vec![Uninitialized]), MemoryLayoutMismatch);
}

#[test]
fn simulate_error_refund_gas() {
    assert_eq!(simulate_error("refund_gas", vec![], vec![]), WrongNumberOfArgs);
}

#[test]
fn simulate_error_uint128_wrapping_add_1() {
    assert_eq!(simulate_error("uint128_wrapping_add", vec![], vec![RangeCheck, Uint128(1)]), WrongNumberOfArgs);
}

#[test]
fn simulate_error_uint128_wrapping_sub_1() {
    assert_eq!(simulate_error("uint128_wrapping_sub", vec![], vec![RangeCheck, Uint128(1)]), WrongNumberOfArgs);
}

#[test]
fn simulate_error_uint128_wrapping_mul_1() {
    assert_eq!(simulate_error("uint128_wrapping_mul", vec![], vec![RangeCheck, Uint128(1)]), WrongNumberOfArgs);
}

#[test]
fn simulate_error_uint128_div_1() {
    assert_eq!(simulate_error("uint128_div", vec![], vec![RangeCheck, Uint128(1)]), WrongNumberOfArgs);
}

#[test]
fn simulate_error_uint128_mod_1() {
    assert_eq!(simulate_error("uint128_mod", vec![], vec![RangeCheck, Uint128(1)]), WrongNumberOfArgs);
}

#[test]
fn simulate_error_uint128_div_plain_divisor() {
    assert_eq!(
        simulate_error("uint128_div", vec![], vec![RangeCheck, Uint128(1), Uint128(1)]),
        MemoryLayoutMismatch
    );
}

#[test]
fn simulate_error_uint128_wrapping_add_const_3() {
    assert_eq!(simulate_error("uint128_wrapping_add", vec![value_arg(3)], vec![RangeCheck]), WrongNumberOfArgs);
}

#[test]
fn simulate_error_uint128_wrapping_sub_const_3() {
    assert_eq!(simulate_error("uint128_wrapping_sub", vec![value_arg(3)], vec![RangeCheck]), WrongNumberOfArgs);
}

#[test]
fn simulate_error_uint128_wrapping_mul_const_3() {
    assert_eq!(simulate_error("uint128_wrapping_mul", vec![value_arg(3)], vec![RangeCheck]), WrongNumberOfArgs);
}

#[test]
fn simulate_error_uint128_div_const_5() {
    assert_eq!(simulate_error("uint128_div", vec![value_arg(5)], vec![]), WrongNumberOfArgs);
}

#[test]
fn simulate_error_uint128_mod_const_5() {
    assert_eq!(simulate_error("uint128_mod", vec![value_arg(5)], vec![]), WrongNumberOfArgs);
}

#[test]
fn simulate_error_uint128_const_3_1() {
    assert_eq!(simulate_error("uint128_const", vec![value_arg(3)], vec![Uint128(1)]), WrongNumberOfArgs);
}

#[test]
fn simulate_error_dup() {
    assert_eq!(simulate_error("dup", vec![type_arg("uint128")], vec![]), WrongNumberOfArgs);
}

#[test]
fn simulate_error_drop() {
    assert_eq!(simulate_error("drop", vec![type_arg("uint128")], vec![]), WrongNumberOfArgs);
}

#[test]
fn simulate_error_uint128_jump_nz() {
    assert_eq!(simulate_error("uint128_jump_nz", vec![], vec![]), WrongNumberOfArgs);
}

#[test]
fn simulate_error_unwrap_nz() {
    assert_eq!(simulate_error("unwrap_nz", vec![type_arg("uint128")], vec![]), WrongNumberOfArgs);
}

#[test]
fn simulate_error_unwrap_nz_plain_value() {
    assert_eq!(simulate_error("unwrap_nz", vec![type_arg("uint128")], vec![Uint128(1)]), MemoryLayoutMismatch);
}

#[test]
fn simulate_error_store_temp() {
    assert_eq!(simulate_error("store_temp", vec![type_arg("uint128")], vec![]), WrongNumberOfArgs);
}

#[test]
fn simulate_error_align_temps_4() {
    assert_eq!(simulate_error("align_temps", vec![type_arg("uint128")], vec![Uint128(1)]), WrongNumberOfArgs);
}

#[test]
fn simulate_error_store_local() {
    assert_eq!(simulate_error("store_local", vec![type_arg("uint128")], vec![]), WrongNumberOfArgs);
}

#[test]
fn simulate_error_store_local_initialized() {
    assert_eq!(
        simulate_error("store_local", vec![type_arg("uint128")], vec![Uint128(1), Uint128(6)]),
        MemoryLayoutMismatch
    );
}

#[test]
fn simulate_error_finalize_locals_4() {
    assert_eq!(simulate_error("finalize_locals", vec![], vec![Uint128(4)]), WrongNumberOfArgs);
}

#[test]
fn simulate_error_rename() {
    assert_eq!(simulate_error("rename", vec![type_arg("uint128")], vec![]), WrongNumberOfArgs);
}

#[test]
fn simulate_error_jump_4() {
    assert_eq!(simulate_error("jump", vec![], vec![Uint128(4)]), WrongNumberOfArgs);
}

#[test]
fn simulate_error_array_append_not_array() {
    assert_eq!(
        simulate_error("array_append", vec![type_arg("uint128")], vec![Uint128(1), Uint128(4)]),
        MemoryLayoutMismatch
    );
}

#[test]
fn simulate_error_function_call_unimplemented() {
    assert_eq!(
        simulate_error("function_call", vec![user_func_arg("unimplemented")], vec![]),
        FunctionSimulationError(
            FunctionId::from_name("unimplemented"),
            Box::new(SimulationError::StatementOutOfBounds(StatementIdx(0)))
        )
    );
}
