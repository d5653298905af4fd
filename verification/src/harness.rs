use vstd::prelude::*;

use crate::context::MockSpecializationContext;
use crate::extensions::{libfunc_by_name, specialize_spec, ConcreteLibFuncView, CoreLibFunc};
use crate::ids::{ConcreteTypeId, FunctionId, GenericLibFuncId};
use crate::program::{args_view, GenericArg, GenericArgView, IntValue, StatementIdx};
use crate::simulation::{
    call_view, result_view, simulation_defined, spec_simulate, LibFuncSimulationError,
    LibFuncSimulationErrorView, SimResult, SimulationError,
};
use crate::values::{values_view, CoreValue, CoreValueView};

verus! {

/// The generic argument that is the concrete type named `name`.
pub fn type_arg(name: &str) -> (r: GenericArg)
    ensures
        r@ == GenericArgView::Type(name@),
{
    GenericArg::Type(ConcreteTypeId::from_name(name))
}

/// The generic argument that is the integer `v`.
pub fn value_arg(v: i64) -> (r: GenericArg)
    ensures
        r@ == GenericArgView::Value(v as int),
{
    GenericArg::Value(IntValue::from_i64(v))
}

/// The generic argument that is the user function named `name`.
pub fn user_func_arg(name: &str) -> (r: GenericArg)
    ensures
        r@ == GenericArgView::UserFunc(name@),
{
    GenericArg::UserFunc(FunctionId::from_name(name))
}

/// The gas that every statement needs in the harness.
pub open spec fn harness_gas() -> int {
    4
}

/// What simulating the user function named `name` on `inputs` gives in the harness:
/// `drop_all_inputs` returns nothing, `identity` returns its inputs, and any other
/// function fails at statement 0.
pub open spec fn user_function_result(name: Seq<char>, inputs: Seq<CoreValueView>) -> SimResult {
    if name == "drop_all_inputs"@ {
        Ok((seq![], 0))
    } else if name == "identity"@ {
        Ok((inputs, 0))
    } else {
        Err(
            LibFuncSimulationErrorView::FunctionSimulationError(
                name,
                SimulationError::StatementOutOfBounds(StatementIdx(0)),
            ),
        )
    }
}

/// Simulates a call of the user function `id` on `inputs`, as `user_function_result`
/// says.
pub fn simulate_user_function(id: &FunctionId, inputs: Vec<CoreValue>) -> (r: Result<
    Vec<CoreValue>,
    LibFuncSimulationError,
>)
    ensures
        call_view(r) == user_function_result(id@, values_view(inputs@)),
{
    if id.is_named("drop_all_inputs") {
        let none: Vec<CoreValue> = Vec::new();
        assert(none@ =~= Seq::<CoreValue>::empty());
        Ok(none)
    } else if id.is_named("identity") {
        Ok(inputs)
    } else {
        Err(
            LibFuncSimulationError::FunctionSimulationError(
                id.duplicate(),
                Box::new(SimulationError::StatementOutOfBounds(StatementIdx(0))),
            ),
        )
    }
}

/// The library function that `simulate` specializes for `id` and `args`.
pub open spec fn harness_libfunc(id: Seq<char>, args: Seq<GenericArgView>) -> ConcreteLibFuncView {
    specialize_spec(libfunc_by_name(id)->0, args)->Ok_0
}

/// What `simulate` gives for the library function named `id`, the generic arguments
/// `args` and the input values `inputs`.
pub open spec fn harness_result(
    id: Seq<char>,
    args: Seq<GenericArgView>,
    inputs: Seq<CoreValueView>,
) -> SimResult {
    let f = harness_libfunc(id, args);
    spec_simulate(
        f,
        inputs,
        Some(harness_gas()),
        match f {
            ConcreteLibFuncView::FunctionCall(name) => user_function_result(name, inputs),
            _ => Err(LibFuncSimulationErrorView::WrongNumberOfArgs),
        },
    )
}

/// Finds the library function named `id`, specializes it with `generic_args` in the
/// mock context and simulates it on `inputs`, with 4 as the gas of the statement and
/// user functions simulated by `simulate_user_function`.
pub fn simulate(id: &str, generic_args: Vec<GenericArg>, inputs: Vec<CoreValue>) -> (r: Result<
    (Vec<CoreValue>, usize),
    LibFuncSimulationError,
>)
    requires
        libfunc_by_name(id@) is Some,
        specialize_spec(libfunc_by_name(id@)->0, args_view(generic_args@)) is Ok,
        simulation_defined(
            harness_libfunc(id@, args_view(generic_args@)),
            values_view(inputs@),
            Some(harness_gas()),
        ),
    ensures
        result_view(r) == harness_result(id@, args_view(generic_args@), values_view(inputs@)),
{
    let libfunc = CoreLibFunc::by_id(&GenericLibFuncId::from_name(id)).unwrap();
    let ctx = MockSpecializationContext::new();
    let concrete = libfunc.specialize(&ctx, &generic_args).unwrap();
    let call = |fid: &FunctionId, vs: Vec<CoreValue>| -> (o: Result<
        Vec<CoreValue>,
        LibFuncSimulationError,
    >)
        ensures
            call_view(o) == user_function_result(fid@, values_view(vs@)),
        { simulate_user_function(fid, vs) };
    let ghost iv = values_view(inputs@);
    let ghost ins = inputs;
    let r = crate::simulation::simulate(&concrete, inputs, Some(4), call);
    proof {
        if let crate::extensions::CoreConcreteLibFunc::FunctionCall(fid) = concrete {
            let o = choose|o| #[trigger] call_ensures(call, (&fid, ins), o) && r == match o {
                Ok(vs) => Ok((vs, 0usize)),
                Err(e) => Err(e),
            };
            assert(call_view(o) == user_function_result(fid@, iv));
        }
    }
    r
}

} // verus!
