use vstd::prelude::*;

use crate::extensions::{ConcreteLibFuncView, CoreConcreteLibFunc, IntOperator};
use crate::ids::FunctionId;
use crate::program::StatementIdx;
use crate::values::{
    lemma_values_view, lemma_values_view_push, value_view, values_view, CoreValue,
    CoreValueView,
};

verus! {

/// Why simulating a whole program failed.
#[derive(Debug, PartialEq, Eq)]
pub enum SimulationError {
    /// The program jumped to a statement it does not have.
    StatementOutOfBounds(StatementIdx),
}

/// Why simulating one library function invocation failed.
#[derive(Debug, PartialEq, Eq)]
pub enum LibFuncSimulationError {
    /// The invocation was given a different number of values than the function takes.
    WrongNumberOfArgs,
    /// A value given is not of the kind the function takes at its position.
    MemoryLayoutMismatch,
    /// The gas that the statement needs is not known.
    UnresolvedStatementGasInfo,
    /// Simulating the called user function failed.
    FunctionSimulationError(FunctionId, Box<SimulationError>),
}

/// What a simulation error denotes: functions by their names.
pub enum LibFuncSimulationErrorView {
    WrongNumberOfArgs,
    MemoryLayoutMismatch,
    UnresolvedStatementGasInfo,
    FunctionSimulationError(Seq<char>, SimulationError),
}

impl View for LibFuncSimulationError {
    type V = LibFuncSimulationErrorView;

    open spec fn view(&self) -> LibFuncSimulationErrorView {
        match self {
            LibFuncSimulationError::WrongNumberOfArgs => LibFuncSimulationErrorView::WrongNumberOfArgs,
            LibFuncSimulationError::MemoryLayoutMismatch => LibFuncSimulationErrorView::MemoryLayoutMismatch,
            LibFuncSimulationError::UnresolvedStatementGasInfo => LibFuncSimulationErrorView::UnresolvedStatementGasInfo,
            LibFuncSimulationError::FunctionSimulationError(f, e) => LibFuncSimulationErrorView::FunctionSimulationError(f@, **e),
        }
    }
}

/// What simulating one invocation gives: the output values and the index of the branch
/// taken, or an error.
pub type SimResult = Result<(Seq<CoreValueView>, nat), LibFuncSimulationErrorView>;

/// The number of values of `u128`.
pub open spec fn u128_modulus() -> int {
    u128::MAX + 1
}

/// `a op b` on unsigned 128-bit integers, wrapping around on overflow of addition,
/// subtraction and multiplication.
pub open spec fn wrapping_op(op: IntOperator, a: int, b: int) -> int {
    match op {
        IntOperator::Add => if a + b > u128::MAX {
            a + b - u128_modulus()
        } else {
            a + b
        },
        IntOperator::Sub => if a - b < 0 {
            a - b + u128_modulus()
        } else {
            a - b
        },
        IntOperator::Mul => (a * b) % u128_modulus(),
        IntOperator::Div => a / b,
        IntOperator::Mod => a % b,
    }
}

/// `a op b` on integers, without wrapping.
pub open spec fn exact_op(op: IntOperator, a: int, b: int) -> int {
    match op {
        IntOperator::Add => a + b,
        IntOperator::Sub => a - b,
        IntOperator::Mul => a * b,
        IntOperator::Div => a / b,
        IntOperator::Mod => a % b,
    }
}

/// Whether `op` divides (so that its second operand is a non-zero value).
pub open spec fn divides(op: IntOperator) -> bool {
    op == IntOperator::Div || op == IntOperator::Mod
}

/// The second operand of a two-operand integer operation, given as `v`: a plain value
/// for addition, subtraction and multiplication, a non-zero value for division and
/// remainder.
pub open spec fn operand(op: IntOperator, v: CoreValueView) -> Option<int> {
    if divides(op) {
        match v {
            CoreValueView::NonZero(b) => match *b {
                CoreValueView::Uint128(x) => Some(x),
                _ => None,
            },
            _ => None,
        }
    } else {
        match v {
            CoreValueView::Uint128(x) => Some(x),
            _ => None,
        }
    }
}

/// The outcome of simulating `f` on `inputs`, where `gas` is the gas the statement needs
/// and, for a call of a user function, `call` is what simulating that function gave.
pub open spec fn spec_simulate(
    f: ConcreteLibFuncView,
    inputs: Seq<CoreValueView>,
    gas: Option<int>,
    call: SimResult,
) -> SimResult {
    let wrong = Err(LibFuncSimulationErrorView::WrongNumberOfArgs);
    let mismatch = Err(LibFuncSimulationErrorView::MemoryLayoutMismatch);
    match f {
        ConcreteLibFuncView::ArrayNew(_) => if inputs.len() == 0 {
            Ok((seq![CoreValueView::Array(seq![])], 0))
        } else {
            wrong
        },
        ConcreteLibFuncView::ArrayAppend(_) => if inputs.len() == 2 {
            match inputs[0] {
                CoreValueView::Array(vs) => Ok((seq![CoreValueView::Array(vs.push(inputs[1]))], 0)),
                _ => mismatch,
            }
        } else {
            wrong
        },
        ConcreteLibFuncView::Drop(_) => if inputs.len() == 1 {
            Ok((seq![], 0))
        } else {
            wrong
        },
        ConcreteLibFuncView::Dup(_) => if inputs.len() == 1 {
            Ok((seq![inputs[0], inputs[0]], 0))
        } else {
            wrong
        },
        ConcreteLibFuncView::FunctionCall(_) => call,
        ConcreteLibFuncView::GetGas => if inputs.len() == 2 {
            match (inputs[0], inputs[1]) {
                (CoreValueView::RangeCheck, CoreValueView::GasBuiltin(g)) => match gas {
                    None => Err(LibFuncSimulationErrorView::UnresolvedStatementGasInfo),
                    Some(c) => if g >= c {
                        Ok((seq![CoreValueView::RangeCheck, CoreValueView::GasBuiltin(g - c)], 0))
                    } else {
                        Ok((seq![CoreValueView::RangeCheck, CoreValueView::GasBuiltin(g)], 1))
                    },
                },
                _ => mismatch,
            }
        } else {
            wrong
        },
        ConcreteLibFuncView::RefundGas => if inputs.len() == 1 {
            match inputs[0] {
                CoreValueView::GasBuiltin(g) => match gas {
                    None => Err(LibFuncSimulationErrorView::UnresolvedStatementGasInfo),
                    Some(c) => Ok((seq![CoreValueView::GasBuiltin(g + c)], 0)),
                },
                _ => mismatch,
            }
        } else {
            wrong
        },
        ConcreteLibFuncView::Uint128Operation(op, None) => if inputs.len() == 3 {
            match (inputs[0], inputs[1], operand(op, inputs[2])) {
                (CoreValueView::RangeCheck, CoreValueView::Uint128(a), Some(b)) => Ok(
                    (
                        seq![CoreValueView::RangeCheck, CoreValueView::Uint128(wrapping_op(op, a, b))],
                        0,
                    ),
                ),
                _ => mismatch,
            }
        } else {
            wrong
        },
        ConcreteLibFuncView::Uint128Operation(op, Some(c)) => if inputs.len() == 2 {
            match (inputs[0], inputs[1]) {
                (CoreValueView::RangeCheck, CoreValueView::Uint128(a)) => Ok(
                    (
                        seq![CoreValueView::RangeCheck, CoreValueView::Uint128(wrapping_op(op, a, c))],
                        0,
                    ),
                ),
                _ => mismatch,
            }
        } else {
            wrong
        },
        ConcreteLibFuncView::Uint128CheckedOperation(op) => if inputs.len() == 3 {
            match (inputs[0], inputs[1], inputs[2]) {
                (
                    CoreValueView::RangeCheck,
                    CoreValueView::Uint128(a),
                    CoreValueView::Uint128(b),
                ) => if 0 <= exact_op(op, a, b) <= u128::MAX {
                    Ok(
                        (
                            seq![CoreValueView::RangeCheck, CoreValueView::Uint128(exact_op(op, a, b))],
                            0,
                        ),
                    )
                } else {
                    Ok((seq![CoreValueView::RangeCheck], 1))
                },
                _ => mismatch,
            }
        } else {
            wrong
        },
        ConcreteLibFuncView::Uint128Const(c) => if inputs.len() == 0 {
            Ok((seq![CoreValueView::Uint128(c)], 0))
        } else {
            wrong
        },
        ConcreteLibFuncView::Uint128JumpNotZero => if inputs.len() == 1 {
            match inputs[0] {
                CoreValueView::Uint128(v) => if v != 0 {
                    Ok((seq![CoreValueView::NonZero(Box::new(CoreValueView::Uint128(v)))], 1))
                } else {
                    Ok((seq![], 0))
                },
                _ => mismatch,
            }
        } else {
            wrong
        },
        ConcreteLibFuncView::StoreTemp(_) | ConcreteLibFuncView::Rename(_) => if inputs.len() == 1 {
            Ok((seq![inputs[0]], 0))
        } else {
            wrong
        },
        ConcreteLibFuncView::AlignTemps(_) | ConcreteLibFuncView::FinalizeLocals
        | ConcreteLibFuncView::UnconditionalJump => if inputs.len() == 0 {
            Ok((seq![], 0))
        } else {
            wrong
        },
        ConcreteLibFuncView::StoreLocal(_) => if inputs.len() == 2 {
            match inputs[0] {
                CoreValueView::Uninitialized => Ok((seq![inputs[1]], 0)),
                _ => mismatch,
            }
        } else {
            wrong
        },
        ConcreteLibFuncView::UnwrapNonZero(_) => if inputs.len() == 1 {
            match inputs[0] {
                CoreValueView::NonZero(b) => Ok((seq![*b], 0)),
                _ => mismatch,
            }
        } else {
            wrong
        },
    }
}

/// The simulation of `f` on `inputs` stays within what the machine integers hold: the
/// gas counter stays an `i64`, no divisor is zero, and the operators that branch on
/// overflow are addition, subtraction and multiplication.
pub open spec fn simulation_defined(
    f: ConcreteLibFuncView,
    inputs: Seq<CoreValueView>,
    gas: Option<int>,
) -> bool {
    match f {
        ConcreteLibFuncView::GetGas => inputs.len() == 2 ==> match (inputs[1], gas) {
            (CoreValueView::GasBuiltin(g), Some(c)) => g >= c ==> g - c <= i64::MAX,
            _ => true,
        },
        ConcreteLibFuncView::RefundGas => inputs.len() == 1 ==> match (inputs[0], gas) {
            (CoreValueView::GasBuiltin(g), Some(c)) => i64::MIN <= g + c <= i64::MAX,
            _ => true,
        },
        ConcreteLibFuncView::Uint128Operation(op, None) => inputs.len() == 3 && divides(op)
            ==> operand(op, inputs[2]) != Some(0int),
        ConcreteLibFuncView::Uint128Operation(op, Some(c)) => divides(op) ==> c != 0,
        ConcreteLibFuncView::Uint128CheckedOperation(op) => !divides(op),
        _ => true,
    }
}

/// The view of a simulation result.
pub open spec fn result_view(r: Result<(Vec<CoreValue>, usize), LibFuncSimulationError>) -> SimResult {
    match r {
        Ok((vs, b)) => Ok((values_view(vs@), b as nat)),
        Err(e) => Err(e@),
    }
}

/// The result of an invocation that called a user function, from the outcome `r` of
/// simulating that function: its outputs, on branch 0.
pub open spec fn call_view(r: Result<Vec<CoreValue>, LibFuncSimulationError>) -> SimResult {
    match r {
        Ok(vs) => Ok((values_view(vs@), 0)),
        Err(e) => Err(e@),
    }
}

/// The gas a statement needs, as an integer.
pub open spec fn gas_view(gas: Option<i64>) -> Option<int> {
    match gas {
        Some(g) => Some(g as int),
        None => None,
    }
}

/// The output values `vs` on branch `b`.
fn branch(vs: Vec<CoreValue>, b: usize) -> (r: Result<(Vec<CoreValue>, usize), LibFuncSimulationError>)
    ensures
        result_view(r) == Ok::<(Seq<CoreValueView>, nat), LibFuncSimulationErrorView>((values_view(vs@), b as nat)),
{
    Ok((vs, b))
}

/// No values.
fn no_values() -> (r: Vec<CoreValue>)
    ensures
        values_view(r@) == Seq::<CoreValueView>::empty(),
{
    let r: Vec<CoreValue> = Vec::new();
    assert(r@ =~= Seq::<CoreValue>::empty());
    r
}

/// The single value `a`.
fn one_value(a: CoreValue) -> (r: Vec<CoreValue>)
    ensures
        values_view(r@) == seq![a@],
{
    let r = vec![a];
    proof {
        lemma_values_view(r@);
        assert(values_view(r@) =~= seq![a@]);
    }
    r
}

/// The two values `a` and `b`, in that order.
fn two_values(a: CoreValue, b: CoreValue) -> (r: Vec<CoreValue>)
    ensures
        values_view(r@) == seq![a@, b@],
{
    let r = vec![a, b];
    proof {
        lemma_values_view(r@);
        assert(values_view(r@) =~= seq![a@, b@]);
    }
    r
}

/// `a op b`, wrapping around, where a divisor is not zero.
fn apply_wrapping(op: IntOperator, a: u128, b: u128) -> (r: u128)
    requires
        divides(op) ==> b != 0,
    ensures
        r as int == wrapping_op(op, a as int, b as int),
{
    match op {
        IntOperator::Add => a.wrapping_add(b),
        IntOperator::Sub => a.wrapping_sub(b),
        IntOperator::Mul => a.wrapping_mul(b),
        IntOperator::Div => a / b,
        IntOperator::Mod => a % b,
    }
}

/// `a op b` where it is a value of `u128`, for addition, subtraction and multiplication.
fn apply_checked(op: IntOperator, a: u128, b: u128) -> (r: Option<u128>)
    requires
        !divides(op),
    ensures
        match r {
            Some(x) => x as int == exact_op(op, a as int, b as int),
            None => !(0 <= exact_op(op, a as int, b as int) <= u128::MAX),
        },
{
    match op {
        IntOperator::Add => a.checked_add(b),
        IntOperator::Sub => a.checked_sub(b),
        _ => a.checked_mul(b),
    }
}

/// The second operand of an integer operation, given as `v` (see `operand`).
fn get_operand(op: IntOperator, v: &CoreValue) -> (r: Option<u128>)
    ensures
        match r {
            Some(x) => operand(op, v@) == Some(x as int),
            None => operand(op, v@) is None,
        },
{
    let d = match op {
        IntOperator::Div | IntOperator::Mod => true,
        _ => false,
    };
    assert(d == divides(op));
    if d {
        match v {
            CoreValue::NonZero(b) => {
                assert(v@ == CoreValueView::NonZero(Box::new(value_view(**b))));
                match &**b {
                    CoreValue::Uint128(x) => Some(*x),
                    _ => None,
                }
            },
            _ => None,
        }
    } else {
        match v {
            CoreValue::Uint128(x) => Some(*x),
            _ => None,
        }
    }
}

/// Simulates one invocation of the library function `libfunc` on `inputs`.
/// `get_statement_gas_info` is the gas that the statement needs, where it is known;
/// `simulate_function` simulates a user function on the values it is called with.
pub fn simulate<F>(
    libfunc: &CoreConcreteLibFunc,
    inputs: Vec<CoreValue>,
    get_statement_gas_info: Option<i64>,
    simulate_function: F,
) -> (r: Result<(Vec<CoreValue>, usize), LibFuncSimulationError>) where
    F: Fn(&FunctionId, Vec<CoreValue>) -> Result<Vec<CoreValue>, LibFuncSimulationError>,

    requires
        simulation_defined(libfunc@, values_view(inputs@), gas_view(get_statement_gas_info)),
        forall|id: &FunctionId, vs: Vec<CoreValue>| call_requires(simulate_function, (id, vs)),
    ensures
        libfunc matches CoreConcreteLibFunc::FunctionCall(id) ==> exists|o| #[trigger]
            call_ensures(simulate_function, (id, inputs), o) && r == match o {
                Ok(vs) => Ok((vs, 0usize)),
                Err(e) => Err(e),
            },
        !(libfunc is FunctionCall) ==> result_view(r) == spec_simulate(
            libfunc@,
            values_view(inputs@),
            gas_view(get_statement_gas_info),
            Err(LibFuncSimulationErrorView::WrongNumberOfArgs),
        ),
{
    let ghost iv = values_view(inputs@);
    proof {
        lemma_values_view(inputs@);
    }
    let n = inputs.len();
    let mut inputs = inputs;
    match libfunc {
        CoreConcreteLibFunc::FunctionCall(id) => {
            let o = simulate_function(id, inputs);
            match o {
                Ok(vs) => Ok((vs, 0)),
                Err(e) => Err(e),
            }
        },
        CoreConcreteLibFunc::ArrayNew(_) => {
            if n != 0 {
                return Err(LibFuncSimulationError::WrongNumberOfArgs);
            }
            let empty = no_values();
            branch(one_value(CoreValue::Array(empty)), 0)
        },
        CoreConcreteLibFunc::ArrayAppend(_) => {
            if n != 2 {
                return Err(LibFuncSimulationError::WrongNumberOfArgs);
            }
            let v = inputs.pop().unwrap();
            let arr = inputs.pop().unwrap();
            match arr {
                CoreValue::Array(mut vs) => {
                    proof {
                        lemma_values_view_push(vs@, v);
                    }
                    vs.push(v);
                    branch(one_value(CoreValue::Array(vs)), 0)
                },
                _ => Err(LibFuncSimulationError::MemoryLayoutMismatch),
            }
        },
        CoreConcreteLibFunc::Drop(_) => {
            if n != 1 {
                return Err(LibFuncSimulationError::WrongNumberOfArgs);
            }
            branch(no_values(), 0)
        },
        CoreConcreteLibFunc::Dup(_) => {
            if n != 1 {
                return Err(LibFuncSimulationError::WrongNumberOfArgs);
            }
            let v = inputs.pop().unwrap();
            let d = v.duplicate();
            branch(two_values(v, d), 0)
        },
        CoreConcreteLibFunc::GetGas => {
            if n != 2 {
                return Err(LibFuncSimulationError::WrongNumberOfArgs);
            }
            match (&inputs[0], &inputs[1]) {
                (CoreValue::RangeCheck, CoreValue::GasBuiltin(g)) => {
                    let g = *g;
                    match get_statement_gas_info {
                        None => Err(LibFuncSimulationError::UnresolvedStatementGasInfo),
                        Some(c) => {
                            if g >= c {
                                branch(
                                    two_values(CoreValue::RangeCheck, CoreValue::GasBuiltin(g - c)),
                                    0,
                                )
                            } else {
                                branch(two_values(CoreValue::RangeCheck, CoreValue::GasBuiltin(g)), 1)
                            }
                        },
                    }
                },
                _ => Err(LibFuncSimulationError::MemoryLayoutMismatch),
            }
        },
        CoreConcreteLibFunc::RefundGas => {
            if n != 1 {
                return Err(LibFuncSimulationError::WrongNumberOfArgs);
            }
            match &inputs[0] {
                CoreValue::GasBuiltin(g) => {
                    match get_statement_gas_info {
                        None => Err(LibFuncSimulationError::UnresolvedStatementGasInfo),
                        Some(c) => branch(one_value(CoreValue::GasBuiltin(*g + c)), 0),
                    }
                },
                _ => Err(LibFuncSimulationError::MemoryLayoutMismatch),
            }
        },
        CoreConcreteLibFunc::Uint128Operation { op, c: None } => {
            if n != 3 {
                return Err(LibFuncSimulationError::WrongNumberOfArgs);
            }
            match (&inputs[0], &inputs[1], get_operand(*op, &inputs[2])) {
                (CoreValue::RangeCheck, CoreValue::Uint128(a), Some(b)) => {
                    let x = apply_wrapping(*op, *a, b);
                    branch(two_values(CoreValue::RangeCheck, CoreValue::Uint128(x)), 0)
                },
                _ => Err(LibFuncSimulationError::MemoryLayoutMismatch),
            }
        },
        CoreConcreteLibFunc::Uint128Operation { op, c: Some(c) } => {
            if n != 2 {
                return Err(LibFuncSimulationError::WrongNumberOfArgs);
            }
            match (&inputs[0], &inputs[1]) {
                (CoreValue::RangeCheck, CoreValue::Uint128(a)) => {
                    let x = apply_wrapping(*op, *a, *c);
                    branch(two_values(CoreValue::RangeCheck, CoreValue::Uint128(x)), 0)
                },
                _ => Err(LibFuncSimulationError::MemoryLayoutMismatch),
            }
        },
        CoreConcreteLibFunc::Uint128CheckedOperation(op) => {
            if n != 3 {
                return Err(LibFuncSimulationError::WrongNumberOfArgs);
            }
            match (&inputs[0], &inputs[1], &inputs[2]) {
                (CoreValue::RangeCheck, CoreValue::Uint128(a), CoreValue::Uint128(b)) => {
                    match apply_checked(*op, *a, *b) {
                        Some(x) => branch(
                            two_values(CoreValue::RangeCheck, CoreValue::Uint128(x)),
                            0,
                        ),
                        None => branch(one_value(CoreValue::RangeCheck), 1),
                    }
                },
                _ => Err(LibFuncSimulationError::MemoryLayoutMismatch),
            }
        },
        CoreConcreteLibFunc::Uint128Const(c) => {
            if n != 0 {
                return Err(LibFuncSimulationError::WrongNumberOfArgs);
            }
            branch(one_value(CoreValue::Uint128(*c)), 0)
        },
        CoreConcreteLibFunc::Uint128JumpNotZero => {
            if n != 1 {
                return Err(LibFuncSimulationError::WrongNumberOfArgs);
            }
            match &inputs[0] {
                CoreValue::Uint128(v) => {
                    if *v != 0 {
                        branch(one_value(CoreValue::NonZero(Box::new(CoreValue::Uint128(*v)))), 1)
                    } else {
                        branch(no_values(), 0)
                    }
                },
                _ => Err(LibFuncSimulationError::MemoryLayoutMismatch),
            }
        },
        CoreConcreteLibFunc::StoreTemp(_) | CoreConcreteLibFunc::Rename(_) => {
            if n != 1 {
                return Err(LibFuncSimulationError::WrongNumberOfArgs);
            }
            let v = inputs.pop().unwrap();
            branch(one_value(v), 0)
        },
        CoreConcreteLibFunc::AlignTemps(_) | CoreConcreteLibFunc::FinalizeLocals
        | CoreConcreteLibFunc::UnconditionalJump => {
            if n != 0 {
                return Err(LibFuncSimulationError::WrongNumberOfArgs);
            }
            branch(no_values(), 0)
        },
        CoreConcreteLibFunc::StoreLocal(_) => {
            if n != 2 {
                return Err(LibFuncSimulationError::WrongNumberOfArgs);
            }
            let v = inputs.pop().unwrap();
            match &inputs[0] {
                CoreValue::Uninitialized => branch(one_value(v), 0),
                _ => Err(LibFuncSimulationError::MemoryLayoutMismatch),
            }
        },
        CoreConcreteLibFunc::UnwrapNonZero(_) => {
            if n != 1 {
                return Err(LibFuncSimulationError::WrongNumberOfArgs);
            }
            let v = inputs.pop().unwrap();
            match v {
                CoreValue::NonZero(b) => branch(one_value(*b), 0),
                _ => Err(LibFuncSimulationError::MemoryLayoutMismatch),
            }
        },
    }
}

} // verus!
