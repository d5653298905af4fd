use vstd::prelude::*;

use crate::context::{injective, long_id, mock_concrete_type, mock_type_info, mock_type_mapping};
use crate::extensions::{specialize_spec, ConcreteLibFuncView, CoreLibFunc, IntOperator, SpecializationError};
use crate::program::GenericArgView;
use crate::simulation::{divides, exact_op, spec_simulate, wrapping_op, SimResult};
use crate::values::CoreValueView;

verus! {

/// The output values `vs` on branch `b`.
pub open spec fn outputs(vs: Seq<CoreValueView>, b: nat) -> SimResult {
    Ok((vs, b))
}

/// Refunding gas gives back what taking it took: where the counter `g` holds the gas `c`
/// that the statement needs, taking it leaves `g - c` on branch 0, and refunding `c` on
/// that restores `g`. Where it does not, taking it leaves `g` and goes to branch 1.
pub proof fn law_refund_undoes_get_gas(g: int, c: int, call: SimResult)
    ensures
        g >= c ==> spec_simulate(
            ConcreteLibFuncView::GetGas,
            seq![CoreValueView::RangeCheck, CoreValueView::GasBuiltin(g)],
            Some(c),
            call,
        ) == outputs(seq![CoreValueView::RangeCheck, CoreValueView::GasBuiltin(g - c)], 0),
        g >= c ==> spec_simulate(
            ConcreteLibFuncView::RefundGas,
            seq![CoreValueView::GasBuiltin(g - c)],
            Some(c),
            call,
        ) == outputs(seq![CoreValueView::GasBuiltin(g)], 0),
        g < c ==> spec_simulate(
            ConcreteLibFuncView::GetGas,
            seq![CoreValueView::RangeCheck, CoreValueView::GasBuiltin(g)],
            Some(c),
            call,
        ) == outputs(seq![CoreValueView::RangeCheck, CoreValueView::GasBuiltin(g)], 1),
{
    assert(g - c + c == g);
}

/// Checked and wrapping arithmetic agree where nothing overflows: for an addition,
/// subtraction or multiplication of two `u128` values whose exact result is a `u128`,
/// the checked operation gives the wrapping one's outputs on branch 0; where the exact
/// result is not a `u128`, it gives the range check alone on branch 1.
pub proof fn law_checked_agrees_with_wrapping(op: IntOperator, a: int, b: int, call: SimResult)
    requires
        !divides(op),
        0 <= a <= u128::MAX,
        0 <= b <= u128::MAX,
    ensures
        0 <= exact_op(op, a, b) <= u128::MAX ==> spec_simulate(
            ConcreteLibFuncView::Uint128CheckedOperation(op),
            seq![CoreValueView::RangeCheck, CoreValueView::Uint128(a), CoreValueView::Uint128(b)],
            None,
            call,
        ) == spec_simulate(
            ConcreteLibFuncView::Uint128Operation(op, None),
            seq![CoreValueView::RangeCheck, CoreValueView::Uint128(a), CoreValueView::Uint128(b)],
            None,
            call,
        ),
        !(0 <= exact_op(op, a, b) <= u128::MAX) ==> spec_simulate(
            ConcreteLibFuncView::Uint128CheckedOperation(op),
            seq![CoreValueView::RangeCheck, CoreValueView::Uint128(a), CoreValueView::Uint128(b)],
            None,
            call,
        ) == outputs(seq![CoreValueView::RangeCheck], 1),
{
    if 0 <= exact_op(op, a, b) <= u128::MAX {
        if op == IntOperator::Mul {
            vstd::arithmetic::div_mod::lemma_small_mod((a * b) as nat, (u128::MAX + 1) as nat);
        }
        assert(wrapping_op(op, a, b) == exact_op(op, a, b));
    }
}

/// An operand given as a generic argument acts as one given as an input: the operation
/// with the constant `c` on `a` gives what the operation on `a` and `c` gives (for
/// division and remainder, `c` given as a non-zero value).
pub proof fn law_constant_operand(op: IntOperator, a: int, c: int, call: SimResult)
    ensures
        spec_simulate(
            ConcreteLibFuncView::Uint128Operation(op, Some(c)),
            seq![CoreValueView::RangeCheck, CoreValueView::Uint128(a)],
            None,
            call,
        ) == spec_simulate(
            ConcreteLibFuncView::Uint128Operation(op, None),
            seq![
                CoreValueView::RangeCheck,
                CoreValueView::Uint128(a),
                if divides(op) {
                    CoreValueView::NonZero(Box::new(CoreValueView::Uint128(c)))
                } else {
                    CoreValueView::Uint128(c)
                },
            ],
            None,
            call,
        ),
{
}

/// Division and remainder by the same non-zero value split the dividend: the quotient
/// times the divisor plus the remainder gives the dividend back, and the remainder is
/// below the divisor.
pub proof fn law_div_mod(a: int, b: int, call: SimResult)
    requires
        0 <= a <= u128::MAX,
        0 < b <= u128::MAX,
    ensures
        spec_simulate(
            ConcreteLibFuncView::Uint128Operation(IntOperator::Div, None),
            seq![
                CoreValueView::RangeCheck,
                CoreValueView::Uint128(a),
                CoreValueView::NonZero(Box::new(CoreValueView::Uint128(b))),
            ],
            None,
            call,
        ) == outputs(seq![CoreValueView::RangeCheck, CoreValueView::Uint128(a / b)], 0),
        spec_simulate(
            ConcreteLibFuncView::Uint128Operation(IntOperator::Mod, None),
            seq![
                CoreValueView::RangeCheck,
                CoreValueView::Uint128(a),
                CoreValueView::NonZero(Box::new(CoreValueView::Uint128(b))),
            ],
            None,
            call,
        ) == outputs(seq![CoreValueView::RangeCheck, CoreValueView::Uint128(a % b)], 0),
        (a / b) * b + a % b == a,
        0 <= a % b < b,
{
    vstd::arithmetic::div_mod::lemma_fundamental_div_mod(a, b);
    vstd::arithmetic::div_mod::lemma_mod_pos_bound(a, b);
    vstd::arithmetic::mul::lemma_mul_is_commutative(b, a / b);
}

/// Subtracting what was added gives the first operand back, with checked and with
/// wrapping arithmetic alike.
pub proof fn law_sub_undoes_add(a: int, b: int, call: SimResult)
    requires
        0 <= a <= u128::MAX,
        0 <= b <= u128::MAX,
    ensures
        a + b <= u128::MAX ==> spec_simulate(
            ConcreteLibFuncView::Uint128CheckedOperation(IntOperator::Sub),
            seq![
                CoreValueView::RangeCheck,
                CoreValueView::Uint128(a + b),
                CoreValueView::Uint128(b),
            ],
            None,
            call,
        ) == outputs(seq![CoreValueView::RangeCheck, CoreValueView::Uint128(a)], 0),
        spec_simulate(
            ConcreteLibFuncView::Uint128Operation(IntOperator::Sub, Some(b)),
            seq![
                CoreValueView::RangeCheck,
                CoreValueView::Uint128(wrapping_op(IntOperator::Add, a, b)),
            ],
            None,
            call,
        ) == outputs(seq![CoreValueView::RangeCheck, CoreValueView::Uint128(a)], 0),
{
}

/// Unwrapping gives back what the jump on a non-zero value wrapped: a non-zero `v` is
/// wrapped as non-zero on branch 1, and unwrapping that gives `v`; zero goes to branch 0
/// with no output.
pub proof fn law_unwrap_after_jump_not_zero(v: int, t: Seq<char>, call: SimResult)
    ensures
        v != 0 ==> spec_simulate(
            ConcreteLibFuncView::Uint128JumpNotZero,
            seq![CoreValueView::Uint128(v)],
            None,
            call,
        ) == outputs(seq![CoreValueView::NonZero(Box::new(CoreValueView::Uint128(v)))], 1),
        spec_simulate(
            ConcreteLibFuncView::UnwrapNonZero(t),
            seq![CoreValueView::NonZero(Box::new(CoreValueView::Uint128(v)))],
            None,
            call,
        ) == outputs(seq![CoreValueView::Uint128(v)], 0),
        v == 0 ==> spec_simulate(
            ConcreteLibFuncView::Uint128JumpNotZero,
            seq![CoreValueView::Uint128(v)],
            None,
            call,
        ) == outputs(seq![], 0),
{
}

/// The concrete types of the mock context stand for different things, so that looking a
/// type up by what it stands for gives the type back.
pub proof fn law_mock_mapping_bijective(name: Seq<char>)
    requires
        mock_type_mapping().dom().contains(name),
    ensures
        injective(mock_type_mapping()),
        mock_concrete_type(mock_type_mapping()[name]) == Some(name),
{
    reveal_strlit("uint128");
    reveal_strlit("GasBuiltin");
    reveal_strlit("RangeCheck");
    reveal_strlit("NonZeroInt");
    reveal_strlit("UninitializedInt");
    reveal_strlit("ArrayUint128");
    reveal_strlit("NonZero");
    reveal_strlit("Uninitialized");
    reveal_strlit("Array");
    let m = mock_type_mapping();
    let int_arg = seq![GenericArgView::Type("uint128"@)];
    assert(int_arg.len() == 1);
    assert("GasBuiltin"@[0] != "RangeCheck"@[0]);
    assert("GasBuiltin"@.len() != "uint128"@.len());
    assert("RangeCheck"@.len() != "uint128"@.len());
    assert("NonZero"@.len() != "Uninitialized"@.len());
    assert("NonZero"@.len() != "Array"@.len());
    assert("Uninitialized"@.len() != "Array"@.len());
    assert(long_id("NonZero", int_arg) != long_id("uint128", seq![]));
    assert(long_id("Uninitialized", int_arg) != long_id("uint128", seq![]));
    assert(long_id("Array", int_arg) != long_id("uint128", seq![]));
    assert(long_id("NonZero", int_arg) != long_id("GasBuiltin", seq![]));
    assert(long_id("Uninitialized", int_arg) != long_id("GasBuiltin", seq![]));
    assert(long_id("Array", int_arg) != long_id("GasBuiltin", seq![]));
    assert(long_id("NonZero", int_arg) != long_id("RangeCheck", seq![]));
    assert(long_id("Uninitialized", int_arg) != long_id("RangeCheck", seq![]));
    assert(long_id("Array", int_arg) != long_id("RangeCheck", seq![]));
    assert(injective(m));
    let k = choose|k: Seq<char>| m.dom().contains(k) && #[trigger] m[k] == m[name];
    assert(m[k] == m[name]);
}

/// The number of values of a `u128`.
pub open spec fn two_to_128() -> int {
    u128::MAX as int + 1
}

/// Wrapping arithmetic is arithmetic modulo 2^128: for all `u128` operands `a` and `b`,
/// wrapping addition, subtraction and multiplication give the range check and the exact
/// sum, difference or product reduced modulo 2^128, on branch 0, whether or not the
/// exact result overflows.
pub proof fn law_wrapping_is_modular(a: int, b: int, call: SimResult)
    requires
        0 <= a <= u128::MAX,
        0 <= b <= u128::MAX,
    ensures
        spec_simulate(
            ConcreteLibFuncView::Uint128Operation(IntOperator::Add, None),
            seq![CoreValueView::RangeCheck, CoreValueView::Uint128(a), CoreValueView::Uint128(b)],
            None,
            call,
        ) == outputs(seq![CoreValueView::RangeCheck, CoreValueView::Uint128((a + b) % two_to_128())], 0),
        spec_simulate(
            ConcreteLibFuncView::Uint128Operation(IntOperator::Sub, None),
            seq![CoreValueView::RangeCheck, CoreValueView::Uint128(a), CoreValueView::Uint128(b)],
            None,
            call,
        ) == outputs(seq![CoreValueView::RangeCheck, CoreValueView::Uint128((a - b) % two_to_128())], 0),
        spec_simulate(
            ConcreteLibFuncView::Uint128Operation(IntOperator::Mul, None),
            seq![CoreValueView::RangeCheck, CoreValueView::Uint128(a), CoreValueView::Uint128(b)],
            None,
            call,
        ) == outputs(seq![CoreValueView::RangeCheck, CoreValueView::Uint128((a * b) % two_to_128())], 0),
{
    let m = two_to_128();
    assert(m == u128::MAX + 1);
    if a + b < m {
        vstd::arithmetic::div_mod::lemma_small_mod((a + b) as nat, m as nat);
    } else {
        vstd::arithmetic::div_mod::lemma_mod_add_multiples_vanish(a + b - m, m);
        vstd::arithmetic::div_mod::lemma_small_mod((a + b - m) as nat, m as nat);
        assert(m + (a + b - m) == a + b);
    }
    if a - b >= 0 {
        vstd::arithmetic::div_mod::lemma_small_mod((a - b) as nat, m as nat);
    } else {
        vstd::arithmetic::div_mod::lemma_mod_add_multiples_vanish(a - b, m);
        vstd::arithmetic::div_mod::lemma_small_mod((a - b + m) as nat, m as nat);
        assert(m + (a - b) == a - b + m);
    }
}

/// A library function that copies, discards or stores a value specializes only to types
/// that allow it, and to every known type that allows it: `dup<t>` exactly to the
/// duplicatable types, `drop<t>` exactly to the droppable ones, and `store_temp<t>` and
/// `align_temps<t>` exactly to the storable ones; `store_local<t>` only to storable ones.
/// A known type that does not allow it is refused as an unsupported argument.
pub proof fn law_specialize_follows_type_flags(t: Seq<char>)
    ensures
        specialize_spec(CoreLibFunc::Dup, seq![GenericArgView::Type(t)]) is Ok
            <==> (mock_type_info(t) is Some && mock_type_info(t)->0.duplicatable),
        specialize_spec(CoreLibFunc::Drop, seq![GenericArgView::Type(t)]) is Ok
            <==> (mock_type_info(t) is Some && mock_type_info(t)->0.droppable),
        specialize_spec(CoreLibFunc::StoreTemp, seq![GenericArgView::Type(t)]) is Ok
            <==> (mock_type_info(t) is Some && mock_type_info(t)->0.storable),
        specialize_spec(CoreLibFunc::AlignTemps, seq![GenericArgView::Type(t)]) is Ok
            <==> (mock_type_info(t) is Some && mock_type_info(t)->0.storable),
        specialize_spec(CoreLibFunc::StoreLocal, seq![GenericArgView::Type(t)]) is Ok
            ==> (mock_type_info(t) is Some && mock_type_info(t)->0.storable),
        (mock_type_info(t) is Some && mock_type_info(t)->0.duplicatable) ==> specialize_spec(
            CoreLibFunc::Dup,
            seq![GenericArgView::Type(t)],
        ) == Ok::<ConcreteLibFuncView, SpecializationError>(ConcreteLibFuncView::Dup(t)),
        (mock_type_info(t) is Some && !mock_type_info(t)->0.duplicatable) ==> specialize_spec(
            CoreLibFunc::Dup,
            seq![GenericArgView::Type(t)],
        ) == Err::<ConcreteLibFuncView, SpecializationError>(SpecializationError::UnsupportedGenericArg),
        (mock_type_info(t) is Some && !mock_type_info(t)->0.droppable) ==> specialize_spec(
            CoreLibFunc::Drop,
            seq![GenericArgView::Type(t)],
        ) == Err::<ConcreteLibFuncView, SpecializationError>(SpecializationError::UnsupportedGenericArg),
        (mock_type_info(t) is Some && !mock_type_info(t)->0.storable) ==> specialize_spec(
            CoreLibFunc::StoreTemp,
            seq![GenericArgView::Type(t)],
        ) == Err::<ConcreteLibFuncView, SpecializationError>(SpecializationError::UnsupportedGenericArg),
{
}

} // verus!
