use vstd::prelude::*;

use crate::context::{
    long_id, mock_concrete_type, mock_function_known, mock_type_info,
    MockSpecializationContext,
};
use crate::ids::{ConcreteTypeId, FunctionId, GenericLibFuncId, GenericTypeId};
use crate::program::{args_view, GenericArg, GenericArgView};

verus! {

/// An arithmetic operator on unsigned 128-bit integers.
#[derive(Clone, Copy, Debug, PartialEq, Eq)]
pub enum IntOperator {
    Add,
    Sub,
    Mul,
    Div,
    Mod,
}

/// A generic library function of the core library, before specialization.
#[derive(Clone, Copy, Debug, PartialEq, Eq)]
pub enum CoreLibFunc {
    /// `array_new<T>`: a new empty array.
    ArrayNew,
    /// `array_append<T>`: an array with one more value at its end.
    ArrayAppend,
    /// `drop<T>`: discards a value.
    Drop,
    /// `dup<T>`: two copies of a value.
    Dup,
    /// `function_call<f>`: calls a user function.
    FunctionCall,
    /// `get_gas`: withdraws the gas a statement needs, branching on whether there is enough.
    GetGas,
    /// `refund_gas`: gives back the gas of a statement.
    RefundGas,
    /// `uint128_wrapping_add`, `uint128_wrapping_sub`, `uint128_wrapping_mul`, `uint128_div`
    /// and `uint128_mod`, on two operands or on one and a constant.
    Uint128Operation(IntOperator),
    /// `uint128_checked_add`, `uint128_checked_sub` and `uint128_checked_mul`: branches on
    /// overflow.
    Uint128CheckedOperation(IntOperator),
    /// `uint128_const<c>`: the constant `c`.
    Uint128Const,
    /// `uint128_jump_nz`: branches on whether a value is zero.
    Uint128JumpNotZero,
    /// `store_temp<T>`: stores a value in a temporary cell.
    StoreTemp,
    /// `align_temps<T>`: aligns the temporary cells of the branches.
    AlignTemps,
    /// `store_local<T>`: stores a value in a local cell.
    StoreLocal,
    /// `finalize_locals`: ends the allocation of local cells.
    FinalizeLocals,
    /// `rename<T>`: the same value under a new name.
    Rename,
    /// `unwrap_nz<T>`: the value inside a non-zero value.
    UnwrapNonZero,
    /// `jump`: an unconditional jump.
    UnconditionalJump,
}

/// The generic library function named `name`, if the core library has one.
pub open spec fn libfunc_by_name(name: Seq<char>) -> Option<CoreLibFunc> {
    if name == "array_new"@ {
        Some(CoreLibFunc::ArrayNew)
    } else if name == "array_append"@ {
        Some(CoreLibFunc::ArrayAppend)
    } else if name == "drop"@ {
        Some(CoreLibFunc::Drop)
    } else if name == "dup"@ {
        Some(CoreLibFunc::Dup)
    } else if name == "function_call"@ {
        Some(CoreLibFunc::FunctionCall)
    } else if name == "get_gas"@ {
        Some(CoreLibFunc::GetGas)
    } else if name == "refund_gas"@ {
        Some(CoreLibFunc::RefundGas)
    } else if name == "uint128_wrapping_add"@ {
        Some(CoreLibFunc::Uint128Operation(IntOperator::Add))
    } else if name == "uint128_wrapping_sub"@ {
        Some(CoreLibFunc::Uint128Operation(IntOperator::Sub))
    } else if name == "uint128_wrapping_mul"@ {
        Some(CoreLibFunc::Uint128Operation(IntOperator::Mul))
    } else if name == "uint128_div"@ {
        Some(CoreLibFunc::Uint128Operation(IntOperator::Div))
    } else if name == "uint128_mod"@ {
        Some(CoreLibFunc::Uint128Operation(IntOperator::Mod))
    } else if name == "uint128_checked_add"@ {
        Some(CoreLibFunc::Uint128CheckedOperation(IntOperator::Add))
    } else if name == "uint128_checked_sub"@ {
        Some(CoreLibFunc::Uint128CheckedOperation(IntOperator::Sub))
    } else if name == "uint128_checked_mul"@ {
        Some(CoreLibFunc::Uint128CheckedOperation(IntOperator::Mul))
    } else if name == "uint128_const"@ {
        Some(CoreLibFunc::Uint128Const)
    } else if name == "uint128_jump_nz"@ {
        Some(CoreLibFunc::Uint128JumpNotZero)
    } else if name == "store_temp"@ {
        Some(CoreLibFunc::StoreTemp)
    } else if name == "align_temps"@ {
        Some(CoreLibFunc::AlignTemps)
    } else if name == "store_local"@ {
        Some(CoreLibFunc::StoreLocal)
    } else if name == "finalize_locals"@ {
        Some(CoreLibFunc::FinalizeLocals)
    } else if name == "rename"@ {
        Some(CoreLibFunc::Rename)
    } else if name == "unwrap_nz"@ {
        Some(CoreLibFunc::UnwrapNonZero)
    } else if name == "jump"@ {
        Some(CoreLibFunc::UnconditionalJump)
    } else {
        None
    }
}

impl CoreLibFunc {
    /// The generic library function whose identifier is `id`, if the core library has one.
    pub fn by_id(id: &GenericLibFuncId) -> (r: Option<CoreLibFunc>)
        ensures
            r == libfunc_by_name(id@),
    {
        if id.is_named("array_new") {
            Some(CoreLibFunc::ArrayNew)
        } else if id.is_named("array_append") {
            Some(CoreLibFunc::ArrayAppend)
        } else if id.is_named("drop") {
            Some(CoreLibFunc::Drop)
        } else if id.is_named("dup") {
            Some(CoreLibFunc::Dup)
        } else if id.is_named("function_call") {
            Some(CoreLibFunc::FunctionCall)
        } else if id.is_named("get_gas") {
            Some(CoreLibFunc::GetGas)
        } else if id.is_named("refund_gas") {
            Some(CoreLibFunc::RefundGas)
        } else if id.is_named("uint128_wrapping_add") {
            Some(CoreLibFunc::Uint128Operation(IntOperator::Add))
        } else if id.is_named("uint128_wrapping_sub") {
            Some(CoreLibFunc::Uint128Operation(IntOperator::Sub))
        } else if id.is_named("uint128_wrapping_mul") {
            Some(CoreLibFunc::Uint128Operation(IntOperator::Mul))
        } else if id.is_named("uint128_div") {
            Some(CoreLibFunc::Uint128Operation(IntOperator::Div))
        } else if id.is_named("uint128_mod") {
            Some(CoreLibFunc::Uint128Operation(IntOperator::Mod))
        } else if id.is_named("uint128_checked_add") {
            Some(CoreLibFunc::Uint128CheckedOperation(IntOperator::Add))
        } else if id.is_named("uint128_checked_sub") {
            Some(CoreLibFunc::Uint128CheckedOperation(IntOperator::Sub))
        } else if id.is_named("uint128_checked_mul") {
            Some(CoreLibFunc::Uint128CheckedOperation(IntOperator::Mul))
        } else if id.is_named("uint128_const") {
            Some(CoreLibFunc::Uint128Const)
        } else if id.is_named("uint128_jump_nz") {
            Some(CoreLibFunc::Uint128JumpNotZero)
        } else if id.is_named("store_temp") {
            Some(CoreLibFunc::StoreTemp)
        } else if id.is_named("align_temps") {
            Some(CoreLibFunc::AlignTemps)
        } else if id.is_named("store_local") {
            Some(CoreLibFunc::StoreLocal)
        } else if id.is_named("finalize_locals") {
            Some(CoreLibFunc::FinalizeLocals)
        } else if id.is_named("rename") {
            Some(CoreLibFunc::Rename)
        } else if id.is_named("unwrap_nz") {
            Some(CoreLibFunc::UnwrapNonZero)
        } else if id.is_named("jump") {
            Some(CoreLibFunc::UnconditionalJump)
        } else {
            None
        }
    }
}

/// A library function of the core library, specialized by its generic arguments.
#[derive(Debug, PartialEq, Eq)]
pub enum CoreConcreteLibFunc {
    ArrayNew(ConcreteTypeId),
    ArrayAppend(ConcreteTypeId),
    Drop(ConcreteTypeId),
    Dup(ConcreteTypeId),
    FunctionCall(FunctionId),
    GetGas,
    RefundGas,
    /// An operation on two operands, or, where `c` is a constant, on one operand and `c`.
    Uint128Operation { op: IntOperator, c: Option<u128> },
    Uint128CheckedOperation(IntOperator),
    Uint128Const(u128),
    Uint128JumpNotZero,
    StoreTemp(ConcreteTypeId),
    AlignTemps(ConcreteTypeId),
    StoreLocal(ConcreteTypeId),
    FinalizeLocals,
    Rename(ConcreteTypeId),
    UnwrapNonZero(ConcreteTypeId),
    UnconditionalJump,
}

/// What a specialized library function denotes: types and functions by their names.
pub enum ConcreteLibFuncView {
    ArrayNew(Seq<char>),
    ArrayAppend(Seq<char>),
    Drop(Seq<char>),
    Dup(Seq<char>),
    FunctionCall(Seq<char>),
    GetGas,
    RefundGas,
    Uint128Operation(IntOperator, Option<int>),
    Uint128CheckedOperation(IntOperator),
    Uint128Const(int),
    Uint128JumpNotZero,
    StoreTemp(Seq<char>),
    AlignTemps(Seq<char>),
    StoreLocal(Seq<char>),
    FinalizeLocals,
    Rename(Seq<char>),
    UnwrapNonZero(Seq<char>),
    UnconditionalJump,
}

impl View for CoreConcreteLibFunc {
    type V = ConcreteLibFuncView;

    open spec fn view(&self) -> ConcreteLibFuncView {
        match self {
            CoreConcreteLibFunc::ArrayNew(t) => ConcreteLibFuncView::ArrayNew(t@),
            CoreConcreteLibFunc::ArrayAppend(t) => ConcreteLibFuncView::ArrayAppend(t@),
            CoreConcreteLibFunc::Drop(t) => ConcreteLibFuncView::Drop(t@),
            CoreConcreteLibFunc::Dup(t) => ConcreteLibFuncView::Dup(t@),
            CoreConcreteLibFunc::FunctionCall(f) => ConcreteLibFuncView::FunctionCall(f@),
            CoreConcreteLibFunc::GetGas => ConcreteLibFuncView::GetGas,
            CoreConcreteLibFunc::RefundGas => ConcreteLibFuncView::RefundGas,
            CoreConcreteLibFunc::Uint128Operation { op, c } => ConcreteLibFuncView::Uint128Operation(
                *op,
                match c {
                    Some(c) => Some(*c as int),
                    None => None,
                },
            ),
            CoreConcreteLibFunc::Uint128CheckedOperation(op) => ConcreteLibFuncView::Uint128CheckedOperation(*op),
            CoreConcreteLibFunc::Uint128Const(c) => ConcreteLibFuncView::Uint128Const(*c as int),
            CoreConcreteLibFunc::Uint128JumpNotZero => ConcreteLibFuncView::Uint128JumpNotZero,
            CoreConcreteLibFunc::StoreTemp(t) => ConcreteLibFuncView::StoreTemp(t@),
            CoreConcreteLibFunc::AlignTemps(t) => ConcreteLibFuncView::AlignTemps(t@),
            CoreConcreteLibFunc::StoreLocal(t) => ConcreteLibFuncView::StoreLocal(t@),
            CoreConcreteLibFunc::FinalizeLocals => ConcreteLibFuncView::FinalizeLocals,
            CoreConcreteLibFunc::Rename(t) => ConcreteLibFuncView::Rename(t@),
            CoreConcreteLibFunc::UnwrapNonZero(t) => ConcreteLibFuncView::UnwrapNonZero(t@),
            CoreConcreteLibFunc::UnconditionalJump => ConcreteLibFuncView::UnconditionalJump,
        }
    }
}

/// Why a generic library function could not be specialized.
#[derive(Clone, Copy, Debug, PartialEq, Eq)]
pub enum SpecializationError {
    /// The function takes a different number of generic arguments.
    WrongNumberOfGenericArgs,
    /// A generic argument is of the wrong kind, out of range, or names a type that
    /// lacks a property the function needs.
    UnsupportedGenericArg,
    /// The context knows nothing of the type argument.
    MissingTypeInfo,
    /// The context declares no concrete type that the function needs (such as the
    /// `NonZero`, `Array` or `Uninitialized` of the type argument).
    MissingConcreteType,
    /// The context knows no user function of that name.
    MissingFunction,
}

/// What a library function needs of its type argument.
pub enum TypeNeed {
    Nothing,
    Storable,
    Droppable,
    Duplicatable,
}

/// What `f`, which takes one type argument, needs of it, and the generic type, if any,
/// that it needs declared over it.
pub open spec fn type_needs(f: CoreLibFunc) -> (TypeNeed, Option<Seq<char>>) {
    match f {
        CoreLibFunc::ArrayNew => (TypeNeed::Nothing, Some("Array"@)),
        CoreLibFunc::ArrayAppend => (TypeNeed::Nothing, Some("Array"@)),
        CoreLibFunc::Drop => (TypeNeed::Droppable, None),
        CoreLibFunc::Dup => (TypeNeed::Duplicatable, None),
        CoreLibFunc::StoreTemp => (TypeNeed::Storable, None),
        CoreLibFunc::AlignTemps => (TypeNeed::Storable, None),
        CoreLibFunc::StoreLocal => (TypeNeed::Storable, Some("Uninitialized"@)),
        CoreLibFunc::UnwrapNonZero => (TypeNeed::Nothing, Some("NonZero"@)),
        _ => (TypeNeed::Nothing, None),
    }
}

/// Whether `f` takes exactly one type argument.
pub open spec fn takes_type(f: CoreLibFunc) -> bool {
    match f {
        CoreLibFunc::ArrayNew | CoreLibFunc::ArrayAppend | CoreLibFunc::Drop | CoreLibFunc::Dup
        | CoreLibFunc::StoreTemp | CoreLibFunc::AlignTemps | CoreLibFunc::StoreLocal
        | CoreLibFunc::Rename | CoreLibFunc::UnwrapNonZero => true,
        _ => false,
    }
}

/// The specialization of `f`, which takes one type argument, to the type named `t`.
pub open spec fn with_type(f: CoreLibFunc, t: Seq<char>) -> ConcreteLibFuncView {
    match f {
        CoreLibFunc::ArrayNew => ConcreteLibFuncView::ArrayNew(t),
        CoreLibFunc::ArrayAppend => ConcreteLibFuncView::ArrayAppend(t),
        CoreLibFunc::Drop => ConcreteLibFuncView::Drop(t),
        CoreLibFunc::Dup => ConcreteLibFuncView::Dup(t),
        CoreLibFunc::StoreTemp => ConcreteLibFuncView::StoreTemp(t),
        CoreLibFunc::AlignTemps => ConcreteLibFuncView::AlignTemps(t),
        CoreLibFunc::StoreLocal => ConcreteLibFuncView::StoreLocal(t),
        CoreLibFunc::Rename => ConcreteLibFuncView::Rename(t),
        _ => ConcreteLibFuncView::UnwrapNonZero(t),
    }
}

/// The specialization of `f`, which takes no generic argument.
pub open spec fn without_args(f: CoreLibFunc) -> ConcreteLibFuncView {
    match f {
        CoreLibFunc::GetGas => ConcreteLibFuncView::GetGas,
        CoreLibFunc::RefundGas => ConcreteLibFuncView::RefundGas,
        CoreLibFunc::Uint128CheckedOperation(op) => ConcreteLibFuncView::Uint128CheckedOperation(op),
        CoreLibFunc::Uint128JumpNotZero => ConcreteLibFuncView::Uint128JumpNotZero,
        CoreLibFunc::FinalizeLocals => ConcreteLibFuncView::FinalizeLocals,
        _ => ConcreteLibFuncView::UnconditionalJump,
    }
}

/// The result of specializing the type-taking `f` to the type named `t`, in the mock
/// context.
pub open spec fn specialize_with_type(f: CoreLibFunc, t: Seq<char>) -> Result<
    ConcreteLibFuncView,
    SpecializationError,
> {
    match mock_type_info(t) {
        None => Err(SpecializationError::MissingTypeInfo),
        Some(flags) => {
            let (need, wrapper) = type_needs(f);
            let ok = match need {
                TypeNeed::Nothing => true,
                TypeNeed::Storable => flags.storable,
                TypeNeed::Droppable => flags.droppable,
                TypeNeed::Duplicatable => flags.duplicatable,
            };
            if !ok {
                Err(SpecializationError::UnsupportedGenericArg)
            } else {
                match wrapper {
                    Some(g) => if mock_concrete_type(long_id_of(g, t)) is Some {
                        Ok(with_type(f, t))
                    } else {
                        Err(SpecializationError::MissingConcreteType)
                    },
                    None => Ok(with_type(f, t)),
                }
            }
        },
    }
}

/// The long identifier of the generic type `g` applied to the type named `t`.
pub open spec fn long_id_of(g: Seq<char>, t: Seq<char>) -> crate::program::ConcreteTypeLongIdView {
    crate::program::ConcreteTypeLongIdView {
        generic_id: g,
        generic_args: seq![GenericArgView::Type(t)],
    }
}

/// Whether `c` is a value of `u128`.
pub open spec fn fits_u128(c: int) -> bool {
    0 <= c <= u128::MAX
}

/// The result of specializing `f` with the generic arguments `args` in the mock context.
pub open spec fn specialize_spec(f: CoreLibFunc, args: Seq<GenericArgView>) -> Result<
    ConcreteLibFuncView,
    SpecializationError,
> {
    match f {
        CoreLibFunc::Uint128Operation(op) => if args.len() == 0 {
            Ok(ConcreteLibFuncView::Uint128Operation(op, None))
        } else if args.len() == 1 {
            match args[0] {
                GenericArgView::Value(c) => if fits_u128(c) && !(c == 0 && (op
                    == IntOperator::Div || op == IntOperator::Mod)) {
                    Ok(ConcreteLibFuncView::Uint128Operation(op, Some(c)))
                } else {
                    Err(SpecializationError::UnsupportedGenericArg)
                },
                _ => Err(SpecializationError::UnsupportedGenericArg),
            }
        } else {
            Err(SpecializationError::WrongNumberOfGenericArgs)
        },
        CoreLibFunc::Uint128Const => if args.len() == 1 {
            match args[0] {
                GenericArgView::Value(c) => if fits_u128(c) {
                    Ok(ConcreteLibFuncView::Uint128Const(c))
                } else {
                    Err(SpecializationError::UnsupportedGenericArg)
                },
                _ => Err(SpecializationError::UnsupportedGenericArg),
            }
        } else {
            Err(SpecializationError::WrongNumberOfGenericArgs)
        },
        CoreLibFunc::FunctionCall => if args.len() == 1 {
            match args[0] {
                GenericArgView::UserFunc(name) => if mock_function_known(name) {
                    Ok(ConcreteLibFuncView::FunctionCall(name))
                } else {
                    Err(SpecializationError::MissingFunction)
                },
                _ => Err(SpecializationError::UnsupportedGenericArg),
            }
        } else {
            Err(SpecializationError::WrongNumberOfGenericArgs)
        },
        _ => if takes_type(f) {
            if args.len() == 1 {
                match args[0] {
                    GenericArgView::Type(t) => specialize_with_type(f, t),
                    _ => Err(SpecializationError::UnsupportedGenericArg),
                }
            } else {
                Err(SpecializationError::WrongNumberOfGenericArgs)
            }
        } else if args.len() == 0 {
            Ok(without_args(f))
        } else {
            Err(SpecializationError::WrongNumberOfGenericArgs)
        },
    }
}

impl CoreLibFunc {
    /// The specialization of this function with the generic arguments `args`, checked
    /// against the types and functions that `ctx` declares.
    pub fn specialize(&self, ctx: &MockSpecializationContext, args: &Vec<GenericArg>) -> (r:
        Result<CoreConcreteLibFunc, SpecializationError>)
        ensures
            match r {
                Ok(c) => specialize_spec(*self, args_view(args@)) == Ok::<
                    ConcreteLibFuncView,
                    SpecializationError,
                >(c@),
                Err(e) => specialize_spec(*self, args_view(args@)) == Err::<
                    ConcreteLibFuncView,
                    SpecializationError,
                >(e),
            },
    {
        let ghost a = args_view(args@);
        assert(args@.len() == a.len());
        assert(args@.len() > 0 ==> a[0] == args@[0]@);
        match self {
            CoreLibFunc::Uint128Operation(op) => {
                if args.len() == 0 {
                    Ok(CoreConcreteLibFunc::Uint128Operation { op: *op, c: None })
                } else if args.len() == 1 {
                    match &args[0] {
                        GenericArg::Value(v) => {
                            let divides = match op {
                                IntOperator::Div | IntOperator::Mod => true,
                                _ => false,
                            };
                            match v.to_u128() {
                                Some(c) => if !(c == 0 && divides) {
                                    Ok(CoreConcreteLibFunc::Uint128Operation { op: *op, c: Some(c) })
                                } else {
                                    Err(SpecializationError::UnsupportedGenericArg)
                                },
                                None => Err(SpecializationError::UnsupportedGenericArg),
                            }
                        },
                        _ => Err(SpecializationError::UnsupportedGenericArg),
                    }
                } else {
                    Err(SpecializationError::WrongNumberOfGenericArgs)
                }
            },
            CoreLibFunc::Uint128Const => {
                if args.len() == 1 {
                    match &args[0] {
                        GenericArg::Value(v) => match v.to_u128() {
                            Some(c) => Ok(CoreConcreteLibFunc::Uint128Const(c)),
                            None => Err(SpecializationError::UnsupportedGenericArg),
                        },
                        _ => Err(SpecializationError::UnsupportedGenericArg),
                    }
                } else {
                    Err(SpecializationError::WrongNumberOfGenericArgs)
                }
            },
            CoreLibFunc::FunctionCall => {
                if args.len() == 1 {
                    match &args[0] {
                        GenericArg::UserFunc(f) => {
                            match ctx.try_get_function_signature(f) {
                                Some(_) => Ok(CoreConcreteLibFunc::FunctionCall(f.duplicate())),
                                None => Err(SpecializationError::MissingFunction),
                            }
                        },
                        _ => Err(SpecializationError::UnsupportedGenericArg),
                    }
                } else {
                    Err(SpecializationError::WrongNumberOfGenericArgs)
                }
            },
            CoreLibFunc::GetGas | CoreLibFunc::RefundGas | CoreLibFunc::Uint128CheckedOperation(_)
            | CoreLibFunc::Uint128JumpNotZero | CoreLibFunc::FinalizeLocals
            | CoreLibFunc::UnconditionalJump => {
                if args.len() == 0 {
                    Ok(
                        match self {
                            CoreLibFunc::GetGas => CoreConcreteLibFunc::GetGas,
                            CoreLibFunc::RefundGas => CoreConcreteLibFunc::RefundGas,
                            CoreLibFunc::Uint128CheckedOperation(op) => CoreConcreteLibFunc::Uint128CheckedOperation(*op),
                            CoreLibFunc::Uint128JumpNotZero => CoreConcreteLibFunc::Uint128JumpNotZero,
                            CoreLibFunc::FinalizeLocals => CoreConcreteLibFunc::FinalizeLocals,
                            _ => CoreConcreteLibFunc::UnconditionalJump,
                        },
                    )
                } else {
                    Err(SpecializationError::WrongNumberOfGenericArgs)
                }
            },
            _ => {
                if args.len() == 1 {
                    match &args[0] {
                        GenericArg::Type(t) => self.specialize_with_type(ctx, t),
                        _ => Err(SpecializationError::UnsupportedGenericArg),
                    }
                } else {
                    Err(SpecializationError::WrongNumberOfGenericArgs)
                }
            },
        }
    }

    /// The specialization of this type-taking function to the type `t`.
    fn specialize_with_type(&self, ctx: &MockSpecializationContext, t: &ConcreteTypeId) -> (r:
        Result<CoreConcreteLibFunc, SpecializationError>)
        requires
            takes_type(*self),
        ensures
            match r {
                Ok(c) => specialize_with_type(*self, t@) == Ok::<
                    ConcreteLibFuncView,
                    SpecializationError,
                >(c@),
                Err(e) => specialize_with_type(*self, t@) == Err::<
                    ConcreteLibFuncView,
                    SpecializationError,
                >(e),
            },
    {
        let info = match ctx.try_get_type_info(t) {
            Some(info) => info,
            None => {
                return Err(SpecializationError::MissingTypeInfo);
            },
        };
        let ok = match self {
            CoreLibFunc::Drop => info.droppable,
            CoreLibFunc::Dup => info.duplicatable,
            CoreLibFunc::StoreTemp | CoreLibFunc::AlignTemps | CoreLibFunc::StoreLocal => info.storable,
            _ => true,
        };
        if !ok {
            return Err(SpecializationError::UnsupportedGenericArg);
        }
        let wrapper: Option<&str> = match self {
            CoreLibFunc::ArrayNew | CoreLibFunc::ArrayAppend => Some("Array"),
            CoreLibFunc::StoreLocal => Some("Uninitialized"),
            CoreLibFunc::UnwrapNonZero => Some("NonZero"),
            _ => None,
        };
        if let Some(g) = wrapper {
            let args = vec![GenericArg::Type(t.duplicate())];
            assert(args_view(args@) =~= seq![GenericArgView::Type(t@)]);
            if ctx.try_get_concrete_type(GenericTypeId::from_name(g), &args).is_none() {
                return Err(SpecializationError::MissingConcreteType);
            }
        }
        let ty = t.duplicate();
        Ok(
            match self {
                CoreLibFunc::ArrayNew => CoreConcreteLibFunc::ArrayNew(ty),
                CoreLibFunc::ArrayAppend => CoreConcreteLibFunc::ArrayAppend(ty),
                CoreLibFunc::Drop => CoreConcreteLibFunc::Drop(ty),
                CoreLibFunc::Dup => CoreConcreteLibFunc::Dup(ty),
                CoreLibFunc::StoreTemp => CoreConcreteLibFunc::StoreTemp(ty),
                CoreLibFunc::AlignTemps => CoreConcreteLibFunc::AlignTemps(ty),
                CoreLibFunc::StoreLocal => CoreConcreteLibFunc::StoreLocal(ty),
                CoreLibFunc::Rename => CoreConcreteLibFunc::Rename(ty),
                _ => CoreConcreteLibFunc::UnwrapNonZero(ty),
            },
        )
    }
}

} // verus!
