use vstd::prelude::*;

use crate::ids::{ConcreteTypeId, FunctionId, GenericTypeId};

verus! {

/// A generic argument of a generic type or library function.
#[derive(Clone, Debug, PartialEq, Eq, Hash)]
pub enum GenericArg {
    /// A concrete type.
    Type(ConcreteTypeId),
    /// A user function of the program.
    UserFunc(FunctionId),
    /// An integer value.
    Value(IntValue),
}

/// An integer of any sign whose magnitude is a `u128`: its sign and its magnitude. Zero
/// is never negative, so that two values are equal exactly when they denote the same
/// integer.
#[derive(Clone, Copy, Debug, PartialEq, Eq, Hash)]
pub struct IntValue {
    negative: bool,
    magnitude: u128,
}

impl View for IntValue {
    type V = int;

    closed spec fn view(&self) -> int {
        if self.negative {
            -(self.magnitude as int)
        } else {
            self.magnitude as int
        }
    }
}

impl IntValue {
    /// Zero is not negative.
    #[verifier::type_invariant]
    spec fn canonical(&self) -> bool {
        self.negative ==> self.magnitude != 0
    }

    /// The integer `v`.
    pub fn from_i64(v: i64) -> (r: IntValue)
        ensures
            r@ == v as int,
    {
        if v < 0 {
            let m: i128 = -(v as i128);
            IntValue { negative: true, magnitude: m as u128 }
        } else {
            IntValue { negative: false, magnitude: v as u128 }
        }
    }

    /// The integer `v`.
    pub fn from_u128(v: u128) -> (r: IntValue)
        ensures
            r@ == v as int,
    {
        IntValue { negative: false, magnitude: v }
    }

    /// The value as a `u128`, where it is one.
    pub fn to_u128(&self) -> (r: Option<u128>)
        ensures
            match r {
                Some(x) => x as int == self@,
                None => !(0 <= self@ <= u128::MAX),
            },
    {
        proof {
            use_type_invariant(self);
        }
        if self.negative {
            None
        } else {
            Some(self.magnitude)
        }
    }
}

/// What a generic argument denotes.
pub enum GenericArgView {
    Type(Seq<char>),
    UserFunc(Seq<char>),
    Value(int),
}

impl View for GenericArg {
    type V = GenericArgView;

    open spec fn view(&self) -> GenericArgView {
        match self {
            GenericArg::Type(t) => GenericArgView::Type(t@),
            GenericArg::UserFunc(f) => GenericArgView::UserFunc(f@),
            GenericArg::Value(v) => GenericArgView::Value(v@),
        }
    }
}

/// The view of each generic argument of `args`.
pub open spec fn args_view(args: Seq<GenericArg>) -> Seq<GenericArgView> {
    args.map_values(|a: GenericArg| a@)
}

impl GenericArg {
    /// A copy of the argument.
    pub fn duplicate(&self) -> (r: Self)
        ensures
            r@ == self@,
    {
        match self {
            GenericArg::Type(t) => GenericArg::Type(t.duplicate()),
            GenericArg::UserFunc(f) => GenericArg::UserFunc(f.duplicate()),
            GenericArg::Value(v) => GenericArg::Value(*v),
        }
    }
}

/// A copy of each generic argument, in order.
pub fn duplicate_args(args: &Vec<GenericArg>) -> (r: Vec<GenericArg>)
    ensures
        args_view(r@) == args_view(args@),
{
    let mut r: Vec<GenericArg> = Vec::new();
    let mut i: usize = 0;
    while i < args.len()
        invariant
            i <= args.len(),
            r@.len() == i,
            forall|j: int| 0 <= j < i ==> (#[trigger] r@[j])@ == args@[j]@,
        decreases args.len() - i,
    {
        r.push(args[i].duplicate());
        i = i + 1;
    }
    assert(args_view(r@) =~= args_view(args@));
    r
}

/// A concrete type: a generic type together with its generic arguments.
#[derive(Clone, Debug, PartialEq, Eq, Hash)]
pub struct ConcreteTypeLongId {
    pub generic_id: GenericTypeId,
    pub generic_args: Vec<GenericArg>,
}

/// What a concrete type's long identifier denotes.
pub struct ConcreteTypeLongIdView {
    pub generic_id: Seq<char>,
    pub generic_args: Seq<GenericArgView>,
}

impl View for ConcreteTypeLongId {
    type V = ConcreteTypeLongIdView;

    open spec fn view(&self) -> ConcreteTypeLongIdView {
        ConcreteTypeLongIdView {
            generic_id: self.generic_id@,
            generic_args: args_view(self.generic_args@),
        }
    }
}

/// The index of a statement of a program.
#[derive(Clone, Copy, Debug, PartialEq, Eq, Hash)]
pub struct StatementIdx(pub usize);

/// What is known of a concrete type.
#[derive(Clone, Debug, PartialEq, Eq)]
pub struct TypeInfo {
    pub long_id: ConcreteTypeLongId,
    pub storable: bool,
    pub droppable: bool,
    pub duplicatable: bool,
    pub size: i16,
}

/// The signature of a user function.
#[derive(Clone, Debug, PartialEq, Eq)]
pub struct FunctionSignature {
    pub param_types: Vec<ConcreteTypeId>,
    pub ret_types: Vec<ConcreteTypeId>,
}

/// A user function of a program.
#[derive(Clone, Debug, PartialEq, Eq)]
pub struct Function {
    pub id: FunctionId,
    pub signature: FunctionSignature,
    pub entry_point: StatementIdx,
}

impl Function {
    /// The function `id` with the given parameter and return types, entered at
    /// `entry_point`.
    pub fn new(
        id: FunctionId,
        param_types: Vec<ConcreteTypeId>,
        ret_types: Vec<ConcreteTypeId>,
        entry_point: StatementIdx,
    ) -> (r: Function)
        ensures
            r.id == id,
            r.signature.param_types == param_types,
            r.signature.ret_types == ret_types,
            r.entry_point == entry_point,
    {
        Function { id, signature: FunctionSignature { param_types, ret_types }, entry_point }
    }
}

} // verus!
