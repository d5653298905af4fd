use vstd::prelude::*;

use bimap::{BiHashMap, BiMap};

use crate::ids::{ConcreteTypeId, FunctionId, GenericTypeId};
use crate::program::{
    args_view, duplicate_args, ConcreteTypeLongId, ConcreteTypeLongIdView, Function,
    FunctionSignature, GenericArg, GenericArgView, StatementIdx, TypeInfo,
};

verus! {

#[verifier::external_type_specification]
#[verifier::external_body]
#[verifier::reject_recursive_types(L)]
#[verifier::reject_recursive_types(R)]
#[verifier::reject_recursive_types(LS)]
#[verifier::reject_recursive_types(RS)]
pub struct ExBiHashMap<L, R, LS, RS>(BiHashMap<L, R, LS, RS>);

/// A bimap between the names of concrete types and what they stand for.
pub type TypeMap = BiMap<ConcreteTypeId, ConcreteTypeLongId>;

/// The pairs that a bimap of concrete types holds, as a map from the name of each left
/// value to the view of its right value.
pub uninterp spec fn type_pairs(m: TypeMap) -> Map<
    Seq<char>,
    ConcreteTypeLongIdView,
>;

/// No two left values of `m` are paired with the same right value.
pub open spec fn injective(m: Map<Seq<char>, ConcreteTypeLongIdView>) -> bool {
    forall|a: Seq<char>, b: Seq<char>|
        #![trigger m[a], m[b]]
        m.dom().contains(a) && m.dom().contains(b) && m[a] == m[b] ==> a == b
}

/// `bimap::BiHashMap::new`: the bimap holds no pair.
#[verifier::external_body]
fn type_map_new() -> (m: TypeMap)
    ensures
        type_pairs(m) == no_pairs(),
{
    BiMap::new()
}

/// `bimap::BiHashMap::insert`: the pairs whose left value equals `left` or whose right
/// value equals `right` leave, and the pair (`left`, `right`) enters. Equality is that
/// of the derived `Eq` of both types, which compares names as strings and integer
/// arguments by sign and magnitude; as zero is never negative, it holds exactly where
/// the views are equal.
#[verifier::external_body]
fn type_map_insert(
    m: &mut TypeMap,
    left: ConcreteTypeId,
    right: ConcreteTypeLongId,
)
    ensures
        type_pairs(*final(m)) == Map::<Seq<char>, ConcreteTypeLongIdView>::new(
            |k: Seq<char>|
                k == left@ || (type_pairs(*old(m)).dom().contains(k) && type_pairs(
                    *old(m),
                )[k] != right@),
            |k: Seq<char>|
                if k == left@ {
                    right@
                } else {
                    type_pairs(*old(m))[k]
                },
        ),
{
    m.insert(left, right);
}

/// `bimap::BiHashMap::get_by_left`: the right value paired with `left`, if any.
#[verifier::external_body]
fn type_map_get_by_left<'a>(
    m: &'a TypeMap,
    left: &ConcreteTypeId,
) -> (r: Option<&'a ConcreteTypeLongId>)
    ensures
        r is Some <==> type_pairs(*m).dom().contains(left@),
        r matches Some(v) ==> v@ == type_pairs(*m)[left@],
{
    m.get_by_left(left)
}

/// `bimap::BiHashMap::get_by_right`: the left value paired with a right value equal to
/// `right`, if any (derived `Eq`, which holds exactly where the views are equal).
#[verifier::external_body]
fn type_map_get_by_right<'a>(
    m: &'a TypeMap,
    right: &ConcreteTypeLongId,
) -> (r: Option<&'a ConcreteTypeId>)
    ensures
        r is Some <==> has_value(type_pairs(*m), right@),
        r matches Some(l) ==> type_pairs(*m).dom().contains(l@) && type_pairs(*m)[l@]
            == right@,
{
    m.get_by_right(right)
}

/// The map of no pair.
pub open spec fn no_pairs() -> Map<Seq<char>, ConcreteTypeLongIdView> {
    Map::empty()
}

/// Some key of `m` is mapped to `v`.
pub open spec fn has_value(m: Map<Seq<char>, ConcreteTypeLongIdView>, v: ConcreteTypeLongIdView) -> bool {
    exists|k: Seq<char>| m.dom().contains(k) && #[trigger] m[k] == v
}

/// The long identifier of the concrete type `generic` applied to `args`.
pub open spec fn long_id(generic: &str, args: Seq<GenericArgView>) -> ConcreteTypeLongIdView {
    ConcreteTypeLongIdView { generic_id: generic@, generic_args: args }
}

/// The concrete types that the mock context declares: each name with what it stands for.
pub open spec fn mock_type_mapping() -> Map<Seq<char>, ConcreteTypeLongIdView> {
    map![
        "uint128"@ => long_id("uint128", seq![]),
        "GasBuiltin"@ => long_id("GasBuiltin", seq![]),
        "RangeCheck"@ => long_id("RangeCheck", seq![]),
        "NonZeroInt"@ => long_id("NonZero", seq![GenericArgView::Type("uint128"@)]),
        "UninitializedInt"@ => long_id("Uninitialized", seq![GenericArgView::Type("uint128"@)]),
        "ArrayUint128"@ => long_id("Array", seq![GenericArgView::Type("uint128"@)]),
    ]
}

/// The user functions that the mock context knows.
pub open spec fn mock_function_known(name: Seq<char>) -> bool {
    name == "drop_all_inputs"@ || name == "identity"@ || name == "unimplemented"@
}

/// What the mock context knows of a concrete type: whether it is storable, droppable
/// and duplicatable, and its size.
pub struct TypeFlags {
    pub storable: bool,
    pub droppable: bool,
    pub duplicatable: bool,
    pub size: int,
}

/// The flags of the concrete types whose information the mock context gives.
pub open spec fn mock_type_flags(name: Seq<char>) -> Option<TypeFlags> {
    if name == "uint128"@ || name == "NonZeroInt"@ {
        Some(TypeFlags { storable: true, droppable: true, duplicatable: true, size: 1 })
    } else if name == "UninitializedInt"@ {
        Some(TypeFlags { storable: false, droppable: true, duplicatable: false, size: 0 })
    } else {
        None
    }
}

/// The information of the type `name` in the mock context, where it gives one.
pub open spec fn mock_type_info(name: Seq<char>) -> Option<TypeFlags> {
    if mock_type_mapping().dom().contains(name) {
        mock_type_flags(name)
    } else {
        None
    }
}

/// The name of the concrete type that `long` stands for in the mock context, if any.
pub open spec fn mock_concrete_type(long: ConcreteTypeLongIdView) -> Option<Seq<char>> {
    if exists|k: Seq<char>|
        mock_type_mapping().dom().contains(k) && #[trigger] mock_type_mapping()[k] == long {
        Some(
            choose|k: Seq<char>|
                mock_type_mapping().dom().contains(k) && #[trigger] mock_type_mapping()[k]
                    == long,
        )
    } else {
        None
    }
}

/// How the change of the allocation pointer of a call is known.
#[derive(Clone, Copy, Debug, PartialEq, Eq)]
pub enum SierraApChange {
    /// The change is known and fixed.
    Known(usize),
    /// The change is not computed.
    NotImplemented,
}

/// A specialization context that knows a fixed set of types and three user functions
/// (`drop_all_inputs`, `identity` and `unimplemented`).
pub struct MockSpecializationContext {
    mapping: TypeMap,
}

impl MockSpecializationContext {
    /// The concrete types of this context, with what each stands for.
    pub closed spec fn mapping(&self) -> Map<Seq<char>, ConcreteTypeLongIdView> {
        type_pairs(self.mapping)
    }

    #[verifier::type_invariant]
    spec fn inv(&self) -> bool {
        self.mapping() == mock_type_mapping()
    }

    /// The context whose types are those of `mock_type_mapping`.
    pub fn new() -> (ctx: Self)
        ensures
            ctx.mapping() == mock_type_mapping(),
    {
        proof {
            reveal_strlit("uint128");
            reveal_strlit("GasBuiltin");
            reveal_strlit("RangeCheck");
            reveal_strlit("NonZeroInt");
            reveal_strlit("UninitializedInt");
            reveal_strlit("ArrayUint128");
            reveal_strlit("NonZero");
            reveal_strlit("Uninitialized");
            reveal_strlit("Array");
        }
        let ghost int_arg = seq![GenericArgView::Type("uint128"@)];
        assert(int_arg.len() == 1);
        assert(Seq::<GenericArgView>::empty().len() == 0);
        assert(forall|g: &str, h: &str| #[trigger] long_id(g, int_arg) != #[trigger] long_id(h, seq![]));
        assert("NonZero"@.len() == 7 && "Uninitialized"@.len() == 13 && "Array"@.len() == 5);
        let mut mapping = type_map_new();
        type_map_insert(
            &mut mapping,
            ConcreteTypeId::from_name("uint128"),
            ConcreteTypeLongId {
                generic_id: GenericTypeId::from_name("uint128"),
                generic_args: no_args(),
            },
        );
        assert(type_pairs(mapping) =~= map!["uint128"@ => long_id("uint128", seq![])]);
        type_map_insert(
            &mut mapping,
            ConcreteTypeId::from_name("GasBuiltin"),
            ConcreteTypeLongId {
                generic_id: GenericTypeId::from_name("GasBuiltin"),
                generic_args: no_args(),
            },
        );
        assert(type_pairs(mapping) =~= map![
            "uint128"@ => long_id("uint128", seq![]),
            "GasBuiltin"@ => long_id("GasBuiltin", seq![]),
        ]);
        type_map_insert(
            &mut mapping,
            ConcreteTypeId::from_name("RangeCheck"),
            ConcreteTypeLongId {
                generic_id: GenericTypeId::from_name("RangeCheck"),
                generic_args: no_args(),
            },
        );
        assert(type_pairs(mapping) =~= map![
            "uint128"@ => long_id("uint128", seq![]),
            "GasBuiltin"@ => long_id("GasBuiltin", seq![]),
            "RangeCheck"@ => long_id("RangeCheck", seq![]),
        ]);
        type_map_insert(
            &mut mapping,
            ConcreteTypeId::from_name("NonZeroInt"),
            ConcreteTypeLongId {
                generic_id: GenericTypeId::from_name("NonZero"),
                generic_args: uint128_arg(),
            },
        );
        assert(type_pairs(mapping) =~= map![
            "uint128"@ => long_id("uint128", seq![]),
            "GasBuiltin"@ => long_id("GasBuiltin", seq![]),
            "RangeCheck"@ => long_id("RangeCheck", seq![]),
            "NonZeroInt"@ => long_id("NonZero", int_arg),
        ]);
        type_map_insert(
            &mut mapping,
            ConcreteTypeId::from_name("UninitializedInt"),
            ConcreteTypeLongId {
                generic_id: GenericTypeId::from_name("Uninitialized"),
                generic_args: uint128_arg(),
            },
        );
        assert(type_pairs(mapping) =~= map![
            "uint128"@ => long_id("uint128", seq![]),
            "GasBuiltin"@ => long_id("GasBuiltin", seq![]),
            "RangeCheck"@ => long_id("RangeCheck", seq![]),
            "NonZeroInt"@ => long_id("NonZero", int_arg),
            "UninitializedInt"@ => long_id("Uninitialized", int_arg),
        ]);
        type_map_insert(
            &mut mapping,
            ConcreteTypeId::from_name("ArrayUint128"),
            ConcreteTypeLongId {
                generic_id: GenericTypeId::from_name("Array"),
                generic_args: uint128_arg(),
            },
        );
        assert(type_pairs(mapping) =~= mock_type_mapping());
        MockSpecializationContext { mapping }
    }

    /// The user function `function_id`, where it is one of the three the context
    /// knows: it takes and returns no values and starts at statement 0.
    pub fn try_get_function(&self, function_id: &FunctionId) -> (r: Option<Function>)
        ensures
            r is Some <==> mock_function_known(function_id@),
            r matches Some(f) ==> f.id@ == function_id@ && f.signature.param_types@.len() == 0
                && f.signature.ret_types@.len() == 0 && f.entry_point == StatementIdx(0),
    {
        if function_id.is_named("drop_all_inputs") || function_id.is_named("identity")
            || function_id.is_named("unimplemented") {
            Some(
                Function::new(function_id.duplicate(), Vec::new(), Vec::new(), StatementIdx(0)),
            )
        } else {
            None
        }
    }

    /// What the context knows of the concrete type `id`.
    pub fn try_get_type_info(&self, id: &ConcreteTypeId) -> (r: Option<TypeInfo>)
        ensures
            r is Some <==> mock_type_info(id@) is Some,
            r matches Some(info) ==> {
                let flags = mock_type_info(id@)->0;
                &&& info.long_id@ == mock_type_mapping()[id@]
                &&& info.storable == flags.storable
                &&& info.droppable == flags.droppable
                &&& info.duplicatable == flags.duplicatable
                &&& info.size == flags.size
            },
    {
        proof {
            use_type_invariant(self);
        }
        let uint128 = ConcreteTypeId::from_name("uint128");
        let non_zero = ConcreteTypeId::from_name("NonZeroInt");
        let uninitialized = ConcreteTypeId::from_name("UninitializedInt");
        if id.same(&uint128) || id.same(&non_zero) {
            match type_map_get_by_left(&self.mapping, id) {
                Some(long) => Some(
                    TypeInfo {
                        long_id: duplicate_long_id(long),
                        storable: true,
                        droppable: true,
                        duplicatable: true,
                        size: 1,
                    },
                ),
                None => None,
            }
        } else if id.same(&uninitialized) {
            match type_map_get_by_left(&self.mapping, id) {
                Some(long) => Some(
                    TypeInfo {
                        long_id: duplicate_long_id(long),
                        storable: false,
                        droppable: true,
                        duplicatable: false,
                        size: 0,
                    },
                ),
                None => None,
            }
        } else {
            None
        }
    }

    /// The concrete type that the generic type `id` applied to `generic_args` stands
    /// for, if the context declares one.
    pub fn try_get_concrete_type(&self, id: GenericTypeId, generic_args: &Vec<GenericArg>) -> (r:
        Option<ConcreteTypeId>)
        ensures
            r is Some <==> mock_concrete_type(
                ConcreteTypeLongIdView { generic_id: id@, generic_args: args_view(generic_args@) },
            ) is Some,
            r matches Some(t) ==> mock_type_mapping().dom().contains(t@) && mock_type_mapping()[t@]
                == (ConcreteTypeLongIdView {
                generic_id: id@,
                generic_args: args_view(generic_args@),
            }),
    {
        proof {
            use_type_invariant(self);
        }
        let long = ConcreteTypeLongId { generic_id: id, generic_args: duplicate_args(generic_args) };
        match type_map_get_by_right(&self.mapping, &long) {
            Some(t) => Some(t.duplicate()),
            None => None,
        }
    }

    /// The signature of the user function `function_id`, where the context knows it.
    pub fn try_get_function_signature(&self, function_id: &FunctionId) -> (r: Option<
        FunctionSignature,
    >)
        ensures
            r is Some <==> mock_function_known(function_id@),
            r matches Some(s) ==> s.param_types@.len() == 0 && s.ret_types@.len() == 0,
    {
        match self.try_get_function(function_id) {
            Some(f) => Some(f.signature),
            None => None,
        }
    }

    /// The change of the allocation pointer of a call of `function_id`: not computed in
    /// this context.
    pub fn try_get_function_ap_change(&self, function_id: &FunctionId) -> (r: Option<
        SierraApChange,
    >)
        ensures
            r == Some(SierraApChange::NotImplemented),
    {
        Some(SierraApChange::NotImplemented)
    }
}

/// No generic argument.
fn no_args() -> (r: Vec<GenericArg>)
    ensures
        args_view(r@) == Seq::<GenericArgView>::empty(),
{
    let r: Vec<GenericArg> = Vec::new();
    assert(args_view(r@) =~= Seq::<GenericArgView>::empty());
    r
}

/// The single generic argument `uint128`.
fn uint128_arg() -> (r: Vec<GenericArg>)
    ensures
        args_view(r@) == seq![GenericArgView::Type("uint128"@)],
{
    let r = vec![GenericArg::Type(ConcreteTypeId::from_name("uint128"))];
    assert(args_view(r@) =~= seq![GenericArgView::Type("uint128"@)]);
    r
}

/// A copy of a concrete type's long identifier.
pub fn duplicate_long_id(long: &ConcreteTypeLongId) -> (r: ConcreteTypeLongId)
    ensures
        r@ == long@,
{
    ConcreteTypeLongId {
        generic_id: GenericTypeId { debug_name: long.generic_id.debug_name.clone() },
        generic_args: duplicate_args(&long.generic_args),
    }
}

} // verus!
