use vstd::prelude::*;

verus! {

/// The identifier of a concrete type, known by its name.
#[derive(Clone, Debug, PartialEq, Eq, Hash)]
pub struct ConcreteTypeId {
    pub debug_name: String,
}

/// The identifier of a generic type (such as `NonZero` or `Array`).
#[derive(Clone, Debug, PartialEq, Eq, Hash)]
pub struct GenericTypeId {
    pub debug_name: String,
}

/// The identifier of a generic library function (such as `store_temp`).
#[derive(Clone, Debug, PartialEq, Eq, Hash)]
pub struct GenericLibFuncId {
    pub debug_name: String,
}

/// The identifier of a user function of a program.
#[derive(Clone, Debug, PartialEq, Eq, Hash)]
pub struct FunctionId {
    pub debug_name: String,
}

impl View for ConcreteTypeId {
    type V = Seq<char>;

    open spec fn view(&self) -> Seq<char> {
        self.debug_name@
    }
}

impl View for GenericTypeId {
    type V = Seq<char>;

    open spec fn view(&self) -> Seq<char> {
        self.debug_name@
    }
}

impl View for GenericLibFuncId {
    type V = Seq<char>;

    open spec fn view(&self) -> Seq<char> {
        self.debug_name@
    }
}

impl View for FunctionId {
    type V = Seq<char>;

    open spec fn view(&self) -> Seq<char> {
        self.debug_name@
    }
}

impl ConcreteTypeId {
    /// The identifier named `name`.
    pub fn from_name(name: &str) -> (r: Self)
        ensures
            r@ == name@,
    {
        ConcreteTypeId { debug_name: name.to_owned() }
    }

    /// Whether both identifiers name the same type.
    pub fn same(&self, other: &Self) -> (r: bool)
        ensures
            r == (self@ == other@),
    {
        self.debug_name == other.debug_name
    }

    /// A copy of the identifier.
    pub fn duplicate(&self) -> (r: Self)
        ensures
            r@ == self@,
    {
        ConcreteTypeId { debug_name: self.debug_name.clone() }
    }
}

impl GenericTypeId {
    /// The identifier named `name`.
    pub fn from_name(name: &str) -> (r: Self)
        ensures
            r@ == name@,
    {
        GenericTypeId { debug_name: name.to_owned() }
    }

    /// Whether both identifiers name the same generic type.
    pub fn same(&self, other: &Self) -> (r: bool)
        ensures
            r == (self@ == other@),
    {
        self.debug_name == other.debug_name
    }
}

impl GenericLibFuncId {
    /// The identifier named `name`.
    pub fn from_name(name: &str) -> (r: Self)
        ensures
            r@ == name@,
    {
        GenericLibFuncId { debug_name: name.to_owned() }
    }

    /// Whether this identifier is named `name`.
    pub fn is_named(&self, name: &str) -> (r: bool)
        ensures
            r == (self@ == name@),
    {
        self.debug_name == name.to_owned()
    }
}

impl FunctionId {
    /// The identifier named `name`.
    pub fn from_name(name: &str) -> (r: Self)
        ensures
            r@ == name@,
    {
        FunctionId { debug_name: name.to_owned() }
    }

    /// Whether this identifier is named `name`.
    pub fn is_named(&self, name: &str) -> (r: bool)
        ensures
            r == (self@ == name@),
    {
        self.debug_name == name.to_owned()
    }

    /// A copy of the identifier.
    pub fn duplicate(&self) -> (r: Self)
        ensures
            r == *self,
    {
        FunctionId { debug_name: self.debug_name.clone() }
    }
}

} // verus!
