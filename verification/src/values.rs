use vstd::prelude::*;

verus! {

/// A runtime value of the core library.
#[derive(Debug, PartialEq, Eq)]
pub enum CoreValue {
    /// An array of values.
    Array(Vec<CoreValue>),
    /// The gas counter.
    GasBuiltin(i64),
    /// A value known not to be zero.
    NonZero(Box<CoreValue>),
    /// The range-check builtin.
    RangeCheck,
    /// An unsigned 128-bit integer.
    Uint128(u128),
    /// A memory cell that holds no value yet.
    Uninitialized,
}

/// What a runtime value denotes.
pub enum CoreValueView {
    Array(Seq<CoreValueView>),
    GasBuiltin(int),
    NonZero(Box<CoreValueView>),
    RangeCheck,
    Uint128(int),
    Uninitialized,
}

/// The view of a value.
pub open spec fn value_view(v: CoreValue) -> CoreValueView
    decreases v, 1int,
{
    match v {
        CoreValue::Array(vs) => CoreValueView::Array(values_view(vs@)),
        CoreValue::GasBuiltin(g) => CoreValueView::GasBuiltin(g as int),
        CoreValue::NonZero(b) => CoreValueView::NonZero(Box::new(value_view(*b))),
        CoreValue::RangeCheck => CoreValueView::RangeCheck,
        CoreValue::Uint128(x) => CoreValueView::Uint128(x as int),
        CoreValue::Uninitialized => CoreValueView::Uninitialized,
    }
}

/// The view of each value of a sequence, in order.
pub open spec fn values_view(vs: Seq<CoreValue>) -> Seq<CoreValueView>
    decreases vs, 0int,
{
    if vs.len() == 0 {
        Seq::empty()
    } else {
        values_view(vs.drop_last()).push(value_view(vs.last()))
    }
}

impl View for CoreValue {
    type V = CoreValueView;

    open spec fn view(&self) -> CoreValueView {
        value_view(*self)
    }
}

/// The view of a sequence of values has the same length, and at each position the
/// view of the value there.
pub proof fn lemma_values_view(vs: Seq<CoreValue>)
    ensures
        values_view(vs).len() == vs.len(),
        forall|j: int| 0 <= j < vs.len() ==> #[trigger] values_view(vs)[j] == value_view(vs[j]),
    decreases vs.len(),
{
    if vs.len() > 0 {
        lemma_values_view(vs.drop_last());
    }
}

/// Two sequences of values have equal views when their values have equal views
/// position by position.
pub proof fn lemma_values_view_ext(a: Seq<CoreValue>, b: Seq<CoreValue>)
    requires
        a.len() == b.len(),
        forall|j: int| 0 <= j < a.len() ==> value_view(#[trigger] a[j]) == value_view(b[j]),
    ensures
        values_view(a) == values_view(b),
{
    lemma_values_view(a);
    lemma_values_view(b);
    assert(values_view(a) =~= values_view(b));
}

/// The view of a sequence with one more value at its end.
pub proof fn lemma_values_view_push(vs: Seq<CoreValue>, v: CoreValue)
    ensures
        values_view(vs.push(v)) == values_view(vs).push(value_view(v)),
{
    assert(vs.push(v).drop_last() =~= vs);
}

impl CoreValue {
    /// A copy of the value.
    pub fn duplicate(&self) -> (r: CoreValue)
        ensures
            r@ == self@,
        decreases self, 1int,
    {
        match self {
            CoreValue::Array(vs) => CoreValue::Array(duplicate_values(vs)),
            CoreValue::GasBuiltin(g) => CoreValue::GasBuiltin(*g),
            CoreValue::NonZero(b) => CoreValue::NonZero(Box::new((**b).duplicate())),
            CoreValue::RangeCheck => CoreValue::RangeCheck,
            CoreValue::Uint128(x) => CoreValue::Uint128(*x),
            CoreValue::Uninitialized => CoreValue::Uninitialized,
        }
    }
}

/// A copy of each value, in order.
pub fn duplicate_values(vs: &Vec<CoreValue>) -> (r: Vec<CoreValue>)
    ensures
        values_view(r@) == values_view(vs@),
    decreases vs, 0int,
{
    let mut r: Vec<CoreValue> = Vec::new();
    let mut i: usize = 0;
    while i < vs.len()
        invariant
            i <= vs.len(),
            r@.len() == i,
            forall|j: int| 0 <= j < i ==> value_view(#[trigger] r@[j]) == value_view(vs@[j]),
        decreases vs.len() - i,
    {
        proof {
            assert(decreases_to!(vs => vs@));
            vstd::seq::axiom_seq_index_decreases(vs@, i as int);
        }
        let d = vs[i].duplicate();
        r.push(d);
        i = i + 1;
    }
    proof {
        lemma_values_view_ext(r@, vs@);
    }
    r
}

} // verus!
