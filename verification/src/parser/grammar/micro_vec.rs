//! MicroVec is like SmallVec. Only smaller.
//! So small, it only caches one item before moving into a `Vec`.

use vstd::prelude::*;

verus! {

/// No item, one item, or a vector of them.
pub enum MicroVec<T> {
    Nothing,
    Item(T),
    Vec(Vec<T>),
}

impl<T> MicroVec<T> {
    /// The items held, in order.
    pub open spec fn items(self) -> Seq<T> {
        match self {
            MicroVec::Nothing => Seq::empty(),
            MicroVec::Item(t) => seq![t],
            MicroVec::Vec(ts) => ts@,
        }
    }

    /// A vector is only used for two items or more, so the shape tells the number.
    pub open spec fn wf(self) -> bool {
        self matches MicroVec::Vec(ts) ==> ts@.len() >= 2
    }

    /// An empty `MicroVec`.
    pub fn new() -> (r: Self)
        ensures
            r.items() == Seq::<T>::empty(),
            r.wf(),
    {
        Self::Nothing
    }

    /// Returns `self` with `t` added at the end: nothing becomes the one item,
    /// one item becomes a vector of two, and a vector grows by one.
    pub fn push(self, t: T) -> (r: Self)
        ensures
            r.items() == self.items().push(t),
            self.wf() ==> r.wf(),
            self is Nothing ==> r == MicroVec::Item(t),
            self matches MicroVec::Item(t0) ==> r matches MicroVec::Vec(v) && v@ == seq![t0, t],
            self matches MicroVec::Vec(ts) ==> r matches MicroVec::Vec(v) && v@ == ts@.push(t),
    {
        match self {
            Self::Nothing => Self::Item(t),
            Self::Item(t0) => {
                let v = vec![t0, t];
                assert(v@ =~= seq![t0].push(t));
                Self::Vec(v)
            },
            Self::Vec(mut ts) => {
                ts.push(t);
                Self::Vec(ts)
            },
        }
    }
}

/// Pushing items one by one onto a new `MicroVec` holds them all in order
/// (`new` and `push` keep `wf`), and its shape tells how many there are: none,
/// the one item, or a vector of two or more.
pub proof fn lemma_micro_vec_shape<T>(m: MicroVec<T>)
    requires
        m.wf(),
    ensures
        m is Nothing <==> m.items().len() == 0,
        m is Item <==> m.items().len() == 1,
        m is Vec <==> m.items().len() >= 2,
        m.items().len() == 1 ==> m == MicroVec::Item(m.items()[0]),
        m.items().len() >= 2 ==> (m matches MicroVec::Vec(v) && v@ == m.items()),
{
}

} // verus!
