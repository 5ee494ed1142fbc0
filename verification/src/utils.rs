//! Small extensions of vectors and slices that the engine leans on.

use vstd::prelude::*;

verus! {

/// What the engine asks of a vector beyond the standard library.
pub trait VecExtensions<T> {
    /// The items of the collection, in order.
    spec fn items(&self) -> Seq<T>;

    /// Removes the first item that `predicate` accepts and returns it; the
    /// items behind it move up. Without such an item nothing changes.
    fn remove_first_where<F>(&mut self, predicate: F) -> (removed: Option<T>) where
        F: Fn(&T) -> bool,

        requires
            forall|i: int|
                0 <= i < old(self).items().len() ==> #[trigger] predicate.requires(
                    (&old(self).items()[i],),
                ),
        ensures
            match removed {
                Some(item) => exists|i: int|
                    {
                        &&& 0 <= i < old(self).items().len()
                        &&& predicate.ensures((&old(self).items()[i],), true)
                        &&& forall|j: int|
                            0 <= j < i ==> #[trigger] predicate.ensures(
                                (&old(self).items()[j],),
                                false,
                            )
                        &&& item == old(self).items()[i]
                        &&& final(self).items() == old(self).items().remove(i)
                    },
                None => {
                    &&& final(self).items() == old(self).items()
                    &&& forall|j: int|
                        0 <= j < old(self).items().len() ==> #[trigger] predicate.ensures(
                            (&old(self).items()[j],),
                            false,
                        )
                },
            },
    ;
}

impl<T> VecExtensions<T> for Vec<T> {
    open spec fn items(&self) -> Seq<T> {
        self@
    }

    fn remove_first_where<F>(&mut self, predicate: F) -> (removed: Option<T>) where
        F: Fn(&T) -> bool,
     {
        let mut i: usize = 0;
        assert(old(self).items() == old(self)@);
        while i < self.len()
            invariant
                i <= self.len(),
                self@ == old(self)@,
                old(self).items() == old(self)@,
                forall|k: int|
                    0 <= k < self@.len() ==> #[trigger] predicate.requires((&self@[k],)),
                forall|j: int| 0 <= j < i ==> #[trigger] predicate.ensures((&self@[j],), false),
            decreases self.len() - i,
        {
            if predicate(&self[i]) {
                let item = self.remove(i);
                proof {
                    let found = i as int;
                    let before = old(self).items();
                    assert(self.items() == self@);
                    assert(0 <= found < before.len());
                    assert(predicate.ensures((&before[found],), true));
                    assert(forall|j: int|
                        0 <= j < found ==> #[trigger] predicate.ensures((&before[j],), false));
                    assert(item == before[found]);
                    assert(self.items() == before.remove(found));
                }
                return Some(item);
            }
            i += 1;
        }
        None
    }
}

/// What the engine asks of a slice beyond the standard library.
pub trait SliceExtensions<T> {
    /// The items of the slice, in order.
    spec fn elements(&self) -> Seq<T>;

    /// The only item of a slice of one item.
    fn single_element(&self) -> (single: Option<&T>)
        ensures
            single == if self.elements().len() == 1 {
                Some(&self.elements()[0])
            } else {
                None
            },
    ;
}

impl<T> SliceExtensions<T> for [T] {
    open spec fn elements(&self) -> Seq<T> {
        self@
    }

    fn single_element(&self) -> (single: Option<&T>) {
        if self.len() == 1 {
            Some(&self[0])
        } else {
            None
        }
    }
}

} // verus!
