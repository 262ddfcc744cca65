//! Copies that are provably equal in value to their source.

use vstd::prelude::*;

verus! {

/// A copy whose value equals the original's.
pub trait ExactClone: DeepView + Sized {
    fn exact_clone(&self) -> (r: Self)
        ensures
            r.deep_view() == self.deep_view(),
    ;
}

impl ExactClone for String {
    fn exact_clone(&self) -> (r: String) {
        self.clone()
    }
}

impl ExactClone for bool {
    fn exact_clone(&self) -> (r: bool) {
        *self
    }
}

impl ExactClone for u64 {
    fn exact_clone(&self) -> (r: u64) {
        *self
    }
}

impl ExactClone for i64 {
    fn exact_clone(&self) -> (r: i64) {
        *self
    }
}

impl<T: ExactClone> ExactClone for Option<T> {
    fn exact_clone(&self) -> (r: Option<T>) {
        match self {
            Some(v) => Some(v.exact_clone()),
            None => None,
        }
    }
}

impl<T: ExactClone> ExactClone for Vec<T> {
    fn exact_clone(&self) -> (r: Vec<T>) {
        let mut r: Vec<T> = Vec::new();
        let mut i: usize = 0;
        while i < self.len()
            invariant
                i <= self@.len(),
                r.deep_view() == self.deep_view().take(i as int),
                r@.len() == i,
            decreases self@.len() - i,
        {
            let c = self[i].exact_clone();
            let ghost prev = r@;
            r.push(c);
            proof {
                assert(r@ == prev.push(c));
                assert forall|k: int| 0 <= k < i + 1 implies #[trigger] r.deep_view()[k]
                    == self.deep_view().take(i + 1)[k] by {
                    if k < i {
                        assert(r@[k] == prev[k]);
                        assert(prev[k].deep_view() == self.deep_view().take(i as int)[k]);
                    }
                }
            }
            i = i + 1;
            assert(r.deep_view() =~= self.deep_view().take(i as int));
        }
        assert(self.deep_view().take(self@.len() as int) =~= self.deep_view());
        r
    }
}

} // verus!
