use vstd::prelude::*;

verus! {

broadcast use {vstd::seq_lib::group_to_multiset_ensures, vstd::multiset::group_multiset_axioms};

/// A total order the bounded queue can rely on. `le_spec` must be total and
/// transitive over values satisfying `inv`, and the executable `le` must
/// decide it.
pub trait QueueOrd: Sized {
    spec fn inv(self) -> bool;

    spec fn le_spec(self, other: Self) -> bool;

    proof fn lemma_le_total(a: Self, b: Self)
        requires
            a.inv(),
            b.inv(),
        ensures
            a.le_spec(b) || b.le_spec(a),
    ;

    proof fn lemma_le_trans(a: Self, b: Self, c: Self)
        requires
            a.inv(),
            b.inv(),
            c.inv(),
            a.le_spec(b),
            b.le_spec(c),
        ensures
            a.le_spec(c),
    ;

    fn le(&self, other: &Self) -> (r: bool)
        requires
            self.inv(),
            other.inv(),
        ensures
            r == self.le_spec(*other),
    ;
}

impl QueueOrd for i64 {
    open spec fn inv(self) -> bool {
        true
    }

    open spec fn le_spec(self, other: Self) -> bool {
        self <= other
    }

    proof fn lemma_le_total(a: Self, b: Self) {
    }

    proof fn lemma_le_trans(a: Self, b: Self, c: Self) {
    }

    fn le(&self, other: &Self) -> (r: bool) {
        *self <= *other
    }
}

/// Pairwise sortedness under the order of `T`.
pub open spec fn sorted_seq<T: QueueOrd>(s: Seq<T>) -> bool {
    forall|i: int, j: int|
        #![trigger s[i], s[j]]
        0 <= i < j < s.len() ==> s[i].le_spec(s[j])
}

/// Every element of the sequence satisfies its type's order invariant.
pub open spec fn all_inv<T: QueueOrd>(s: Seq<T>) -> bool {
    forall|i: int| 0 <= i < s.len() ==> (#[trigger] s[i]).inv()
}

/// A capacity-limited priority structure. It retains the `capacity` smallest
/// items seen so far, and separately tracks the true minimum of everything
/// ever appended, which eviction never touches.
pub struct MinPriorityQueue<T: QueueOrd + Copy> {
    size: usize,
    min: Option<T>,
    elements: Vec<T>,
    appended: Ghost<Seq<T>>,
}

impl<T: QueueOrd + Copy> MinPriorityQueue<T> {
    /// How many items the queue may retain.
    pub closed spec fn capacity(self) -> int {
        self.size as int
    }

    /// The retained items, in ascending order.
    pub closed spec fn retained(self) -> Seq<T> {
        self.elements@
    }

    /// Every item ever appended, in order of arrival.
    pub closed spec fn appended(self) -> Seq<T> {
        self.appended@
    }

    /// The separately tracked global minimum.
    pub closed spec fn tracked_min(self) -> Option<T> {
        self.min
    }

    /// `m` is a least element among everything ever appended.
    pub open spec fn is_min_of_appended(self, m: T) -> bool {
        &&& m.inv()
        &&& self.appended().to_multiset().count(m) > 0
        &&& forall|x: T| #[trigger] self.appended().to_multiset().count(x) > 0 ==> m.le_spec(x)
    }

    /// The queue invariant: the retained items are a sorted sub-multiset of
    /// the appended ones holding exactly `min(capacity, appended)` of them,
    /// anything ever dropped is at least every retained item (so the retained
    /// set is the globally smallest ones), and the tracked minimum is a true
    /// minimum of everything appended.
    pub open spec fn wf(self) -> bool {
        &&& 1 <= self.capacity()
        &&& all_inv(self.appended())
        &&& all_inv(self.retained())
        &&& sorted_seq(self.retained())
        &&& self.retained().len() == if self.appended().len() <= self.capacity() {
            self.appended().len() as int
        } else {
            self.capacity()
        }
        &&& self.appended().len() <= self.capacity() ==> self.retained().to_multiset()
            == self.appended().to_multiset()
        &&& forall|x: T| #[trigger] self.retained().to_multiset().count(x)
            <= self.appended().to_multiset().count(x)
        &&& forall|a: T, b: T|
            #![trigger self.retained().to_multiset().count(a), self.appended().to_multiset().count(b)]
            self.retained().to_multiset().count(a) > 0
                && self.appended().to_multiset().count(b) > self.retained().to_multiset().count(b)
                ==> a.le_spec(b)
        &&& match self.tracked_min() {
            Option::None => self.appended().len() == 0,
            Option::Some(m) => self.is_min_of_appended(m),
        }
    }

    /// A fresh queue that will retain at most `size` items. A queue must be
    /// able to retain at least one item: with no retained slot at all an
    /// append would have nothing to compare against.
    pub fn new(size: usize) -> (r: MinPriorityQueue<T>)
        requires
            1 <= size,
        ensures
            r.wf(),
            r.capacity() == size,
            r.appended() == Seq::<T>::empty(),
            r.retained() == Seq::<T>::empty(),
            r.tracked_min() is None,
    {
        MinPriorityQueue { size, min: None, elements: Vec::new(), appended: Ghost(Seq::empty()) }
    }

    /// Appends one item: the tracked minimum is updated exactly when the item
    /// is strictly below it, and the item enters the retained set unless the
    /// set is full and the item is no improvement on its maximum, in which
    /// case the larger of the two is dropped.
    pub fn append(&mut self, element: T)
        requires
            old(self).wf(),
            element.inv(),
        ensures
            final(self).wf(),
            final(self).appended() == old(self).appended().push(element),
            final(self).capacity() == old(self).capacity(),
    {
        proof {
            T::lemma_le_total(element, element);
        }
        let replace = match &self.min {
            Option::None => true,
            Option::Some(m) => !m.le(&element),
        };
        if replace {
            proof {
                if let Option::Some(m0) = self.min {
                    T::lemma_le_total(m0, element);
                }
            }
            self.min = Some(element);
        }
        let ghost rm0 = self.elements@.to_multiset();
        if self.elements.len() < self.size {
            insert_sorted(&mut self.elements, element);
        } else {
            let mx = self.elements[self.elements.len() - 1];
            proof {
                assert(self.elements@.to_multiset().count(mx) > 0);
            }
            if !mx.le(&element) {
                proof {
                    T::lemma_le_total(mx, element);
                }
                let _ = self.elements.pop();
                proof {
                    let dropped = rm0.remove(mx);
                    assert(self.elements@ =~= old(self).retained().remove(
                        old(self).retained().len() - 1,
                    ));
                    assert(self.elements@.to_multiset() == dropped);
                }
                insert_sorted(&mut self.elements, element);
            }
        }
        self.appended = Ghost(self.appended@.push(element));
        proof {
            self.lemma_append_wf(*old(self), element, replace);
        }
    }

    /// The invariant is restored after one `append` step; `pre` is the state
    /// before the call.
    proof fn lemma_append_wf(&self, pre: MinPriorityQueue<T>, element: T, replaced: bool)
        requires
            pre.wf(),
            element.inv(),
            self.capacity() == pre.capacity(),
            self.appended() == pre.appended().push(element),
            self.tracked_min() == if replaced {
                Option::Some(element)
            } else {
                pre.tracked_min()
            },
            replaced <==> match pre.tracked_min() {
                Option::None => true,
                Option::Some(m) => !m.le_spec(element),
            },
            sorted_seq(self.retained()),
            all_inv(self.retained()),
            if pre.retained().len() < pre.capacity() {
                self.retained().to_multiset() == pre.retained().to_multiset().insert(element)
            } else if !pre.retained().last().le_spec(element) {
                self.retained().to_multiset() == pre.retained().to_multiset().remove(
                    pre.retained().last(),
                ).insert(element)
            } else {
                self.retained() == pre.retained()
            },
            self.retained().len() == if pre.retained().len() < pre.capacity() {
                pre.retained().len() + 1
            } else {
                pre.retained().len()
            },
        ensures
            self.wf(),
    {
        let a0 = pre.appended().to_multiset();
        let a1 = self.appended().to_multiset();
        let r0 = pre.retained().to_multiset();
        let r1 = self.retained().to_multiset();
        assert(a1 == a0.insert(element));
        assert(all_inv(self.appended())) by {
            assert(forall|i: int|
                0 <= i < pre.appended().len() ==> self.appended()[i] == #[trigger] pre.appended()[i]);
        }
        // the tracked minimum
        match self.tracked_min() {
            Option::None => {
                assert(false);
            },
            Option::Some(m1) => {
                if replaced {
                    if let Option::Some(m0) = pre.tracked_min() {
                        T::lemma_le_total(m0, element);
                        assert forall|x: T| #[trigger] a1.count(x) > 0 implies m1.le_spec(x) by {
                            if x == element {
                                T::lemma_le_total(element, element);
                            } else {
                                assert(a0.count(x) > 0);
                                T::lemma_le_trans(element, m0, x);
                            }
                        }
                    } else {
                        assert(pre.appended().len() == 0);
                        assert forall|x: T| #[trigger] a1.count(x) > 0 implies m1.le_spec(x) by {
                            assert(a0.count(x) == 0);
                            assert(x == element);
                            T::lemma_le_total(element, element);
                        }
                    }
                } else {
                    let m0 = pre.tracked_min()->Some_0;
                    assert(m1 == m0);
                    assert forall|x: T| #[trigger] a1.count(x) > 0 implies m1.le_spec(x) by {
                        if x != element {
                            assert(a0.count(x) > 0);
                        }
                    }
                }
                assert(self.is_min_of_appended(m1));
            },
        }
        // the retained set
        if pre.retained().len() < pre.capacity() {
            assert(pre.appended().len() == pre.retained().len());
            assert(r0 == a0);
            assert(r1 == a1);
            assert(forall|x: T| #[trigger] r1.count(x) <= a1.count(x));
            assert forall|a: T, b: T|
                #![trigger r1.count(a), a1.count(b)]
                r1.count(a) > 0 && a1.count(b) > r1.count(b) implies a.le_spec(b) by {}
        } else {
            assert(pre.retained().len() == pre.capacity());
            assert(pre.appended().len() >= pre.capacity());
            assert(self.appended().len() > self.capacity());
            let mx = pre.retained().last();
            assert(r0.count(mx) > 0);
            // every old retained value is at most mx
            assert forall|a: T| #[trigger] r0.count(a) > 0 implies a.le_spec(mx) by {
                assert(pre.retained().contains(a));
                let i = choose|i: int| 0 <= i < pre.retained().len() && pre.retained()[i] == a;
                if i < pre.retained().len() - 1 {
                    assert(pre.retained()[i].le_spec(pre.retained()[pre.retained().len() - 1]));
                } else {
                    T::lemma_le_total(mx, mx);
                }
            }
            if !mx.le_spec(element) {
                T::lemma_le_total(mx, element);
                assert(element.le_spec(mx));
                assert(element != mx);
                assert(r1 == r0.remove(mx).insert(element));
                assert forall|x: T| true implies #[trigger] r1.count(x) <= a1.count(x) by {
                    assert(r0.count(x) <= a0.count(x));
                }
                assert forall|a: T, b: T|
                    #![trigger r1.count(a), a1.count(b)]
                    r1.count(a) > 0 && a1.count(b) > r1.count(b) implies a.le_spec(b) by {
                    if b == element {
                        // then a0.count(element) > r0.count(element), and the old
                        // partition forces mx <= element, against strictness
                        assert(a0.count(element) > r0.count(element));
                        assert(mx.le_spec(element));
                        assert(false);
                    } else if b == mx {
                        if a == element {
                        } else {
                            assert(r0.count(a) > 0);
                            assert(a.le_spec(mx));
                        }
                    } else {
                        assert(a0.count(b) > r0.count(b));
                        assert(mx.le_spec(b));
                        if a == element {
                            T::lemma_le_trans(element, mx, b);
                        } else {
                            assert(r0.count(a) > 0);
                            assert(a.le_spec(b));
                        }
                    }
                }
            } else {
                assert(r1 == r0);
                assert forall|x: T| true implies #[trigger] r1.count(x) <= a1.count(x) by {
                    assert(r0.count(x) <= a0.count(x));
                }
                assert forall|a: T, b: T|
                    #![trigger r1.count(a), a1.count(b)]
                    r1.count(a) > 0 && a1.count(b) > r1.count(b) implies a.le_spec(b) by {
                    if b == element {
                        assert(a.le_spec(mx));
                        T::lemma_le_trans(a, mx, element);
                    } else {
                        assert(a0.count(b) > r0.count(b));
                    }
                }
            }
        }
    }

    /// The true minimum of everything ever appended; exact regardless of how
    /// much eviction has happened.
    pub fn get_min_priority(&self) -> (r: Option<T>)
        requires
            self.wf(),
        ensures
            r == self.tracked_min(),
            r is None <==> self.appended().len() == 0,
            r matches Some(m) ==> self.is_min_of_appended(m),
    {
        self.min
    }

    /// The maximum of the retained set only; `None` when nothing is retained.
    pub fn get_max_priority(&self) -> (r: Option<T>)
        requires
            self.wf(),
        ensures
            r is None <==> self.retained().len() == 0,
            r matches Some(mx) ==> mx == self.retained().last() && forall|i: int|
                0 <= i < self.retained().len() ==> (#[trigger] self.retained()[i]).le_spec(mx),
    {
        if self.elements.len() == 0 {
            None
        } else {
            let mx = self.elements[self.elements.len() - 1];
            proof {
                T::lemma_le_total(mx, mx);
                assert forall|i: int| 0 <= i < self.retained().len() implies (
                #[trigger] self.retained()[i]).le_spec(mx) by {
                    if i < self.retained().len() - 1 {
                        assert(self.retained()[i].le_spec(
                            self.retained()[self.retained().len() - 1],
                        ));
                    }
                }
            }
            Some(mx)
        }
    }

    /// Consumes the queue and hands out the retained items in ascending
    /// order.
    pub fn min_sorted(self) -> (r: Vec<T>)
        requires
            self.wf(),
        ensures
            r@ == self.retained(),
            sorted_seq(r@),
    {
        let MinPriorityQueue { size: _, min: _, elements, appended: _ } = self;
        elements
    }
}

/// Inserts `e` at its place in the ascending vector `v`.
fn insert_sorted<T: QueueOrd + Copy>(v: &mut Vec<T>, e: T)
    requires
        sorted_seq(old(v)@),
        all_inv(old(v)@),
        e.inv(),
        old(v)@.len() < usize::MAX,
    ensures
        final(v)@.len() == old(v)@.len() + 1,
        sorted_seq(final(v)@),
        all_inv(final(v)@),
        final(v)@.to_multiset() == old(v)@.to_multiset().insert(e),
{
    let mut idx: usize = 0;
    while idx < v.len() && v[idx].le(&e)
        invariant
            v@ == old(v)@,
            sorted_seq(v@),
            all_inv(v@),
            e.inv(),
            idx <= v@.len(),
            forall|k: int| 0 <= k < idx ==> (#[trigger] v@[k]).le_spec(e),
        decreases v@.len() - idx,
    {
        idx += 1;
    }
    let ghost s = v@;
    let ghost at = idx as int;
    v.insert(idx, e);
    proof {
        assert(v@ == s.insert(at, e));
        assert(v@.to_multiset() == s.to_multiset().insert(e));
        assert forall|i: int| 0 <= i < v@.len() implies (#[trigger] v@[i]).inv() by {
            if i < at {
                assert(v@[i] == s[i]);
            } else if i > at {
                assert(v@[i] == s[i - 1]);
            }
        }
        if at < s.len() {
            T::lemma_le_total(s[at], e);
        }
        assert forall|i: int, j: int|
            #![trigger v@[i], v@[j]]
            0 <= i < j < v@.len() implies v@[i].le_spec(v@[j]) by {
            if i < at && j < at {
                assert(s[i].le_spec(s[j]));
            } else if i < at && j == at {
                assert(s[i].le_spec(e));
            } else if i < at && j > at {
                assert(s[i].le_spec(s[j - 1]));
            } else if i == at && j > at {
                assert(e.le_spec(s[at]));
                if j - 1 == at {
                } else {
                    assert(s[at].le_spec(s[j - 1]));
                    T::lemma_le_trans(e, s[at], s[j - 1]);
                }
            } else {
                assert(s[i - 1].le_spec(s[j - 1]));
            }
        }
    }
}

} // verus!
