//! An insertion-ordered, duplicate-free collection of account addresses,
//! used for the read and write grant lists of an entry.
use vstd::prelude::*;

verus! {

#[derive(Debug, PartialEq)]
pub struct OrderedSet {
    data: Vec<String>,
}

impl View for OrderedSet {
    type V = Seq<Seq<char>>;

    closed spec fn view(&self) -> Seq<Seq<char>> {
        Seq::new(self.data@.len(), |i: int| self.data@[i]@)
    }
}

impl Clone for OrderedSet {
    fn clone(&self) -> (r: Self)
        ensures
            r@ == self@,
    {
        let mut data: Vec<String> = Vec::new();
        let mut i: usize = 0;
        while i < self.data.len()
            invariant
                i <= self.data.len(),
                data@.len() == i as int,
                forall|j: int| 0 <= j < i as int ==> data@[j]@ == self.data@[j]@,
            decreases self.data.len() - i,
        {
            data.push(self.data[i].clone());
            i += 1;
        }
        let r = OrderedSet { data };
        proof {
            assert(r@ =~= self@);
        }
        r
    }
}

impl OrderedSet {
    /// No address occurs twice.
    pub open spec fn wf(&self) -> bool {
        forall|i: int, j: int| 0 <= i < j < self@.len() ==> self@[i] != self@[j]
    }

    #[must_use]
    pub fn new() -> (r: Self)
        ensures
            r@ == Seq::<Seq<char>>::empty(),
            r.wf(),
    {
        let r = OrderedSet { data: Vec::new() };
        proof {
            assert(r@ =~= Seq::<Seq<char>>::empty());
        }
        r
    }

    pub fn len(&self) -> (r: usize)
        ensures
            r == self@.len(),
    {
        self.data.len()
    }

    pub fn get(&self, index: usize) -> (r: Option<&String>)
        ensures
            match r {
                Some(s) => index < self@.len() && s@ == self@[index as int],
                None => index >= self@.len(),
            },
    {
        self.data.get(index)
    }

    pub fn contains(&mut self, item: &String) -> (r: bool)
        ensures
            *final(self) == *old(self),
            r == old(self)@.contains(item@),
    {
        let n = self.data.len();
        let mut i: usize = 0;
        while i < n
            invariant
                n == self.data@.len(),
                i <= n,
                *self == *old(self),
                forall|j: int| 0 <= j < i as int ==> self@[j] != item@,
            decreases n - i,
        {
            if self.data[i].eq(item) {
                assert(self@[i as int] == item@);
                return true;
            }
            i += 1;
        }
        false
    }

    pub fn push(&mut self, item: String)
        requires
            old(self).wf(),
        ensures
            final(self).wf(),
            final(self)@ == (if old(self)@.contains(item@) {
                old(self)@
            } else {
                old(self)@.push(item@)
            }),
    {
        if !self.contains(&item) {
            self.data.push(item);
            proof {
                assert(self@ =~= old(self)@.push(item@));
            }
        }
    }

    pub fn remove(&mut self, item: String)
        requires
            old(self).wf(),
        ensures
            final(self).wf(),
            final(self)@ == old(self)@.remove_value(item@),
    {
        proof {
            old(self)@.index_of_first_ensures(item@);
        }
        let n = self.data.len();
        let mut i: usize = 0;
        while i < n
            invariant
                old(self).wf(),
                n == self.data@.len(),
                i <= n,
                *self == *old(self),
                forall|j: int| 0 <= j < i as int ==> self@[j] != item@,
            decreases n - i,
        {
            if self.data[i].eq(&item) {
                proof {
                    assert(old(self)@[i as int] == item@);
                    assert(old(self)@.contains(item@));
                    old(self)@.index_of_first_ensures(item@);
                    let idx = old(self)@.index_of_first(item@).unwrap();
                    assert(old(self)@[idx] == item@);
                    if idx < i as int {
                        assert(false);
                    }
                    if idx > i as int {
                        assert(old(self)@[i as int] != item@);
                        assert(false);
                    }
                    assert(old(self)@.index_of_first(item@) == Some(i as int));
                }
                self.data.remove(i);
                proof {
                    assert(self@ =~= old(self)@.remove(i as int));
                }
                return ;
            }
            i += 1;
        }
        proof {
            assert(!old(self)@.contains(item@));
        }
    }

    pub fn to_vec(&self) -> (r: &Vec<String>)
        ensures
            r@.len() == self@.len(),
            forall|i: int| 0 <= i < r@.len() ==> #[trigger] r@[i]@ == self@[i],
    {
        &self.data
    }
}

} // verus!
