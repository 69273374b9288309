//! Association-list maps that model the ledger's key-value substrate:
//! one keyed by a single string (account records, claim codes, node
//! records) and one keyed by a pair of strings (a namespace together
//! with a path, or a mailbox namespace together with a recipient).
use vstd::prelude::*;

verus! {

/// A map from string keys to values, abstracted as `Map<Seq<char>, V::V>`.
pub struct StrMap<V> {
    entries: Vec<(String, V)>,
}

pub open spec fn str_map_of<V: DeepView>(s: Seq<(String, V)>) -> Map<Seq<char>, V::V>
    decreases s.len(),
{
    if s.len() == 0 {
        Map::empty()
    } else {
        str_map_of(s.drop_last()).insert(s.last().0@, s.last().1.deep_view())
    }
}

proof fn lemma_str_map_of_domain<V: DeepView>(s: Seq<(String, V)>, k: Seq<char>)
    ensures
        str_map_of(s).contains_key(k) <==> exists|i: int| 0 <= i < s.len() && s[i].0@ == k,
    decreases s.len(),
{
    if s.len() > 0 {
        lemma_str_map_of_domain(s.drop_last(), k);
        if str_map_of(s).contains_key(k) {
            if s.last().0@ != k {
                let i = choose|i: int| 0 <= i < s.drop_last().len() && s.drop_last()[i].0@ == k;
                assert(s[i].0@ == k);
            }
        }
        if exists|i: int| 0 <= i < s.len() && s[i].0@ == k {
            let i = choose|i: int| 0 <= i < s.len() && s[i].0@ == k;
            if i < s.len() - 1 {
                assert(s.drop_last()[i].0@ == k);
            }
        }
    }
}

proof fn lemma_str_map_of_value<V: DeepView>(s: Seq<(String, V)>, i: int)
    requires
        0 <= i < s.len(),
        forall|a: int, b: int| 0 <= a < b < s.len() ==> s[a].0@ != s[b].0@,
    ensures
        str_map_of(s).contains_key(s[i].0@),
        str_map_of(s)[s[i].0@] == s[i].1.deep_view(),
    decreases s.len(),
{
    lemma_str_map_of_domain(s, s[i].0@);
    if i < s.len() - 1 {
        assert(s[i].0@ != s.last().0@);
        assert(s.drop_last()[i] == s[i]);
        lemma_str_map_of_value(s.drop_last(), i);
    }
}

impl<V: DeepView> View for StrMap<V> {
    type V = Map<Seq<char>, V::V>;

    closed spec fn view(&self) -> Map<Seq<char>, V::V> {
        str_map_of(self.entries@)
    }
}

impl<V: DeepView> DeepView for StrMap<V> {
    type V = Map<Seq<char>, V::V>;

    open spec fn deep_view(&self) -> Map<Seq<char>, V::V> {
        self.view()
    }
}

impl<V: DeepView> StrMap<V> {
    /// No key occurs twice.
    pub closed spec fn wf(&self) -> bool {
        forall|a: int, b: int|
            0 <= a < b < self.entries@.len() ==> self.entries@[a].0@ != self.entries@[b].0@
    }

    pub fn new() -> (r: Self)
        ensures
            r@ == Map::<Seq<char>, V::V>::empty(),
            r.wf(),
    {
        StrMap { entries: Vec::new() }
    }

    /// The index at which the key sits, if it is present.
    fn position(&self, k: &String) -> (r: Option<usize>)
        requires
            self.wf(),
        ensures
            match r {
                Some(i) => i < self.entries@.len() && self.entries@[i as int].0@ == k@,
                None => !self@.contains_key(k@),
            },
    {
        proof {
            lemma_str_map_of_domain(self.entries@, k@);
        }
        let n = self.entries.len();
        let mut i: usize = 0;
        while i < n
            invariant
                n == self.entries@.len(),
                i <= n,
                forall|j: int| 0 <= j < i as int ==> self.entries@[j].0@ != k@,
                str_map_of(self.entries@).contains_key(k@) <==> exists|j: int|
                    0 <= j < n && self.entries@[j].0@ == k@,
            decreases n - i,
        {
            if self.entries[i].0.eq(k) {
                return Some(i);
            }
            i += 1;
        }
        None
    }

    pub fn contains_key(&self, k: &String) -> (r: bool)
        requires
            self.wf(),
        ensures
            r == self@.contains_key(k@),
    {
        proof {
            lemma_str_map_of_domain(self.entries@, k@);
        }
        match self.position(k) {
            Some(i) => {
                proof {
                    lemma_str_map_of_value(self.entries@, i as int);
                }
                true
            },
            None => false,
        }
    }

    pub fn get(&self, k: &String) -> (r: Option<&V>)
        requires
            self.wf(),
        ensures
            match r {
                Some(v) => self@.contains_key(k@) && v.deep_view() == self@[k@],
                None => !self@.contains_key(k@),
            },
    {
        match self.position(k) {
            Some(i) => {
                proof {
                    lemma_str_map_of_value(self.entries@, i as int);
                }
                Some(&self.entries[i].1)
            },
            None => None,
        }
    }

    pub fn insert(&mut self, k: String, v: V)
        requires
            old(self).wf(),
        ensures
            final(self).wf(),
            final(self)@ == old(self)@.insert(k@, v.deep_view()),
    {
        match self.position(&k) {
            Some(i) => {
                let ghost pre = self.entries@;
                self.entries.set(i, (k, v));
                proof {
                    lemma_str_map_update(pre, i as int, (k, v));
                    assert(final(self)@ =~= old(self)@.insert(k@, v.deep_view()));
                }
            },
            None => {
                let ghost pre = self.entries@;
                self.entries.push((k, v));
                proof {
                    assert(self.entries@.drop_last() =~= pre);
                    lemma_str_map_of_domain(pre, self.entries@.last().0@);
                }
            },
        }
    }

    pub fn remove(&mut self, k: &String)
        requires
            old(self).wf(),
        ensures
            final(self).wf(),
            final(self)@ == old(self)@.remove(k@),
    {
        match self.position(k) {
            Some(i) => {
                let ghost pre = self.entries@;
                self.entries.remove(i);
                proof {
                    lemma_str_map_remove(pre, i as int);
                    assert(final(self)@ =~= old(self)@.remove(k@));
                }
            },
            None => {
                proof {
                    assert(final(self)@ =~= old(self)@.remove(k@));
                }
            },
        }
    }

    /// Removes the entry and hands its value out.
    pub fn take(&mut self, k: &String) -> (r: Option<V>)
        requires
            old(self).wf(),
        ensures
            final(self).wf(),
            final(self)@ == old(self)@.remove(k@),
            match r {
                Some(v) => old(self)@.contains_key(k@) && v.deep_view() == old(self)@[k@],
                None => !old(self)@.contains_key(k@),
            },
    {
        match self.position(k) {
            Some(i) => {
                let ghost pre = self.entries@;
                let (_, v) = self.entries.remove(i);
                proof {
                    lemma_str_map_of_value(pre, i as int);
                    lemma_str_map_remove(pre, i as int);
                    assert(final(self)@ =~= old(self)@.remove(k@));
                }
                Some(v)
            },
            None => {
                proof {
                    assert(final(self)@ =~= old(self)@.remove(k@));
                }
                None
            },
        }
    }
}

proof fn lemma_str_map_update<V: DeepView>(s: Seq<(String, V)>, i: int, e: (String, V))
    requires
        0 <= i < s.len(),
        s[i].0@ == e.0@,
        forall|a: int, b: int| 0 <= a < b < s.len() ==> s[a].0@ != s[b].0@,
    ensures
        str_map_of(s.update(i, e)) == str_map_of(s).insert(e.0@, e.1.deep_view()),
    decreases s.len(),
{
    let t = s.update(i, e);
    if i == s.len() - 1 {
        assert(t.drop_last() =~= s.drop_last());
        assert(str_map_of(t) =~= str_map_of(s).insert(e.0@, e.1.deep_view()));
    } else {
        assert(t.drop_last() =~= s.drop_last().update(i, e));
        lemma_str_map_update(s.drop_last(), i, e);
        assert(s[i].0@ != s.last().0@);
        assert(t.last() == s.last());
        assert(str_map_of(t) == str_map_of(s.drop_last()).insert(e.0@, e.1.deep_view()).insert(
            s.last().0@,
            s.last().1.deep_view(),
        ));
        assert(str_map_of(t) =~= str_map_of(s).insert(e.0@, e.1.deep_view()));
    }
}

/// A map keyed by a pair of strings, abstracted as
/// `Map<(Seq<char>, Seq<char>), V::V>`.
pub struct StrMap2<V> {
    entries: Vec<(String, String, V)>,
}

pub open spec fn str_map2_of<V: DeepView>(s: Seq<(String, String, V)>) -> Map<
    (Seq<char>, Seq<char>),
    V::V,
>
    decreases s.len(),
{
    if s.len() == 0 {
        Map::empty()
    } else {
        str_map2_of(s.drop_last()).insert((s.last().0@, s.last().1@), s.last().2.deep_view())
    }
}

proof fn lemma_str_map2_of_domain<V: DeepView>(s: Seq<(String, String, V)>, k: (Seq<char>, Seq<char>))
    ensures
        str_map2_of(s).contains_key(k) <==> exists|i: int|
            0 <= i < s.len() && (s[i].0@, s[i].1@) == k,
    decreases s.len(),
{
    if s.len() > 0 {
        lemma_str_map2_of_domain(s.drop_last(), k);
        if str_map2_of(s).contains_key(k) {
            if (s.last().0@, s.last().1@) != k {
                let i = choose|i: int|
                    0 <= i < s.drop_last().len() && (s.drop_last()[i].0@, s.drop_last()[i].1@) == k;
                assert((s[i].0@, s[i].1@) == k);
            }
        }
        if exists|i: int| 0 <= i < s.len() && (s[i].0@, s[i].1@) == k {
            let i = choose|i: int| 0 <= i < s.len() && (s[i].0@, s[i].1@) == k;
            if i < s.len() - 1 {
                assert((s.drop_last()[i].0@, s.drop_last()[i].1@) == k);
            }
        }
    }
}

proof fn lemma_str_map2_of_value<V: DeepView>(s: Seq<(String, String, V)>, i: int)
    requires
        0 <= i < s.len(),
        forall|a: int, b: int|
            0 <= a < b < s.len() ==> (s[a].0@, s[a].1@) != (s[b].0@, s[b].1@),
    ensures
        str_map2_of(s).contains_key((s[i].0@, s[i].1@)),
        str_map2_of(s)[(s[i].0@, s[i].1@)] == s[i].2.deep_view(),
    decreases s.len(),
{
    lemma_str_map2_of_domain(s, (s[i].0@, s[i].1@));
    if i < s.len() - 1 {
        assert((s[i].0@, s[i].1@) != (s.last().0@, s.last().1@));
        assert(s.drop_last()[i] == s[i]);
        lemma_str_map2_of_value(s.drop_last(), i);
    }
}

impl<V: DeepView> View for StrMap2<V> {
    type V = Map<(Seq<char>, Seq<char>), V::V>;

    closed spec fn view(&self) -> Map<(Seq<char>, Seq<char>), V::V> {
        str_map2_of(self.entries@)
    }
}

impl<V: DeepView> StrMap2<V> {
    /// No key pair occurs twice.
    pub closed spec fn wf(&self) -> bool {
        forall|a: int, b: int|
            0 <= a < b < self.entries@.len() ==> (self.entries@[a].0@, self.entries@[a].1@) != (
            self.entries@[b].0@,
            self.entries@[b].1@,
            )
    }

    pub fn new() -> (r: Self)
        ensures
            r@ == Map::<(Seq<char>, Seq<char>), V::V>::empty(),
            r.wf(),
    {
        StrMap2 { entries: Vec::new() }
    }

    fn position(&self, k0: &String, k1: &String) -> (r: Option<usize>)
        requires
            self.wf(),
        ensures
            match r {
                Some(i) => i < self.entries@.len() && self.entries@[i as int].0@ == k0@
                    && self.entries@[i as int].1@ == k1@,
                None => !self@.contains_key((k0@, k1@)),
            },
    {
        proof {
            lemma_str_map2_of_domain(self.entries@, (k0@, k1@));
        }
        let n = self.entries.len();
        let mut i: usize = 0;
        while i < n
            invariant
                n == self.entries@.len(),
                i <= n,
                forall|j: int|
                    0 <= j < i as int ==> (self.entries@[j].0@, self.entries@[j].1@) != (k0@, k1@),
                str_map2_of(self.entries@).contains_key((k0@, k1@)) <==> exists|j: int|
                    0 <= j < n && (self.entries@[j].0@, self.entries@[j].1@) == (k0@, k1@),
            decreases n - i,
        {
            if self.entries[i].0.eq(k0) && self.entries[i].1.eq(k1) {
                return Some(i);
            }
            i += 1;
        }
        None
    }

    pub fn contains_key(&self, k0: &String, k1: &String) -> (r: bool)
        requires
            self.wf(),
        ensures
            r == self@.contains_key((k0@, k1@)),
    {
        match self.position(k0, k1) {
            Some(i) => {
                proof {
                    lemma_str_map2_of_value(self.entries@, i as int);
                }
                true
            },
            None => false,
        }
    }

    pub fn get(&self, k0: &String, k1: &String) -> (r: Option<&V>)
        requires
            self.wf(),
        ensures
            match r {
                Some(v) => self@.contains_key((k0@, k1@)) && v.deep_view() == self@[(k0@, k1@)],
                None => !self@.contains_key((k0@, k1@)),
            },
    {
        match self.position(k0, k1) {
            Some(i) => {
                proof {
                    lemma_str_map2_of_value(self.entries@, i as int);
                }
                Some(&self.entries[i].2)
            },
            None => None,
        }
    }

    pub fn insert(&mut self, k0: String, k1: String, v: V)
        requires
            old(self).wf(),
        ensures
            final(self).wf(),
            final(self)@ == old(self)@.insert((k0@, k1@), v.deep_view()),
    {
        match self.position(&k0, &k1) {
            Some(i) => {
                let ghost pre = self.entries@;
                self.entries.set(i, (k0, k1, v));
                proof {
                    lemma_str_map2_update(pre, i as int, (k0, k1, v));
                    assert(final(self)@ =~= old(self)@.insert((k0@, k1@), v.deep_view()));
                }
            },
            None => {
                let ghost pre = self.entries@;
                self.entries.push((k0, k1, v));
                proof {
                    assert(self.entries@.drop_last() =~= pre);
                    lemma_str_map2_of_domain(
                        pre,
                        (self.entries@.last().0@, self.entries@.last().1@),
                    );
                }
            },
        }
    }

    /// Removes the entry and hands its value out.
    pub fn take(&mut self, k0: &String, k1: &String) -> (r: Option<V>)
        requires
            old(self).wf(),
        ensures
            final(self).wf(),
            final(self)@ == old(self)@.remove((k0@, k1@)),
            match r {
                Some(v) => old(self)@.contains_key((k0@, k1@)) && v.deep_view() == old(self)@[
                    (k0@, k1@)
                ],
                None => !old(self)@.contains_key((k0@, k1@)),
            },
    {
        match self.position(k0, k1) {
            Some(i) => {
                let ghost pre = self.entries@;
                let (_, _, v) = self.entries.remove(i);
                proof {
                    lemma_str_map2_of_value(pre, i as int);
                    lemma_str_map2_remove(pre, i as int);
                    assert(final(self)@ =~= old(self)@.remove((k0@, k1@)));
                }
                Some(v)
            },
            None => {
                proof {
                    assert(final(self)@ =~= old(self)@.remove((k0@, k1@)));
                }
                None
            },
        }
    }

    pub fn remove(&mut self, k0: &String, k1: &String)
        requires
            old(self).wf(),
        ensures
            final(self).wf(),
            final(self)@ == old(self)@.remove((k0@, k1@)),
    {
        match self.position(k0, k1) {
            Some(i) => {
                let ghost pre = self.entries@;
                self.entries.remove(i);
                proof {
                    lemma_str_map2_remove(pre, i as int);
                    assert(final(self)@ =~= old(self)@.remove((k0@, k1@)));
                }
            },
            None => {
                proof {
                    assert(final(self)@ =~= old(self)@.remove((k0@, k1@)));
                }
            },
        }
    }
}

proof fn lemma_str_map2_update<V: DeepView>(s: Seq<(String, String, V)>, i: int, e: (String, String, V))
    requires
        0 <= i < s.len(),
        s[i].0@ == e.0@,
        s[i].1@ == e.1@,
        forall|a: int, b: int|
            0 <= a < b < s.len() ==> (s[a].0@, s[a].1@) != (s[b].0@, s[b].1@),
    ensures
        str_map2_of(s.update(i, e)) == str_map2_of(s).insert((e.0@, e.1@), e.2.deep_view()),
    decreases s.len(),
{
    let t = s.update(i, e);
    if i == s.len() - 1 {
        assert(t.drop_last() =~= s.drop_last());
        assert(str_map2_of(t) =~= str_map2_of(s).insert((e.0@, e.1@), e.2.deep_view()));
    } else {
        assert(t.drop_last() =~= s.drop_last().update(i, e));
        lemma_str_map2_update(s.drop_last(), i, e);
        assert((s[i].0@, s[i].1@) != (s.last().0@, s.last().1@));
        assert(t.last() == s.last());
        assert(str_map2_of(t) == str_map2_of(s.drop_last()).insert(
            (e.0@, e.1@),
            e.2.deep_view(),
        ).insert((s.last().0@, s.last().1@), s.last().2.deep_view()));
        assert(str_map2_of(t) =~= str_map2_of(s).insert((e.0@, e.1@), e.2.deep_view()));
    }
}

proof fn lemma_str_map2_remove<V: DeepView>(s: Seq<(String, String, V)>, i: int)
    requires
        0 <= i < s.len(),
        forall|a: int, b: int|
            0 <= a < b < s.len() ==> (s[a].0@, s[a].1@) != (s[b].0@, s[b].1@),
    ensures
        str_map2_of(s.remove(i)) == str_map2_of(s).remove((s[i].0@, s[i].1@)),
    decreases s.len(),
{
    let t = s.remove(i);
    if i == s.len() - 1 {
        assert(t =~= s.drop_last());
        lemma_str_map2_of_domain(s.drop_last(), (s[i].0@, s[i].1@));
        assert(str_map2_of(t) =~= str_map2_of(s).remove((s[i].0@, s[i].1@)));
    } else {
        assert(t.drop_last() =~= s.drop_last().remove(i));
        lemma_str_map2_remove(s.drop_last(), i);
        assert(t.last() == s.last());
        assert((s[i].0@, s[i].1@) != (s.last().0@, s.last().1@));
        assert(str_map2_of(t) == str_map2_of(s.drop_last()).remove((s[i].0@, s[i].1@)).insert(
            (s.last().0@, s.last().1@),
            s.last().2.deep_view(),
        ));
        assert(str_map2_of(t) =~= str_map2_of(s).remove((s[i].0@, s[i].1@)));
    }
}

proof fn lemma_str_map_remove<V: DeepView>(s: Seq<(String, V)>, i: int)
    requires
        0 <= i < s.len(),
        forall|a: int, b: int| 0 <= a < b < s.len() ==> s[a].0@ != s[b].0@,
    ensures
        str_map_of(s.remove(i)) == str_map_of(s).remove(s[i].0@),
    decreases s.len(),
{
    let t = s.remove(i);
    if i == s.len() - 1 {
        assert(t =~= s.drop_last());
        lemma_str_map_of_domain(s.drop_last(), s[i].0@);
        assert(str_map_of(t) =~= str_map_of(s).remove(s[i].0@));
    } else {
        assert(t.drop_last() =~= s.drop_last().remove(i));
        lemma_str_map_remove(s.drop_last(), i);
        assert(t.last() == s.last());
        assert(s[i].0@ != s.last().0@);
        assert(str_map_of(t) == str_map_of(s.drop_last()).remove(s[i].0@).insert(
            s.last().0@,
            s.last().1.deep_view(),
        ));
        assert(str_map_of(t) =~= str_map_of(s).remove(s[i].0@));
    }
}

} // verus!
