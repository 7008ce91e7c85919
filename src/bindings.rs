use vstd::prelude::*;

verus! {

/// The value bound to `k` in a list of bindings; a later binding hides an
/// earlier one of the same name.
pub open spec fn binding_of<V>(s: Seq<(Seq<char>, V)>, k: Seq<char>) -> Option<V>
    decreases s.len(),
{
    if s.len() == 0 {
        None
    } else if s.last().0 == k {
        Some(s.last().1)
    } else {
        binding_of(s.drop_last(), k)
    }
}

/// A map from names to values.
///
/// Kept as a list of bindings, the latest one for a name winning, rather than
/// a `HashMap`: a `HashMap` keyed by `String` gives the contracts nothing to
/// say about what a lookup returns.
#[derive(Debug)]
pub struct Bindings<V> {
    entries: Vec<(String, V)>,
}

impl<V> View for Bindings<V> {
    type V = Map<Seq<char>, V>;

    closed spec fn view(&self) -> Map<Seq<char>, V> {
        Map::new(
            |k: Seq<char>| binding_of(self.entry_seq(), k) is Some,
            |k: Seq<char>| binding_of(self.entry_seq(), k)->Some_0,
        )
    }
}

impl<V> Bindings<V> {
    /// Every binding made, oldest first.
    pub closed spec fn entry_seq(&self) -> Seq<(Seq<char>, V)> {
        self.entries@.map_values(|e: (String, V)| (e.0@, e.1))
    }

    /// The bindings hold what their history says and nothing else.
    pub proof fn lemma_view_of_history(a: &Bindings<V>, b: &Bindings<V>)
        requires
            a.entry_seq() == b.entry_seq(),
        ensures
            a@ == b@,
    {
        assert(a@ =~= b@);
    }

    pub fn len(&self) -> (r: usize)
        ensures
            r == self.entry_seq().len(),
    {
        self.entries.len()
    }

    /// Forgets every binding made after the first `n`.
    pub fn truncate(&mut self, n: usize)
        requires
            n <= old(self).entry_seq().len(),
        ensures
            final(self).entry_seq() == old(self).entry_seq().take(n as int),
    {
        self.entries.truncate(n);
        assert(self.entry_seq() =~= old(self).entry_seq().take(n as int));
    }

    pub fn new() -> (r: Bindings<V>)
        ensures
            r@ == Map::<Seq<char>, V>::empty(),
            r.entry_seq() == Seq::<(Seq<char>, V)>::empty(),
    {
        let r = Bindings { entries: Vec::new() };
        assert(r.entry_seq() =~= Seq::<(Seq<char>, V)>::empty());
        assert(r@ =~= Map::<Seq<char>, V>::empty());
        r
    }

    /// Binds `name` to `value`, replacing an earlier binding of `name`.
    pub fn insert(&mut self, name: String, value: V)
        ensures
            final(self)@ == old(self)@.insert(name@, value),
            final(self).entry_seq() == old(self).entry_seq().push((name@, value)),
    {
        let ghost before = self.entry_seq();
        let ghost k = name@;
        let ghost v = value;
        self.entries.push((name, value));
        assert(self.entry_seq() =~= before.push((k, v)));
        assert(self.entry_seq().drop_last() =~= before);
        assert(self.entry_seq().last() == (k, v));
        assert(self@ =~= old(self)@.insert(k, v));
    }

    /// The value bound to `name`.
    pub fn get(&self, name: &str) -> (r: Option<&V>)
        ensures
            self@.contains_key(name@) <==> r is Some,
            r matches Some(v) ==> *v == self@[name@],
    {
        let key = name.to_owned();
        let mut i: usize = self.entries.len();
        assert(self.entry_seq().take(i as int) =~= self.entry_seq());
        while i > 0
            invariant
                i <= self.entries@.len(),
                key@ == name@,
                binding_of(self.entry_seq(), name@) == binding_of(self.entry_seq().take(i as int), name@),
            decreases i,
        {
            let ghost pre = self.entry_seq().take(i as int);
            assert(pre.drop_last() =~= self.entry_seq().take(i - 1));
            assert(pre.last() == (self.entries@[i - 1].0@, self.entries@[i - 1].1));
            if self.entries[i - 1].0 == key {
                return Some(&self.entries[i - 1].1);
            }
            i = i - 1;
        }
        assert(self.entry_seq().take(0) =~= Seq::<(Seq<char>, V)>::empty());
        None
    }
}

impl<V: Clone> Clone for Bindings<V> {
    fn clone(&self) -> (r: Self)
        ensures
            r.entry_seq().len() == self.entry_seq().len(),
            forall|i: int| 0 <= i < self.entry_seq().len() ==> (#[trigger] r.entry_seq()[i]).0 == self.entry_seq()[i].0
                && cloned::<V>(self.entry_seq()[i].1, r.entry_seq()[i].1),
    {
        let mut entries: Vec<(String, V)> = Vec::new();
        let mut i: usize = 0;
        while i < self.entries.len()
            invariant
                i <= self.entries@.len(),
                entries@.len() == i,
                forall|j: int| 0 <= j < i ==> (#[trigger] entries@[j]).0@ == self.entries@[j].0@
                    && cloned::<V>(self.entries@[j].1, entries@[j].1),
            decreases self.entries@.len() - i,
        {
            let name = self.entries[i].0.clone();
            let value = self.entries[i].1.clone();
            entries.push((name, value));
            i = i + 1;
        }
        Bindings { entries }
    }
}

} // verus!
