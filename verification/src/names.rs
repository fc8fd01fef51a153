//! Tables keyed by name: a map from names to values, and the stack of
//! lexical scopes that maps the names of locals to their ids.

use vstd::prelude::*;

verus! {

/// The map that the first `n` entries build up, later entries replacing
/// earlier ones of the same name.
pub open spec fn entries_map<V: View>(entries: Seq<(String, V)>, n: nat) -> Map<Seq<char>, V::V>
    decreases n,
{
    if n == 0 {
        Map::empty()
    } else {
        entries_map(entries, (n - 1) as nat).insert(entries[n - 1].0@, entries[n - 1].1@)
    }
}

proof fn lemma_entries_absent<V: View>(entries: Seq<(String, V)>, n: nat, key: Seq<char>)
    requires
        n <= entries.len(),
        forall|j: int| 0 <= j < n ==> (#[trigger] entries[j]).0@ != key,
    ensures
        !entries_map(entries, n).contains_key(key),
    decreases n,
{
    if n > 0 {
        lemma_entries_absent(entries, (n - 1) as nat, key);
    }
}

proof fn lemma_entries_last<V: View>(entries: Seq<(String, V)>, n: nat, key: Seq<char>, i: int)
    requires
        0 <= i < n <= entries.len(),
        entries[i].0@ == key,
        forall|j: int| i < j < n ==> (#[trigger] entries[j]).0@ != key,
    ensures
        entries_map(entries, n).contains_key(key),
        entries_map(entries, n)[key] == entries[i].1@,
    decreases n,
{
    if i < n - 1 {
        lemma_entries_last(entries, (n - 1) as nat, key, i);
    }
}

proof fn lemma_entries_prefix<V: View>(a: Seq<(String, V)>, b: Seq<(String, V)>, n: nat)
    requires
        n <= a.len(),
        n <= b.len(),
        forall|j: int| 0 <= j < n ==> a[j] == b[j],
    ensures
        entries_map(a, n) == entries_map(b, n),
    decreases n,
{
    if n > 0 {
        lemma_entries_prefix(a, b, (n - 1) as nat);
    }
}

/// A map from names to values. A name that is inserted again gets the new
/// value.
pub struct NameMap<V> {
    pub entries: Vec<(String, V)>,
}

impl<V: View> View for NameMap<V> {
    type V = Map<Seq<char>, V::V>;

    open spec fn view(&self) -> Map<Seq<char>, V::V> {
        entries_map(self.entries@, self.entries@.len())
    }
}

impl<V: View> NameMap<V> {
    /// A map without entries.
    pub fn new() -> (m: Self)
        ensures
            m@ == Map::<Seq<char>, V::V>::empty(),
    {
        NameMap { entries: Vec::new() }
    }

    /// The value that `name` maps to, if any.
    pub fn get(&self, name: &String) -> (r: Option<&V>)
        ensures
            match r {
                Some(v) => self@.contains_key(name@) && self@[name@] == v@,
                None => !self@.contains_key(name@),
            },
    {
        let mut i: usize = self.entries.len();
        while i > 0
            invariant
                i <= self.entries@.len(),
                forall|j: int| i <= j < self.entries@.len() ==> (#[trigger] self.entries@[j]).0@ != name@,
            decreases i,
        {
            i -= 1;
            if self.entries[i].0 == *name {
                proof {
                    lemma_entries_last(self.entries@, self.entries@.len(), name@, i as int);
                }
                return Some(&self.entries[i].1);
            }
        }
        proof {
            lemma_entries_absent(self.entries@, self.entries@.len(), name@);
        }
        None
    }

    /// Maps `name` to `value`, whatever it mapped to before.
    pub fn insert(&mut self, name: String, value: V)
        ensures
            final(self)@ == old(self)@.insert(name@, value@),
    {
        proof {
            lemma_entries_prefix(
                old(self).entries@,
                old(self).entries@.push((name, value)),
                old(self).entries@.len(),
            );
        }
        self.entries.push((name, value));
    }
}

/// The id that the innermost of the first `n` scopes gives to `name`.
pub open spec fn lookup_scopes(scopes: Seq<Map<Seq<char>, usize>>, n: nat, name: Seq<char>)
    -> Option<usize>
    decreases n,
{
    if n == 0 {
        None
    } else if scopes[n - 1].contains_key(name) {
        Some(scopes[n - 1][name])
    } else {
        lookup_scopes(scopes, (n - 1) as nat, name)
    }
}

/// The scopes that are open, outermost first; each maps the names declared
/// in it to the ids of their locals.
pub struct LocalVars(pub Vec<NameMap<usize>>);

impl View for LocalVars {
    type V = Seq<Map<Seq<char>, usize>>;

    open spec fn view(&self) -> Seq<Map<Seq<char>, usize>> {
        Seq::new(self.0@.len(), |i: int| self.0@[i]@)
    }
}

impl LocalVars {
    /// The id that `name` resolves to: that of the innermost scope that
    /// declares it.
    pub open spec fn resolve(&self, name: Seq<char>) -> Option<usize> {
        lookup_scopes(self@, self@.len(), name)
    }

    /// No scope is open.
    pub fn new() -> (r: LocalVars)
        ensures
            r@ == Seq::<Map<Seq<char>, usize>>::empty(),
    {
        let r = LocalVars(Vec::new());
        assert(r@ =~= Seq::<Map<Seq<char>, usize>>::empty());
        r
    }

    /// The id that `name` resolves to, if a scope declares it.
    pub fn get(&self, name: &String) -> (r: Option<usize>)
        ensures
            r == self.resolve(name@),
    {
        let mut i: usize = self.0.len();
        while i > 0
            invariant
                i <= self.0@.len(),
                self.resolve(name@) == lookup_scopes(self@, i as nat, name@),
            decreases i,
        {
            i -= 1;
            match self.0[i].get(name) {
                Some(id) => {
                    return Some(*id);
                },
                None => {},
            }
        }
        None
    }

    /// The id that the innermost scope itself gives to `name`.
    pub fn get_in_current(&self, name: &String) -> (r: Option<usize>)
        requires
            self@.len() > 0,
        ensures
            r == (if self@.last().contains_key(name@) {
                Some(self@.last()[name@])
            } else {
                None
            }),
    {
        match self.0[self.0.len() - 1].get(name) {
            Some(id) => Some(*id),
            None => None,
        }
    }

    /// Closes every scope.
    pub fn clear(&mut self)
        ensures
            final(self)@ == Seq::<Map<Seq<char>, usize>>::empty(),
    {
        self.0.clear();
        assert(self@ =~= Seq::<Map<Seq<char>, usize>>::empty());
    }

    /// Opens a scope that declares nothing yet.
    pub fn push_scope(&mut self)
        ensures
            final(self)@ == old(self)@.push(Map::empty()),
    {
        self.0.push(NameMap::new());
        assert(self@ =~= old(self)@.push(Map::empty()));
    }

    /// Closes the innermost scope, if one is open.
    pub fn pop_scope(&mut self)
        ensures
            old(self)@.len() > 0 ==> final(self)@ == old(self)@.drop_last(),
            old(self)@.len() == 0 ==> final(self)@ == old(self)@,
    {
        self.0.pop();
        assert(old(self)@.len() > 0 ==> self@ =~= old(self)@.drop_last());
        assert(old(self)@.len() == 0 ==> self@ =~= old(self)@);
    }

    /// Declares `name` in the innermost scope, with the given id.
    pub fn insert(&mut self, name: String, id: usize)
        requires
            old(self)@.len() > 0,
        ensures
            final(self)@ == old(self)@.update(
                old(self)@.len() - 1,
                old(self)@.last().insert(name@, id),
            ),
    {
        let last = self.0.len() - 1;
        self.0[last].insert(name, id);
        assert(self@ =~= old(self)@.update(
            old(self)@.len() - 1,
            old(self)@.last().insert(name@, id),
        ));
    }
}

} // verus!
