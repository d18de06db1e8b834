//! The variable environment: names (without the `$` sigil) bound to values.
use vstd::prelude::*;
use vstd::string::StringExecFns;
use crate::value::{SpecValue, YarnValue};

verus! {

/// The value of the first entry named `k`.
pub open spec fn lookup<N>(s: Seq<(String, YarnValue<N>)>, k: Seq<char>) -> Option<SpecValue<N>>
    decreases s.len(),
{
    if s.len() == 0 {
        None
    } else if s[0].0@ == k {
        Some(s[0].1@)
    } else {
        lookup(s.drop_first(), k)
    }
}

proof fn lemma_lookup_push<N>(s: Seq<(String, YarnValue<N>)>, e: (String, YarnValue<N>), k: Seq<char>)
    ensures
        lookup(s.push(e), k) == (if lookup(s, k) is Some {
            lookup(s, k)
        } else if e.0@ == k {
            Some(e.1@)
        } else {
            None
        }),
    decreases s.len(),
{
    assert(s.push(e)[0] == if s.len() > 0 { s[0] } else { e });
    if s.len() > 0 {
        assert(s.push(e).drop_first() =~= s.drop_first().push(e));
        lemma_lookup_push(s.drop_first(), e, k);
    } else {
        assert(s.push(e).drop_first() =~= Seq::<(String, YarnValue<N>)>::empty());
        assert(lookup(s.push(e).drop_first(), k) is None);
        assert(lookup(s, k) is None);
    }
}

proof fn lemma_lookup_update<N>(
    s: Seq<(String, YarnValue<N>)>,
    i: int,
    e: (String, YarnValue<N>),
    k: Seq<char>,
)
    requires
        0 <= i < s.len(),
        s[i].0@ == e.0@,
        forall|j: int| 0 <= j < i ==> (#[trigger] s[j]).0@ != e.0@,
    ensures
        lookup(s.update(i, e), k) == (if k == e.0@ {
            Some(e.1@)
        } else {
            lookup(s, k)
        }),
    decreases s.len(),
{
    if i == 0 {
        assert(s.update(i, e)[0] == e);
        assert(s.update(i, e).drop_first() =~= s.drop_first());
    } else {
        assert(s.update(i, e)[0] == s[0]);
        assert(s[0].0@ != e.0@);
        assert(s.update(i, e).drop_first() =~= s.drop_first().update(i - 1, e));
        assert forall|j: int| 0 <= j < i - 1 implies (#[trigger] s.drop_first()[j]).0@ != e.0@ by {
            assert(s.drop_first()[j] == s[j + 1]);
        }
        lemma_lookup_update(s.drop_first(), i - 1, e, k);
    }
}

/// Where no entry is named `k`, the lookup finds nothing.
proof fn lemma_lookup_none<N>(s: Seq<(String, YarnValue<N>)>, k: Seq<char>)
    ensures
        lookup(s, k) is None ==> forall|i: int| 0 <= i < s.len() ==> (#[trigger] s[i]).0@ != k,
    decreases s.len(),
{
    if s.len() > 0 {
        lemma_lookup_none(s.drop_first(), k);
        assert forall|i: int| 0 < i < s.len() implies s[i] == s.drop_first()[i - 1] by {}
    }
}

/// A map from variable names to values; each name is bound at most once.
pub struct YarnVariableMap<N> {
    entries: Vec<(String, YarnValue<N>)>,
}

impl<N> View for YarnVariableMap<N> {
    type V = Map<Seq<char>, SpecValue<N>>;

    closed spec fn view(&self) -> Map<Seq<char>, SpecValue<N>> {
        Map::new(
            |k: Seq<char>| lookup(self.entries@, k) is Some,
            |k: Seq<char>| lookup(self.entries@, k)->0,
        )
    }
}

impl<N> YarnVariableMap<N> {
    /// No name is bound twice.
    pub closed spec fn wf(&self) -> bool {
        forall|i: int, j: int|
            0 <= i < j < self.entries@.len() ==> (#[trigger] self.entries@[i]).0@ != (
            #[trigger] self.entries@[j]).0@
    }

    pub fn new() -> (r: Self)
        ensures
            r.wf(),
            r@ == Map::<Seq<char>, SpecValue<N>>::empty(),
    {
        let r = YarnVariableMap { entries: Vec::new() };
        assert(r@ =~= Map::<Seq<char>, SpecValue<N>>::empty());
        r
    }

    fn position(&self, name: &String) -> (r: Option<usize>)
        ensures
            r is None ==> lookup(self.entries@, name@) is None,
            r matches Some(i) ==> i < self.entries@.len() && self.entries@[i as int].0@ == name@
                && lookup(self.entries@, name@) == Some(self.entries@[i as int].1@)
                && forall|j: int| 0 <= j < i ==> (#[trigger] self.entries@[j]).0@ != name@,
    {
        let n = self.entries.len();
        let mut i: usize = 0;
        assert(self.entries@.subrange(0, n as int) =~= self.entries@);
        while i < n
            invariant
                n == self.entries@.len(),
                i <= n,
                lookup(self.entries@, name@) == lookup(
                    self.entries@.subrange(i as int, n as int),
                    name@,
                ),
                forall|j: int| 0 <= j < i ==> (#[trigger] self.entries@[j]).0@ != name@,
            decreases n - i,
        {
            let ghost rest = self.entries@.subrange(i as int, n as int);
            assert(rest[0] == self.entries@[i as int]);
            if self.entries[i].0 == *name {
                return Some(i);
            }
            assert(rest.drop_first() =~= self.entries@.subrange(i + 1, n as int));
            i = i + 1;
        }
        None
    }

    /// Binds `name` to `value`, replacing an earlier binding of the name.
    pub fn insert(&mut self, name: String, value: YarnValue<N>)
        requires
            old(self).wf(),
        ensures
            final(self).wf(),
            final(self)@ == old(self)@.insert(name@, value@),
    {
        let ghost k = name@;
        let ghost v = value@;
        match self.position(&name) {
            Some(i) => {
                let ghost before = self.entries@;
                let ghost e = (name, value);
                proof {
                    assert forall|j: int| 0 <= j < i implies (#[trigger] before[j]).0@ != e.0@ by {}
                }
                self.entries.set(i, (name, value));
                assert forall|a: int, b: int|
                    0 <= a < b < self.entries@.len() implies (#[trigger] self.entries@[a]).0@ != (
                    #[trigger] self.entries@[b]).0@ by {
                    assert(self.entries@[a].0@ == before[a].0@);
                    assert(self.entries@[b].0@ == before[b].0@);
                }
                assert forall|x: Seq<char>| #[trigger] lookup(self.entries@, x) == (if x == k {
                    Some(v)
                } else {
                    lookup(before, x)
                }) by {
                    lemma_lookup_update(before, i as int, e, x);
                }
            },
            None => {
                let ghost before = self.entries@;
                let ghost e = (name, value);
                proof {
                    lemma_lookup_none(before, k);
                }
                self.entries.push((name, value));
                assert forall|a: int, b: int|
                    0 <= a < b < self.entries@.len() implies (#[trigger] self.entries@[a]).0@ != (
                    #[trigger] self.entries@[b]).0@ by {
                    assert(self.entries@[a] == before[a]);
                    if b < before.len() {
                        assert(self.entries@[b] == before[b]);
                    }
                }
                assert forall|x: Seq<char>| #[trigger] lookup(self.entries@, x) == (if x == k {
                    Some(v)
                } else {
                    lookup(before, x)
                }) by {
                    lemma_lookup_push(before, e, x);
                }
            },
        }
        assert(self@ =~= old(self)@.insert(k, v));
    }

    /// The value bound to `name`, if any.
    pub fn get(&self, name: &str) -> (r: Option<&YarnValue<N>>)
        ensures
            r is None <==> !self@.contains_key(name@),
            r matches Some(v) ==> v@ == self@[name@],
    {
        let key = String::from_str(name);
        match self.position(&key) {
            Some(i) => Some(&self.entries[i].1),
            None => None,
        }
    }

    pub fn contains_key(&self, name: &str) -> (r: bool)
        ensures
            r == self@.contains_key(name@),
    {
        let key = String::from_str(name);
        self.position(&key).is_some()
    }
}

} // verus!
