use vstd::prelude::*;

verus! {

/// The value bound to `key` by the first entry of `entries` that carries this name.
pub open spec fn lookup<V>(entries: Seq<(String, V)>, key: Seq<char>) -> Option<V>
    decreases entries.len(),
{
    if entries.len() == 0 {
        None
    } else if entries[0].0@ == key {
        Some(entries[0].1)
    } else {
        lookup(entries.drop_first(), key)
    }
}

/// The map from names to values that a list of entries stands for.
pub open spec fn bindings<V>(entries: Seq<(String, V)>) -> Map<Seq<char>, V> {
    Map::new(
        |key: Seq<char>| lookup(entries, key) is Some,
        |key: Seq<char>| lookup(entries, key)->Some_0,
    )
}

/// Entries before the first one that carries `key` play no part in looking `key` up.
proof fn lemma_lookup_skips<V>(entries: Seq<(String, V)>, key: Seq<char>, n: int)
    requires
        0 <= n <= entries.len(),
        forall|j: int| 0 <= j < n ==> entries[j].0@ != key,
    ensures
        lookup(entries, key) == lookup(entries.skip(n), key),
    decreases n,
{
    if n == 0 {
        assert(entries.skip(0) =~= entries);
    } else {
        let rest = entries.drop_first();
        assert forall|j: int| 0 <= j < n - 1 implies rest[j].0@ != key by {
            assert(rest[j] == entries[j + 1]);
        }
        lemma_lookup_skips(rest, key, n - 1);
        assert(rest.skip(n - 1) =~= entries.skip(n));
    }
}

/// Replacing the value of the first entry that carries `key` rebinds `key` and nothing else.
proof fn lemma_lookup_update<V>(entries: Seq<(String, V)>, at: int, name: String, val: V)
    requires
        0 <= at < entries.len(),
        entries[at].0@ == name@,
        forall|j: int| 0 <= j < at ==> entries[j].0@ != name@,
    ensures
        bindings(entries.update(at, (name, val))) == bindings(entries).insert(name@, val),
{
    let after = entries.update(at, (name, val));
    assert forall|key: Seq<char>| lookup(after, key) == (if key == name@ {
        Some(val)
    } else {
        lookup(entries, key)
    }) by {
        lemma_lookup_update_at(entries, at, name, val, key);
    }
    assert(bindings(after) =~= bindings(entries).insert(name@, val));
}

proof fn lemma_lookup_update_at<V>(
    entries: Seq<(String, V)>,
    at: int,
    name: String,
    val: V,
    key: Seq<char>,
)
    requires
        0 <= at < entries.len(),
        entries[at].0@ == name@,
        forall|j: int| 0 <= j < at ==> entries[j].0@ != name@,
    ensures
        lookup(entries.update(at, (name, val)), key) == (if key == name@ {
            Some(val)
        } else {
            lookup(entries, key)
        }),
    decreases at,
{
    let after = entries.update(at, (name, val));
    if at == 0 {
        assert(after.drop_first() =~= entries.drop_first());
    } else {
        let rest = entries.drop_first();
        assert(entries[0].0@ != name@);
        assert(after[0] == entries[0]);
        assert(rest[at - 1] == entries[at]);
        assert forall|j: int| 0 <= j < at - 1 implies rest[j].0@ != name@ by {
            assert(rest[j] == entries[j + 1]);
        }
        lemma_lookup_update_at(rest, at - 1, name, val, key);
        assert(after.drop_first() =~= rest.update(at - 1, (name, val)));
    }
}

/// Appending an entry under a name that no entry carries binds that name and nothing else.
proof fn lemma_lookup_push<V>(entries: Seq<(String, V)>, name: String, val: V)
    requires
        forall|j: int| 0 <= j < entries.len() ==> entries[j].0@ != name@,
    ensures
        bindings(entries.push((name, val))) == bindings(entries).insert(name@, val),
{
    let after = entries.push((name, val));
    assert forall|key: Seq<char>| lookup(after, key) == (if key == name@ {
        Some(val)
    } else {
        lookup(entries, key)
    }) by {
        lemma_lookup_push_at(entries, name, val, key);
    }
    assert(bindings(after) =~= bindings(entries).insert(name@, val));
}

proof fn lemma_lookup_push_at<V>(entries: Seq<(String, V)>, name: String, val: V, key: Seq<char>)
    requires
        forall|j: int| 0 <= j < entries.len() ==> entries[j].0@ != name@,
    ensures
        lookup(entries.push((name, val)), key) == (if key == name@ {
            Some(val)
        } else {
            lookup(entries, key)
        }),
    decreases entries.len(),
{
    let after = entries.push((name, val));
    if entries.len() == 0 {
        reveal_with_fuel(lookup, 2);
        assert(after.drop_first().len() == 0);
    } else {
        let rest = entries.drop_first();
        assert(entries[0].0@ != name@);
        assert(after[0] == entries[0]);
        assert forall|j: int| 0 <= j < rest.len() implies rest[j].0@ != name@ by {
            assert(rest[j] == entries[j + 1]);
        }
        lemma_lookup_push_at(rest, name, val, key);
        assert(after.drop_first() =~= rest.push((name, val)));
    }
}

/// The name that a lookup did not find.
#[derive(Debug, PartialEq, Eq)]
pub struct Unbound {
    pub name: String,
}

/// Named slots of one session: a name is bound to a value, can be bound again, and is never
/// removed. The last value bound to a name is the one that is read.
pub struct NamedStore<V> {
    entries: Vec<(String, V)>,
}

impl<V> View for NamedStore<V> {
    type V = Map<Seq<char>, V>;

    closed spec fn view(&self) -> Map<Seq<char>, V> {
        bindings(self.entries@)
    }
}

impl<V: Copy> NamedStore<V> {
    /// A store in which no name is bound.
    pub fn new() -> (r: Self)
        ensures
            r@ == Map::<Seq<char>, V>::empty(),
    {
        let r = NamedStore { entries: Vec::new() };
        assert(r@ =~= Map::<Seq<char>, V>::empty());
        r
    }

    /// Where the first entry under `name` stands, if there is one.
    fn position(&self, name: &String) -> (r: Option<usize>)
        ensures
            match r {
                Some(at) => at < self.entries@.len() && self.entries@[at as int].0@ == name@
                    && forall|j: int| 0 <= j < at ==> self.entries@[j].0@ != name@,
                None => forall|j: int| 0 <= j < self.entries@.len() ==> self.entries@[j].0@
                    != name@,
            },
    {
        let mut i: usize = 0;
        while i < self.entries.len()
            invariant
                i <= self.entries@.len(),
                forall|j: int| 0 <= j < i ==> self.entries@[j].0@ != name@,
            decreases self.entries@.len() - i,
        {
            if self.entries[i].0 == *name {
                return Some(i);
            }
            i = i + 1;
        }
        None
    }

    /// The value last bound to `name`, or `None` where the name was never bound.
    pub fn get(&self, name: &String) -> (r: Option<V>)
        ensures
            r == (if self@.contains_key(name@) {
                Some(self@[name@])
            } else {
                None
            }),
    {
        match self.position(name) {
            Some(at) => {
                proof {
                    lemma_lookup_skips(self.entries@, name@, at as int);
                }
                Some(self.entries[at].1)
            },
            None => {
                proof {
                    lemma_lookup_skips(self.entries@, name@, self.entries@.len() as int);
                }
                None
            },
        }
    }

    /// Binds `name` to `val`; an earlier binding of the name is replaced, every other
    /// binding stays.
    pub fn bind(&mut self, name: String, val: V)
        ensures
            final(self)@ == old(self)@.insert(name@, val),
    {
        match self.position(&name) {
            Some(at) => {
                proof {
                    lemma_lookup_update(self.entries@, at as int, name, val);
                }
                self.entries.set(at, (name, val));
            },
            None => {
                proof {
                    lemma_lookup_push(self.entries@, name, val);
                }
                self.entries.push((name, val));
            },
        }
    }
}

/// The last value bound to a name is the one that is read: binding a name twice leaves the
/// second value, and binding another name in between changes nothing for the first.
pub proof fn lemma_last_binding_wins<V>(
    store: Map<Seq<char>, V>,
    name: Seq<char>,
    first: V,
    second: V,
    other: Seq<char>,
    third: V,
)
    requires
        other != name,
    ensures
        store.insert(name, first).insert(name, second)[name] == second,
        store.insert(name, first).insert(name, second) == store.insert(name, second),
        store.insert(name, first).insert(other, third)[name] == first,
        store.insert(name, first).dom().contains(name),
        store.dom().subset_of(store.insert(name, first).dom()),
{
    assert(store.insert(name, first).insert(name, second) =~= store.insert(name, second));
}

} // verus!
