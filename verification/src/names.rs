//! Maps keyed by a name, walked in the order in which the names came.

use fnv::FnvHashMap;
use vstd::prelude::*;

verus! {

/// `fnv::FnvHasher`, the hasher of a [`FnvHashMap`].
#[verifier::external_type_specification]
#[verifier::external_body]
pub struct ExFnvHasher(fnv::FnvHasher);

/// `core::hash::BuildHasherDefault`, which makes the hasher of a [`FnvHashMap`].
#[verifier::external_type_specification]
#[verifier::external_body]
#[verifier::reject_recursive_types(H)]
pub struct ExBuildHasherDefault<H>(core::hash::BuildHasherDefault<H>);

/// What a [`FnvHashMap`] from names to positions holds.
pub uninterp spec fn index_contents(index: FnvHashMap<String, usize>) -> Map<Seq<char>, usize>;

/// The `default` of a [`FnvHashMap`]: it is empty.
#[verifier::external_body]
fn index_new() -> (result: FnvHashMap<String, usize>)
    ensures
        index_contents(result).dom() == Set::<Seq<char>>::empty(),
{
    FnvHashMap::default()
}

/// The `get` of a [`FnvHashMap`]: the position held for the name, if there is one.
#[verifier::external_body]
fn index_get(index: &FnvHashMap<String, usize>, name: &str) -> (result: Option<usize>)
    ensures
        result == (if index_contents(*index).contains_key(name@) {
            Some(index_contents(*index)[name@])
        } else {
            None
        }),
{
    index.get(name).copied()
}

/// The `insert` of a [`FnvHashMap`]: the name then leads to the position.
#[verifier::external_body]
fn index_insert(index: &mut FnvHashMap<String, usize>, name: String, position: usize)
    ensures
        index_contents(*final(index)) == index_contents(*old(index)).insert(name@, position),
{
    index.insert(name, position);
}

/// The `remove` of a [`FnvHashMap`]: the name then leads nowhere.
#[verifier::external_body]
fn index_remove(index: &mut FnvHashMap<String, usize>, name: &str)
    ensures
        index_contents(*final(index)) == index_contents(*old(index)).remove(name@),
{
    index.remove(name);
}

/// The items of a sequence, in the way contracts write them.
pub open spec fn views<T: View>(items: Seq<T>) -> Seq<T::V> {
    items.map_values(|item: T| item@)
}

/// A map keyed by names, with the order in which the names came.
pub struct Named<T> {
    pub keys: Seq<Seq<char>>,
    pub map: Map<Seq<char>, T>,
}

impl<T> Named<T> {
    /// The map of no names.
    pub open spec fn none() -> Named<T> {
        Named { keys: Seq::empty(), map: Map::empty() }
    }

    /// Each name of the map comes once in the order.
    pub open spec fn consistent(self) -> bool {
        &&& self.keys.no_duplicates()
        &&& forall|key: Seq<char>|
            self.keys.contains(key) <==> #[trigger] self.map.contains_key(key)
    }

    /// The name is in the map.
    pub open spec fn has(self, key: Seq<char>) -> bool {
        self.map.contains_key(key)
    }

    /// The value under the name, if there is one.
    pub open spec fn lookup(self, key: Seq<char>) -> Option<T> {
        if self.has(key) {
            Some(self.map[key])
        } else {
            None
        }
    }

    /// The map with the value under the name, in the place of an earlier value or behind all.
    pub open spec fn put(self, key: Seq<char>, value: T) -> Named<T> {
        Named {
            keys: if self.has(key) {
                self.keys
            } else {
                self.keys.push(key)
            },
            map: self.map.insert(key, value),
        }
    }

    /// The map without the name.
    pub open spec fn without(self, key: Seq<char>) -> Named<T> {
        Named { keys: self.keys.remove_value(key), map: self.map.remove(key) }
    }

    /// The map with each value changed in the same way.
    pub open spec fn map_all(self, change: spec_fn(T) -> T) -> Named<T> {
        Named { keys: self.keys, map: self.map.map_values(change) }
    }

    /// The values in order.
    pub open spec fn values(self) -> Seq<T> {
        Seq::new(self.keys.len(), |i: int| self.map[self.keys[i]])
    }
}

/// Putting a value under a name keeps each name once in the order.
pub broadcast proof fn lemma_put_consistent<T>(map: Named<T>, key: Seq<char>, value: T)
    requires
        map.consistent(),
    ensures
        (#[trigger] map.put(key, value)).consistent(),
{
    let put = map.put(key, value);
    if !map.has(key) {
        assert(!map.keys.contains(key));
        assert forall|name: Seq<char>| put.keys.contains(name) <==> #[trigger] put.map.contains_key(
            name,
        ) by {
            if put.map.contains_key(name) {
                if name == key {
                    assert(put.keys[map.keys.len() as int] == key);
                } else {
                    assert(map.keys.contains(name));
                    let i = choose|i: int| 0 <= i < map.keys.len() && map.keys[i] == name;
                    assert(put.keys[i] == name);
                }
            }
            if put.keys.contains(name) {
                let i = choose|i: int| 0 <= i < put.keys.len() && put.keys[i] == name;
                if i < map.keys.len() {
                    assert(map.keys.contains(name));
                }
            }
        }
        assert forall|i: int, j: int|
            0 <= i < put.keys.len() && 0 <= j < put.keys.len() && i != j implies put.keys[i]
            != put.keys[j] by {
            if i == map.keys.len() {
                assert(map.keys.contains(map.keys[j]));
            } else if j == map.keys.len() {
                assert(map.keys.contains(map.keys[i]));
            }
        }
    }
}

/// Taking out a name keeps each other name once in the order.
pub broadcast proof fn lemma_without_consistent<T>(map: Named<T>, key: Seq<char>)
    requires
        map.consistent(),
    ensures
        (#[trigger] map.without(key)).consistent(),
{
    let rest = map.without(key);
    map.keys.index_of_first_ensures(key);
    if map.has(key) {
        assert(map.keys.contains(key));
        let at = map.keys.index_of_first(key)->0;
        assert(rest.keys == map.keys.remove(at));
        assert forall|name: Seq<char>| rest.keys.contains(name) <==> #[trigger]
        rest.map.contains_key(name) by {
            if rest.map.contains_key(name) {
                assert(map.keys.contains(name));
                let i = choose|i: int| 0 <= i < map.keys.len() && map.keys[i] == name;
                assert(rest.keys[if i < at {
                    i
                } else {
                    i - 1
                }] == name);
            }
            if rest.keys.contains(name) {
                let i = choose|i: int| 0 <= i < rest.keys.len() && rest.keys[i] == name;
                let j = if i < at {
                    i
                } else {
                    i + 1
                };
                assert(map.keys[j] == name);
                assert(map.keys.contains(name));
            }
        }
    } else {
        assert(!map.keys.contains(key));
        assert(rest.keys == map.keys);
        assert(rest.map =~= map.map);
    }
}

/// A map keyed by names, walked in the order in which the names came.
pub struct NameMap<V> {
    index: FnvHashMap<String, usize>,
    names: Vec<String>,
    entries: Vec<V>,
}

impl<V: View> View for NameMap<V> {
    type V = Named<V::V>;

    closed spec fn view(&self) -> Named<V::V> {
        Named {
            keys: self.names@.map_values(|name: String| name@),
            map: index_contents(self.index).map_values(
                |position: usize| self.entries@[position as int]@,
            ),
        }
    }
}

/// The index leads to the names, each to its own place and to no other.
spec fn indexed(index: Map<Seq<char>, usize>, names: Seq<String>) -> bool {
    &&& forall|i: int|
        0 <= i < names.len() ==> index.contains_key(#[trigger] names[i]@) && index[names[i]@] == i
    &&& forall|key: Seq<char>| #[trigger]
        index.contains_key(key) ==> index[key] < names.len() && names[index[key] as int]@ == key
}

impl<V> NameMap<V> {
    #[verifier::type_invariant]
    spec fn well_formed(self) -> bool {
        indexed(index_contents(self.index), self.names@) && self.names@.len() == self.entries@.len()
    }
}

/// A map whose index leads to its names is consistent.
proof fn lemma_consistent<V: View>(map: NameMap<V>)
    requires
        indexed(index_contents(map.index), map.names@),
    ensures
        map@.consistent(),
{
    let keys = map@.keys;
    assert forall|key: Seq<char>| keys.contains(key) <==> #[trigger] map@.map.contains_key(key) by {
        if keys.contains(key) {
            let i = choose|i: int| 0 <= i < keys.len() && keys[i] == key;
            assert(map.names@[i]@ == key);
        }
        if map@.map.contains_key(key) {
            let i = index_contents(map.index)[key] as int;
            assert(map.names@[i]@ == key);
            assert(keys[i] == key);
        }
    }
    assert forall|i: int, j: int|
        0 <= i < keys.len() && 0 <= j < keys.len() && i != j implies keys[i] != keys[j] by {
        assert(index_contents(map.index)[map.names@[i]@] == i);
        assert(index_contents(map.index)[map.names@[j]@] == j);
    }
}

impl<V: View> NameMap<V> {
    /// The map of no names.
    pub fn new() -> (result: NameMap<V>)
        ensures
            result@ == Named::<V::V>::none(),
            result@.consistent(),
    {
        let result = NameMap { index: index_new(), names: Vec::new(), entries: Vec::new() };
        assert(result@.keys =~= Seq::empty());
        assert(result@.map =~= Map::empty());
        result
    }

    /// How many names there are.
    pub fn len(&self) -> (result: usize)
        ensures
            result == self@.keys.len(),
            self@.consistent(),
    {
        proof {
            use_type_invariant(self);
            lemma_consistent(*self);
        }
        self.names.len()
    }

    /// The name at the position.
    pub fn key_at(&self, position: usize) -> (result: &String)
        requires
            position < self@.keys.len(),
        ensures
            result@ == self@.keys[position as int],
    {
        &self.names[position]
    }

    /// The value at the position.
    pub fn value_at(&self, position: usize) -> (result: &V)
        requires
            position < self@.keys.len(),
        ensures
            result@ == self@.values()[position as int],
    {
        proof {
            use_type_invariant(self);
        }
        &self.entries[position]
    }

    /// The value at the position, open to change.
    pub fn value_at_mut(&mut self, position: usize) -> (result: &mut V)
        requires
            position < old(self)@.keys.len(),
        ensures
            result@ == old(self)@.values()[position as int],
            final(self)@.keys =~= old(self)@.keys,
            final(self)@.map =~= old(self)@.map.insert(
                old(self)@.keys[position as int],
                final(result)@,
            ),
    {
        proof {
            use_type_invariant(&*self);
        }
        &mut self.entries[position]
    }

    /// The values in order.
    pub fn values(&self) -> (result: Vec<&V>)
        ensures
            views(result@) == self@.values(),
            self@.consistent(),
    {
        let mut result: Vec<&V> = Vec::new();
        let count = self.len();
        let mut next: usize = 0;
        while next < count
            invariant
                next <= count,
                count == self@.keys.len(),
                self@.consistent(),
                result.len() == next,
                forall|i: int| 0 <= i < next ==> (#[trigger] result@[i])@ == self@.values()[i],
            decreases count - next,
        {
            result.push(self.value_at(next));
            next = next + 1;
        }
        assert(views(result@) =~= self@.values());
        result
    }

    /// Whether the name is in the map.
    pub fn contains(&self, key: &str) -> (result: bool)
        ensures
            result == self@.has(key@),
    {
        index_get(&self.index, key).is_some()
    }

    /// The value under the name, if there is one.
    pub fn get(&self, key: &str) -> (result: Option<&V>)
        ensures
            (match result {
                Some(value) => Some(value@),
                None => None,
            }) == self@.lookup(key@),
    {
        proof {
            use_type_invariant(self);
        }
        match index_get(&self.index, key) {
            Some(position) => Some(&self.entries[position]),
            None => None,
        }
    }

    /// The value under the name, if there is one, open to change.
    pub fn get_mut(&mut self, key: &str) -> (result: Option<&mut V>)
        ensures
            match result {
                Some(value) => old(self)@.has(key@) && value@ == old(self)@.map[key@]
                    && final(self)@.keys =~= old(self)@.keys && final(self)@.map =~= old(
                    self,
                )@.map.insert(key@, final(value)@),
                None => !old(self)@.has(key@) && final(self)@ == old(self)@,
            },
    {
        proof {
            use_type_invariant(&*self);
        }
        match index_get(&self.index, key) {
            Some(position) => {
                let value = &mut self.entries[position];
                Some(value)
            },
            None => None,
        }
    }

    /// Puts the value under the name, in the place of an earlier value or behind all.
    pub fn insert(&mut self, key: String, value: V)
        ensures
            final(self)@ == old(self)@.put(key@, value@),
            final(self)@.consistent(),
    {
        let mut taken = NameMap::new();
        std::mem::swap(self, &mut taken);
        proof {
            use_type_invariant(&taken);
        }
        let ghost before = taken;
        let NameMap { mut index, mut names, mut entries } = taken;
        match index_get(&index, key.as_str()) {
            Some(position) => {
                entries[position] = value;
            },
            None => {
                let position = entries.len();
                index_insert(&mut index, key.clone(), position);
                names.push(key);
                entries.push(value);
            },
        }
        assert(indexed(index_contents(index), names@));
        *self = NameMap { index, names, entries };
        assert(self@.keys =~= before@.put(key@, value@).keys);
        assert(self@.map =~= before@.put(key@, value@).map);
        proof {
            lemma_consistent(*self);
        }
    }

    /// Takes the value under the name out of the map, if there is one.
    pub fn remove(&mut self, key: &str) -> (result: Option<V>)
        ensures
            final(self)@ == old(self)@.without(key@),
            final(self)@.consistent(),
            (match result {
                Some(value) => Some(value@),
                None => None,
            }) == old(self)@.lookup(key@),
    {
        let mut taken = NameMap::new();
        std::mem::swap(self, &mut taken);
        proof {
            use_type_invariant(&taken);
        }
        let ghost before = taken;
        let NameMap { mut index, mut names, mut entries } = taken;
        let position = match index_get(&index, key) {
            Some(position) => position,
            None => {
                *self = NameMap { index, names, entries };
                proof {
                    lemma_consistent(*self);
                    before@.keys.index_of_first_ensures(key@);
                }
                assert(self@.keys =~= before@.without(key@).keys);
                assert(self@.map =~= before@.without(key@).map);
                return None;
            },
        };
        let _ = names.remove(position);
        let value = entries.remove(position);
        index_remove(&mut index, key);
        let mut next: usize = position;
        while next < names.len()
            invariant
                position <= next <= names.len(),
                names@ == before.names@.remove(position as int),
                position < before.names@.len(),
                indexed(index_contents(before.index), before.names@),
                before.names@[position as int]@ == key@,
                forall|name: Seq<char>| #[trigger]
                    index_contents(index).contains_key(name) <==> name != key@ && index_contents(
                        before.index,
                    ).contains_key(name),
                forall|name: Seq<char>| #[trigger]
                    index_contents(index).contains_key(name) ==> index_contents(index)[name] == (
                    if position < index_contents(before.index)[name] <= next {
                        (index_contents(before.index)[name] - 1) as usize
                    } else {
                        index_contents(before.index)[name]
                    }),
            decreases names.len() - next,
        {
            assert(names@[next as int] == before.names@[next + 1]);
            index_insert(&mut index, names[next].clone(), next);
            next = next + 1;
        }
        assert forall|i: int| 0 <= i < names.len() implies index_contents(index).contains_key(
            #[trigger] names@[i]@,
        ) && index_contents(index)[names@[i]@] == i by {
            let j = if i < position {
                i
            } else {
                i + 1
            };
            assert(names@[i] == before.names@[j]);
            assert(index_contents(before.index)[before.names@[j]@] == j);
            assert(index_contents(before.index)[before.names@[position as int]@] == position);
            assert(index_contents(index).contains_key(names@[i]@));
        }
        assert forall|name: Seq<char>| #[trigger]
            index_contents(index).contains_key(name) implies index_contents(index)[name]
            < names.len() && names@[index_contents(index)[name] as int]@ == name by {
            let j = index_contents(before.index)[name] as int;
            assert(before.names@[j]@ == name);
            assert(j != position);
        }
        *self = NameMap { index, names, entries };
        proof {
            lemma_consistent(before);
            lemma_consistent(*self);
            before@.keys.index_of_first_ensures(key@);
            assert(before@.keys[position as int] == key@);
        }
        assert(self@.keys =~= before@.without(key@).keys);
        assert(self@.map =~= before@.without(key@).map);
        Some(value)
    }
}

/// A value that can be made a second time.
pub trait Replicate: View + Sized {
    /// The value a second time.
    fn replicate(&self) -> (result: Self)
        ensures
            result@ == self@,
    ;
}

impl<V: Replicate> Replicate for NameMap<V> {
    fn replicate(&self) -> (result: Self) {
        let mut result = NameMap::new();
        let count = self.len();
        let mut next: usize = 0;
        assert(self@.keys.take(0) =~= Seq::empty());
        while next < count
            invariant
                next <= count,
                count == self@.keys.len(),
                self@.consistent(),
                result@.consistent(),
                result@.keys == self@.keys.take(next as int),
                forall|key: Seq<char>| #[trigger]
                    result@.map.contains_key(key) ==> self@.map.contains_key(key)
                        && result@.map[key] == self@.map[key],
            decreases count - next,
        {
            let ghost before = result@;
            let ghost key = self@.keys[next as int];
            proof {
                assert(self@.keys.contains(key));
                if before.map.contains_key(key) {
                    assert(before.keys.contains(key));
                    let i = choose|i: int| 0 <= i < before.keys.len() && before.keys[i] == key;
                    assert(self@.keys[i] == key);
                }
            }
            result.insert(self.key_at(next).clone(), self.value_at(next).replicate());
            proof {
                assert(self@.keys.take(next + 1) =~= self@.keys.take(next as int).push(key));
            }
            next = next + 1;
        }
        proof {
            assert(self@.keys.take(next as int) =~= self@.keys);
            assert forall|key: Seq<char>| #[trigger]
                self@.map.contains_key(key) implies result@.map.contains_key(key) by {
                assert(self@.keys.contains(key));
            }
            assert(result@.map =~= self@.map);
        }
        result
    }
}

/// A map keyed by names hands out what was put under a name last, keeps the place of a name that it
/// has, puts a new one behind all, and forgets one that is taken away; the values come in the order
/// of the names.
pub proof fn law_names_keep_their_place<T>(
    map: Named<T>,
    key: Seq<char>,
    value: T,
    other: Seq<char>,
    i: int,
)
    requires
        map.consistent(),
    ensures
        map.put(key, value).lookup(key) == Some(value),
        other != key ==> map.put(key, value).lookup(other) == map.lookup(other),
        map.lookup(key) is Some ==> map.put(key, value).keys == map.keys,
        map.lookup(key) is None ==> map.put(key, value).keys == map.keys.push(key),
        map.without(key).lookup(key) is None,
        other != key ==> map.without(key).lookup(other) == map.lookup(other),
        map.values().len() == map.keys.len(),
        0 <= i < map.keys.len() ==> map.lookup(map.keys[i]) == Some(map.values()[i]),
{
    if 0 <= i < map.keys.len() {
        assert(map.keys.contains(map.keys[i]));
        assert(map.map.contains_key(map.keys[i]));
    }
}

} // verus!
