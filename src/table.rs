use vstd::prelude::*;

verus! {

/// One binding of a table: a camera identifier and what is stored for it.
pub struct Entry<V> {
    pub key: String,
    pub value: V,
}

/// The map that a sequence of bindings denotes: a later binding of a key
/// shadows an earlier one.
pub open spec fn map_of<V>(s: Seq<Entry<V>>) -> Map<Seq<char>, V>
    decreases s.len(),
{
    if s.len() == 0 {
        Map::empty()
    } else {
        map_of(s.drop_last()).insert(s.last().key@, s.last().value)
    }
}

/// A small associative table keyed by camera identifier. It keeps its
/// bindings in a vector and is viewed as a map: a hash map keyed by `String`
/// has no specification in vstd from which its lookups could be proved.
pub struct Table<V> {
    entries: Vec<Entry<V>>,
}

impl<V> View for Table<V> {
    type V = Map<Seq<char>, V>;

    closed spec fn view(&self) -> Map<Seq<char>, V> {
        map_of(self.entries@)
    }
}

impl<V> Table<V> {
    pub fn new() -> (r: Self)
        ensures
            r@ == Map::<Seq<char>, V>::empty(),
    {
        Table { entries: Vec::new() }
    }

    /// The value bound to `key`, if any.
    pub fn get(&self, key: &String) -> (r: Option<&V>)
        ensures
            match r {
                Some(v) => self@.contains_key(key@) && *v == self@[key@],
                None => !self@.contains_key(key@),
            },
    {
        let ghost s = self.entries@;
        let mut i: usize = self.entries.len();
        assert(s.take(s.len() as int) =~= s);
        while i > 0
            invariant
                i <= s.len(),
                s == self.entries@,
                map_of(s).contains_key(key@) == map_of(s.take(i as int)).contains_key(key@),
                map_of(s).contains_key(key@) ==> map_of(s)[key@] == map_of(s.take(i as int))[key@],
            decreases i,
        {
            i = i - 1;
            assert(s.take(i + 1).drop_last() =~= s.take(i as int));
            assert(s.take(i + 1).last() == s[i as int]);
            if self.entries[i].key == *key {
                return Some(&self.entries[i].value);
            }
        }
        assert(s.take(0) =~= Seq::<Entry<V>>::empty());
        None
    }

    pub fn contains_key(&self, key: &String) -> (r: bool)
        ensures
            r == self@.contains_key(key@),
    {
        match self.get(key) {
            Some(_) => true,
            None => false,
        }
    }

    /// Removes the binding of `key` and hands back its value.
    pub fn remove(&mut self, key: &String) -> (r: Option<V>)
        ensures
            final(self)@ == old(self)@.remove(key@),
            match r {
                Some(v) => old(self)@.contains_key(key@) && v == old(self)@[key@],
                None => !old(self)@.contains_key(key@),
            },
    {
        let ghost s = self.entries@;
        let mut rest: Vec<Entry<V>> = Vec::new();
        std::mem::swap(&mut rest, &mut self.entries);
        let mut found: Option<V> = None;
        let ghost mut c: int = 0;
        assert(s.take(0) =~= Seq::<Entry<V>>::empty());
        assert(map_of(self.entries@) =~= map_of(s.take(0)).remove(key@));
        while rest.len() > 0
            invariant
                0 <= c <= s.len(),
                rest@ == s.skip(c),
                map_of(self.entries@) == map_of(s.take(c)).remove(key@),
                match found {
                    Some(v) => map_of(s.take(c)).contains_key(key@) && v == map_of(s.take(c))[key@],
                    None => !map_of(s.take(c)).contains_key(key@),
                },
            decreases rest.len(),
        {
            let e = rest.remove(0);
            proof {
                assert(s.take(c + 1).drop_last() =~= s.take(c));
                assert(s.take(c + 1).last() == s[c]);
                assert(s.skip(c + 1) =~= s.skip(c).subrange(1, s.skip(c).len() as int));
            }
            if e.key == *key {
                found = Some(e.value);
                proof {
                    assert(map_of(self.entries@) =~= map_of(s.take(c + 1)).remove(key@));
                }
            } else {
                let ghost before = self.entries@;
                self.entries.push(e);
                proof {
                    assert(self.entries@.drop_last() =~= before);
                    assert(map_of(self.entries@) =~= map_of(s.take(c + 1)).remove(key@));
                }
            }
            proof {
                c = c + 1;
            }
        }
        assert(s.take(c) =~= s);
        found
    }

    /// Binds `key` to `value`, replacing any earlier binding.
    pub fn insert(&mut self, key: String, value: V)
        ensures
            final(self)@ == old(self)@.insert(key@, value),
    {
        let _ = self.remove(&key);
        let ghost before = self.entries@;
        self.entries.push(Entry { key, value });
        assert(self.entries@.drop_last() =~= before);
        assert(map_of(self.entries@) =~= old(self)@.insert(key@, value));
    }
}

} // verus!
