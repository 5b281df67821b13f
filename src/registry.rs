//! A registry that gives dense numeric ids to type keys and keeps metadata
//! for each registered key.
use vstd::prelude::*;

verus! {

/// Assigns consecutive ids, from 0, to distinct keys, and stores a payload
/// `M` for each of them.
pub struct Registry<M> {
    /// Entry `i` is the key that received id `i`, with its payload.
    rev: Vec<(String, M)>,
}

impl<M> Registry<M> {
    /// The keys in the order of their ids.
    pub closed spec fn keys(&self) -> Seq<Seq<char>> {
        self.rev@.map_values(|e: (String, M)| e.0@)
    }

    /// The payloads in the order of their ids.
    pub closed spec fn metas(&self) -> Seq<M> {
        self.rev@.map_values(|e: (String, M)| e.1)
    }

    /// Number of registered keys.
    pub open spec fn spec_len(&self) -> nat {
        self.keys().len()
    }

    /// Whether `key` has an id.
    pub open spec fn has_key(&self, key: Seq<char>) -> bool {
        self.keys().contains(key)
    }

    /// No key holds two ids.
    pub open spec fn wf(&self) -> bool {
        &&& self.metas().len() == self.keys().len()
        &&& forall|i: int, j: int|
            0 <= i < self.keys().len() && 0 <= j < self.keys().len() && #[trigger] self.keys()[i]
                == #[trigger] self.keys()[j] ==> i == j
    }

    /// An empty registry.
    pub fn new() -> (r: Self)
        ensures
            r.wf(),
            r.keys().len() == 0,
    {
        let r = Registry { rev: Vec::new() };
        assert(r.keys().len() == 0);
        r
    }

    /// The id of `key`, if it has one.
    pub fn id(&self, key: &str) -> (r: Option<usize>)
        requires
            self.wf(),
        ensures
            match r {
                Some(i) => i < self.spec_len() && self.keys()[i as int] == key@,
                None => !self.has_key(key@),
            },
    {
        let k: String = key.to_owned();
        let mut i: usize = 0;
        while i < self.rev.len()
            invariant
                self.wf(),
                k@ == key@,
                i <= self.rev@.len(),
                forall|j: int| 0 <= j < i ==> self.keys()[j] != key@,
            decreases self.rev@.len() - i,
        {
            if self.rev[i].0 == k {
                return Some(i);
            }
            i = i + 1;
        }
        None
    }

    /// Gives `key` the next id, unless it already has one; returns its id.
    /// Registering a key twice changes nothing.
    pub fn register(&mut self, key: &str, meta: M) -> (r: usize)
        requires
            old(self).wf(),
            old(self).spec_len() < usize::MAX,
        ensures
            final(self).wf(),
            old(self).has_key(key@) ==> {
                &&& final(self).keys() == old(self).keys()
                &&& final(self).metas() == old(self).metas()
                &&& old(self).keys()[r as int] == key@
            },
            !old(self).has_key(key@) ==> {
                &&& final(self).keys() == old(self).keys().push(key@)
                &&& final(self).metas() == old(self).metas().push(meta)
                &&& r == old(self).spec_len()
            },
    {
        match self.id(key) {
            Some(i) => i,
            None => {
                let n = self.rev.len();
                self.rev.push((key.to_owned(), meta));
                proof {
                    assert(self.keys() =~= old(self).keys().push(key@));
                    assert(self.metas() =~= old(self).metas().push(meta));
                }
                n
            },
        }
    }

    /// The key and payload of id `id`, if it is assigned.
    pub fn get(&self, id: usize) -> (r: Option<&(String, M)>)
        ensures
            match r {
                Some(e) => id < self.spec_len() && e.0@ == self.keys()[id as int] && e.1
                    == self.metas()[id as int],
                None => id >= self.spec_len(),
            },
    {
        if id < self.rev.len() {
            Some(&self.rev[id])
        } else {
            None
        }
    }

    /// The key and payload of an assigned id.
    pub fn entry(&self, id: usize) -> (r: &(String, M))
        requires
            id < self.spec_len(),
        ensures
            r.0@ == self.keys()[id as int],
            r.1 == self.metas()[id as int],
    {
        &self.rev[id]
    }

    /// Number of registered keys.
    pub fn len(&self) -> (r: usize)
        ensures
            r == self.spec_len(),
    {
        self.rev.len()
    }
}

impl<M> Default for Registry<M> {
    /// An empty registry.
    fn default() -> (r: Self)
        ensures
            r.wf(),
            r.keys().len() == 0,
    {
        Registry::new()
    }
}

} // verus!
