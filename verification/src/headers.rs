//! The header fields of a request: a map from field name to field value in
//! which a later field of the same name replaces the earlier one.

use crate::bytes::equal;
use vstd::prelude::*;

verus! {

/// One header field.
#[derive(Debug)]
pub struct Header {
    pub name: Vec<u8>,
    pub value: Vec<u8>,
}

/// A map from header name to header value. No name is held twice.
#[derive(Debug)]
pub struct Headers {
    entries: Vec<Header>,
}

/// No two entries have the same name.
pub open spec fn distinct_names(entries: Seq<Header>) -> bool {
    forall|i: int, j: int|
        0 <= i < j < entries.len() ==> (#[trigger] entries[i]).name@ != (
        #[trigger] entries[j]).name@
}

/// `entries` holds a field called `name`.
pub open spec fn holds_name(entries: Seq<Header>, name: Seq<u8>) -> bool {
    exists|i: int| 0 <= i < entries.len() && (#[trigger] entries[i]).name@ == name
}

/// The index in `entries` of the field called `name`.
pub open spec fn index_of_name(entries: Seq<Header>, name: Seq<u8>) -> int {
    choose|i: int| 0 <= i < entries.len() && (#[trigger] entries[i]).name@ == name
}

impl Headers {
    #[verifier::type_invariant]
    spec fn well_formed(&self) -> bool {
        distinct_names(self.entries@)
    }

    /// The fields as a map from name to value.
    pub closed spec fn view(&self) -> Map<Seq<u8>, Seq<u8>> {
        Map::new(
            |name: Seq<u8>| holds_name(self.entries@, name),
            |name: Seq<u8>| self.entries@[index_of_name(self.entries@, name)].value@,
        )
    }

    /// A map with no field.
    pub fn new() -> (headers: Headers)
        ensures
            headers@ == Map::<Seq<u8>, Seq<u8>>::empty(),
    {
        let headers = Headers { entries: Vec::new() };
        proof {
            assert(headers@ =~= Map::<Seq<u8>, Seq<u8>>::empty());
        }
        headers
    }

    fn position(&self, name: &[u8]) -> (at: Option<usize>)
        ensures
            match at {
                Some(i) => i < self.entries@.len() && self.entries@[i as int].name@ == name@,
                None => !holds_name(self.entries@, name@),
            },
    {
        let mut i: usize = 0;
        while i < self.entries.len()
            invariant
                i <= self.entries@.len(),
                forall|j: int| 0 <= j < i ==> (#[trigger] self.entries@[j]).name@ != name@,
            decreases self.entries@.len() - i,
        {
            if equal(self.entries[i].name.as_slice(), name) {
                return Some(i);
            }
            i += 1;
        }
        None
    }

    /// The value of the field called `name`, if there is one.
    pub fn get(&self, name: &[u8]) -> (value: Option<&Vec<u8>>)
        ensures
            match value {
                Some(v) => self@.contains_key(name@) && self@[name@] == v@,
                None => !self@.contains_key(name@),
            },
    {
        proof {
            use_type_invariant(self);
        }
        match self.position(name) {
            Some(i) => {
                proof {
                    assert(holds_name(self.entries@, name@));
                    let k = index_of_name(self.entries@, name@);
                    assert(self.entries@[k].name@ == self.entries@[i as int].name@);
                    assert(k == i);
                }
                Some(&self.entries[i].value)
            },
            None => None,
        }
    }

    /// Whether there is a field called `name`.
    pub fn contains_key(&self, name: &[u8]) -> (found: bool)
        ensures
            found == self@.contains_key(name@),
    {
        self.position(name).is_some()
    }

    /// Sets the field called `name` to `value`, replacing an earlier value.
    pub fn insert(&mut self, name: Vec<u8>, value: Vec<u8>)
        ensures
            final(self)@ == old(self)@.insert(name@, value@),
    {
        proof {
            use_type_invariant(&*self);
        }
        let ghost before = self.entries@;
        let found = self.position(name.as_slice());
        // The entries are taken out while they change and put back once no
        // name is held twice again.
        let mut entries: Vec<Header> = Vec::new();
        std::mem::swap(&mut self.entries, &mut entries);
        match found {
            Some(i) => {
                entries[i] = Header { name, value };
                std::mem::swap(&mut self.entries, &mut entries);
                proof {
                    let after = self.entries@;
                    assert forall|key: Seq<u8>| holds_name(after, key) == holds_name(
                        before,
                        key,
                    ) by {
                        if holds_name(after, key) {
                            let k = index_of_name(after, key);
                            assert(before[k].name@ == key);
                        }
                        if holds_name(before, key) {
                            let k = index_of_name(before, key);
                            assert(after[k].name@ == key);
                        }
                    }
                    assert forall|key: Seq<u8>| holds_name(after, key) implies index_of_name(
                        after,
                        key,
                    ) == index_of_name(before, key) by {
                        let a = index_of_name(after, key);
                        let b = index_of_name(before, key);
                        assert(before[a].name@ == key);
                        assert(before[b].name@ == key);
                    }
                    assert(index_of_name(after, name@) == i) by {
                        assert(after[i as int].name@ == name@);
                        let k = index_of_name(after, name@);
                        assert(after[k].name@ == after[i as int].name@);
                    }
                    assert(self@ =~= old(self)@.insert(name@, value@));
                }
            },
            None => {
                entries.push(Header { name, value });
                std::mem::swap(&mut self.entries, &mut entries);
                proof {
                    let after = self.entries@;
                    let n = before.len() as int;
                    assert(after[n].name@ == name@);
                    assert forall|key: Seq<u8>| holds_name(after, key) == (key == name@
                        || holds_name(before, key)) by {
                        if holds_name(after, key) {
                            let k = index_of_name(after, key);
                            if k < n {
                                assert(before[k].name@ == key);
                            }
                        }
                        if holds_name(before, key) {
                            let k = index_of_name(before, key);
                            assert(after[k].name@ == key);
                        }
                    }
                    assert forall|key: Seq<u8>| holds_name(before, key) implies index_of_name(
                        after,
                        key,
                    ) == index_of_name(before, key) by {
                        let b = index_of_name(before, key);
                        assert(after[b].name@ == key);
                        let a = index_of_name(after, key);
                        assert(after[a].name@ == after[b].name@);
                    }
                    assert(index_of_name(after, name@) == n) by {
                        let k = index_of_name(after, name@);
                        if k < n {
                            assert(before[k].name@ == name@);
                        }
                    }
                    assert(self@ =~= old(self)@.insert(name@, value@));
                }
            },
        }
    }
}

} // verus!
