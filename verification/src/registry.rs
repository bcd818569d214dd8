//! The room registry: the process-wide map from room name to room. It hands
//! out stable indices rather than references, so each room can live behind
//! its own lock while the registry's lock covers only the name table.

use vstd::prelude::*;

verus! {

/// What get-or-create does to the name table: an unknown name is appended,
/// a known one leaves the table unchanged.
pub open spec fn spec_get_or_create(names: Seq<Seq<char>>, name: Seq<char>) -> Seq<Seq<char>> {
    if names.contains(name) {
        names
    } else {
        names.push(name)
    }
}

pub struct Registry {
    names: Vec<String>,
}

impl View for Registry {
    type V = Seq<Seq<char>>;

    closed spec fn view(&self) -> Seq<Seq<char>> {
        Seq::new(self.names@.len(), |i: int| self.names@[i]@)
    }
}

impl Registry {
    /// A well-formed registry holds at most one room per distinct name.
    pub open spec fn wf(&self) -> bool {
        self@.no_duplicates()
    }

    pub fn new() -> (r: Registry)
        ensures
            r@ == Seq::<Seq<char>>::empty(),
            r.wf(),
    {
        let r = Registry { names: Vec::new() };
        proof {
            assert(r@ =~~= Seq::<Seq<char>>::empty());
        }
        r
    }

    pub fn room_count(&self) -> (n: usize)
        ensures
            n == self@.len(),
    {
        self.names.len()
    }

    pub fn name_at(&self, i: usize) -> (r: &String)
        requires
            i < self@.len(),
        ensures
            r@ == self@[i as int],
    {
        &self.names[i]
    }

    /// Return the index of the room named `name`, creating the room's entry
    /// first when no such room exists yet. The second component says whether
    /// this call created it.
    pub fn get_or_create(&mut self, name: &String) -> (r: (usize, bool))
        requires
            old(self).wf(),
        ensures
            final(self)@ == spec_get_or_create(old(self)@, name@),
            final(self).wf(),
            r.1 == !old(self)@.contains(name@),
            r.0 < final(self)@.len(),
            final(self)@[r.0 as int] == name@,
            r.1 ==> r.0 == old(self)@.len(),
            !r.1 ==> final(self)@ == old(self)@ && old(self)@[r.0 as int] == name@,
    {
        let mut i: usize = 0;
        while i < self.names.len()
            invariant
                self@ == old(self)@,
                old(self).wf(),
                i <= self.names@.len(),
                forall|j: int| 0 <= j < i ==> self@[j] != name@,
            decreases self.names@.len() - i,
        {
            if self.names[i].eq(name) {
                proof {
                    assert(self@[i as int] == name@);
                }
                return (i, false);
            }
            i += 1;
        }
        proof {
            assert(!self@.contains(name@));
        }
        let idx = self.names.len();
        self.names.push(name.clone());
        proof {
            assert(self@ =~~= old(self)@.push(name@));
            assert forall|a: int, b: int| 0 <= a < b < self@.len() implies self@[a]
                != self@[b] by {
                if b == self@.len() - 1 {
                    assert(old(self)@[a] == self@[a]);
                    assert(old(self)@.contains(self@[a]));
                }
            }
        }
        (idx, true)
    }
}

/// A never-before-seen room name is created exactly once: the first
/// get-or-create appends it, and every later one with the same name finds
/// it and leaves the registry unchanged.
pub proof fn lemma_room_created_once(names: Seq<Seq<char>>, name: Seq<char>)
    requires
        !names.contains(name),
    ensures
        spec_get_or_create(names, name) == names.push(name),
        spec_get_or_create(names, name).contains(name),
        spec_get_or_create(spec_get_or_create(names, name), name) == spec_get_or_create(
            names,
            name,
        ),
{
    let created = names.push(name);
    assert(created[created.len() - 1] == name);
    assert(created.contains(name));
}

} // verus!
