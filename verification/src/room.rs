//! A chat room: a named member set together with an append-only message
//! history. Members are identified by plain handles; delivering a broadcast
//! to a handle's transport is the caller's job, so `broadcast` returns the
//! recipient list that was current when the message was recorded.

use vstd::prelude::*;

verus! {

/// Mathematical model of a room: its name, the member handles in join
/// order, and the recorded messages in broadcast order.
#[verifier::ext_equal]
pub struct RoomModel {
    pub name: Seq<char>,
    pub members: Seq<u64>,
    pub history: Seq<Seq<char>>,
}

/// A well-formed room lists each member handle at most once.
pub open spec fn room_wf(m: RoomModel) -> bool {
    m.members.no_duplicates()
}

/// The room a first joiner finds: no members, no history.
pub open spec fn empty_room(name: Seq<char>) -> RoomModel {
    RoomModel { name: name, members: Seq::empty(), history: Seq::empty() }
}

/// Joining adds the handle to the member list; a handle that is already a
/// member stays a member and is not listed twice.
pub open spec fn spec_join(m: RoomModel, handle: u64) -> RoomModel {
    if m.members.contains(handle) {
        m
    } else {
        RoomModel { members: m.members.push(handle), ..m }
    }
}

/// The member list with every occurrence of `handle` removed, join order
/// of the others kept.
pub open spec fn remove_handle(members: Seq<u64>, handle: u64) -> Seq<u64>
    decreases members.len(),
{
    if members.len() == 0 {
        Seq::empty()
    } else if members.last() == handle {
        remove_handle(members.drop_last(), handle)
    } else {
        remove_handle(members.drop_last(), handle).push(members.last())
    }
}

/// Leaving removes the handle; name and history are untouched.
pub open spec fn spec_leave(m: RoomModel, handle: u64) -> RoomModel {
    RoomModel { members: remove_handle(m.members, handle), ..m }
}

/// Broadcasting appends the message to the history; the member list is
/// untouched.
pub open spec fn spec_broadcast(m: RoomModel, message: Seq<char>) -> RoomModel {
    RoomModel { history: m.history.push(message), ..m }
}

pub struct Room {
    name: String,
    members: Vec<u64>,
    history: Vec<String>,
}

impl View for Room {
    type V = RoomModel;

    closed spec fn view(&self) -> RoomModel {
        RoomModel {
            name: self.name@,
            members: self.members@,
            history: Seq::new(self.history@.len(), |i: int| self.history@[i]@),
        }
    }
}

impl Room {
    pub open spec fn wf(&self) -> bool {
        room_wf(self@)
    }

    /// A fresh, empty room with the given name.
    pub fn new(name: String) -> (r: Room)
        ensures
            r@ == empty_room(name@),
            r.wf(),
    {
        let r = Room { name, members: Vec::new(), history: Vec::new() };
        proof {
            assert(r@ =~~= empty_room(r.name@));
        }
        r
    }

    pub fn name(&self) -> (r: &String)
        ensures
            r@ == self@.name,
    {
        &self.name
    }

    pub fn member_count(&self) -> (n: usize)
        ensures
            n == self@.members.len(),
    {
        self.members.len()
    }

    pub fn history_len(&self) -> (n: usize)
        ensures
            n == self@.history.len(),
    {
        self.history.len()
    }

    pub fn history_at(&self, i: usize) -> (r: &String)
        requires
            i < self@.history.len(),
        ensures
            r@ == self@.history[i as int],
    {
        &self.history[i]
    }

    pub fn is_member(&self, handle: u64) -> (r: bool)
        ensures
            r == self@.members.contains(handle),
    {
        let mut i: usize = 0;
        while i < self.members.len()
            invariant
                i <= self.members@.len(),
                forall|j: int| 0 <= j < i ==> self.members@[j] != handle,
            decreases self.members@.len() - i,
        {
            if self.members[i] == handle {
                return true;
            }
            i += 1;
        }
        false
    }

    /// Register a handle as a member: it becomes eligible for every later
    /// broadcast. Joining twice with one handle leaves the room as a single
    /// join does.
    pub fn join(&mut self, handle: u64)
        requires
            old(self).wf(),
        ensures
            final(self)@ == spec_join(old(self)@, handle),
            final(self).wf(),
    {
        if !self.is_member(handle) {
            self.members.push(handle);
            proof {
                assert(self@ =~~= spec_join(old(self)@, handle));
                assert forall|i: int, j: int|
                    0 <= i < j < self@.members.len() implies self@.members[i]
                    != self@.members[j] by {
                    if j == self@.members.len() - 1 {
                        assert(old(self)@.members[i] == self@.members[i]);
                    }
                }
            }
        }
    }

    /// Deregister a handle: a no-op when the handle is not a member.
    pub fn leave(&mut self, handle: u64)
        requires
            old(self).wf(),
        ensures
            final(self)@ == spec_leave(old(self)@, handle),
            final(self).wf(),
    {
        let ghost all: Seq<u64> = self.members@;
        let mut kept: Vec<u64> = Vec::new();
        let mut i: usize = 0;
        while i < self.members.len()
            invariant
                self@ == old(self)@,
                self.members@ == all,
                i <= all.len(),
                kept@ == remove_handle(all.take(i as int), handle),
            decreases all.len() - i,
        {
            let m = self.members[i];
            proof {
                lemma_remove_handle_take_step(all, handle, i as int);
            }
            if m != handle {
                kept.push(m);
            }
            i += 1;
        }
        proof {
            assert(all.take(all.len() as int) =~= all);
            lemma_remove_handle_no_duplicates(all, handle);
        }
        self.members = kept;
        proof {
            assert(self@ =~~= spec_leave(old(self)@, handle));
        }
    }

    /// Record the message in the history and report who should receive it:
    /// exactly the members at the moment of the broadcast, in join order.
    /// Sending, and removing a member whose send fails, is the caller's
    /// part.
    pub fn broadcast(&mut self, message: String) -> (recipients: Vec<u64>)
        requires
            old(self).wf(),
        ensures
            final(self)@ == spec_broadcast(old(self)@, message@),
            final(self).wf(),
            recipients@ == old(self)@.members,
    {
        let mut recipients: Vec<u64> = Vec::new();
        let mut i: usize = 0;
        while i < self.members.len()
            invariant
                self@ == old(self)@,
                i <= self.members@.len(),
                recipients@ == self.members@.take(i as int),
            decreases self.members@.len() - i,
        {
            recipients.push(self.members[i]);
            proof {
                assert(self.members@.take(i as int + 1) =~= self.members@.take(
                    i as int,
                ).push(self.members@[i as int]));
            }
            i += 1;
        }
        proof {
            assert(self.members@.take(self.members@.len() as int) =~= self.members@);
        }
        self.history.push(message);
        proof {
            assert(self@ =~~= spec_broadcast(old(self)@, message@));
        }
        recipients
    }
}

proof fn lemma_remove_handle_take_step(s: Seq<u64>, handle: u64, i: int)
    requires
        0 <= i < s.len(),
    ensures
        remove_handle(s.take(i + 1), handle) == (if s[i] == handle {
            remove_handle(s.take(i), handle)
        } else {
            remove_handle(s.take(i), handle).push(s[i])
        }),
{
    let t = s.take(i + 1);
    assert(t.drop_last() =~= s.take(i));
    assert(t.last() == s[i]);
}

/// The handles left by `remove_handle` are exactly the other members.
pub proof fn lemma_remove_handle_membership(s: Seq<u64>, handle: u64)
    ensures
        forall|x: u64|
            #[trigger] remove_handle(s, handle).contains(x) <==> (s.contains(x) && x != handle),
    decreases s.len(),
{
    if s.len() == 0 {
    } else {
        lemma_remove_handle_membership(s.drop_last(), handle);
        assert forall|x: u64| s.contains(x) && x != handle implies remove_handle(
            s,
            handle,
        ).contains(x) by {
            let k = choose|k: int| 0 <= k < s.len() && s[k] == x;
            if k < s.len() - 1 {
                assert(s.drop_last()[k] == x);
                assert(s.drop_last().contains(x));
                let r = remove_handle(s.drop_last(), handle);
                assert(r.contains(x));
                let j = choose|j: int| 0 <= j < r.len() && r[j] == x;
                if s.last() != handle {
                    assert(remove_handle(s, handle)[j] == x);
                }
            } else {
                if s.last() != handle {
                    let r = remove_handle(s, handle);
                    assert(r[r.len() - 1] == x);
                }
            }
        }
        assert forall|x: u64| remove_handle(s, handle).contains(x) implies s.contains(x) && x
            != handle by {
            let r = remove_handle(s, handle);
            let j = choose|j: int| 0 <= j < r.len() && r[j] == x;
            if s.last() == handle {
                assert(remove_handle(s.drop_last(), handle).contains(x));
                assert(s.drop_last().contains(x));
                let k = choose|k: int| 0 <= k < s.drop_last().len() && s.drop_last()[k] == x;
                assert(s[k] == x);
            } else {
                let rd = remove_handle(s.drop_last(), handle);
                if j < rd.len() {
                    assert(rd[j] == x);
                    assert(rd.contains(x));
                    assert(s.drop_last().contains(x));
                    let k = choose|k: int|
                        0 <= k < s.drop_last().len() && s.drop_last()[k] == x;
                    assert(s[k] == x);
                } else {
                    assert(x == s.last());
                    assert(s[s.len() - 1] == x);
                }
            }
        }
    }
}

/// Removing a handle keeps the member list free of duplicates.
pub proof fn lemma_remove_handle_no_duplicates(s: Seq<u64>, handle: u64)
    requires
        s.no_duplicates(),
    ensures
        remove_handle(s, handle).no_duplicates(),
    decreases s.len(),
{
    if s.len() == 0 {
    } else {
        assert(s.drop_last().no_duplicates());
        lemma_remove_handle_no_duplicates(s.drop_last(), handle);
        if s.last() != handle {
            let rd = remove_handle(s.drop_last(), handle);
            lemma_remove_handle_membership(s.drop_last(), handle);
            assert(!s.drop_last().contains(s.last())) by {
                if s.drop_last().contains(s.last()) {
                    let k = choose|k: int|
                        0 <= k < s.drop_last().len() && s.drop_last()[k] == s.last();
                    assert(s[k] == s[s.len() - 1]);
                }
            }
            assert forall|i: int, j: int|
                0 <= i < j < rd.push(s.last()).len() implies rd.push(s.last())[i] != rd.push(
                s.last(),
            )[j] by {
                if j == rd.len() {
                    assert(rd.contains(rd[i]));
                }
            }
        }
    }
}

/// Removing a handle that is not a member changes nothing.
pub proof fn lemma_remove_handle_absent(s: Seq<u64>, handle: u64)
    requires
        !s.contains(handle),
    ensures
        remove_handle(s, handle) == s,
    decreases s.len(),
{
    if s.len() == 0 {
        assert(remove_handle(s, handle) =~= s);
    } else {
        assert(!s.drop_last().contains(handle)) by {
            if s.drop_last().contains(handle) {
                let k = choose|k: int|
                    0 <= k < s.drop_last().len() && s.drop_last()[k] == handle;
                assert(s[k] == handle);
            }
        }
        assert(s[s.len() - 1] != handle);
        lemma_remove_handle_absent(s.drop_last(), handle);
        assert(remove_handle(s, handle) =~= s);
    }
}

/// Leaving is idempotent: a second leave with the same handle has no
/// further effect on the room.
pub proof fn lemma_leave_idempotent(m: RoomModel, handle: u64)
    ensures
        spec_leave(spec_leave(m, handle), handle) == spec_leave(m, handle),
{
    lemma_remove_handle_membership(m.members, handle);
    assert(!remove_handle(m.members, handle).contains(handle));
    lemma_remove_handle_absent(remove_handle(m.members, handle), handle);
    assert(spec_leave(spec_leave(m, handle), handle) =~~= spec_leave(m, handle));
}

/// A broadcast adds exactly one history entry, leaves the member list as it
/// was, and lists each member exactly once among the recipients.
pub proof fn lemma_broadcast_delivers_once(m: RoomModel, message: Seq<char>)
    requires
        room_wf(m),
    ensures
        spec_broadcast(m, message).history == m.history.push(message),
        spec_broadcast(m, message).members == m.members,
        forall|h: u64|
            m.members.contains(h) ==> m.members.to_multiset().count(h) == 1,
{
    m.members.to_multiset_ensures();
    m.members.lemma_multiset_has_no_duplicates();
    assert forall|h: u64| m.members.contains(h) implies m.members.to_multiset().count(h)
        == 1 by {
        assert(m.members.to_multiset().count(h) > 0);
    }
}

/// History keeps broadcast order: of two broadcasts, the first one's entry
/// stands immediately before the second one's, and earlier entries are
/// untouched.
pub proof fn lemma_history_order(m: RoomModel, first: Seq<char>, second: Seq<char>)
    ensures
        spec_broadcast(spec_broadcast(m, first), second).history.len() == m.history.len() + 2,
        spec_broadcast(spec_broadcast(m, first), second).history[m.history.len() as int]
            == first,
        spec_broadcast(spec_broadcast(m, first), second).history[m.history.len() as int + 1]
            == second,
        forall|i: int|
            0 <= i < m.history.len() ==> spec_broadcast(spec_broadcast(m, first), second).history[i]
                == m.history[i],
{
}

} // verus!
