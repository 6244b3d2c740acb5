//! The Room Registry: lets an agent that wants to join find a joinable room
//! without a central queue.
//!
//! Records are kept in insertion order in a vector; an `IndexMap` from room id
//! to position gives O(1) lookup by id. Membership is recorded only when a
//! confirmed join acknowledgement arrives, never speculatively at request
//! time, so the registry may lag the backend's view of a room; the accepted
//! consequence is that two agents can pick the same near-full room in one tick
//! batch and over-fill it once both acknowledgements land.
//!
//! Retirement policy: records are never removed. A record whose member count
//! has reached the team size is never returned by [`RoomRegistry::pick_joinable`],
//! and a creating agent that comes back for a second round re-registers under
//! its own id, which resets the stale record in place.

use vstd::prelude::*;

use indexmap::IndexMap;

verus! {

/// A room being assembled for matchmaking: the creating agent's id and the
/// ordered ids of the members believed to be in the room.
#[derive(Clone, Debug)]
pub struct RoomRecord {
    pub id: String,
    pub ids: Vec<String>,
}

/// The mathematical model of a room record: both fields as character
/// sequences.
#[verifier::ext_equal]
pub ghost struct RoomRecordView {
    pub id: Seq<char>,
    pub ids: Seq<Seq<char>>,
}

impl View for RoomRecord {
    type V = RoomRecordView;

    open spec fn view(&self) -> RoomRecordView {
        RoomRecordView { id: self.id@, ids: self.ids@.map_values(|s: String| s@) }
    }
}

#[verifier::external_type_specification]
#[verifier::external_body]
#[verifier::reject_recursive_types(K)]
#[verifier::reject_recursive_types(V)]
#[verifier::reject_recursive_types(S)]
pub struct ExIndexMap<K, V, S>(IndexMap<K, V, S>);

/// The index from room id to position in the record vector.
pub type RoomIndex = IndexMap<String, usize>;

/// What a [`RoomIndex`] holds, as a map over the ids' character sequences.
/// Two `String` keys with equal characters are one key.
pub uninterp spec fn index_entries(m: RoomIndex) -> Map<Seq<char>, usize>;

/// Relies on `IndexMap::new`: the new map is empty.
#[verifier::external_body]
fn imap_new() -> (m: RoomIndex)
    ensures
        index_entries(m).dom() == Set::<Seq<char>>::empty(),
{
    IndexMap::new()
}

/// Relies on `IndexMap::insert`: after the call the key holds `v`; no other
/// key is affected.
#[verifier::external_body]
fn imap_insert(m: &mut RoomIndex, k: String, v: usize)
    ensures
        index_entries(*final(m)) == index_entries(*old(m)).insert(k@, v),
{
    m.insert(k, v);
}

/// Relies on `IndexMap::get`: returns the value stored under the key, if the
/// key is present.
#[verifier::external_body]
fn imap_get(m: &RoomIndex, k: &String) -> (r: Option<usize>)
    ensures
        r == (if index_entries(*m).dom().contains(k@) {
            Some(index_entries(*m)[k@])
        } else {
            None::<usize>
        }),
{
    m.get(k).copied()
}

/// First position in `rs` holding a record with the given id, or `-1`.
pub open spec fn find_room(rs: Seq<RoomRecordView>, id: Seq<char>) -> int
    decreases rs.len(),
{
    if rs.len() == 0 {
        -1
    } else if rs[0].id == id {
        0
    } else {
        let f = find_room(rs.drop_first(), id);
        if f == -1 {
            -1
        } else {
            f + 1
        }
    }
}

pub proof fn lemma_find_room(rs: Seq<RoomRecordView>, id: Seq<char>)
    ensures
        find_room(rs, id) == -1 <==> (forall|i: int| 0 <= i < rs.len() ==> rs[i].id != id),
        find_room(rs, id) != -1 ==> 0 <= find_room(rs, id) < rs.len() && rs[find_room(rs, id)].id
            == id,
    decreases rs.len(),
{
    if rs.len() != 0 && rs[0].id != id {
        let rest = rs.drop_first();
        lemma_find_room(rest, id);
        assert(forall|i: int| 0 <= i < rest.len() ==> #[trigger] rest[i] == rs[i + 1]);
        if find_room(rest, id) != -1 {
            assert(rest[find_room(rest, id)] == rs[find_room(rest, id) + 1]);
            assert(rs[find_room(rs, id)].id == id);
        } else {
            assert forall|i: int| 0 <= i < rs.len() implies rs[i].id != id by {
                if i > 0 {
                    assert(rest[i - 1] == rs[i]);
                }
            }
        }
    }
}

/// A fresh record for a newly announced room: single member, the creator.
pub open spec fn fresh_room(id: Seq<char>) -> RoomRecordView {
    RoomRecordView { id: id, ids: seq![id] }
}

/// Registering a room: a stale record under the same id is reset in place,
/// otherwise the record is appended, last in order.
pub open spec fn create_spec(rs: Seq<RoomRecordView>, id: Seq<char>) -> Seq<RoomRecordView> {
    let f = find_room(rs, id);
    if f == -1 {
        rs.push(fresh_room(id))
    } else {
        rs.update(f, fresh_room(id))
    }
}

/// Recording a confirmed join: the agent id is appended to the named room's
/// member list; an unknown room id leaves the registry unchanged.
pub open spec fn record_join_spec(
    rs: Seq<RoomRecordView>,
    room: Seq<char>,
    agent: Seq<char>,
) -> Seq<RoomRecordView> {
    let f = find_room(rs, room);
    if f == -1 {
        rs
    } else {
        rs.update(f, RoomRecordView { id: rs[f].id, ids: rs[f].ids.push(agent) })
    }
}

/// Tracks in-progress room formation so agents can discover joinable rooms.
pub struct RoomRegistry {
    pub team_size: usize,
    pub rooms: Vec<RoomRecord>,
    pub index: RoomIndex,
}

impl View for RoomRegistry {
    type V = Seq<RoomRecordView>;

    open spec fn view(&self) -> Seq<RoomRecordView> {
        self.rooms@.map_values(|r: RoomRecord| r@)
    }
}

impl RoomRegistry {
    /// The index agrees with the vector: every position is filed under its
    /// record's id, and every filed id points back at a matching position.
    pub open spec fn wf(&self) -> bool {
        &&& forall|i: int|
            0 <= i < self@.len() ==> {
                &&& #[trigger] index_entries(self.index).dom().contains(self@[i].id)
                &&& index_entries(self.index)[self@[i].id] == i
            }
        &&& forall|k: Seq<char>|
            #[trigger] index_entries(self.index).dom().contains(k) ==> {
                &&& 0 <= index_entries(self.index)[k] < self@.len()
                &&& self@[index_entries(self.index)[k] as int].id == k
            }
    }

    pub proof fn lemma_ids_distinct(&self)
        requires
            self.wf(),
        ensures
            forall|i: int, j: int|
                0 <= i < self@.len() && 0 <= j < self@.len() && i != j ==> self@[i].id
                    != self@[j].id,
    {
        assert forall|i: int, j: int|
            0 <= i < self@.len() && 0 <= j < self@.len() && i != j implies self@[i].id
            != self@[j].id by {
            if self@[i].id == self@[j].id {
                assert(index_entries(self.index).dom().contains(self@[i].id));
                assert(index_entries(self.index).dom().contains(self@[j].id));
                assert(index_entries(self.index)[self@[i].id] == i);
                assert(index_entries(self.index)[self@[j].id] == j);
            }
        }
    }

    /// With a well-formed index, a lookup answer pins down `find_room`.
    proof fn lemma_lookup(&self, id: Seq<char>)
        requires
            self.wf(),
        ensures
            index_entries(self.index).dom().contains(id) ==> find_room(self@, id)
                == index_entries(self.index)[id],
            !index_entries(self.index).dom().contains(id) ==> find_room(self@, id) == -1,
    {
        lemma_find_room(self@, id);
        self.lemma_ids_distinct();
        if index_entries(self.index).dom().contains(id) {
            let i = index_entries(self.index)[id] as int;
            assert(self@[i].id == id);
            let f = find_room(self@, id);
            assert(f != -1);
            assert(self@[f].id == id);
        }
    }

    pub fn new(team_size: usize) -> (r: RoomRegistry)
        ensures
            r.wf(),
            r@ == Seq::<RoomRecordView>::empty(),
            r.team_size == team_size,
    {
        let r = RoomRegistry { team_size, rooms: Vec::new(), index: imap_new() };
        proof {
            assert(r@ =~= Seq::<RoomRecordView>::empty());
        }
        r
    }

    pub fn len(&self) -> (n: usize)
        ensures
            n == self@.len(),
    {
        self.rooms.len()
    }

    /// Registers a room under the creating agent's id.
    pub fn create(&mut self, id: String)
        requires
            old(self).wf(),
        ensures
            final(self).wf(),
            final(self)@ == create_spec(old(self)@, id@),
            final(self).team_size == old(self).team_size,
    {
        proof {
            self.lemma_lookup(id@);
        }
        let mut member_ids: Vec<String> = Vec::new();
        member_ids.push(id.clone());
        let fresh = RoomRecord { id: id.clone(), ids: member_ids };
        proof {
            assert(fresh@.ids =~= seq![id@]);
        }
        match imap_get(&self.index, &id) {
            Some(i) => {
                self.rooms[i] = fresh;
                proof {
                    assert(self@ =~= create_spec(old(self)@, id@));
                }
            },
            None => {
                let n = self.rooms.len();
                self.rooms.push(fresh);
                imap_insert(&mut self.index, id, n);
                proof {
                    assert(self@ =~= create_spec(old(self)@, id@));
                    assert forall|i: int| 0 <= i < self@.len() implies {
                        &&& index_entries(self.index).dom().contains(self@[i].id)
                        &&& index_entries(self.index)[self@[i].id] == i
                    } by {
                        if i < n {
                            assert(old(self)@[i].id == self@[i].id);
                        }
                    }
                }
            },
        }
    }

    /// One uniformly drawn position is offered; the room there is returned
    /// only while its member count is below the team size. No scan forward to
    /// another candidate: the caller simply retries on a later tick.
    pub fn pick_joinable(&self, n: usize) -> (r: Option<&RoomRecord>)
        requires
            n < self@.len(),
        ensures
            self@[n as int].ids.len() < self.team_size ==> (r matches Some(rr) && rr@
                == self@[n as int]),
            self@[n as int].ids.len() >= self.team_size ==> r is None,
    {
        let rr = &self.rooms[n];
        if rr.ids.len() < self.team_size {
            Some(rr)
        } else {
            None
        }
    }

    /// Records a confirmed join: appends the agent to the named room's member
    /// list, dropping and duplicating nothing.
    pub fn record_join(&mut self, room: &String, agent: String)
        requires
            old(self).wf(),
        ensures
            final(self).wf(),
            final(self)@ == record_join_spec(old(self)@, room@, agent@),
            final(self).team_size == old(self).team_size,
    {
        proof {
            self.lemma_lookup(room@);
        }
        match imap_get(&self.index, room) {
            Some(i) => {
                self.rooms[i].ids.push(agent);
                proof {
                    assert(self@ =~~= record_join_spec(old(self)@, room@, agent@));
                }
            },
            None => {
                proof {
                    assert(self@ =~= record_join_spec(old(self)@, room@, agent@));
                }
            },
        }
    }

    /// The record filed under the given room id, if any.
    pub fn get(&self, room: &String) -> (r: Option<&RoomRecord>)
        requires
            self.wf(),
        ensures
            find_room(self@, room@) == -1 ==> r is None,
            find_room(self@, room@) != -1 ==> (r matches Some(rr) && rr@
                == self@[find_room(self@, room@)]),
    {
        proof {
            self.lemma_lookup(room@);
        }
        match imap_get(&self.index, room) {
            Some(i) => Some(&self.rooms[i]),
            None => None,
        }
    }
}

} // verus!
