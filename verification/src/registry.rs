//! The rooms that the client holds, each with its entry. A room gets its
//! entry the first time anything speaks of it.
use crate::event::RoomId;
use crate::room::{RoomEntry, RoomModel};
use std::collections::HashMap;
use vstd::prelude::*;
use vstd::std_specs::iter::IteratorSpec;

verus! {

/// The entry of a room in a registry, or an empty one if it has none.
pub open spec fn room_or_empty(rooms: Map<RoomId, RoomModel>, room: RoomId) -> RoomModel {
    if rooms.contains_key(room) {
        rooms[room]
    } else {
        RoomModel::empty()
    }
}

/// Every entry of a registry is valid.
pub open spec fn all_valid(rooms: Map<RoomId, RoomModel>) -> bool {
    forall|room: RoomId| rooms.contains_key(room) ==> (#[trigger] rooms[room]).wf()
}

/// The values of the entries of a registry.
pub open spec fn room_models(rooms: Map<RoomId, RoomEntry>) -> Map<RoomId, RoomModel> {
    Map::new(|room: RoomId| rooms.contains_key(room), |room: RoomId| rooms[room]@)
}

/// An empty entry is valid.
pub proof fn lemma_empty_is_valid()
    ensures
        RoomModel::empty().wf(),
{
    let timeline = RoomModel::empty().messages;
    assert(timeline.known_ids =~= crate::timeline::id_set(timeline.events));
}

/// The rooms that the client holds, each with its entry.
#[derive(Debug)]
pub struct RoomRegistry {
    rooms: HashMap<RoomId, RoomEntry>,
}

impl View for RoomRegistry {
    type V = Map<RoomId, RoomModel>;

    closed spec fn view(&self) -> Map<RoomId, RoomModel> {
        room_models(self.rooms@)
    }
}

impl RoomRegistry {
    /// Every entry is valid.
    pub open spec fn wf(&self) -> bool {
        all_valid(self@)
    }

    /// A registry without rooms.
    pub fn new() -> (registry: Self)
        ensures
            registry.wf(),
            registry@ == Map::<RoomId, RoomModel>::empty(),
    {
        let registry = RoomRegistry { rooms: HashMap::new() };
        assert(registry@ =~= Map::empty());
        registry
    }

    /// The number of rooms.
    pub fn len(&self) -> (count: usize)
        ensures
            count == self@.len(),
    {
        assert(self@.dom() =~= self.rooms@.dom());
        self.rooms.len()
    }

    /// Whether a room has an entry.
    pub fn contains(&self, id: RoomId) -> (found: bool)
        ensures
            found == self@.contains_key(id),
    {
        self.rooms.contains_key(&id)
    }

    /// The entry of a room, if it has one.
    pub fn get(&self, id: RoomId) -> (found: Option<&RoomEntry>)
        ensures
            match found {
                Some(entry) => self@.contains_key(id) && entry@ == self@[id],
                None => !self@.contains_key(id),
            },
    {
        self.rooms.get(&id)
    }

    /// The entry of a room, which the room gets empty if it has none.
    /// What is done to the entry is done to the registry.
    pub fn entry_mut(&mut self, id: RoomId) -> (entry: &mut RoomEntry)
        ensures
            entry@ == room_or_empty(old(self)@, id),
            final(self)@ == old(self)@.insert(id, final(entry)@),
            old(self).wf() ==> entry.wf(),
            old(self).wf() && final(entry).wf() ==> final(self).wf(),
    {
        proof {
            lemma_empty_is_valid();
        }
        let entry = self.rooms.entry(id).or_insert(RoomEntry::default());
        entry
    }

    /// Gives a room an entry in place of the one it may have.
    pub fn insert(&mut self, id: RoomId, entry: RoomEntry)
        ensures
            final(self)@ == old(self)@.insert(id, entry@),
            old(self).wf() && entry.wf() ==> final(self).wf(),
    {
        self.rooms.insert(id, entry);
        assert(self@ =~= old(self)@.insert(id, entry@));
    }

    /// Takes a room's entry away; nothing changes if it has none.
    pub fn remove(&mut self, id: RoomId)
        ensures
            final(self)@ == old(self)@.remove(id),
            old(self).wf() ==> final(self).wf(),
    {
        self.rooms.remove(&id);
        assert(self@ =~= old(self)@.remove(id));
    }

    /// The rooms that have an entry, in ascending order of their handles.
    pub fn ids(&self) -> (ids: Vec<RoomId>)
        ensures
            forall|room: RoomId| ids@.contains(room) <==> self@.contains_key(room),
            forall|i: int, j: int| 0 <= i < j < ids@.len() ==> ids@[i] < ids@[j],
    {
        let mut ids: Vec<RoomId> = Vec::new();
        let keys = self.rooms.keys();
        let ghost all = keys.remaining().unref();
        for room in it: keys
            invariant
                it.seq().unref() == all,
                all.no_duplicates(),
                forall|other: RoomId|
                    ids@.contains(other) <==> all.take(it.index() as int).contains(other),
                forall|i: int, j: int| 0 <= i < j < ids@.len() ==> ids@[i] < ids@[j],
        {
            let ghost before = ids@;
            let ghost seen = all.take(it.index() as int);
            let ghost next = all.take(it.index() + 1);
            assert(all[it.index() as int] == *room);
            assert(!seen.contains(*room)) by {
                if seen.contains(*room) {
                    let k = choose|k: int| 0 <= k < seen.len() && seen[k] == *room;
                    assert(all[k] == all[it.index() as int]);
                }
            }
            let mut at: usize = ids.len();
            while at > 0 && *room < ids[at - 1]
                invariant
                    at <= ids@.len(),
                    ids@ == before,
                    forall|j: int| at <= j < ids@.len() ==> *room < ids@[j],
                decreases at,
            {
                at -= 1;
            }
            assert(at > 0 ==> ids@[at - 1] != *room) by {
                if at > 0 {
                    assert(before.contains(before[at - 1]));
                }
            }
            ids.insert(at, *room);
            proof {
                assert forall|other: RoomId| ids@.contains(other) <==> next.contains(other) by {
                    if ids@.contains(other) {
                        let k = choose|k: int| 0 <= k < ids@.len() && ids@[k] == other;
                        if k < at {
                            assert(before[k] == other);
                        } else if k > at {
                            assert(before[k - 1] == other);
                        }
                        if other == *room {
                            assert(next[it.index() as int] == other);
                        } else {
                            assert(before.contains(other));
                            let n = choose|n: int| 0 <= n < seen.len() && seen[n] == other;
                            assert(next[n] == other);
                        }
                    }
                    if next.contains(other) {
                        let n = choose|n: int| 0 <= n < next.len() && next[n] == other;
                        if n < it.index() {
                            assert(seen[n] == other);
                            assert(before.contains(other));
                            let k = choose|k: int| 0 <= k < before.len() && before[k] == other;
                            let to = if k < at { k } else { k + 1 };
                            assert(ids@[to] == other);
                        } else {
                            assert(ids@[at as int] == other);
                        }
                    }
                }
                assert forall|i: int, j: int| 0 <= i < j < ids@.len() implies ids@[i] < ids@[j] by {
                    let from = if i < at { i } else { i - 1 };
                    let to = if j < at { j } else { j - 1 };
                    if i == at {
                        assert(*room < before[to]);
                    } else if j == at {
                        if i < at - 1 {
                            assert(before[i] < before[at - 1]);
                        }
                    } else {
                        assert(before[from] < before[to]);
                    }
                }
            }
        }
        proof {
            assert(all.take(all.len() as int) =~= all);
            assert(all.to_set() == self.rooms@.dom());
            assert forall|room: RoomId| ids@.contains(room) <==> self@.contains_key(room) by {
                assert(all.to_set().contains(room) <==> all.contains(room));
            }
        }
        ids
    }
}

} // verus!
