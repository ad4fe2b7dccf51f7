//! Rooms: groups of users that a push can address at once.

use crate::table::{room_table_get_uids, room_table_new, room_table_view};
use dashmap::DashMap;
use std::collections::HashSet;
use vstd::prelude::*;
use vstd::std_specs::iter::IteratorSpec;

verus! {

broadcast use vstd::std_specs::hash::group_hash_axioms;

/// The users of one room.
#[derive(Debug)]
pub struct Room {
    pub(crate) uids: HashSet<i64>,
    pub(crate) user_count: u64,
}

impl Room {
    /// An empty room.
    pub fn new(_room_id: i64, _room_name: &str) -> (r: Room)
        ensures
            r.members() == Set::<i64>::empty(),
            r.count() == 0,
    {
        Room { uids: HashSet::new(), user_count: 0 }
    }

    /// The users of the room.
    pub closed spec fn members(&self) -> Set<i64> {
        self.uids@
    }

    /// The count of users the room keeps beside its set of users.
    pub closed spec fn count(&self) -> u64 {
        self.user_count
    }
}

/// The rooms known to this gateway node.
pub struct RoomState {
    rooms: DashMap<i64, Room>,
}

impl View for RoomState {
    type V = Map<i64, Set<i64>>;

    closed spec fn view(&self) -> Map<i64, Set<i64>> {
        room_table_view(self.rooms)
    }
}

impl RoomState {
    /// A state with no room.
    pub fn new() -> (r: RoomState)
        ensures
            r@.dom() == Set::<i64>::empty(),
    {
        RoomState { rooms: room_table_new() }
    }

    /// The users of room `room_id`, each once, in no stated order; none for an unknown
    /// room.
    pub fn room_uids(&self, room_id: i64) -> (r: Vec<i64>)
        ensures
            r@.no_duplicates(),
            r@.to_set() == (if self@.contains_key(room_id) {
                self@[room_id]
            } else {
                Set::<i64>::empty()
            }),
    {
        let uids = match room_table_get_uids(&self.rooms, room_id) {
            Some(uids) => uids,
            None => {
                let r: Vec<i64> = Vec::new();
                proof {
                    assert(r@.to_set() =~= Set::<i64>::empty());
                }
                return r;
            },
        };
        let mut out: Vec<i64> = Vec::new();
        let ghost all = uids.iter().remaining().unref();
        for x in it: uids.iter()
            invariant
                all == it.seq().unref(),
                out@ == all.take(it.index()),
        {
            proof {
                assert(all.take(it.index() + 1) =~= all.take(it.index()).push(*x));
            }
            out.push(*x);
        }
        proof {
            assert(out@ =~= all);
        }
        out
    }
}

} // verus!
