//! The table of online connections of a gateway node: for each user, the connections
//! that user holds here, each known by a connection id.

use crate::table::{conn_table_get, conn_table_insert, conn_table_new, conn_table_remove, conn_table_view};
use dashmap::DashMap;
use vstd::prelude::*;

verus! {

/// The connections kept after removing `conn` from `conns`: all the others, in order.
pub open spec fn kept_after_remove(conns: Seq<u64>, conn: u64) -> Seq<u64> {
    conns.filter(other_conn(conn))
}

/// Whether a connection is not `conn`.
pub open spec fn other_conn(conn: u64) -> spec_fn(u64) -> bool {
    |c: u64| c != conn
}

/// Users online on this node and their connections.
pub struct OnlineTable {
    conns: DashMap<i64, Vec<u64>>,
}

impl View for OnlineTable {
    type V = Map<i64, Seq<u64>>;

    closed spec fn view(&self) -> Map<i64, Seq<u64>> {
        conn_table_view(self.conns)
    }
}

impl OnlineTable {
    #[verifier::type_invariant]
    spec fn listed_users_hold_connections(self) -> bool {
        forall|uid: i64| #[trigger]
            conn_table_view(self.conns).contains_key(uid) ==> conn_table_view(self.conns)[uid].len()
                > 0
    }

    /// Every user listed holds at least one connection.
    pub open spec fn wf(&self) -> bool {
        forall|uid: i64| #[trigger] self@.contains_key(uid) ==> self@[uid].len() > 0
    }


    /// A table with no user.
    pub fn new() -> (r: OnlineTable)
        ensures
            r@.dom() == Set::<i64>::empty(),
            r.wf(),
    {
        OnlineTable { conns: conn_table_new() }
    }

    /// Registers connection `conn` of user `uid`, after the user's other connections.
    pub fn add_conn(&mut self, uid: i64, conn: u64)
        ensures
            final(self).wf(),
            final(self)@ == old(self)@.insert(
                uid,
                (if old(self)@.contains_key(uid) {
                    old(self)@[uid]
                } else {
                    Seq::<u64>::empty()
                }).push(conn),
            ),
    {
        proof {
            use_type_invariant(&*self);
        }
        let mut list = match conn_table_get(&self.conns, uid) {
            Some(list) => list,
            None => Vec::new(),
        };
        list.push(conn);
        conn_table_insert(&mut self.conns, uid, list);
        proof {
            assert(self.wf()) by {
                assert forall|u: i64| #[trigger] self@.contains_key(u) implies self@[u].len() > 0 by {
                    if u != uid {
                        assert(old(self)@.contains_key(u));
                    }
                }
            }
        }
    }

    /// Removes connection `conn` of user `uid`: the user keeps the other connections,
    /// in order, and is dropped when none is left. The result tells whether the user was listed; where not,
    /// nothing changes.
    pub fn remove_conn(&mut self, uid: i64, conn: u64) -> (listed: bool)
        ensures
            final(self).wf(),
            listed == old(self)@.contains_key(uid),
            !listed ==> final(self)@ == old(self)@,
            listed ==> final(self)@ == (if kept_after_remove(old(self)@[uid], conn).len() == 0 {
                old(self)@.remove(uid)
            } else {
                old(self)@.insert(uid, kept_after_remove(old(self)@[uid], conn))
            }),
    {
        proof {
            use_type_invariant(&*self);
        }
        let list = match conn_table_get(&self.conns, uid) {
            Some(list) => list,
            None => return false,
        };
        let mut kept: Vec<u64> = Vec::new();
        let mut i: usize = 0;
        proof {
            reveal_with_fuel(Seq::filter, 1);
            assert(kept@ =~= kept_after_remove(list@.take(0), conn));
        }
        while i < list.len()
            invariant
                i <= list@.len(),
                kept@ == kept_after_remove(list@.take(i as int), conn),
            decreases list@.len() - i,
        {
            proof {
                assert(list@.take(i + 1) =~= list@.take(i as int).push(list@[i as int]));
                list@.take(i as int).lemma_filter_push(list@[i as int], other_conn(conn));
            }
            if list[i] != conn {
                kept.push(list[i]);
            }
            i = i + 1;
        }
        proof {
            assert(list@.take(list@.len() as int) =~= list@);
        }
        if kept.len() == 0 {
            conn_table_remove(&mut self.conns, uid);
        } else {
            conn_table_insert(&mut self.conns, uid, kept);
        }
        proof {
            assert(self.wf()) by {
                assert forall|u: i64| #[trigger] self@.contains_key(u) implies self@[u].len() > 0 by {
                    if u != uid {
                        assert(old(self)@.contains_key(u));
                    }
                }
            }
        }
        true
    }

    /// The connections of user `uid` on this node, in the order they were registered;
    /// `None` where the user holds none here.
    /// Every table, at every point, lists only users that hold at least one connection.
    pub fn connections(&self, uid: i64) -> (r: Option<Vec<u64>>)
        ensures
            self.wf(),
            match r {
                Some(v) => self@.contains_key(uid) && v@ == self@[uid],
                None => !self@.contains_key(uid),
            },
    {
        proof {
            use_type_invariant(self);
        }
        conn_table_get(&self.conns, uid)
    }
}


/// Removing a connection keeps every connection when none of them is it.
proof fn lemma_keep_all_others(conns: Seq<u64>, conn: u64)
    requires
        !conns.contains(conn),
    ensures
        kept_after_remove(conns, conn) == conns,
    decreases conns.len(),
{
    reveal_with_fuel(Seq::filter, 1);
    if conns.len() > 0 {
        assert(!conns.drop_last().contains(conn)) by {
            if conns.drop_last().contains(conn) {
                let j = choose|j: int| 0 <= j < conns.drop_last().len() && conns.drop_last()[j] == conn;
                assert(conns[j] == conn);
            }
        }
        lemma_keep_all_others(conns.drop_last(), conn);
        assert(conns.last() != conn) by {
            assert(conns[conns.len() - 1] == conns.last());
        }
        assert(conns.drop_last().push(conns.last()) =~= conns);
    }
}

/// Registering a connection the user does not hold yet and then removing it gives
/// back the table as it was.
pub proof fn law_add_then_remove_restores(before: Map<i64, Seq<u64>>, uid: i64, conn: u64)
    requires
        forall|u: i64| #[trigger] before.contains_key(u) ==> before[u].len() > 0,
        before.contains_key(uid) ==> !before[uid].contains(conn),
    ensures
        ({
            let added = before.insert(
                uid,
                (if before.contains_key(uid) {
                    before[uid]
                } else {
                    Seq::<u64>::empty()
                }).push(conn),
            );
            let kept = kept_after_remove(added[uid], conn);
            (if kept.len() == 0 {
                added.remove(uid)
            } else {
                added.insert(uid, kept)
            }) == before
        }),
{
    let prior = if before.contains_key(uid) {
        before[uid]
    } else {
        Seq::<u64>::empty()
    };
    let added = before.insert(uid, prior.push(conn));
    prior.lemma_filter_push(conn, other_conn(conn));
    lemma_keep_all_others(prior, conn);
    let kept = kept_after_remove(added[uid], conn);
    assert(kept == prior);
    if before.contains_key(uid) {
        assert(added.insert(uid, kept) =~= before);
    } else {
        assert(added.remove(uid) =~= before);
    }
}

} // verus!
