//! Push fan-out bookkeeping: which connection subscribes to which
//! store, and who receives a broadcast. The transport performs the
//! sends and reports the connections whose channel failed.

use vstd::prelude::*;

use crate::event::Event;
use crate::strutil::string_eq_str;

verus! {

/// Messages sent over the push channel.
pub enum WsMessage {
    Event { store_id: String, event: Event },
    StoreInfo { store_id: String, event_count: usize, latest_version: i64 },
    Subscribed { store_id: String, connection_id: String },
    Error { message: String },
    Ping,
    Pong,
}

/// Messages clients send over the push channel.
pub enum ClientMessage {
    Subscribe { store_id: String },
    Unsubscribe { store_id: String },
    Ping,
}

/// The subscribers of one store.
pub struct StoreSubscribers {
    pub store_id: String,
    pub connections: Vec<String>,
}

/// The mathematical shape of one store's subscriber list.
#[verifier::ext_equal]
pub struct StoreSubscribersV {
    pub store_id: Seq<char>,
    pub connections: Seq<Seq<char>>,
}

impl View for StoreSubscribers {
    type V = StoreSubscribersV;

    open spec fn view(&self) -> StoreSubscribersV {
        StoreSubscribersV { store_id: self.store_id@, connections: self.connections.deep_view() }
    }
}

impl DeepView for StoreSubscribers {
    type V = StoreSubscribersV;

    open spec fn deep_view(&self) -> StoreSubscribersV {
        self.view()
    }
}

/// Position of the first subscriber list of a store, or the length
/// when none matches.
pub open spec fn subs_idx(subs: Seq<StoreSubscribersV>, id: Seq<char>) -> int
    decreases subs.len(),
{
    if subs.len() == 0 {
        0
    } else if subs[0].store_id == id {
        0
    } else {
        1 + subs_idx(subs.skip(1), id)
    }
}

/// The first-match position is the scan position.
proof fn lemma_subs_idx_at(subs: Seq<StoreSubscribersV>, id: Seq<char>, k: int)
    requires
        0 <= k <= subs.len(),
        forall|j: int| 0 <= j < k ==> (#[trigger] subs[j]).store_id != id,
        k < subs.len() ==> subs[k].store_id == id,
    ensures
        subs_idx(subs, id) == k,
    decreases k,
{
    if k > 0 {
        lemma_subs_idx_at(subs.skip(1), id, k - 1);
    } else if subs.len() > 0 && subs[0].store_id != id {
        assert(k < subs.len());
    }
}

/// A connection id removed from a connection list.
pub open spec fn conns_without(conns: Seq<Seq<char>>, conn_id: Seq<char>) -> Seq<Seq<char>> {
    conns.filter(|c: Seq<char>| c != conn_id)
}

/// A subscriber map after one connection left one store: the
/// connection is removed, and the store's list disappears when it
/// empties.
pub open spec fn spec_unsubscribe(
    subs: Seq<StoreSubscribersV>,
    store_id: Seq<char>,
    conn_id: Seq<char>,
) -> Seq<StoreSubscribersV> {
    let i = subs_idx(subs, store_id);
    if i < subs.len() {
        let remaining = conns_without(subs[i].connections, conn_id);
        if remaining.len() == 0 {
            subs.remove(i)
        } else {
            subs.update(i, StoreSubscribersV { connections: remaining, ..subs[i] })
        }
    } else {
        subs
    }
}

/// The per-store registry of push subscribers.
pub struct ConnectionManager {
    subscriptions: Vec<StoreSubscribers>,
}

impl View for ConnectionManager {
    type V = Seq<StoreSubscribersV>;

    closed spec fn view(&self) -> Seq<StoreSubscribersV> {
        self.subscriptions.deep_view()
    }
}

impl ConnectionManager {
    /// A registry with no subscribers.
    pub fn new() -> (r: Self)
        ensures
            r@ == Seq::<StoreSubscribersV>::empty(),
    {
        let r = ConnectionManager { subscriptions: Vec::new() };
        proof {
            assert(r@ =~= Seq::<StoreSubscribersV>::empty());
        }
        r
    }

    /// Scan for the subscriber list of a store.
    fn find_subs(&self, store_id: &str) -> (r: usize)
        ensures
            r == subs_idx(self@, store_id@),
            r <= self@.len(),
            r < self@.len() ==> self@[r as int].store_id == store_id@,
            forall|j: int| 0 <= j < r ==> (#[trigger] self@[j]).store_id != store_id@,
    {
        let n = self.subscriptions.len();
        let mut i: usize = 0;
        while i < n
            invariant
                n == self.subscriptions@.len(),
                self@ == self.subscriptions.deep_view(),
                i <= n,
                forall|j: int| 0 <= j < i ==> (#[trigger] self@[j]).store_id != store_id@,
            decreases n - i,
        {
            proof {
                assert(self@[i as int] == self.subscriptions@[i as int]@);
            }
            if string_eq_str(&self.subscriptions[i].store_id, store_id) {
                proof {
                    lemma_subs_idx_at(self@, store_id@, i as int);
                }
                return i;
            }
            i = i + 1;
        }
        proof {
            lemma_subs_idx_at(self@, store_id@, n as int);
        }
        n
    }

    /// Subscribe a connection to a store.
    pub fn subscribe(&mut self, store_id: &str, connection_id: &str)
        ensures
            ({
                let i = subs_idx(old(self)@, store_id@);
                if i < old(self)@.len() {
                    final(self)@ == old(self)@.update(
                        i,
                        StoreSubscribersV {
                            connections: old(self)@[i].connections.push(connection_id@),
                            ..old(self)@[i]
                        },
                    )
                } else {
                    final(self)@ == old(self)@.push(
                        StoreSubscribersV {
                            store_id: store_id@,
                            connections: seq![connection_id@],
                        },
                    )
                }
            }),
    {
        let i = self.find_subs(store_id);
        let ghost s0 = self@;
        if i < self.subscriptions.len() {
            let mut entry = self.subscriptions.remove(i);
            let ghost conns0 = entry.connections.deep_view();
            entry.connections.push(String::from_str(connection_id));
            proof {
                assert(entry.connections.deep_view() =~= conns0.push(connection_id@));
            }
            self.subscriptions.insert(i, entry);
            proof {
                assert(self@ =~= s0.update(
                    i as int,
                    StoreSubscribersV {
                        connections: s0[i as int].connections.push(connection_id@),
                        ..s0[i as int]
                    },
                ));
            }
        } else {
            let mut conns: Vec<String> = Vec::new();
            conns.push(String::from_str(connection_id));
            proof {
                assert(conns.deep_view() =~= seq![connection_id@]);
            }
            let entry = StoreSubscribers {
                store_id: String::from_str(store_id),
                connections: conns,
            };
            self.subscriptions.push(entry);
            proof {
                assert(self@ =~= s0.push(
                    StoreSubscribersV { store_id: store_id@, connections: seq![connection_id@] },
                ));
            }
        }
    }

    /// Remove a connection from a store; an emptied list disappears.
    pub fn unsubscribe(&mut self, store_id: &str, connection_id: &str)
        ensures
            final(self)@ == spec_unsubscribe(old(self)@, store_id@, connection_id@),
    {
        let i = self.find_subs(store_id);
        let ghost s0 = self@;
        if i < self.subscriptions.len() {
            let mut entry = self.subscriptions.remove(i);
            proof {
                assert(entry@ == s0[i as int]);
            }
            let ghost conns0 = entry.connections.deep_view();
            let n = entry.connections.len();
            let mut kept: Vec<String> = Vec::new();
            let mut j: usize = 0;
            proof {
                reveal(Seq::filter);
                assert(conns0.take(0) =~= Seq::<Seq<char>>::empty());
                assert(kept.deep_view() =~= conns_without(conns0.take(0), connection_id@));
            }
            while j < n
                invariant
                    n == entry.connections@.len(),
                    conns0 == entry.connections.deep_view(),
                    conns0.len() == n,
                    j <= n,
                    kept.deep_view() == conns_without(conns0.take(j as int), connection_id@),
                decreases n - j,
            {
                proof {
                    reveal(Seq::filter);
                    assert(entry.connections.deep_view()[j as int]
                        == entry.connections@[j as int]@);
                    assert(conns0.take(j + 1).drop_last() =~= conns0.take(j as int));
                    assert(conns0.take(j + 1).last() == conns0[j as int]);
                }
                let ghost kept0 = kept.deep_view();
                if !string_eq_str(&entry.connections[j], connection_id) {
                    kept.push(entry.connections[j].clone());
                    proof {
                        assert(kept.deep_view() =~= kept0.push(conns0[j as int]));
                    }
                }
                j = j + 1;
            }
            proof {
                assert(conns0.take(n as int) =~= conns0);
            }
            if kept.len() > 0 {
                entry.connections = kept;
                let ghost newv = entry@;
                self.subscriptions.insert(i, entry);
                proof {
                    assert(self@ =~= s0.update(i as int, newv));
                }
            } else {
                proof {
                    assert(self@ =~= s0.remove(i as int));
                }
            }
        }
    }

    /// The connections subscribed to a store, in subscription order:
    /// the targets of one broadcast. This is the whole fan-out
    /// decision: a broadcast for a store attempts one send per entry
    /// of this list and touches no other store's subscribers; the
    /// transport reports the entries whose channel failed, which
    /// `unsubscribe` then removes.
    pub fn broadcast_targets(&self, store_id: &str) -> (r: Vec<String>)
        ensures
            ({
                let i = subs_idx(self@, store_id@);
                if i < self@.len() {
                    r.deep_view() == self@[i].connections
                } else {
                    r.deep_view() == Seq::<Seq<char>>::empty()
                }
            }),
    {
        let i = self.find_subs(store_id);
        let mut out: Vec<String> = Vec::new();
        if i < self.subscriptions.len() {
            let ghost conns = self@[i as int].connections;
            proof {
                assert(self.subscriptions@[i as int]@ == self@[i as int]);
            }
            let n = self.subscriptions[i].connections.len();
            let mut j: usize = 0;
            proof {
                assert(out.deep_view() =~= conns.take(0));
            }
            while j < n
                invariant
                    i < self.subscriptions@.len(),
                    n == self.subscriptions@[i as int].connections@.len(),
                    conns == self.subscriptions@[i as int].connections.deep_view(),
                    conns.len() == n,
                    j <= n,
                    out.deep_view() == conns.take(j as int),
                decreases n - j,
            {
                proof {
                    assert(self.subscriptions@[i as int].connections.deep_view()[j as int]
                        == self.subscriptions@[i as int].connections@[j as int]@);
                }
                let ghost out0 = out.deep_view();
                out.push(self.subscriptions[i].connections[j].clone());
                proof {
                    assert(out.deep_view() =~= out0.push(conns[j as int]));
                    assert(out.deep_view() =~= conns.take(j + 1));
                }
                j = j + 1;
            }
            proof {
                assert(conns.take(n as int) =~= conns);
            }
        }
        out
    }

    /// Remove a connection from every store; emptied lists disappear.
    pub fn disconnect(&mut self, connection_id: &str)
        ensures
            ({
                let kept = old(self)@.filter(
                    |s: StoreSubscribersV| conns_without(s.connections, connection_id@).len() > 0,
                );
                &&& final(self)@.len() == kept.len()
                &&& forall|i: int|
                    0 <= i < kept.len() ==> (#[trigger] final(self)@[i]) == (StoreSubscribersV {
                        connections: conns_without(kept[i].connections, connection_id@),
                        ..kept[i]
                    })
            }),
    {
        let ghost s0 = self@;
        let n = self.subscriptions.len();
        let mut kept: Vec<StoreSubscribers> = Vec::new();
        let ghost keep_pred = |s: StoreSubscribersV|
            conns_without(s.connections, connection_id@).len() > 0;
        let mut i: usize = 0;
        proof {
            reveal(Seq::filter);
            assert(s0.take(0) =~= Seq::<StoreSubscribersV>::empty());
            assert(s0.take(0).filter(keep_pred) =~= Seq::<StoreSubscribersV>::empty());
        }
        while i < n
            invariant
                n == self.subscriptions@.len(),
                s0 == self.subscriptions.deep_view(),
                s0.len() == n,
                i <= n,
                keep_pred == (|s: StoreSubscribersV|
                    conns_without(s.connections, connection_id@).len() > 0),
                kept.deep_view().len() == s0.take(i as int).filter(keep_pred).len(),
                forall|k: int|
                    0 <= k < kept.deep_view().len() ==> (#[trigger] kept.deep_view()[k]) == (
                    StoreSubscribersV {
                        connections: conns_without(
                            s0.take(i as int).filter(keep_pred)[k].connections,
                            connection_id@,
                        ),
                        ..s0.take(i as int).filter(keep_pred)[k]
                    }),
            decreases n - i,
        {
            proof {
                reveal(Seq::filter);
                assert(self.subscriptions.deep_view()[i as int]
                    == self.subscriptions@[i as int]@);
                assert(s0.take(i + 1).drop_last() =~= s0.take(i as int));
                assert(s0.take(i + 1).last() == s0[i as int]);
            }
            // strip the connection from this store's list
            let ghost conns0 = self.subscriptions[i as int]@.connections;
            let m = self.subscriptions[i].connections.len();
            let mut remaining: Vec<String> = Vec::new();
            let mut j: usize = 0;
            proof {
                reveal(Seq::filter);
                assert(conns0.take(0) =~= Seq::<Seq<char>>::empty());
                assert(remaining.deep_view() =~= conns_without(conns0.take(0), connection_id@));
            }
            while j < m
                invariant
                    i < self.subscriptions@.len(),
                    m == self.subscriptions@[i as int].connections@.len(),
                    conns0 == self.subscriptions@[i as int].connections.deep_view(),
                    conns0.len() == m,
                    j <= m,
                    remaining.deep_view() == conns_without(conns0.take(j as int), connection_id@),
                decreases m - j,
            {
                proof {
                    reveal(Seq::filter);
                    assert(self.subscriptions@[i as int].connections.deep_view()[j as int]
                        == self.subscriptions@[i as int].connections@[j as int]@);
                    assert(conns0.take(j + 1).drop_last() =~= conns0.take(j as int));
                    assert(conns0.take(j + 1).last() == conns0[j as int]);
                }
                let ghost r0 = remaining.deep_view();
                if !string_eq_str(&self.subscriptions[i].connections[j], connection_id) {
                    remaining.push(self.subscriptions[i].connections[j].clone());
                    proof {
                        assert(remaining.deep_view() =~= r0.push(conns0[j as int]));
                    }
                }
                j = j + 1;
            }
            proof {
                assert(conns0.take(m as int) =~= conns0);
            }
            if remaining.len() > 0 {
                let ghost kept0 = kept.deep_view();
                kept.push(
                    StoreSubscribers {
                        store_id: self.subscriptions[i].store_id.clone(),
                        connections: remaining,
                    },
                );
                proof {
                    assert(kept.deep_view() =~= kept0.push(
                        StoreSubscribersV {
                            store_id: s0[i as int].store_id,
                            connections: conns_without(s0[i as int].connections, connection_id@),
                        },
                    ));
                }
            }
            i = i + 1;
        }
        proof {
            assert(s0.take(n as int) =~= s0);
        }
        self.subscriptions = kept;
    }

    /// How many connections a store has.
    pub fn get_connection_count(&self, store_id: &str) -> (r: usize)
        ensures
            ({
                let i = subs_idx(self@, store_id@);
                if i < self@.len() {
                    r == self@[i].connections.len()
                } else {
                    r == 0
                }
            }),
    {
        let i = self.find_subs(store_id);
        if i < self.subscriptions.len() {
            proof {
                assert(self.subscriptions@[i as int]@ == self@[i as int]);
            }
            self.subscriptions[i].connections.len()
        } else {
            0
        }
    }
}

/// Total number of subscriptions over a subscriber map.
pub open spec fn total_connections(subs: Seq<StoreSubscribersV>) -> int
    decreases subs.len(),
{
    if subs.len() == 0 {
        0
    } else {
        subs[0].connections.len() + total_connections(subs.skip(1))
    }
}

impl ConnectionManager {
    /// How many subscriptions exist over all stores, saturated at the
    /// machine limit (which real registries never reach).
    pub fn get_total_connections(&self) -> (r: usize)
        ensures
            total_connections(self@) <= usize::MAX ==> r == total_connections(self@),
            total_connections(self@) > usize::MAX ==> r == usize::MAX,
    {
        let n = self.subscriptions.len();
        let mut total: usize = 0;
        let mut i: usize = 0;
        proof {
            assert(self@.skip(0) =~= self@);
            lemma_total_connections_nonneg(self@);
        }
        while i < n
            invariant
                n == self.subscriptions@.len(),
                self@ == self.subscriptions.deep_view(),
                i <= n,
                total_connections(self@.skip(i as int)) >= 0,
                ({
                    let pre = total_connections(self@) - total_connections(self@.skip(i as int));
                    &&& pre >= 0
                    &&& (pre <= usize::MAX ==> total == pre)
                    &&& (pre > usize::MAX ==> total == usize::MAX)
                }),
            decreases n - i,
        {
            proof {
                assert(self@[i as int] == self.subscriptions@[i as int]@);
                assert(self@.skip(i as int)[0] == self@[i as int]);
                assert(self@.skip(i as int).skip(1) =~= self@.skip(i + 1));
                lemma_total_connections_nonneg(self@.skip(i + 1));
            }
            let count = self.subscriptions[i].connections.len();
            total = if total <= usize::MAX - count {
                total + count
            } else {
                usize::MAX
            };
            i = i + 1;
        }
        proof {
            assert(self@.skip(n as int).len() == 0);
        }
        total
    }
}

/// A subscription count is never negative.
proof fn lemma_total_connections_nonneg(subs: Seq<StoreSubscribersV>)
    ensures
        total_connections(subs) >= 0,
    decreases subs.len(),
{
    if subs.len() > 0 {
        lemma_total_connections_nonneg(subs.skip(1));
    }
}

impl Default for ConnectionManager {
    fn default() -> (r: Self)
        ensures
            r@ == Seq::<StoreSubscribersV>::empty(),
    {
        ConnectionManager::new()
    }
}

} // verus!
