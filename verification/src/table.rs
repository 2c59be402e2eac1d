//! The host's address table: which network address each remote hardware
//! address was last heard from.

use std::collections::HashMap;
use vstd::prelude::*;
use vstd::set_lib::lemma_map_size;
use vstd::std_specs::hash::axiom_spec_hash_map_iter;
use vstd::std_specs::hash::spec_hash_map_iter;
use vstd::std_specs::iter::IteratorSpec;
use crate::frame::HwAddr;
use crate::frame::HW_KEY_LIMIT;
use crate::frame::hw_key;
use crate::frame::key_octets;
use crate::frame::lemma_hw_key_octets;
use crate::frame::lemma_key_octets;

verus! {

/// The IP address of a peer.
#[derive(Clone, Copy, Debug, PartialEq, Eq, Structural)]
pub enum PeerIp {
    V4(u32),
    V6(u128),
}

/// The network socket address of a peer: IP address and UDP port.
#[derive(Clone, Copy, Debug, PartialEq, Eq, Structural)]
pub struct PeerAddr {
    pub ip: PeerIp,
    pub port: u16,
}

/// What the table had for a hardware address when it was learned.
#[derive(Clone, Copy, Debug, PartialEq, Eq, Structural)]
pub enum Learned {
    /// The hardware address was not in the table.
    New,
    /// It was there, under another network address.
    Moved,
    /// It was there, under the same network address.
    Known,
}

/// One entry of the table.
#[derive(Clone, Copy, Debug, PartialEq, Eq)]
pub struct Route {
    pub hw: HwAddr,
    pub addr: PeerAddr,
}

/// Whether `routes` lists every entry of `table` exactly once.
pub open spec fn lists_each_entry_once(
    routes: Seq<Route>,
    table: Map<Seq<u8>, PeerAddr>,
) -> bool {
    &&& routes.len() == table.len()
    &&& forall|i: int|
        0 <= i < routes.len() ==> table.contains_key(#[trigger] routes[i].hw@) && table[routes[i].hw@]
            == routes[i].addr
    &&& forall|i: int, j: int|
        0 <= i < j < routes.len() ==> #[trigger] routes[i].hw@ != #[trigger] routes[j].hw@
}

/// A mapping from hardware address to network address, keys unique.
pub struct AddressTable {
    peers: HashMap<u64, PeerAddr>,
}

impl View for AddressTable {
    type V = Map<Seq<u8>, PeerAddr>;

    closed spec fn view(&self) -> Map<Seq<u8>, PeerAddr> {
        Map::new(
            |a: Seq<u8>| a.len() == 6 && self.peers@.contains_key(hw_key(a)),
            |a: Seq<u8>| self.peers@[hw_key(a)],
        )
    }
}

impl AddressTable {
    /// Every key that the map behind the table holds is the number of a
    /// hardware address.
    pub closed spec fn wf(&self) -> bool {
        forall|k: u64| self.peers@.contains_key(k) ==> k < HW_KEY_LIMIT
    }

    /// A table holds finitely many entries, each under a six-byte key.
    pub proof fn lemma_keys(&self)
        requires
            self.wf(),
        ensures
            self@.dom().finite(),
            forall|a: Seq<u8>| self@.contains_key(a) ==> a.len() == 6,
    {
        self.lemma_view();
    }

    /// The table holds as many entries as the map behind it.
    proof fn lemma_view(&self)
        requires
            self.wf(),
        ensures
            self@.dom().finite(),
            self@.dom().len() == self.peers@.dom().len(),
            forall|a: Seq<u8>| self@.contains_key(a) ==> a.len() == 6,
    {
        let keys = self.peers@.dom();
        let f = |k: u64| key_octets(k);
        assert(vstd::relations::injective_on(f, keys)) by {
            assert forall|x: u64, y: u64|
                keys.contains(x) && keys.contains(y) && #[trigger] f(x) == #[trigger] f(
                    y,
                ) implies x == y by {
                lemma_key_octets(x);
                lemma_key_octets(y);
            }
        }
        assert(keys.map(f) =~= self@.dom()) by {
            assert forall|a: Seq<u8>| keys.map(f).contains(a) implies self@.dom().contains(a) by {
                let k = choose|k: u64| keys.contains(k) && a == f(k);
                lemma_key_octets(k);
            }
            assert forall|a: Seq<u8>| self@.dom().contains(a) implies keys.map(f).contains(a) by {
                lemma_hw_key_octets(a);
                assert(keys.contains(hw_key(a)) && a == f(hw_key(a)));
            }
        }
        lemma_map_size(keys, self@.dom(), f);
    }

    /// The empty table.
    pub fn new() -> (table: AddressTable)
        ensures
            table.wf(),
            table@ == Map::<Seq<u8>, PeerAddr>::empty(),
    {
        let table = AddressTable { peers: HashMap::new() };
        assert(table@ =~= Map::<Seq<u8>, PeerAddr>::empty());
        table
    }

    /// The number of hardware addresses in the table.
    pub fn len(&self) -> (n: usize)
        requires
            self.wf(),
        ensures
            self@.dom().finite(),
            n == self@.len(),
    {
        proof {
            self.lemma_view();
        }
        self.peers.len()
    }

    /// The network address that the table has for `hw`, if any.
    pub fn lookup(&self, hw: &HwAddr) -> (addr: Option<PeerAddr>)
        ensures
            addr == if self@.contains_key(hw@) {
                Some(self@[hw@])
            } else {
                None
            },
    {
        let key = hw.key();
        match self.peers.get(&key) {
            Some(addr) => Some(*addr),
            None => None,
        }
    }

    /// Records that `hw` was heard from `addr`, overwriting what the table
    /// had for `hw`, and tells what it had.
    pub fn learn(&mut self, hw: HwAddr, addr: PeerAddr) -> (was: Learned)
        requires
            old(self).wf(),
        ensures
            final(self).wf(),
            final(self)@ == old(self)@.insert(hw@, addr),
            was == if !old(self)@.contains_key(hw@) {
                Learned::New
            } else if old(self)@[hw@] != addr {
                Learned::Moved
            } else {
                Learned::Known
            },
    {
        let key = hw.key();
        let before = self.peers.insert(key, addr);
        proof {
            assert(final(self)@ =~= old(self)@.insert(hw@, addr)) by {
                assert forall|a: Seq<u8>| a.len() == 6 && hw_key(a) == key implies a == hw@ by {
                    lemma_hw_key_octets(a);
                    lemma_hw_key_octets(hw@);
                }
            }
        }
        match before {
            None => Learned::New,
            Some(old_addr) => if old_addr != addr {
                Learned::Moved
            } else {
                Learned::Known
            },
        }
    }

    /// Every entry of the table, each once, in no particular order.
    pub fn routes(&self) -> (routes: Vec<Route>)
        requires
            self.wf(),
        ensures
            lists_each_entry_once(routes@, self@),
    {
        let mut routes: Vec<Route> = Vec::new();
        proof {
            self.lemma_view();
            axiom_spec_hash_map_iter(&self.peers);
        }
        let ghost all = spec_hash_map_iter(&self.peers).remaining();
        for entry in it: self.peers.iter()
            invariant
                self.wf(),
                it.seq() == all,
                all.len() == self.peers@.dom().len(),
                forall|i: int|
                    0 <= i < all.len() ==> self.peers@.contains_key(*(#[trigger] all[i]).0)
                        && self.peers@[*all[i].0] == *all[i].1,
                routes@.len() == it.index(),
                forall|i: int|
                    0 <= i < routes@.len() ==> (#[trigger] routes@[i]).hw@ == key_octets(*all[i].0)
                        && routes@[i].addr == *all[i].1,
        {
            let (key, addr) = entry;
            routes.push(Route { hw: HwAddr::from_key(*key), addr: *addr });
        }
        proof {
            assert forall|i: int| 0 <= i < routes@.len() implies self@.contains_key(
                #[trigger] routes@[i].hw@,
            ) && self@[routes@[i].hw@] == routes@[i].addr by {
                lemma_key_octets(*all[i].0);
            }
            assert forall|i: int, j: int| 0 <= i < j < routes@.len() implies #[trigger] routes@[i].hw@
                != #[trigger] routes@[j].hw@ by {
                lemma_key_octets(*all[i].0);
                lemma_key_octets(*all[j].0);
                if routes@[i].hw@ == routes@[j].hw@ {
                    assert(*all[i].0 == *all[j].0);
                    assert(*all[i].1 == *all[j].1);
                    assert(all[i] == all[j]);
                }
            }
        }
        routes
    }
}

} // verus!
