//! The decisions of the two relays. The host learns where each remote
//! hardware address is heard from and routes captured frames to the peers
//! that want them; a join node talks to its host alone.

use vstd::prelude::*;
use crate::frame::Frame;
use crate::frame::HwAddr;
use crate::frame::broadcast_octets;
use crate::frame::frame_option_view;
use crate::poll::Polled;
use crate::table::AddressTable;
use crate::table::Learned;
use crate::table::PeerAddr;
use crate::table::Route;
use crate::table::lists_each_entry_once;
use crate::tunnel::decode_tunnel_payload;
use crate::tunnel::encode_tunnel_payload;
use crate::tunnel::parse_tunnel;
use crate::tunnel::tunnel_bytes;

verus! {

/// One datagram for each of a list of peers, the same bytes for all.
#[derive(Clone, Debug, PartialEq, Eq)]
pub struct Outbound {
    pub payload: Vec<u8>,
    pub routes: Vec<Route>,
}

/// What follows from one datagram that the host received.
#[derive(Clone, Debug, PartialEq, Eq)]
pub struct Inbound {
    /// The frame to inject locally, if the datagram held one.
    pub inject: Option<Frame>,
    /// The entry that the routing table lacks, if it lacks one.
    pub table_update: Option<Route>,
    /// The hardware address to take out of the capture, if it is new.
    pub exclude: Option<HwAddr>,
}

/// What one poll of the capture channel makes the host's outbound loop do.
#[derive(Clone, Debug, PartialEq, Eq)]
pub enum OutboundTurn {
    /// Send these datagrams.
    Send(Outbound),
    /// No peer is known under the frame's destination: report it and go on.
    Drop,
    /// Nothing to do.
    Idle,
    /// Leave the loop.
    Stop,
}

/// The entries of `table` that a frame for `dest` goes to: all of them for
/// the broadcast address, the one under `dest` otherwise, none where
/// `dest` is unknown.
pub open spec fn routes_for(
    routes: Seq<Route>,
    table: Map<Seq<u8>, PeerAddr>,
    dest: Seq<u8>,
) -> bool {
    if dest == broadcast_octets() {
        lists_each_entry_once(routes, table)
    } else if table.contains_key(dest) {
        routes.len() == 1 && routes[0].hw@ == dest && routes[0].addr == table[dest]
    } else {
        routes.len() == 0
    }
}

/// The table after a datagram from `sender`: the source of the frame it
/// holds is now heard from `sender`; a datagram that holds no frame
/// changes nothing.
pub open spec fn table_after(
    table: Map<Seq<u8>, PeerAddr>,
    datagram: Seq<u8>,
    sender: PeerAddr,
) -> Map<Seq<u8>, PeerAddr> {
    match parse_tunnel(datagram) {
        Some(f) => table.insert(f.source, sender),
        None => table,
    }
}

/// Routes a captured frame: to every peer in the table when it is for the
/// broadcast address, to the one peer known under its destination
/// otherwise, and to nobody when that destination is unknown.
pub fn host_outbound(table: &AddressTable, frame: &Frame) -> (out: Outbound)
    requires
        table.wf(),
    ensures
        out.payload@ == tunnel_bytes(frame@),
        routes_for(out.routes@, table@, frame@.dest),
        frame@.dest == broadcast_octets() ==> out.routes@.len() == table@.len(),
        frame@.dest != broadcast_octets() && !table@.contains_key(frame@.dest)
            ==> out.routes@.len() == 0,
{
    let payload = encode_tunnel_payload(frame);
    let routes = if frame.dest_hw_addr.is_broadcast() {
        table.routes()
    } else {
        let mut one: Vec<Route> = Vec::new();
        match table.lookup(&frame.dest_hw_addr) {
            Some(addr) => {
                one.push(Route { hw: frame.dest_hw_addr, addr });
            },
            None => {},
        }
        one
    };
    Outbound { payload, routes }
}

/// Takes one datagram from `sender`. A datagram that holds no frame is
/// dropped. Otherwise the source of its frame is learned as heard from
/// `sender`; the frame goes to local injection; the routing table gets the
/// entry unless it has it already, so that a routing table that takes
/// every update stays equal to `table`; and a source never seen before is
/// to be taken out of the capture.
pub fn host_inbound(table: &mut AddressTable, datagram: &[u8], sender: PeerAddr) -> (r: Inbound)
    requires
        old(table).wf(),
    ensures
        final(table).wf(),
        final(table)@ == table_after(old(table)@, datagram@, sender),
        final(table)@ == match r.table_update {
            Some(route) => old(table)@.insert(route.hw@, route.addr),
            None => old(table)@,
        },
        frame_option_view(r.inject) == parse_tunnel(datagram@),
        match parse_tunnel(datagram@) {
            None => r.table_update is None && r.exclude is None,
            Some(f) => {
                &&& r.exclude is Some <==> !old(table)@.contains_key(f.source)
                &&& r.exclude matches Some(hw) ==> hw@ == f.source
                &&& r.table_update is None <==> old(table)@.contains_key(f.source) && old(
                    table,
                )@[f.source] == sender
                &&& r.table_update matches Some(route) ==> route.hw@ == f.source && route.addr
                    == sender
            },
        },
{
    match decode_tunnel_payload(datagram) {
        None => Inbound { inject: None, table_update: None, exclude: None },
        Some(frame) => {
            let source = frame.source_hw_addr;
            let was = table.learn(source, sender);
            let exclude = match was {
                Learned::New => Some(source),
                _ => None,
            };
            let table_update = match was {
                Learned::Known => None,
                _ => Some(Route { hw: source, addr: sender }),
            };
            assert(was == Learned::Known ==> table@ =~= old(table)@);
            Inbound { inject: Some(frame), table_update, exclude }
        },
    }
}

/// What a poll of the capture channel makes the host's outbound loop do:
/// send a frame on, drop one that is for a single peer nobody has heard
/// of, wait, or leave when the capture is gone.
pub fn host_outbound_turn(table: &AddressTable, captured: Polled<Frame>) -> (turn: OutboundTurn)
    requires
        table.wf(),
    ensures
        match captured {
            Polled::Item(frame) => if frame@.dest != broadcast_octets() && !table@.contains_key(
                frame@.dest,
            ) {
                turn is Drop
            } else {
                turn matches OutboundTurn::Send(out) && out.payload@ == tunnel_bytes(frame@)
                    && routes_for(out.routes@, table@, frame@.dest)
            },
            Polled::Empty => turn is Idle,
            Polled::Disconnected => turn is Stop,
        },
{
    match captured {
        Polled::Item(frame) => {
            let out = host_outbound(table, &frame);
            if out.routes.len() == 0 && !frame.dest_hw_addr.is_broadcast() {
                OutboundTurn::Drop
            } else {
                OutboundTurn::Send(out)
            }
        },
        Polled::Empty => OutboundTurn::Idle,
        Polled::Disconnected => OutboundTurn::Stop,
    }
}

/// What a poll of the table-update channel makes the host's outbound loop
/// do: take the entry into the routing table, or leave when the channel is
/// gone. Returns whether the loop goes on.
pub fn host_table_turn(table: &mut AddressTable, update: Polled<Route>) -> (go_on: bool)
    requires
        old(table).wf(),
    ensures
        final(table).wf(),
        match update {
            Polled::Item(route) => go_on && final(table)@ == old(table)@.insert(
                route.hw@,
                route.addr,
            ),
            Polled::Empty => go_on && final(table)@ == old(table)@,
            Polled::Disconnected => !go_on && final(table)@ == old(table)@,
        },
{
    match update {
        Polled::Item(route) => {
            table.learn(route.hw, route.addr);
            true
        },
        Polled::Empty => true,
        Polled::Disconnected => false,
    }
}

/// The table after a run of datagrams, each with its sender, oldest first.
pub open spec fn table_after_all(
    table: Map<Seq<u8>, PeerAddr>,
    datagrams: Seq<(Seq<u8>, PeerAddr)>,
) -> Map<Seq<u8>, PeerAddr>
    decreases datagrams.len(),
{
    if datagrams.len() == 0 {
        table
    } else {
        table_after(
            table_after_all(table, datagrams.drop_last()),
            datagrams.last().0,
            datagrams.last().1,
        )
    }
}

/// After any run of datagrams the table holds, for the source of each
/// frame that came, the sender of the last datagram that bore that source.
pub proof fn lemma_table_holds_latest(
    table: Map<Seq<u8>, PeerAddr>,
    datagrams: Seq<(Seq<u8>, PeerAddr)>,
    i: int,
)
    requires
        0 <= i < datagrams.len(),
        parse_tunnel(datagrams[i].0) is Some,
        forall|j: int|
            i < j < datagrams.len() ==> (parse_tunnel(#[trigger] datagrams[j].0) matches Some(g)
                ==> g.source != parse_tunnel(datagrams[i].0).unwrap().source),
    ensures
        table_after_all(table, datagrams).contains_key(
            parse_tunnel(datagrams[i].0).unwrap().source,
        ),
        table_after_all(table, datagrams)[parse_tunnel(datagrams[i].0).unwrap().source]
            == datagrams[i].1,
    decreases datagrams.len(),
{
    if i < datagrams.len() - 1 {
        let earlier = datagrams.drop_last();
        assert(earlier[i] == datagrams[i]);
        assert forall|j: int| i < j < earlier.len() implies (parse_tunnel(
            #[trigger] earlier[j].0,
        ) matches Some(g) ==> g.source != parse_tunnel(earlier[i].0).unwrap().source) by {
            assert(earlier[j] == datagrams[j]);
        }
        lemma_table_holds_latest(table, earlier, i);
        assert(datagrams.last() == datagrams[datagrams.len() - 1]);
    }
}

/// A run of datagrams never removes an entry, and leaves alone every entry
/// whose hardware address no frame in the run came from.
pub proof fn lemma_table_keeps_unheard(
    table: Map<Seq<u8>, PeerAddr>,
    datagrams: Seq<(Seq<u8>, PeerAddr)>,
    hw: Seq<u8>,
)
    requires
        table.contains_key(hw),
    ensures
        table_after_all(table, datagrams).contains_key(hw),
        (forall|j: int|
            0 <= j < datagrams.len() ==> (parse_tunnel(#[trigger] datagrams[j].0) matches Some(g)
                ==> g.source != hw)) ==> table_after_all(table, datagrams)[hw] == table[hw],
    decreases datagrams.len(),
{
    if datagrams.len() > 0 {
        let earlier = datagrams.drop_last();
        lemma_table_keeps_unheard(table, earlier, hw);
        if forall|j: int|
            0 <= j < datagrams.len() ==> (parse_tunnel(#[trigger] datagrams[j].0) matches Some(g)
                ==> g.source != hw) {
            assert forall|j: int| 0 <= j < earlier.len() implies (parse_tunnel(
                #[trigger] earlier[j].0,
            ) matches Some(g) ==> g.source != hw) by {
                assert(earlier[j] == datagrams[j]);
            }
            assert(datagrams.last() == datagrams[datagrams.len() - 1]);
        }
    }
}

} // verus!
