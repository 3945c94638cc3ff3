//! Membership in the mesh: what the pages show of it, and the servicing slice
//! that each pass of the main loop gives it. Within a slice packets are polled
//! for with precise times, and a transmission is made when one falls near.
//! Packets that came between slices have no precise time, so a beacon that the
//! first poll of a slice finds is dropped rather than have it set the timeline.
use vstd::prelude::*;
use vstd::string::*;
use vstd::utf8::*;

use crate::text::{
    self, dec, dec_signed, from_utf8_lossy, hex, lossy_text, pad_right, push_dec, push_hex, push_int,
    push_padded,
};

verus! {

/// Microseconds of polling in one pass.
pub const SLICE_BUDGET_US: u64 = 30_000;

/// A transmission due within this many microseconds is waited for in the
/// slice.
pub const TX_WAIT_HORIZON_US: u64 = 120_000;

/// Microseconds between polls.
pub const POLL_PAUSE_US: u32 = 50;

/// The text of bytes that are well-formed UTF-8.
pub open spec fn utf8_text(bytes: Seq<u8>) -> Option<Seq<char>> {
    if valid_utf8(bytes) {
        Some(decode_utf8(bytes))
    } else {
        None
    }
}

/// The text of a name that is claimed, where there is one that can be read.
pub open spec fn claimed_text(claim: Option<Seq<u8>>) -> Option<Seq<char>> {
    match claim {
        Some(b) => utf8_text(b),
        None => None,
    }
}

/// A node by its name with the end of its id, since names are only claims; or
/// by its id alone.
pub open spec fn node_text(id: u32, claim: Option<Seq<u8>>) -> Seq<char> {
    match claimed_text(claim) {
        Some(name) => name + " ("@ + hex(id as int, 4) + ")"@,
        None => hex(id as int, 8),
    }
}

/// An optional byte string, as its bytes.
pub open spec fn bytes_of(b: Option<Vec<u8>>) -> Option<Seq<u8>> {
    match b {
        Some(v) => Some(v@),
        None => None,
    }
}

/// The text of `bytes`, where they are well-formed UTF-8.
fn read_text(bytes: &[u8]) -> (r: Option<&str>)
    ensures
        r is Some <==> valid_utf8(bytes@),
        r matches Some(s) ==> s@ == decode_utf8(bytes@),
{
    let s: Option<&str> = text::from_utf8(bytes);
    proof {
        if let Some(t) = s {
            encode_utf8_decode_utf8(t@);
        }
    }
    s
}

/// Writes a node by its name or its id.
fn push_node(out: &mut String, id: u32, claim: &Option<Vec<u8>>)
    ensures
        final(out)@ == old(out)@ + node_text(id, bytes_of(*claim)),
{
    let ghost before = out@;
    match claim {
        Some(b) => match read_text(b.as_slice()) {
            Some(name) => {
                out.append(name);
                out.append(" (");
                push_hex(out, id as u64, 4);
                out.append(")");
                assert(out@ =~= before + node_text(id, bytes_of(*claim)));
            },
            None => {
                push_hex(out, id as u64, 8);
            },
        },
        None => {
            push_hex(out, id as u64, 8);
        },
    }
}

/// A message as the engine hands it over: its author, its number there, when it
/// was written, where that is known, and its bytes.
pub struct Incoming {
    pub from: u32,
    pub msg_id: u32,
    pub utc_seconds: Option<u64>,
    pub body: Vec<u8>,
}

/// The next message, where there is one: its author, when it was written, and
/// its text. What of it is not well-formed UTF-8 is replaced.
pub fn take_text(incoming: &Option<Incoming>) -> (r: Option<(u32, Option<u64>, String)>)
    ensures
        r is Some <==> incoming is Some,
        r matches Some(t) ==> {
            let m = incoming->0;
            &&& t.0 == m.from
            &&& t.1 == m.utc_seconds
            &&& t.2@ == lossy_text(m.body@)
            &&& valid_utf8(m.body@) ==> t.2@ == decode_utf8(m.body@)
        },
{
    match incoming {
        Some(m) => Some((m.from, m.utc_seconds, from_utf8_lossy(m.body.as_slice()))),
        None => None,
    }
}

/// The id of the node with a hardware address.
pub open spec fn id_of(mac: Seq<u8>) -> int {
    mac[2] * 0x1000000 + mac[3] * 0x10000 + mac[4] * 0x100 + mac[5]
}

/// A node's id: the last four bytes of its hardware address.
pub fn node_id_of(mac: &[u8; 6]) -> (r: u32)
    ensures
        r == id_of(mac@),
        r == mac@[2] * 0x1000000 + mac@[3] * 0x10000 + mac@[4] * 0x100 + mac@[5],
{
    mac[2] as u32 * 0x1000000 + mac[3] as u32 * 0x10000 + mac[4] as u32 * 0x100 + mac[5] as u32
}

/// What the engine knows of a peer.
pub struct Peer {
    pub id: u32,
    /// The name claimed for it.
    pub alias: Option<Vec<u8>>,
    pub slot: Option<u16>,
    pub rssi_dbm: Option<i16>,
    pub heard_age_us: Option<u64>,
    /// The node that told of it, where it is known by hearsay.
    pub via: Option<u32>,
    /// The name claimed for that node.
    pub via_alias: Option<Vec<u8>>,
}

/// What the engine knows of the mesh.
pub struct Outlook {
    /// The root of the timeline and the distance from it.
    pub root: Option<(u32, u8)>,
    pub slot: Option<u16>,
    pub frame_number: Option<u64>,
    pub peer_count: usize,
    pub store_len: usize,
    /// The name claimed for this node.
    pub alias: Option<Vec<u8>>,
}

/// The slot of a peer in the table.
pub open spec fn peer_slot(slot: Option<u16>) -> Seq<char> {
    match slot {
        Some(s) => dec(s as int),
        None => "--"@,
    }
}

/// The name claimed for a node: this node's own where it is that one.
pub open spec fn claim_for(
    id: u32,
    node_id: u32,
    own_claim: Option<Vec<u8>>,
    claim: Option<Vec<u8>>,
) -> Option<Seq<u8>> {
    if id == node_id {
        bytes_of(own_claim)
    } else {
        bytes_of(claim)
    }
}

/// A peer's row: one that was heard with the strength and age of its signal,
/// one that is known by hearsay with the node that told of it.
pub open spec fn peer_row(p: Peer, node_id: u32, own_claim: Option<Vec<u8>>) -> Seq<char> {
    let name = pad_right(node_text(p.id, claim_for(p.id, node_id, own_claim, p.alias)), 22);
    let slot = peer_slot(p.slot);
    if p.rssi_dbm is Some && p.heard_age_us is Some {
        name + pad_right(slot, 7) + pad_right(dec_signed(p.rssi_dbm->0 as int), 6) + dec(
            p.heard_age_us->0 as int / 1_000_000,
        ) + "s ago"@
    } else if p.via is Some {
        name + pad_right(slot, 7) + "via "@ + node_text(
            p.via->0,
            claim_for(p.via->0, node_id, own_claim, p.via_alias),
        )
    } else {
        name + slot
    }
}

/// What this node counts of its own traffic.
pub struct Mesh {
    pub node_id: u32,
    pub rx_count: u32,
    pub tx_count: u32,
    pub last_rssi_dbm: Option<i16>,
    /// The second of UTC that the engine was told last.
    pub last_utc_fed: u64,
}

/// What a poll of the radio gave.
#[derive(Clone, Copy, Debug, PartialEq, Eq, Structural)]
pub enum Polled {
    /// No packet, or an error.
    Nothing,
    /// A packet; whether it is a beacon, and how strong it was.
    Packet { beacon: bool, rssi: i16 },
}

/// What follows a poll.
#[derive(Clone, Copy, Debug, PartialEq, Eq, Structural)]
pub enum PollStep {
    /// Pause and poll again.
    Pause,
    /// Drop the packet and poll again.
    Drop,
    /// Hand the packet to the engine and plan anew.
    Feed,
}

/// What follows a poll, where `stale` says that a packet may have waited since
/// before the slice.
pub open spec fn poll_outcome(stale: bool, polled: Polled) -> PollStep {
    match polled {
        Polled::Nothing => PollStep::Pause,
        Polled::Packet { beacon, .. } => if stale && beacon {
            PollStep::Drop
        } else {
            PollStep::Feed
        },
    }
}

/// What a slice does until a deadline.
#[derive(Clone, Copy, Debug, PartialEq, Eq, Structural)]
pub enum Goal {
    /// Listen until then and transmit.
    TransmitAt(u64),
    /// Listen until then and end the slice.
    ListenUntil(u64),
}

/// A servicing slice.
pub struct Slice {
    pub end: u64,
    /// Whether a packet that is found may have waited since before the slice.
    pub stale: bool,
}

impl Slice {
    /// A slice that begins now.
    pub fn begin(now: u64) -> (r: Self)
        requires
            now + SLICE_BUDGET_US <= u64::MAX,
        ensures
            r.end == now + SLICE_BUDGET_US,
            r.stale,
    {
        Slice { end: now + SLICE_BUDGET_US, stale: true }
    }

    /// What to do, where `transmit_at` is when the engine next wants to
    /// transmit.
    pub fn plan(&self, now: u64, transmit_at: Option<u64>) -> (r: Goal)
        requires
            now + TX_WAIT_HORIZON_US <= u64::MAX,
        ensures
            r == goal_of(self.end, now, transmit_at),
            r == match transmit_at {
                Some(at) => if at <= now + TX_WAIT_HORIZON_US {
                    Goal::TransmitAt(at)
                } else {
                    Goal::ListenUntil(self.end)
                },
                None => Goal::ListenUntil(self.end),
            },
    {
        match transmit_at {
            Some(at) => if at <= now + TX_WAIT_HORIZON_US {
                Goal::TransmitAt(at)
            } else {
                Goal::ListenUntil(self.end)
            },
            None => Goal::ListenUntil(self.end),
        }
    }

    /// Whether a slice that transmitted is over.
    pub fn over(&self, now: u64) -> (r: bool)
        ensures
            r == (now >= self.end),
    {
        now >= self.end
    }
}

impl Mesh {
    /// A node that has heard and sent nothing.
    pub fn new(node_id: u32) -> (r: Self)
        ensures
            r == (Mesh {
                node_id,
                rx_count: 0,
                tx_count: 0,
                last_rssi_dbm: None,
                last_utc_fed: 0,
            }),
    {
        Mesh { node_id, rx_count: 0, tx_count: 0, last_rssi_dbm: None, last_utc_fed: 0 }
    }

    /// Takes a second of UTC and says whether the engine is told: only one
    /// that it was not told last.
    pub fn on_gps_second(&mut self, utc_seconds: u64) -> (r: bool)
        ensures
            r == (utc_seconds != old(self).last_utc_fed),
            *final(self) == (Mesh { last_utc_fed: utc_seconds, ..*old(self) }),
    {
        if utc_seconds != self.last_utc_fed {
            self.last_utc_fed = utc_seconds;
            true
        } else {
            false
        }
    }

    /// The node after a poll: it counts what it heard.
    pub open spec fn after_poll(self, polled: Polled) -> Mesh {
        match polled {
            Polled::Nothing => self,
            Polled::Packet { rssi, .. } => Mesh {
                rx_count: ((self.rx_count + 1) % 0x1_0000_0000) as u32,
                last_rssi_dbm: Some(rssi),
                ..self
            },
        }
    }

    /// The node after a transmission: it counts it.
    pub open spec fn after_sending(self) -> Mesh {
        Mesh { tx_count: ((self.tx_count + 1) % 0x1_0000_0000) as u32, ..self }
    }

    /// Takes the outcome of a poll.
    pub fn poll(&mut self, slice: &mut Slice, polled: Polled) -> (r: PollStep)
        ensures
            *final(slice) == (Slice { stale: false, ..*old(slice) }),
            r == poll_outcome(old(slice).stale, polled),
            *final(self) == old(self).after_poll(polled),
    {
        let was_stale: bool = slice.stale;
        slice.stale = false;
        match polled {
            Polled::Nothing => PollStep::Pause,
            Polled::Packet { beacon, rssi } => {
                self.rx_count = self.rx_count.wrapping_add(1);
                self.last_rssi_dbm = Some(rssi);
                if was_stale && beacon {
                    PollStep::Drop
                } else {
                    PollStep::Feed
                }
            },
        }
    }

    /// Counts a transmission that was made.
    pub fn transmitted(&mut self)
        ensures
            *final(self) == old(self).after_sending(),
    {
        self.tx_count = self.tx_count.wrapping_add(1);
    }

    /// A node by its name or its id, where `own_claim` is the name of this
    /// node and `claim` the one claimed for that node.
    pub fn display_name(
        &self,
        id: u32,
        own_claim: &Option<Vec<u8>>,
        claim: &Option<Vec<u8>>,
    ) -> (r: String)
        ensures
            r@ == node_text(id, claim_for(id, self.node_id, *own_claim, *claim)),
    {
        let mut out: String = String::new();
        if id == self.node_id {
            push_node(&mut out, id, own_claim);
        } else {
            push_node(&mut out, id, claim);
        }
        out
    }

    /// Writes a peer's row.
    fn peer_line(&self, p: &Peer, own_claim: &Option<Vec<u8>>) -> (r: String)
        ensures
            r@ == peer_row(*p, self.node_id, *own_claim),
    {
        let name: String = self.display_name(p.id, own_claim, &p.alias);
        let mut slot: String = String::new();
        match p.slot {
            Some(s) => {
                push_dec(&mut slot, s as u64);
            },
            None => {
                slot.append("--");
            },
        }
        assert(slot@ =~= peer_slot(p.slot));
        let mut row: String = String::new();
        push_padded(&mut row, name.as_str(), 22);
        if let (Some(dbm), Some(age)) = (p.rssi_dbm, p.heard_age_us) {
            push_padded(&mut row, slot.as_str(), 7);
            let mut level: String = String::new();
            push_int(&mut level, dbm as i64);
            assert(level@ =~= dec_signed(dbm as int));
            push_padded(&mut row, level.as_str(), 6);
            push_dec(&mut row, age / 1_000_000);
            row.append("s ago");
        } else if let Some(via) = p.via {
            push_padded(&mut row, slot.as_str(), 7);
            row.append("via ");
            let teller: String = self.display_name(via, own_claim, &p.via_alias);
            row.append(teller.as_str());
        } else {
            row.append(slot.as_str());
        }
        assert(row@ =~= peer_row(*p, self.node_id, *own_claim));
        row
    }

    /// The table of peers, one row each.
    pub fn peer_rows(&self, peers: &Vec<Peer>, own_claim: &Option<Vec<u8>>) -> (r: Vec<String>)
        ensures
            r@.len() == peers@.len(),
            forall|i: int|
                0 <= i < r@.len() ==> (#[trigger] r@[i])@ == peer_row(
                    peers@[i],
                    self.node_id,
                    *own_claim,
                ),
    {
        let mut rows: Vec<String> = Vec::new();
        let mut i: usize = 0;
        while i < peers.len()
            invariant
                i <= peers@.len(),
                rows@.len() == i,
                forall|k: int|
                    0 <= k < i ==> (#[trigger] rows@[k])@ == peer_row(
                        peers@[k],
                        self.node_id,
                        *own_claim,
                    ),
            decreases peers@.len() - i,
        {
            let row: String = self.peer_line(&peers[i], own_claim);
            rows.push(row);
            i = i + 1;
        }
        rows
    }

    /// This node's part in the mesh.
    pub open spec fn role(&self, o: Outlook) -> Seq<char> {
        match o.root {
            Some((root, stratum)) => if root == self.node_id {
                "ROOT"@
            } else {
                "root "@ + hex(root as int, 8) + " s"@ + dec(stratum as int)
            },
            None => "syncing..."@,
        }
    }

    /// The first line of the info tab: who this node is, and its part.
    pub open spec fn identity_line(&self, o: Outlook) -> Seq<char> {
        node_text(self.node_id, bytes_of(o.alias)) + " | "@ + self.role(o)
    }

    /// The second line: the timeline.
    pub open spec fn timeline_line(&self, o: Outlook) -> Seq<char> {
        (match o.slot {
            Some(s) => "slot "@ + dec(s as int),
            None => "slot --"@,
        }) + " "@ + (match o.frame_number {
            Some(f) => "f "@ + dec(f as int),
            None => seq![],
        }) + " | peers "@ + dec(o.peer_count as int)
    }

    /// The third line: what was counted.
    pub open spec fn counter_line(&self, o: Outlook) -> Seq<char> {
        "rx "@ + dec(self.rx_count as int) + " tx "@ + dec(self.tx_count as int) + " | store "@
            + dec(o.store_len as int) + (match self.last_rssi_dbm {
            Some(dbm) => " | last rx "@ + dec_signed(dbm as int) + "dBm"@,
            None => seq![],
        })
    }

    /// The info tab's lines on this node.
    pub fn info_lines(&self, o: &Outlook) -> (r: (String, String, String))
        ensures
            r.0@ == self.identity_line(*o),
            r.1@ == self.timeline_line(*o),
            r.2@ == self.counter_line(*o),
    {
        let mut first: String = String::new();
        push_node(&mut first, self.node_id, &o.alias);
        first.append(" | ");
        match o.root {
            Some((root, stratum)) => {
                if root == self.node_id {
                    first.append("ROOT");
                } else {
                    first.append("root ");
                    push_hex(&mut first, root as u64, 8);
                    first.append(" s");
                    push_dec(&mut first, stratum as u64);
                }
            },
            None => {
                first.append("syncing...");
            },
        }
        assert(first@ =~= self.identity_line(*o));
        let mut second: String = String::new();
        match o.slot {
            Some(s) => {
                second.append("slot ");
                push_dec(&mut second, s as u64);
            },
            None => {
                second.append("slot --");
            },
        }
        second.append(" ");
        if let Some(f) = o.frame_number {
            second.append("f ");
            push_dec(&mut second, f);
        }
        second.append(" | peers ");
        push_dec(&mut second, o.peer_count as u64);
        assert(second@ =~= self.timeline_line(*o));
        let mut third: String = String::new();
        third.append("rx ");
        push_dec(&mut third, self.rx_count as u64);
        third.append(" tx ");
        push_dec(&mut third, self.tx_count as u64);
        third.append(" | store ");
        push_dec(&mut third, o.store_len as u64);
        if let Some(dbm) = self.last_rssi_dbm {
            third.append(" | last rx ");
            push_int(&mut third, dbm as i64);
            third.append("dBm");
        }
        assert(third@ =~= self.counter_line(*o));
        (first, second, third)
    }
}

impl Outlook {
    /// What of the mesh is worth painting at once when it changes: the root, the
    /// slot and the number of peers. Painting keeps the radio from listening,
    /// so counters are not.
    pub fn status_key(&self) -> (r: (Option<(u32, u8)>, Option<u16>, usize))
        ensures
            r == (self.root, self.slot, self.peer_count),
    {
        (self.root, self.slot, self.peer_count)
    }
}

/// The name to claim for this node. Without one nothing is announced any more;
/// what peers know already they keep.
pub fn alias_claim(name: &str) -> (r: Option<&[u8]>)
    ensures
        r is None <==> name@.len() == 0,
        r matches Some(b) ==> b@ == name.spec_bytes(),
{
    if name.is_empty() {
        None
    } else {
        Some(name.as_bytes())
    }
}

/// The outcomes of the polls of a slice, in order: only the first can find a
/// packet from before the slice.
pub open spec fn slice_outcomes(polls: Seq<Polled>) -> Seq<PollStep> {
    Seq::new(polls.len(), |i: int| poll_outcome(i == 0, polls[i]))
}

/// In a slice every packet reaches the engine but for a beacon that the first
/// poll finds.
pub proof fn law_only_stale_beacons_are_dropped(polls: Seq<Polled>, i: int)
    requires
        0 <= i < polls.len(),
    ensures
        slice_outcomes(polls)[i] == PollStep::Drop <==> i == 0 && (polls[i] matches Polled::Packet {
            beacon,
            ..
        } && beacon),
        polls[i] is Packet && i > 0 ==> slice_outcomes(polls)[i] == PollStep::Feed,
        (polls[i] matches Polled::Packet { beacon, .. } && !beacon) ==> slice_outcomes(polls)[i]
            == PollStep::Feed,
{
}

/// A node's id holds the last four bytes of its hardware address, one after
/// another: nodes whose addresses differ there have different ids.
pub proof fn law_ids_hold_the_address(mac: Seq<u8>)
    requires
        mac.len() == 6,
    ensures
        0 <= id_of(mac) <= u32::MAX,
        id_of(mac) % 256 == mac[5],
        id_of(mac) / 256 % 256 == mac[4],
        id_of(mac) / 256 / 256 % 256 == mac[3],
        id_of(mac) / 256 / 256 / 256 == mac[2],
{
    let two = mac[2] * 256 + mac[3];
    let three = two * 256 + mac[4];
    assert(id_of(mac) == three * 256 + mac[5]);
    assert(id_of(mac) / 256 == three);
    assert(three / 256 == two);
    assert(two / 256 == mac[2]);
}

/// A node is shown by the name that is claimed for it, whole, and the last four
/// digits of its id; by all eight digits where no name is claimed or the name
/// is no text.
pub proof fn law_nodes_are_shown_by_name(id: u32, name: Seq<char>, bytes: Seq<u8>)
    ensures
        ({
            let t = node_text(id, Some(encode_utf8(name)));
            let n = name.len() as int;
            &&& t.len() == n + 7
            &&& t.take(n) == name
            &&& t[n] == ' '
            &&& t[n + 1] == '('
            &&& t.subrange(n + 2, n + 6) == hex(id as int, 4)
            &&& t[n + 6] == ')'
        }),
        node_text(id, None) == hex(id as int, 8),
        !valid_utf8(bytes) ==> node_text(id, Some(bytes)) == hex(id as int, 8),
{
    encode_utf8_valid_utf8(name);
    encode_utf8_decode_utf8(name);
    reveal_strlit(" (");
    reveal_strlit(")");
    text::law_hexadecimal_digits(id as int, 4);
    let t = node_text(id, Some(encode_utf8(name)));
    let n = name.len() as int;
    assert(t.take(n) =~= name);
    assert(t.subrange(n + 2, n + 6) =~= hex(id as int, 4));
}

/// A peer has its name in the first column, its slot in the second, 22
/// characters further on. One that was heard has the strength of its signal and
/// the whole seconds since then behind them; one that was told of has the node
/// that told of it.
pub proof fn law_peers_have_their_columns(p: Peer, node_id: u32, own: Option<Vec<u8>>)
    requires
        node_text(p.id, claim_for(p.id, node_id, own, p.alias)).len() <= 22,
    ensures
        ({
            let row = peer_row(p, node_id, own);
            let name = node_text(p.id, claim_for(p.id, node_id, own, p.alias));
            let slot = match p.slot {
                Some(s) => dec(s as int),
                None => "--"@,
            };
            &&& row.len() >= 22
            &&& row.take(name.len() as int) == name
            &&& forall|i: int| name.len() <= i < 22 ==> #[trigger] row[i] == ' '
            &&& p.rssi_dbm is Some && p.heard_age_us is Some ==> row.skip(22) == pad_right(slot, 7)
                + pad_right(dec_signed(p.rssi_dbm->0 as int), 6) + dec(
                p.heard_age_us->0 as int / 1_000_000,
            ) + "s ago"@
            &&& (p.rssi_dbm is None || p.heard_age_us is None) && p.via is Some ==> row.skip(22)
                == pad_right(slot, 7) + "via "@ + node_text(
                p.via->0,
                claim_for(p.via->0, node_id, own, p.via_alias),
            )
            &&& (p.rssi_dbm is None || p.heard_age_us is None) && p.via is None ==> row.skip(22)
                == slot
        }),
{
    let row = peer_row(p, node_id, own);
    let name = node_text(p.id, claim_for(p.id, node_id, own, p.alias));
    let padded = pad_right(name, 22);
    let slot = peer_slot(p.slot);
    assert(padded.len() == 22);
    assert forall|i: int| 0 <= i < 22 implies row[i] == padded[i] by {}
    assert(row.take(name.len() as int) =~= name);
    if p.rssi_dbm is Some && p.heard_age_us is Some {
        assert(row.skip(22) =~= pad_right(slot, 7) + pad_right(
            dec_signed(p.rssi_dbm->0 as int),
            6,
        ) + dec(p.heard_age_us->0 as int / 1_000_000) + "s ago"@);
    } else if p.via is Some {
        assert(row.skip(22) =~= pad_right(slot, 7) + "via "@ + node_text(
            p.via->0,
            claim_for(p.via->0, node_id, own, p.via_alias),
        ));
    } else {
        assert(row.skip(22) =~= slot);
    }
}

/// A node goes by the name that it claims itself where it is this one, and
/// otherwise by the name that is claimed for it.
pub proof fn law_own_name_is_used(
    id: u32,
    node_id: u32,
    own: Option<Vec<u8>>,
    claim: Option<Vec<u8>>,
)
    ensures
        id == node_id ==> claim_for(id, node_id, own, claim) == bytes_of(own),
        id != node_id ==> claim_for(id, node_id, own, claim) == bytes_of(claim),
{
}

/// Every packet that is received counts, the last one's signal is remembered,
/// and every packet that is sent counts; nothing else is changed by them.
pub proof fn law_packets_are_counted(m: Mesh, rssi: i16, beacon: bool)
    requires
        m.rx_count < u32::MAX,
        m.tx_count < u32::MAX,
    ensures
        forall|p: Polled|
            (p matches Polled::Packet { rssi: r, .. } && r == rssi) ==> {
                let after = #[trigger] m.after_poll(p);
                &&& after.rx_count == m.rx_count + 1
                &&& after.last_rssi_dbm == Some(rssi)
                &&& after.tx_count == m.tx_count
                &&& after.node_id == m.node_id
                &&& after.last_utc_fed == m.last_utc_fed
            },
        m.after_poll(Polled::Nothing) == m,
        m.after_sending().tx_count == m.tx_count + 1,
        m.after_sending() == (Mesh { tx_count: m.after_sending().tx_count, ..m }),
{
}

/// The lines on the state of the mesh: who this node is and what it is in the
/// mesh; its slot, the frame and how many peers it has; and how many packets it
/// received, sent and keeps, and the last signal.
pub proof fn law_state_of_the_mesh_is_told(m: Mesh, o: Outlook)
    ensures
        m.identity_line(o) == node_text(m.node_id, bytes_of(o.alias)) + " | "@ + match o.root {
            Some((root, stratum)) => if root == m.node_id {
                "ROOT"@
            } else {
                "root "@ + hex(root as int, 8) + " s"@ + dec(stratum as int)
            },
            None => "syncing..."@,
        },
        o.slot is Some && o.frame_number is Some ==> m.timeline_line(o) == "slot "@ + dec(
            o.slot->0 as int,
        ) + " "@ + "f "@ + dec(o.frame_number->0 as int) + " | peers "@ + dec(o.peer_count as int),
        o.slot is None && o.frame_number is None ==> m.timeline_line(o) == "slot --"@ + " "@
            + " | peers "@ + dec(o.peer_count as int),
        m.last_rssi_dbm is Some ==> m.counter_line(o) == "rx "@ + dec(m.rx_count as int) + " tx "@
            + dec(m.tx_count as int) + " | store "@ + dec(o.store_len as int) + " | last rx "@
            + dec_signed(m.last_rssi_dbm->0 as int) + "dBm"@,
        m.last_rssi_dbm is None ==> m.counter_line(o) == "rx "@ + dec(m.rx_count as int) + " tx "@
            + dec(m.tx_count as int) + " | store "@ + dec(o.store_len as int),
{
    if o.slot is Some && o.frame_number is Some {
        assert(m.timeline_line(o) =~= "slot "@ + dec(o.slot->0 as int) + " "@ + "f "@ + dec(
            o.frame_number->0 as int,
        ) + " | peers "@ + dec(o.peer_count as int));
    }
    if o.slot is None && o.frame_number is None {
        assert(m.timeline_line(o) =~= "slot --"@ + " "@ + " | peers "@ + dec(
            o.peer_count as int,
        ));
    }
    assert(m.counter_line(o) =~= match m.last_rssi_dbm {
        Some(dbm) => "rx "@ + dec(m.rx_count as int) + " tx "@ + dec(m.tx_count as int)
            + " | store "@ + dec(o.store_len as int) + " | last rx "@ + dec_signed(dbm as int)
            + "dBm"@,
        None => "rx "@ + dec(m.rx_count as int) + " tx "@ + dec(m.tx_count as int) + " | store "@
            + dec(o.store_len as int),
    });
}

/// What a slice of time that ends at `end` is used for.
pub open spec fn goal_of(end: u64, now: u64, transmit_at: Option<u64>) -> Goal {
    match transmit_at {
        Some(at) => if at <= now + TX_WAIT_HORIZON_US {
            Goal::TransmitAt(at)
        } else {
            Goal::ListenUntil(end)
        },
        None => Goal::ListenUntil(end),
    }
}

/// A packet that is due within 120 milliseconds is waited for and sent in its
/// time; else the slice is used to listen until it ends.
pub proof fn law_slice_waits_for_what_is_due(end: u64, now: u64, at: u64)
    ensures
        goal_of(end, now, Some(at)) == Goal::TransmitAt(at) <==> at <= now + 120_000,
        at > now + 120_000 ==> goal_of(end, now, Some(at)) == Goal::ListenUntil(end),
        goal_of(end, now, None) == Goal::ListenUntil(end),
{
}

} // verus!
