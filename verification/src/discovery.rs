//! Peer discovery: the datagram record that devices exchange, the table of
//! peers heard from, and the service that decides what each received
//! datagram and each expiry sweep does to that table.
//!
//! The service is a state machine. Whoever owns the socket and the timers
//! hands it each datagram with its source address and arrival time, sends
//! the reply it asks for, and calls the sweep on schedule.

use crate::clock::unix_seconds;
use crate::text::{decimal, digit_value, digits_value, lemma_decimal_digits, push_decimal};
use vstd::prelude::*;

verus! {

/// UDP port on which devices advertise themselves and listen for others.
pub const DISCOVERY_PORT: u16 = 41234;

/// Pause between two advertisements, in milliseconds.
pub const BROADCAST_INTERVAL_MS: u64 = 1000;

/// Pause between two expiry sweeps, in milliseconds.
pub const SWEEP_INTERVAL_MS: u64 = 2000;

/// Seconds of silence after which a peer is dropped from the table.
pub const PEER_TIMEOUT_SECS: u64 = 8;

/// Longest datagram that is read; a longer one arrives cut short.
pub const MAX_DATAGRAM_BYTES: usize = 1024;

/// Version number carried by every datagram.
pub const PROTOCOL_VERSION: u32 = 1;

/// The application identifier that marks a datagram as one of ours.
pub open spec fn app_id() -> Seq<char> {
    "RichieDrop"@
}

/// The type tag of an advertisement that asks for an answer.
pub open spec fn discover_tag() -> Seq<char> {
    "DISCOVER"@
}

/// The type tag of the answer to an advertisement.
pub open spec fn announce_tag() -> Seq<char> {
    "ANNOUNCE"@
}

/// One discovery datagram.
#[derive(Debug)]
pub struct DiscoveryMessage {
    /// Type tag: `DISCOVER` or `ANNOUNCE`.
    pub t: String,
    /// Application identifier.
    pub app: String,
    /// Protocol version.
    pub v: u32,
    /// Identifier of the sending device.
    pub id: String,
    /// Display name of the sending device.
    pub name: String,
    /// Port on which the sender accepts transfers.
    pub tcp: u16,
}

/// A discovery datagram as a mathematical value.
pub struct MessageView {
    pub t: Seq<char>,
    pub app: Seq<char>,
    pub v: u32,
    pub id: Seq<char>,
    pub name: Seq<char>,
    pub tcp: u16,
}

impl View for DiscoveryMessage {
    type V = MessageView;

    open spec fn view(&self) -> MessageView {
        MessageView {
            t: self.t@,
            app: self.app@,
            v: self.v,
            id: self.id@,
            name: self.name@,
            tcp: self.tcp,
        }
    }
}

impl Clone for DiscoveryMessage {
    fn clone(&self) -> (copy: Self)
        ensures
            copy@ == self@,
    {
        DiscoveryMessage {
            t: self.t.clone(),
            app: self.app.clone(),
            v: self.v,
            id: self.id.clone(),
            name: self.name.clone(),
            tcp: self.tcp,
        }
    }
}

/// A device heard from on the network.
#[derive(Debug)]
pub struct Peer {
    /// Identifier the device gave itself; unique per running instance.
    pub id: String,
    /// Display name.
    pub name: String,
    /// Address the last datagram came from.
    pub ip: String,
    /// Port on which the device accepts transfers.
    pub port: u16,
    /// Arrival time of the last datagram, in seconds since the Unix epoch.
    pub last_seen: u64,
}

/// A peer record as a mathematical value.
pub struct PeerView {
    pub id: Seq<char>,
    pub name: Seq<char>,
    pub ip: Seq<char>,
    pub port: u16,
    pub last_seen: u64,
}

impl View for Peer {
    type V = PeerView;

    open spec fn view(&self) -> PeerView {
        PeerView {
            id: self.id@,
            name: self.name@,
            ip: self.ip@,
            port: self.port,
            last_seen: self.last_seen,
        }
    }
}

impl Clone for Peer {
    fn clone(&self) -> (copy: Self)
        ensures
            copy@ == self@,
    {
        Peer {
            id: self.id.clone(),
            name: self.name.clone(),
            ip: self.ip.clone(),
            port: self.port,
            last_seen: self.last_seen,
        }
    }
}

/// The peer table as a mathematical value: one record per identifier.
pub type PeerTable = Map<Seq<char>, PeerView>;

/// The records of a list of peers, in the list's order.
pub open spec fn peer_views(peers: Seq<Peer>) -> Seq<PeerView> {
    peers.map_values(|p: Peer| p@)
}

/// No two records of `s` share an identifier.
pub open spec fn distinct_ids(s: Seq<PeerView>) -> bool {
    forall|i: int, j: int| 0 <= i < j < s.len() ==> (#[trigger] s[i]).id != (#[trigger] s[j]).id
}

/// The table that a list of records stands for: each record filed under its
/// identifier, a later record replacing an earlier one of the same
/// identifier.
pub open spec fn table_of(s: Seq<PeerView>) -> PeerTable
    decreases s.len(),
{
    if s.len() == 0 {
        Map::empty()
    } else {
        table_of(s.drop_last()).insert(s.last().id, s.last())
    }
}

/// A datagram is taken in when it carries our application identifier and
/// does not come from the local device itself.
pub open spec fn accepted(msg: MessageView, local_id: Seq<char>) -> bool {
    msg.app == app_id() && msg.id != local_id
}

/// The record that an accepted datagram leaves in the table: name and port
/// from the payload, address from the datagram's source, and the arrival
/// time.
pub open spec fn peer_from(msg: MessageView, source_ip: Seq<char>, now: u64) -> PeerView {
    PeerView { id: msg.id, name: msg.name, ip: source_ip, port: msg.tcp, last_seen: now }
}

/// The table after one datagram: an accepted one creates or replaces the
/// sender's record, any other leaves the table as it was.
pub open spec fn receive(
    table: PeerTable,
    local_id: Seq<char>,
    msg: MessageView,
    source_ip: Seq<char>,
    now: u64,
) -> PeerTable {
    if accepted(msg, local_id) {
        table.insert(msg.id, peer_from(msg, source_ip, now))
    } else {
        table
    }
}

/// A record is live at `now` while fewer than `PEER_TIMEOUT_SECS` seconds
/// have passed since it was last refreshed.
pub open spec fn live(p: PeerView, now: u64) -> bool {
    now - p.last_seen < PEER_TIMEOUT_SECS
}

/// The table after an expiry sweep at `now`: exactly the live records.
pub open spec fn expire(table: PeerTable, now: u64) -> PeerTable {
    Map::new(|id: Seq<char>| table.contains_key(id) && live(table[id], now), |id: Seq<char>| table[id])
}

/// The identifier a device gives itself: its display name, a hyphen, and
/// its start time in seconds since the Unix epoch, in decimal.
pub open spec fn device_id_for(name: Seq<char>, start_secs: u64) -> Seq<char> {
    name + seq!['-'] + decimal(start_secs as nat)
}

/// Identifiers are unique per instance: two devices that differ in name or
/// in start time give themselves different identifiers. A numeral holds no
/// hyphen, so the last hyphen of an identifier parts name from start time.
pub proof fn lemma_device_ids_differ(n1: Seq<char>, t1: u64, n2: Seq<char>, t2: u64)
    requires
        n1 != n2 || t1 != t2,
    ensures
        device_id_for(n1, t1) != device_id_for(n2, t2),
{
    let d1 = decimal(t1 as nat);
    let d2 = decimal(t2 as nat);
    let a = device_id_for(n1, t1);
    let b = device_id_for(n2, t2);
    lemma_decimal_digits(t1 as nat);
    lemma_decimal_digits(t2 as nat);
    if a == b {
        assert(a.len() == n1.len() + 1 + d1.len());
        assert(b.len() == n2.len() + 1 + d2.len());
        if d1.len() < d2.len() {
            let k = n1.len() as int;
            assert(a[k] == '-');
            assert(b[k] == d2[k - n2.len() - 1]);
            assert(digit_value(d2[k - n2.len() - 1]) is Some);
        } else if d2.len() < d1.len() {
            let k = n2.len() as int;
            assert(b[k] == '-');
            assert(a[k] == d1[k - n1.len() - 1]);
            assert(digit_value(d1[k - n1.len() - 1]) is Some);
        } else {
            assert(n1 =~= n2) by {
                assert forall|i: int| 0 <= i < n1.len() implies n1[i] == n2[i] by {
                    assert(a[i] == n1[i]);
                    assert(b[i] == n2[i]);
                }
            }
            assert(d1 =~= d2) by {
                assert forall|i: int| 0 <= i < d1.len() implies d1[i] == d2[i] by {
                    assert(a[n1.len() + 1 + i] == d1[i]);
                    assert(b[n2.len() + 1 + i] == d2[i]);
                }
            }
            assert(digits_value(d1) == t1);
            assert(digits_value(d2) == t2);
        }
    }
}

/// A list of distinct identifiers stays one when its last record is taken
/// away.
pub proof fn lemma_distinct_front(s: Seq<PeerView>)
    requires
        distinct_ids(s),
        s.len() > 0,
    ensures
        distinct_ids(s.drop_last()),
{
    let front = s.drop_last();
    assert forall|a: int, b: int| 0 <= a < b < front.len() implies (#[trigger] front[a]).id != (
    #[trigger] front[b]).id by {
        assert(s[a].id != s[b].id);
    }
}

/// The identifiers filed in `table_of(s)` are those of the records of `s`.
pub proof fn lemma_table_keys(s: Seq<PeerView>, id: Seq<char>)
    ensures
        table_of(s).contains_key(id) <==> exists|i: int| 0 <= i < s.len() && (#[trigger] s[i]).id == id,
    decreases s.len(),
{
    if s.len() > 0 {
        let front = s.drop_last();
        lemma_table_keys(front, id);
        if table_of(s).contains_key(id) {
            if s.last().id == id {
                assert(s[s.len() - 1].id == id);
            } else {
                let i = choose|i: int| 0 <= i < front.len() && (#[trigger] front[i]).id == id;
                assert(s[i].id == id);
            }
        }
        if exists|i: int| 0 <= i < s.len() && (#[trigger] s[i]).id == id {
            let i = choose|i: int| 0 <= i < s.len() && (#[trigger] s[i]).id == id;
            if i < s.len() - 1 {
                assert(front[i].id == id);
            }
        }
    }
}

/// With distinct identifiers, every record of the list is the one filed
/// under its identifier.
pub proof fn lemma_table_entry(s: Seq<PeerView>, i: int)
    requires
        distinct_ids(s),
        0 <= i < s.len(),
    ensures
        table_of(s).contains_key(s[i].id),
        table_of(s)[s[i].id] == s[i],
    decreases s.len(),
{
    if i < s.len() - 1 {
        let front = s.drop_last();
        lemma_distinct_front(s);
        lemma_table_entry(front, i);
        assert(front[i] == s[i]);
        assert(s[i].id != s[s.len() - 1].id);
    }
}

/// Replacing the record at `i` by one of the same identifier files the new
/// record in place of the old one.
pub proof fn lemma_table_update(s: Seq<PeerView>, i: int, p: PeerView)
    requires
        distinct_ids(s),
        0 <= i < s.len(),
        s[i].id == p.id,
    ensures
        table_of(s.update(i, p)) == table_of(s).insert(p.id, p),
        distinct_ids(s.update(i, p)),
    decreases s.len(),
{
    let t = s.update(i, p);
    assert(distinct_ids(t)) by {
        assert forall|a: int, b: int| 0 <= a < b < t.len() implies (#[trigger] t[a]).id != (
        #[trigger] t[b]).id by {
            assert(s[a].id != s[b].id);
        }
    }
    let front = s.drop_last();
    if i == s.len() - 1 {
        assert(t.drop_last() =~= front);
        assert(table_of(t) =~= table_of(s).insert(p.id, p));
    } else {
        lemma_distinct_front(s);
        lemma_table_update(front, i, p);
        assert(t.drop_last() =~= front.update(i, p));
        assert(t.last() == s.last());
        assert(s[i].id != s[s.len() - 1].id);
        assert(table_of(t) =~= table_of(s).insert(p.id, p));
    }
}

/// Appending a record files it under its identifier; if that identifier was
/// not filed before, the identifiers stay distinct.
pub proof fn lemma_table_push(s: Seq<PeerView>, p: PeerView)
    ensures
        table_of(s.push(p)) == table_of(s).insert(p.id, p),
        distinct_ids(s) && !table_of(s).contains_key(p.id) ==> distinct_ids(s.push(p)),
{
    let t = s.push(p);
    assert(t.drop_last() =~= s);
    if distinct_ids(s) && !table_of(s).contains_key(p.id) {
        assert forall|a: int, b: int| 0 <= a < b < t.len() implies (#[trigger] t[a]).id != (
        #[trigger] t[b]).id by {
            if b < s.len() {
                assert(s[a].id != s[b].id);
            } else {
                lemma_table_keys(s, p.id);
                assert(s[a].id != p.id);
            }
        }
    }
}

/// The place of the first record of `s` filed under `id`, or the length of
/// `s` if there is none.
pub open spec fn place_of(s: Seq<PeerView>, id: Seq<char>) -> int
    decreases s.len(),
{
    if s.len() == 0 {
        0
    } else if s[0].id == id {
        0
    } else {
        1 + place_of(s.skip(1), id)
    }
}

/// The list after a record was taken in: it replaces, in place, the record
/// of the same identifier, or goes to the end if there is none.
pub open spec fn upserted(s: Seq<PeerView>, p: PeerView) -> Seq<PeerView> {
    let at = place_of(s, p.id);
    if at < s.len() {
        s.update(at, p)
    } else {
        s.push(p)
    }
}

/// The live records of a list, in the list's order.
pub open spec fn live_records(s: Seq<PeerView>, now: u64) -> Seq<PeerView>
    decreases s.len(),
{
    if s.len() == 0 {
        s
    } else if live(s.last(), now) {
        live_records(s.drop_last(), now).push(s.last())
    } else {
        live_records(s.drop_last(), now)
    }
}

/// `place_of` finds the first record of the identifier: a place before
/// which no record has the identifier, and at which one has it or the list
/// ends, is the place it gives.
pub proof fn lemma_place_of(s: Seq<PeerView>, id: Seq<char>, at: int)
    requires
        0 <= at <= s.len(),
        forall|k: int| 0 <= k < at ==> (#[trigger] s[k]).id != id,
        at < s.len() ==> s[at].id == id,
    ensures
        place_of(s, id) == at,
    decreases s.len(),
{
    if s.len() > 0 && at > 0 {
        let rest = s.skip(1);
        assert(s[0].id != id);
        assert forall|k: int| 0 <= k < at - 1 implies (#[trigger] rest[k]).id != id by {
            assert(rest[k] == s[k + 1]);
        }
        if at < s.len() {
            assert(rest[at - 1] == s[at]);
        }
        lemma_place_of(rest, id, at - 1);
    }
}

/// `place_of` stays within the list, points at a record of the identifier
/// when it points at one at all, and passes over none.
pub proof fn lemma_place_of_found(s: Seq<PeerView>, id: Seq<char>)
    ensures
        0 <= place_of(s, id) <= s.len(),
        place_of(s, id) < s.len() ==> s[place_of(s, id)].id == id,
        forall|k: int| 0 <= k < place_of(s, id) ==> (#[trigger] s[k]).id != id,
    decreases s.len(),
{
    if s.len() > 0 && s[0].id != id {
        let rest = s.skip(1);
        lemma_place_of_found(rest, id);
        if place_of(rest, id) < rest.len() {
            assert(rest[place_of(rest, id)] == s[place_of(rest, id) + 1]);
        }
        assert forall|k: int| 0 <= k < place_of(s, id) implies (#[trigger] s[k]).id != id by {
            if k > 0 {
                assert(rest[k - 1] == s[k]);
            }
        }
    }
}

/// Taking a record into a list of distinct identifiers files it under its
/// identifier, leaves every other record as it was, and keeps the
/// identifiers distinct.
pub proof fn lemma_upserted(s: Seq<PeerView>, p: PeerView)
    requires
        distinct_ids(s),
    ensures
        table_of(upserted(s, p)) == table_of(s).insert(p.id, p),
        distinct_ids(upserted(s, p)),
{
    lemma_place_of_found(s, p.id);
    let at = place_of(s, p.id);
    if at < s.len() {
        lemma_table_update(s, at, p);
    } else {
        lemma_table_keys(s, p.id);
        if table_of(s).contains_key(p.id) {
            let k = choose|k: int| 0 <= k < s.len() && (#[trigger] s[k]).id == p.id;
            assert(s[k].id != p.id);
        }
        lemma_table_push(s, p);
    }
}

/// The live records of a list of distinct identifiers are the records that
/// an expiry sweep leaves in its table, and their identifiers are distinct.
pub proof fn lemma_live_records(s: Seq<PeerView>, now: u64)
    requires
        distinct_ids(s),
    ensures
        table_of(live_records(s, now)) == expire(table_of(s), now),
        distinct_ids(live_records(s, now)),
    decreases s.len(),
{
    if s.len() == 0 {
        assert(table_of(s) =~= expire(table_of(s), now));
    } else {
        let front = s.drop_last();
        let last = s.last();
        lemma_distinct_front(s);
        lemma_live_records(front, now);
        lemma_table_keys(front, last.id);
        if table_of(front).contains_key(last.id) {
            let k = choose|k: int| 0 <= k < front.len() && (#[trigger] front[k]).id == last.id;
            assert(s[k].id != s[s.len() - 1].id);
        }
        if live(last, now) {
            lemma_table_push(live_records(front, now), last);
        }
        assert(table_of(live_records(s, now)) =~= expire(table_of(s), now));
    }
}

/// How the attempt to open the discovery socket ended.
#[derive(Debug)]
pub enum SocketSetup {
    /// The socket is bound and may broadcast.
    Ready,
    /// Binding failed, for the reason given; the port is taken system-wide.
    BindFailed(String),
    /// The socket is bound but refused to broadcast, for the reason given.
    BroadcastRefused(String),
}

/// What the service did with a received datagram.
#[derive(Debug)]
pub enum Receipt {
    /// The datagram was foreign or our own; the table is unchanged.
    Ignored,
    /// The sender's record was created or refreshed.
    Recorded,
    /// The sender's record was created or refreshed, and the sender asked to
    /// be answered: the datagram given is to be sent back to its address.
    RecordedAndReply(DiscoveryMessage),
}

/// The discovery state of one device: who it is, whether it is running, and
/// the peers it has heard from.
///
/// The table never holds two records of one identifier, and never a record
/// of the local device itself.
pub struct DiscoveryService {
    device_id: String,
    device_name: String,
    tcp_port: u16,
    peers: Vec<Peer>,
    running: bool,
}

impl DiscoveryService {
    #[verifier::type_invariant]
    spec fn sound(self) -> bool {
        &&& distinct_ids(peer_views(self.peers@))
        &&& !table_of(peer_views(self.peers@)).contains_key(self.device_id@)
    }

    /// The local device's identifier.
    pub closed spec fn id_view(&self) -> Seq<char> {
        self.device_id@
    }

    /// The local device's display name.
    pub closed spec fn name_view(&self) -> Seq<char> {
        self.device_name@
    }

    /// The port on which the local device accepts transfers.
    pub closed spec fn port_view(&self) -> u16 {
        self.tcp_port
    }

    /// Whether discovery has been started and not stopped since.
    pub closed spec fn running_view(&self) -> bool {
        self.running
    }

    /// The records held, in the order in which a snapshot lists them.
    pub closed spec fn roster(&self) -> Seq<PeerView> {
        peer_views(self.peers@)
    }

    /// The peer table.
    pub open spec fn table(&self) -> PeerTable {
        table_of(self.roster())
    }

    /// The advertisement the local device broadcasts.
    pub open spec fn discover_view(&self) -> MessageView {
        MessageView {
            t: discover_tag(),
            app: app_id(),
            v: PROTOCOL_VERSION,
            id: self.id_view(),
            name: self.name_view(),
            tcp: self.port_view(),
        }
    }

    /// The answer the local device gives to an advertisement.
    pub open spec fn announce_view(&self) -> MessageView {
        MessageView {
            t: announce_tag(),
            app: app_id(),
            v: PROTOCOL_VERSION,
            id: self.id_view(),
            name: self.name_view(),
            tcp: self.port_view(),
        }
    }

    /// A stopped service with an empty table, whose identifier is derived
    /// from the display name and the start time given.
    pub fn with_start_time(device_name: String, tcp_port: u16, start_secs: u64) -> (service: Self)
        ensures
            service.id_view() == device_id_for(device_name@, start_secs),
            service.name_view() == device_name@,
            service.port_view() == tcp_port,
            !service.running_view(),
            service.roster() == Seq::<PeerView>::empty(),
            service.table() == Map::<Seq<char>, PeerView>::empty(),
    {
        let mut device_id = device_name.clone();
        device_id.push('-');
        push_decimal(&mut device_id, start_secs as u128);
        assert(device_id@ =~= device_id_for(device_name@, start_secs));
        let peers: Vec<Peer> = Vec::new();
        assert(peer_views(peers@) =~= Seq::<PeerView>::empty());
        DiscoveryService { device_id, device_name, tcp_port, peers, running: false }
    }

    /// A stopped service with an empty table, whose identifier is derived
    /// from the display name and the current time.
    pub fn new(device_name: String, tcp_port: u16) -> (service: Self)
        ensures
            exists|start_secs: u64| service.id_view() == device_id_for(device_name@, start_secs),
            service.name_view() == device_name@,
            service.port_view() == tcp_port,
            !service.running_view(),
            service.roster() == Seq::<PeerView>::empty(),
            service.table() == Map::<Seq<char>, PeerView>::empty(),
    {
        let start_secs: u64 = unix_seconds();
        Self::with_start_time(device_name, tcp_port, start_secs)
    }

    /// The local device's identifier.
    pub fn device_id(&self) -> (id: String)
        ensures
            id@ == self.id_view(),
    {
        self.device_id.clone()
    }

    /// The local device's display name.
    pub fn device_name(&self) -> (name: String)
        ensures
            name@ == self.name_view(),
    {
        self.device_name.clone()
    }

    /// The port on which the local device accepts transfers.
    pub fn tcp_port(&self) -> (port: u16)
        ensures
            port == self.port_view(),
    {
        self.tcp_port
    }

    /// Whether discovery is running.
    pub fn is_running(&self) -> (running: bool)
        ensures
            running == self.running_view(),
    {
        self.running
    }

    /// Starts discovery once the socket is set up. With a socket that is
    /// ready the service runs; with one that failed it stays as it was and
    /// the failure is reported with its reason.
    pub fn start(&mut self, setup: SocketSetup) -> (started: Result<(), String>)
        ensures
            final(self).id_view() == old(self).id_view(),
            final(self).name_view() == old(self).name_view(),
            final(self).port_view() == old(self).port_view(),
            final(self).roster() == old(self).roster(),
            match setup {
                SocketSetup::Ready => started is Ok && final(self).running_view(),
                SocketSetup::BindFailed(reason) => {
                    &&& started matches Err(text)
                    &&& text@ == "Failed to bind UDP socket: "@ + reason@
                    &&& final(self).running_view() == old(self).running_view()
                },
                SocketSetup::BroadcastRefused(reason) => {
                    &&& started matches Err(text)
                    &&& text@ == "Failed to set broadcast: "@ + reason@
                    &&& final(self).running_view() == old(self).running_view()
                },
            },
    {
        proof {
            use_type_invariant(&*self);
        }
        match setup {
            SocketSetup::Ready => {
                self.running = true;
                Ok(())
            },
            SocketSetup::BindFailed(reason) => {
                let mut text = String::from_str("Failed to bind UDP socket: ");
                text.append(reason.as_str());
                Err(text)
            },
            SocketSetup::BroadcastRefused(reason) => {
                let mut text = String::from_str("Failed to set broadcast: ");
                text.append(reason.as_str());
                Err(text)
            },
        }
    }

    /// Stops discovery. The table is kept.
    pub fn stop(&mut self)
        ensures
            !final(self).running_view(),
            final(self).id_view() == old(self).id_view(),
            final(self).name_view() == old(self).name_view(),
            final(self).port_view() == old(self).port_view(),
            final(self).roster() == old(self).roster(),
    {
        proof {
            use_type_invariant(&*self);
        }
        self.running = false;
    }

    /// A snapshot of the table: one record per peer, none of the local
    /// device.
    pub fn get_peers(&self) -> (peers: Vec<Peer>)
        ensures
            peer_views(peers@) == self.roster(),
            table_of(peer_views(peers@)) == self.table(),
            distinct_ids(peer_views(peers@)),
            forall|i: int| 0 <= i < peers.len() ==> (#[trigger] peers[i]).id@ != self.id_view(),
            forall|i: int|
                0 <= i < peers.len() ==> self.table().contains_key((#[trigger] peers[i]).id@)
                    && self.table()[peers[i].id@] == peers[i]@,
    {
        proof {
            use_type_invariant(self);
        }
        let mut out: Vec<Peer> = Vec::new();
        let n: usize = self.peers.len();
        let mut i: usize = 0;
        while i < n
            invariant
                i <= n,
                n == self.peers.len(),
                out.len() == i,
                forall|k: int| 0 <= k < i ==> (#[trigger] out[k])@ == self.peers[k]@,
            decreases n - i,
        {
            out.push(self.peers[i].clone());
            i = i + 1;
        }
        assert(peer_views(out@) =~= peer_views(self.peers@));
        assert forall|k: int| 0 <= k < out.len() implies (#[trigger] out[k]).id@ != self.id_view() by {
            lemma_table_keys(peer_views(self.peers@), self.device_id@);
            assert(peer_views(self.peers@)[k].id == out[k].id@);
        }
        assert forall|k: int| 0 <= k < out.len() implies self.table().contains_key(
            (#[trigger] out[k]).id@,
        ) && self.table()[out[k].id@] == out[k]@ by {
            lemma_table_entry(peer_views(self.peers@), k);
            assert(peer_views(self.peers@)[k] == out[k]@);
        }
        out
    }

    /// The advertisement to broadcast now.
    pub fn discover_message(&self) -> (msg: DiscoveryMessage)
        ensures
            msg@ == self.discover_view(),
    {
        DiscoveryMessage {
            t: String::from_str("DISCOVER"),
            app: String::from_str("RichieDrop"),
            v: PROTOCOL_VERSION,
            id: self.device_id.clone(),
            name: self.device_name.clone(),
            tcp: self.tcp_port,
        }
    }

    /// The answer to send to a device that advertised itself.
    pub fn announce_message(&self) -> (msg: DiscoveryMessage)
        ensures
            msg@ == self.announce_view(),
    {
        DiscoveryMessage {
            t: String::from_str("ANNOUNCE"),
            app: String::from_str("RichieDrop"),
            v: PROTOCOL_VERSION,
            id: self.device_id.clone(),
            name: self.device_name.clone(),
            tcp: self.tcp_port,
        }
    }

    /// Whether a datagram is one of ours and from another device.
    pub fn accepts(&self, msg: &DiscoveryMessage) -> (yes: bool)
        ensures
            yes == accepted(msg@, self.id_view()),
    {
        let ours = String::from_str("RichieDrop");
        msg.app == ours && !(msg.id == self.device_id)
    }

    /// Takes in one datagram that arrived from `source_ip` at `now`.
    ///
    /// A datagram of another application or of the local device changes
    /// nothing. Any other creates the sender's record or replaces it in
    /// place, with the address taken from the datagram's source, not from
    /// its payload. If it was an advertisement, the answer to send back is
    /// returned.
    pub fn handle_message(&mut self, msg: &DiscoveryMessage, source_ip: &str, now: u64) -> (receipt:
        Receipt)
        ensures
            final(self).roster() == if accepted(msg@, old(self).id_view()) {
                upserted(old(self).roster(), peer_from(msg@, source_ip@, now))
            } else {
                old(self).roster()
            },
            final(self).table() == receive(
                old(self).table(),
                old(self).id_view(),
                msg@,
                source_ip@,
                now,
            ),
            final(self).id_view() == old(self).id_view(),
            final(self).name_view() == old(self).name_view(),
            final(self).port_view() == old(self).port_view(),
            final(self).running_view() == old(self).running_view(),
            !final(self).table().contains_key(final(self).id_view()),
            match receipt {
                Receipt::Ignored => !accepted(msg@, old(self).id_view()),
                Receipt::Recorded => accepted(msg@, old(self).id_view()) && msg.t@ != discover_tag(),
                Receipt::RecordedAndReply(reply) => {
                    &&& accepted(msg@, old(self).id_view())
                    &&& msg.t@ == discover_tag()
                    &&& reply@ == old(self).announce_view()
                },
            },
    {
        proof {
            use_type_invariant(&*self);
        }
        if !self.accepts(msg) {
            return Receipt::Ignored;
        }
        let peer = Peer {
            id: msg.id.clone(),
            name: msg.name.clone(),
            ip: String::from_str(source_ip),
            port: msg.tcp,
            last_seen: now,
        };
        let ghost before = peer_views(self.peers@);
        let mut peers: Vec<Peer> = Vec::new();
        assert(peer_views(peers@) =~= Seq::<PeerView>::empty());
        core::mem::swap(&mut self.peers, &mut peers);
        let n: usize = peers.len();
        let mut i: usize = 0;
        while i < n && !(peers[i].id == msg.id)
            invariant
                i <= n,
                n == peers.len(),
                before == peer_views(peers@),
                forall|k: int| 0 <= k < i ==> (#[trigger] before[k]).id != msg.id@,
            decreases n - i,
        {
            i = i + 1;
        }
        proof {
            lemma_place_of(before, peer@.id, i as int);
            lemma_upserted(before, peer@);
        }
        if i < n {
            peers.set(i, peer);
            assert(peer_views(peers@) =~= before.update(i as int, peer@));
        } else {
            peers.push(peer);
            assert(peer_views(peers@) =~= before.push(peer@));
        }
        self.peers = peers;
        let tag = String::from_str("DISCOVER");
        if msg.t == tag {
            Receipt::RecordedAndReply(self.announce_message())
        } else {
            Receipt::Recorded
        }
    }

    /// Drops every peer that has been silent for `PEER_TIMEOUT_SECS` seconds
    /// or more at `now`, and keeps every other, in the order they had.
    pub fn sweep(&mut self, now: u64)
        ensures
            final(self).roster() == live_records(old(self).roster(), now),
            final(self).table() == expire(old(self).table(), now),
            final(self).id_view() == old(self).id_view(),
            final(self).name_view() == old(self).name_view(),
            final(self).port_view() == old(self).port_view(),
            final(self).running_view() == old(self).running_view(),
            !final(self).table().contains_key(final(self).id_view()),
    {
        proof {
            use_type_invariant(&*self);
        }
        let ghost before = peer_views(self.peers@);
        let mut kept: Vec<Peer> = Vec::new();
        let n: usize = self.peers.len();
        let mut i: usize = 0;
        assert(before.take(0) =~= Seq::<PeerView>::empty());
        assert(peer_views(kept@) =~= live_records(before.take(0), now));
        while i < n
            invariant
                i <= n,
                n == self.peers.len(),
                before == peer_views(self.peers@),
                peer_views(kept@) == live_records(before.take(i as int), now),
            decreases n - i,
        {
            let ghost held = peer_views(kept@);
            assert(before.take(i + 1).drop_last() =~= before.take(i as int));
            assert(before.take(i + 1).last() == before[i as int]);
            let p = &self.peers[i];
            let alive: bool = now < p.last_seen || now - p.last_seen < PEER_TIMEOUT_SECS;
            assert(alive == live(before[i as int], now));
            if alive {
                let copy = p.clone();
                kept.push(copy);
                assert(peer_views(kept@) =~= held.push(before[i as int]));
            }
            i = i + 1;
        }
        proof {
            assert(before.take(n as int) =~= before);
            lemma_live_records(before, now);
        }
        self.peers = kept;
    }
}

} // verus!
