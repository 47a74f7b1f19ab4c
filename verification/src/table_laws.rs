//! What holds of the peer table over whole runs: which records a sequence
//! of datagrams leaves, what a sweep removes, and that the local device
//! never shows up among its own peers.

use crate::discovery::{accepted, expire, live, peer_from, receive, MessageView, PeerTable, PEER_TIMEOUT_SECS};
use vstd::prelude::*;

verus! {

/// A received datagram together with where it came from and when it arrived.
pub struct Datagram {
    pub msg: MessageView,
    pub source_ip: Seq<char>,
    pub at: u64,
}

/// The table after the datagrams of `events` were taken in, first to last.
pub open spec fn replay(table: PeerTable, local_id: Seq<char>, events: Seq<Datagram>) -> PeerTable
    decreases events.len(),
{
    if events.len() == 0 {
        table
    } else {
        let last = events.last();
        receive(replay(table, local_id, events.drop_last()), local_id, last.msg, last.source_ip, last.at)
    }
}

/// After any run of datagrams the table holds a record for an identifier
/// exactly if it held one before or an accepted datagram of the run came
/// from that identifier. A table files one record per identifier, so each
/// such sender has exactly one.
pub proof fn lemma_replay_keys(
    table: PeerTable,
    local_id: Seq<char>,
    events: Seq<Datagram>,
    id: Seq<char>,
)
    ensures
        replay(table, local_id, events).contains_key(id) <==> table.contains_key(id) || exists|i: int|
            0 <= i < events.len() && accepted((#[trigger] events[i]).msg, local_id) && events[i].msg.id
                == id,
    decreases events.len(),
{
    if events.len() > 0 {
        let front = events.drop_last();
        let last = events.last();
        lemma_replay_keys(table, local_id, front, id);
        if replay(table, local_id, events).contains_key(id) && !table.contains_key(id) {
            if accepted(last.msg, local_id) && last.msg.id == id {
                assert(events[events.len() - 1] == last);
            } else {
                let i = choose|i: int|
                    0 <= i < front.len() && accepted((#[trigger] front[i]).msg, local_id) && front[i].msg.id
                        == id;
                assert(events[i] == front[i]);
            }
        }
        if exists|i: int|
            0 <= i < events.len() && accepted((#[trigger] events[i]).msg, local_id) && events[i].msg.id
                == id {
            let i = choose|i: int|
                0 <= i < events.len() && accepted((#[trigger] events[i]).msg, local_id) && events[i].msg.id
                    == id;
            if i < events.len() - 1 {
                assert(front[i] == events[i]);
            }
        }
    }
}

/// After any run of datagrams, the record of a sender is the one left by
/// the most recent accepted datagram from it: in particular its last-seen
/// time is that datagram's arrival time.
pub proof fn lemma_replay_latest(
    table: PeerTable,
    local_id: Seq<char>,
    events: Seq<Datagram>,
    k: int,
)
    requires
        0 <= k < events.len(),
        accepted(events[k].msg, local_id),
        forall|j: int|
            k < j < events.len() && accepted((#[trigger] events[j]).msg, local_id) ==> events[j].msg.id
                != events[k].msg.id,
    ensures
        replay(table, local_id, events).contains_key(events[k].msg.id),
        replay(table, local_id, events)[events[k].msg.id] == peer_from(
            events[k].msg,
            events[k].source_ip,
            events[k].at,
        ),
        replay(table, local_id, events)[events[k].msg.id].last_seen == events[k].at,
    decreases events.len(),
{
    let front = events.drop_last();
    if k < events.len() - 1 {
        assert(front[k] == events[k]);
        assert forall|j: int| k < j < front.len() && accepted((#[trigger] front[j]).msg, local_id) implies front[j].msg.id
            != front[k].msg.id by {
            assert(front[j] == events[j]);
        }
        lemma_replay_latest(table, local_id, front, k);
        let last = events[events.len() - 1];
        assert(accepted(last.msg, local_id) ==> last.msg.id != events[k].msg.id);
    }
}

/// A datagram from a sender leaves the records of all other senders as they
/// were.
pub proof fn lemma_receive_keeps_others(
    table: PeerTable,
    local_id: Seq<char>,
    msg: MessageView,
    source_ip: Seq<char>,
    now: u64,
    other: Seq<char>,
)
    requires
        other != msg.id,
    ensures
        receive(table, local_id, msg, source_ip, now).contains_key(other) == table.contains_key(other),
        table.contains_key(other) ==> receive(table, local_id, msg, source_ip, now)[other] == table[other],
{
}

/// The local device never becomes its own peer: a table without a record of
/// it has none after any run of datagrams, whatever they claim.
pub proof fn lemma_replay_never_self(table: PeerTable, local_id: Seq<char>, events: Seq<Datagram>)
    requires
        !table.contains_key(local_id),
    ensures
        !replay(table, local_id, events).contains_key(local_id),
    decreases events.len(),
{
    if events.len() > 0 {
        lemma_replay_never_self(table, local_id, events.drop_last());
    }
}

/// A sweep removes a peer exactly when `PEER_TIMEOUT_SECS` seconds or more
/// have passed since it was last heard from. Any peer heard from more
/// recently stays, with its record untouched, and a sweep adds nothing.
pub proof fn lemma_sweep_boundary(table: PeerTable, now: u64, id: Seq<char>)
    requires
        table.contains_key(id),
    ensures
        now - table[id].last_seen >= PEER_TIMEOUT_SECS ==> !expire(table, now).contains_key(id),
        now - table[id].last_seen < PEER_TIMEOUT_SECS ==> expire(table, now).contains_key(id) && expire(
            table,
            now,
        )[id] == table[id],
        forall|other: Seq<char>| expire(table, now).contains_key(other) ==> table.contains_key(other),
{
}

/// Sweeping again changes nothing: a second sweep at the same time, with no
/// datagram in between, leaves the table of the first. More generally an
/// earlier sweep is absorbed by a later one.
pub proof fn lemma_sweep_idempotent(table: PeerTable, earlier: u64, later: u64)
    requires
        earlier <= later,
    ensures
        expire(expire(table, earlier), later) == expire(table, later),
        expire(expire(table, later), later) == expire(table, later),
{
    assert(expire(expire(table, earlier), later) =~= expire(table, later));
    assert(expire(expire(table, later), later) =~= expire(table, later));
}

/// A datagram refreshes its sender: right after it is taken in, a sweep at
/// any time less than `PEER_TIMEOUT_SECS` seconds later keeps the sender.
pub proof fn lemma_fresh_sender_survives(
    table: PeerTable,
    local_id: Seq<char>,
    msg: MessageView,
    source_ip: Seq<char>,
    at: u64,
    now: u64,
)
    requires
        accepted(msg, local_id),
        now - at < PEER_TIMEOUT_SECS,
    ensures
        expire(receive(table, local_id, msg, source_ip, at), now).contains_key(msg.id),
        expire(receive(table, local_id, msg, source_ip, at), now)[msg.id] == peer_from(
            msg,
            source_ip,
            at,
        ),
{
    assert(live(peer_from(msg, source_ip, at), now));
}

} // verus!
