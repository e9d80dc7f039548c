use std::sync::Arc;

use dashmap::DashMap;
use tokio::sync::mpsc::error::TrySendError;
use tokio::sync::mpsc::{Receiver, Sender};
use vstd::prelude::*;

use crate::message::Message;

verus! {

#[verifier::external_type_specification]
#[verifier::external_body]
#[verifier::reject_recursive_types(K)]
#[verifier::reject_recursive_types(V)]
#[verifier::reject_recursive_types(S)]
pub struct ExDashMap<K, V, S>(DashMap<K, V, S>);

#[verifier::external_type_specification]
#[verifier::external_body]
#[verifier::reject_recursive_types(T)]
pub struct ExSender<T>(Sender<T>);

#[verifier::external_type_specification]
#[verifier::external_body]
#[verifier::reject_recursive_types(T)]
pub struct ExReceiver<T>(Receiver<T>);

/// How many messages a peer's mailbox holds before it counts as stalled.
pub const MAILBOX_CAPACITY: usize = 128;

/// The sending end of one peer's mailbox.
pub type Mailbox = Sender<Arc<Message>>;

/// The receiving end of one peer's mailbox, drained by its delivery task.
pub type Inbox = Receiver<Arc<Message>>;

/// The capacity that the channel behind an inbox was made with.
pub uninterp spec fn inbox_bound(r: Inbox) -> nat;

/// What happened when a message was offered to one peer.
#[derive(Debug, Clone, Copy, PartialEq, Eq, Structural)]
pub enum Delivery {
    /// The message was queued in the peer's mailbox.
    Queued,
    /// The mailbox was full: the peer is behind, and the message is still
    /// owed to it once its mailbox has room.
    Full,
    /// The peer's delivery task has ended and dropped its inbox.
    Closed,
    /// The peer had already left the registry.
    Absent,
}

/// The peers of `peers`, in order, other than `exclude`.
pub open spec fn others(peers: Seq<u64>, exclude: u64) -> Seq<u64>
    decreases peers.len(),
{
    if peers.len() == 0 {
        seq![]
    } else {
        let rest = others(peers.drop_last(), exclude);
        if peers.last() == exclude {
            rest
        } else {
            rest.push(peers.last())
        }
    }
}

/// The targets, in order, whose delivery outcome is `kind`.
pub open spec fn targets_with(targets: Seq<u64>, outcomes: Seq<Delivery>, kind: Delivery) -> Seq<u64>
    decreases targets.len(),
{
    if targets.len() == 0 || outcomes.len() == 0 {
        seq![]
    } else {
        let rest = targets_with(targets.drop_last(), outcomes.drop_last(), kind);
        if outcomes.last() == kind {
            rest.push(targets.last())
        } else {
            rest
        }
    }
}

/// A peer is a recipient of a broadcast exactly when it is registered and is
/// not the excluded sender.
pub proof fn lemma_others_contains(peers: Seq<u64>, exclude: u64, p: u64)
    ensures
        others(peers, exclude).contains(p) <==> (peers.contains(p) && p != exclude),
    decreases peers.len(),
{
    if peers.len() > 0 {
        let q = peers.drop_last();
        let l = peers.last();
        let rest = others(q, exclude);
        lemma_others_contains(q, exclude, p);
        lemma_push_contains(q, l, p);
        assert(peers =~= q.push(l));
        lemma_push_contains(rest, l, p);
    }
}

proof fn lemma_push_contains(s: Seq<u64>, x: u64, p: u64)
    ensures
        s.push(x).contains(p) <==> (s.contains(p) || x == p),
{
    let t = s.push(x);
    if s.contains(p) {
        let j = choose|j: int| 0 <= j < s.len() && s[j] == p;
        assert(t[j] == p);
    }
    if x == p {
        assert(t[s.len() as int] == p);
    }
    if t.contains(p) {
        let j = choose|j: int| 0 <= j < t.len() && t[j] == p;
        if j < s.len() {
            assert(s[j] == p);
        }
    }
}

/// The recipients of a broadcast are distinct when the registered peers are.
pub proof fn lemma_others_distinct(peers: Seq<u64>, exclude: u64)
    requires
        peers.no_duplicates(),
    ensures
        others(peers, exclude).no_duplicates(),
    decreases peers.len(),
{
    if peers.len() > 0 {
        let q = peers.drop_last();
        let l = peers.last();
        assert(q.no_duplicates());
        lemma_others_distinct(q, exclude);
        lemma_others_contains(q, exclude, l);
        if q.contains(l) {
            let j = choose|j: int| 0 <= j < q.len() && q[j] == l;
            assert(peers[j] == peers[peers.len() - 1]);
        }
        let rest = others(q, exclude);
        if l != exclude {
            let t = rest.push(l);
            assert forall|i: int, k: int| 0 <= i < t.len() && 0 <= k < t.len() && i != k implies t[i]
                != t[k] by {
                if i < rest.len() && k < rest.len() {
                } else if i < rest.len() {
                    assert(rest.contains(t[i]));
                } else if k < rest.len() {
                    assert(rest.contains(t[k]));
                }
            }
        }
    }
}

/// A broadcast never offers the message to the peer it excludes.
pub proof fn lemma_sender_never_receives(peers: Seq<u64>, exclude: u64)
    ensures
        !others(peers, exclude).contains(exclude),
{
    lemma_others_contains(peers, exclude, exclude);
}

/// Once a peer is gone from the registry, no later broadcast offers it
/// anything, whoever sends.
pub proof fn lemma_evicted_never_targeted(peers: Seq<u64>, exclude: u64, gone: u64)
    requires
        !peers.contains(gone),
    ensures
        !others(peers, exclude).contains(gone),
{
    lemma_others_contains(peers, exclude, gone);
}

/// The peers of `peers`, in order, other than `exclude`.
pub fn recipients(peers: &Vec<u64>, exclude: u64) -> (r: Vec<u64>)
    ensures
        r@ == others(peers@, exclude),
{
    let mut r: Vec<u64> = Vec::new();
    let mut i: usize = 0;
    while i < peers.len()
        invariant
            i <= peers@.len(),
            r@ == others(peers@.subrange(0, i as int), exclude),
        decreases peers@.len() - i,
    {
        assert(peers@.subrange(0, i + 1).drop_last() =~= peers@.subrange(0, i as int));
        if peers[i] != exclude {
            r.push(peers[i]);
        }
        i = i + 1;
    }
    assert(peers@.subrange(0, peers@.len() as int) =~= peers@);
    r
}

/// The targets, in order, whose outcome in `outcomes` is `kind`.
pub fn pick_targets(targets: &Vec<u64>, outcomes: &Vec<Delivery>, kind: Delivery) -> (r: Vec<u64>)
    requires
        targets@.len() == outcomes@.len(),
    ensures
        r@ == targets_with(targets@, outcomes@, kind),
{
    let mut r: Vec<u64> = Vec::new();
    let mut i: usize = 0;
    while i < targets.len()
        invariant
            i <= targets@.len(),
            targets@.len() == outcomes@.len(),
            r@ == targets_with(
                targets@.subrange(0, i as int),
                outcomes@.subrange(0, i as int),
                kind,
            ),
        decreases targets@.len() - i,
    {
        assert(targets@.subrange(0, i + 1).drop_last() =~= targets@.subrange(0, i as int));
        assert(outcomes@.subrange(0, i + 1).drop_last() =~= outcomes@.subrange(0, i as int));
        if outcomes[i] == kind {
            r.push(targets[i]);
        }
        i = i + 1;
    }
    assert(targets@.subrange(0, targets@.len() as int) =~= targets@);
    assert(outcomes@.subrange(0, outcomes@.len() as int) =~= outcomes@);
    r
}

/// Relies on `DashMap::new`: an empty concurrent map.
#[verifier::external_body]
fn new_peer_map() -> DashMap<u64, Mailbox> {
    DashMap::new()
}

/// Relies on `tokio::sync::mpsc::channel`: a bounded channel whose receiver
/// reports `capacity` as its maximum capacity. The channel panics on a zero
/// capacity and on one above `usize::MAX >> 3`, which is at least the bound
/// required here.
#[verifier::external_body]
fn open_mailbox(capacity: usize) -> (r: (Mailbox, Inbox))
    requires
        0 < capacity <= 0x1fff_ffff,
    ensures
        inbox_bound(r.1) == capacity,
{
    tokio::sync::mpsc::channel(capacity)
}

/// Relies on `DashMap::insert`: stores the mailbox under `id`, replacing any
/// earlier one.
#[verifier::external_body]
fn put_peer(peers: &DashMap<u64, Mailbox>, id: u64, mailbox: Mailbox) {
    peers.insert(id, mailbox);
}

/// Relies on `DashMap::remove`: drops the entry of `id`, if any.
#[verifier::external_body]
fn drop_peer(peers: &DashMap<u64, Mailbox>, id: u64) {
    peers.remove(&id);
}

/// Relies on `DashMap::iter`: the keys present while the shards are walked,
/// in an order that depends on the process's hasher. Each shard is walked
/// once under its read guard and a key lives in one shard only, so no key
/// comes twice.
#[verifier::external_body]
fn peer_ids(peers: &DashMap<u64, Mailbox>) -> (r: Vec<u64>)
    ensures
        r@.no_duplicates(),
{
    peers.iter().map(|e| *e.key()).collect()
}

/// Relies on `DashMap::get`: a handle on the mailbox of `id`, if registered.
#[verifier::external_body]
fn mailbox_of(peers: &DashMap<u64, Mailbox>, id: u64) -> Option<Mailbox> {
    peers.get(&id).map(|e| e.value().clone())
}

/// Relies on `Sender::try_send`: queues without waiting, or reports that the
/// channel is full or that its receiver is gone.
#[verifier::external_body]
fn offer(mailbox: &Mailbox, message: Arc<Message>) -> (r: Delivery)
    ensures
        !(r is Absent),
{
    match mailbox.try_send(message) {
        Ok(()) => Delivery::Queued,
        Err(TrySendError::Full(_)) => Delivery::Full,
        Err(TrySendError::Closed(_)) => Delivery::Closed,
    }
}

/// What one broadcast did: the registry snapshot it walked, the peers it
/// offered the message to, the outcome for each, the peers whose mailbox was
/// full and who are still owed the message, and the peers it evicted because
/// their mailbox was closed.
pub struct Fanout {
    pub peers: Vec<u64>,
    pub targets: Vec<u64>,
    pub outcomes: Vec<Delivery>,
    pub stalled: Vec<u64>,
    pub evicted: Vec<u64>,
}

/// The registry of connected peers: each peer's identity mapped to the
/// sending end of its mailbox. Safe to share between sessions.
pub struct State {
    peers: DashMap<u64, Mailbox>,
}

impl State {
    pub fn new() -> (r: State) {
        State { peers: new_peer_map() }
    }

    /// Registers peer `id` with a fresh mailbox and hands back its receiving
    /// end, which the peer's delivery task drains.
    pub fn add(&self, id: u64) -> (r: Inbox)
        ensures
            inbox_bound(r) == MAILBOX_CAPACITY,
    {
        let (mailbox, inbox) = open_mailbox(MAILBOX_CAPACITY);
        put_peer(&self.peers, id, mailbox);
        inbox
    }

    /// The mailbox of peer `id`, if it is registered, so that a message owed
    /// to a stalled peer can be sent once its mailbox has room.
    pub fn mailbox(&self, id: u64) -> Option<Mailbox> {
        mailbox_of(&self.peers, id)
    }

    /// Takes peer `id` out of the registry, closing its mailbox once no
    /// broadcast holds it.
    pub fn remove(&self, id: u64) {
        drop_peer(&self.peers, id);
    }

    /// Offers `message` to every registered peer but `exclude`, without
    /// waiting on any of them. A peer whose mailbox is closed is evicted; a
    /// peer whose mailbox is full is reported as stalled and stays
    /// registered, and the caller owes it the message.
    pub fn broadcast(&self, exclude: u64, message: &Arc<Message>) -> (r: Fanout)
        ensures
            r.peers@.no_duplicates(),
            r.targets@ == others(r.peers@, exclude),
            r.targets@.no_duplicates(),
            r.outcomes@.len() == r.targets@.len(),
            r.stalled@ == targets_with(r.targets@, r.outcomes@, Delivery::Full),
            r.evicted@ == targets_with(r.targets@, r.outcomes@, Delivery::Closed),
    {
        let peers = peer_ids(&self.peers);
        let targets = recipients(&peers, exclude);
        proof {
            lemma_others_distinct(peers@, exclude);
        }
        let mut outcomes: Vec<Delivery> = Vec::new();
        let mut i: usize = 0;
        while i < targets.len()
            invariant
                i <= targets@.len(),
                outcomes@.len() == i,
            decreases targets@.len() - i,
        {
            let d = match mailbox_of(&self.peers, targets[i]) {
                None => Delivery::Absent,
                Some(mailbox) => offer(&mailbox, message.clone()),
            };
            outcomes.push(d);
            i = i + 1;
        }
        let stalled = pick_targets(&targets, &outcomes, Delivery::Full);
        let evicted = pick_targets(&targets, &outcomes, Delivery::Closed);
        let mut k: usize = 0;
        while k < evicted.len()
            invariant
                k <= evicted@.len(),
            decreases evicted@.len() - k,
        {
            drop_peer(&self.peers, evicted[k]);
            k = k + 1;
        }
        Fanout { peers, targets, outcomes, stalled, evicted }
    }
}

} // verus!
