use vstd::prelude::*;

use std::collections::HashMap;

use futures::sync::mpsc::{Receiver, Sender};

use crate::channel::{channel_buffer, clone_sender, open_channel, same_channel};
use vstd::std_specs::iter::IteratorSpec;

verus! {

broadcast use vstd::std_specs::hash::group_hash_axioms;

/// The id under which the upstream link is registered; each new upstream
/// connection replaces the previous one under the same id.
pub const UPSTREAM_ID: u32 = 0;

/// How many lines the upstream channel buffers before senders wait.
pub const UPSTREAM_BUFFER: usize = 8;

/// A registered client: the channel through which lines reach it.
pub struct Client {
    pub tx: Sender<String>,
}

impl Clone for Client {
    /// A copy whose sending handle is on the same channel.
    fn clone(&self) -> (res: Client)
        ensures
            channel_buffer(res.tx) == channel_buffer(self.tx),
            forall|rx: Receiver<String>| same_channel(self.tx, rx) ==> #[trigger] same_channel(res.tx, rx),
    {
        Client { tx: clone_sender(&self.tx) }
    }
}

impl Client {
    pub fn new(tx: Sender<String>) -> (client: Client)
        ensures
            client.tx == tx,
    {
        Client { tx: tx }
    }
}

/// One line to be sent to one client: the client's id, the client's own
/// sending handle, and the line.
pub struct Delivery<'a> {
    pub client: u32,
    pub tx: &'a Sender<String>,
    pub line: String,
}

/// The ids that a list of deliveries addresses, in order.
pub open spec fn recipients<'a>(ds: Seq<Delivery<'a>>) -> Seq<u32> {
    ds.map_values(|d: Delivery<'a>| d.client)
}

/// Only the upstream link is registered: no id other than `UPSTREAM_ID`.
pub open spec fn only_upstream(m: Map<u32, Client>) -> bool {
    forall|i: u32| #[trigger] m.contains_key(i) ==> i == UPSTREAM_ID
}

/// The registry of connected clients, by id.
pub struct ConnectedClients {
    clients: HashMap<u32, Client>,
}

impl View for ConnectedClients {
    type V = Map<u32, Client>;

    closed spec fn view(&self) -> Map<u32, Client> {
        self.clients@
    }
}

impl ConnectedClients {
    pub fn new() -> (r: ConnectedClients)
        ensures
            r@ == Map::<u32, Client>::empty(),
    {
        ConnectedClients { clients: HashMap::new() }
    }

    /// Registers `client` under `i`, replacing any client that had that id.
    pub fn insert(&mut self, i: u32, client: Client)
        ensures
            final(self)@ == old(self)@.insert(i, client),
    {
        self.clients.insert(i, client);
    }

    /// Unregisters the client with id `i` and hands it back, if there was one.
    pub fn remove(&mut self, i: &u32) -> (removed: Option<Client>)
        ensures
            final(self)@ == old(self)@.remove(*i),
            match removed {
                Some(c) => old(self)@.contains_key(*i) && c == old(self)@[*i],
                None => !old(self)@.contains_key(*i),
            },
    {
        self.clients.remove(i)
    }

    /// The deliveries of one broadcast: one per registered client, on that
    /// client's own sending handle, each with the message itself. The order is
    /// that in which the map is walked.
    pub fn broadcast<'a>(&'a self, message: &String) -> (ds: Vec<Delivery<'a>>)
        ensures
            recipients(ds@).no_duplicates(),
            recipients(ds@).to_set() == self@.dom(),
            ds@.len() == self@.len(),
            forall|j: int| 0 <= j < ds@.len() ==> (#[trigger] ds@[j]).line@ == message@,
            forall|j: int| 0 <= j < ds@.len() ==> *(#[trigger] ds@[j]).tx == self@[ds@[j].client].tx,
            forall|j: int| 0 <= j < ds@.len() ==> self@.contains_key((#[trigger] ds@[j]).client),
            forall|i: int, j: int| 0 <= i < ds@.len() && 0 <= j < ds@.len() && i != j
                ==> (#[trigger] ds@[i]).client != (#[trigger] ds@[j]).client,
            forall|k: u32| #[trigger] self@.contains_key(k) ==> exists|j: int| 0 <= j < ds@.len() && (#[trigger] ds@[j]).client == k,
    {
        let mut ds: Vec<Delivery<'a>> = Vec::new();
        let walk = self.clients.iter();
        let ghost pairs = walk.remaining();
        for (id, client) in it: walk
            invariant
                it.seq() == pairs,
                ds@.len() == it.index(),
                forall|j: int| 0 <= j < ds@.len() ==> (#[trigger] ds@[j]).line@ == message@,
                forall|j: int| 0 <= j < ds@.len() ==> (#[trigger] ds@[j]).client == *it.seq()[j].0,
                forall|j: int| 0 <= j < ds@.len() ==> *(#[trigger] ds@[j]).tx == it.seq()[j].1.tx,
        {
            ds.push(Delivery { client: *id, tx: &client.tx, line: message.clone() });
        }
        proof {
            let m = self.clients@;
            let ids = recipients(ds@);
            assert(ids.len() == pairs.len());
            assert forall|i: int, j: int| 0 <= i < ids.len() && 0 <= j < ids.len() && i != j
                implies ids[i] != ids[j] by {
                assert(m.contains_key(*pairs[i].0) && m[*pairs[i].0] == *pairs[i].1);
                assert(m.contains_key(*pairs[j].0) && m[*pairs[j].0] == *pairs[j].1);
                if ids[i] == ids[j] {
                    assert(pairs[i] == pairs[j]);
                }
            }
            assert forall|k: u32| #[trigger] ids.to_set().contains(k) <==> m.dom().contains(k) by {
                if m.dom().contains(k) {
                    assert(pairs.contains((&k, &m[k])));
                    let i = choose|i: int| 0 <= i < pairs.len() && pairs[i] == (&k, &m[k]);
                    assert(ids[i] == k);
                }
                if ids.to_set().contains(k) {
                    let i = choose|i: int| 0 <= i < ids.len() && ids[i] == k;
                    assert(m.contains_key(*pairs[i].0));
                }
            }
            assert(ids.to_set() =~= m.dom());
            assert forall|j: int| 0 <= j < ds@.len() implies m.contains_key((#[trigger] ds@[j]).client) by {
                assert(ids.to_set().contains(ids[j]));
            }
            assert forall|k: u32| #[trigger] m.contains_key(k) implies exists|j: int| 0 <= j < ds@.len() && (#[trigger] ds@[j]).client == k by {
                assert(ids.to_set().contains(k));
                let j = choose|j: int| 0 <= j < ids.len() && ids[j] == k;
                assert(ds@[j].client == k);
            }
            assert forall|j: int| 0 <= j < ds@.len() implies *(#[trigger] ds@[j]).tx == m[ds@[j].client].tx by {
                assert(m.contains_key(*pairs[j].0) && m[*pairs[j].0] == *pairs[j].1);
            }
        }
        ds
    }
}

/// The registry after a new upstream link, whose sending half is `c.tx`, has
/// been attached, with `rx` the other end of its channel.
pub open spec fn upstream_attached(before: Map<u32, Client>, after: Map<u32, Client>, rx: Receiver<String>) -> bool {
    exists|c: Client| {
        &&& after == #[trigger] before.insert(UPSTREAM_ID, c)
        &&& same_channel(c.tx, rx)
        &&& channel_buffer(c.tx) == UPSTREAM_BUFFER
    }
}

/// Starts a new upstream link: opens its channel, with room for
/// `UPSTREAM_BUFFER` lines, registers the sending half under `UPSTREAM_ID`
/// (replacing the link before it, if any) and hands back the receiving half,
/// from which the lines for the upstream peer are to be taken.
pub fn attach_upstream(clients: &mut ConnectedClients) -> (rx: Receiver<String>)
    ensures
        final(clients)@.contains_key(0),
        final(clients)@ == old(clients)@.insert(0, final(clients)@[0]),
        same_channel(final(clients)@[0].tx, rx),
        channel_buffer(final(clients)@[0].tx) == 8,
        upstream_attached(old(clients)@, final(clients)@, rx),
{
    let (tx, rx) = open_channel(UPSTREAM_BUFFER);
    clients.insert(UPSTREAM_ID, Client::new(tx));
    rx
}

/// What `upstream_attached` says of the registry: the upstream id maps to a
/// client whose sending half is on the channel of `rx` and buffers eight
/// lines, and every other id keeps exactly what it had.
pub proof fn law_upstream_attached(before: Map<u32, Client>, after: Map<u32, Client>, rx: Receiver<String>)
    requires
        upstream_attached(before, after, rx),
    ensures
        after.contains_key(0),
        same_channel(after[0].tx, rx),
        channel_buffer(after[0].tx) == 8,
        forall|k: u32| k != 0 ==> (#[trigger] after.contains_key(k) <==> before.contains_key(k)),
        forall|k: u32| k != 0 && #[trigger] before.contains_key(k) ==> after[k] == before[k],
        after == before.insert(0, after[0]),
{
    let c = choose|c: Client| {
        &&& after == #[trigger] before.insert(UPSTREAM_ID, c)
        &&& same_channel(c.tx, rx)
        &&& channel_buffer(c.tx) == UPSTREAM_BUFFER
    };
    assert(after == before.insert(0, c));
}

/// The deliveries' ids, as `recipients` lists them, are their `client` fields in order.
pub proof fn law_recipients<'a>(ds: Seq<Delivery<'a>>)
    ensures
        recipients(ds).len() == ds.len(),
        forall|j: int| 0 <= j < ds.len() ==> #[trigger] recipients(ds)[j] == ds[j].client,
{
}

/// Only the upstream link is registered exactly when no id but 0 is.
pub proof fn law_only_upstream(m: Map<u32, Client>)
    ensures
        only_upstream(m) <==> (forall|k: u32| #[trigger] m.contains_key(k) ==> k == 0),
{
}

/// Removing a client just registered gives it back, and leaves the registry
/// as removing that id would have left it before.
pub proof fn law_remove_after_insert(m: Map<u32, Client>, i: u32, c: Client)
    ensures
        m.insert(i, c).contains_key(i),
        m.insert(i, c)[i] == c,
        m.insert(i, c).remove(i) == m.remove(i),
{
    assert(m.insert(i, c).remove(i) =~= m.remove(i));
}

/// Attaching the upstream link again replaces the earlier link: the registry
/// holds one upstream entry, the newest, and the other clients are untouched.
pub proof fn law_upstream_replaced(m: Map<u32, Client>, first: Client, second: Client)
    requires
        m.dom().finite(),
    ensures
        m.insert(UPSTREAM_ID, first).insert(UPSTREAM_ID, second) == m.insert(UPSTREAM_ID, second),
        m.insert(UPSTREAM_ID, second).len() == m.insert(UPSTREAM_ID, first).len(),
        m.insert(UPSTREAM_ID, second).remove(UPSTREAM_ID) == m.remove(UPSTREAM_ID),
{
    assert(m.insert(UPSTREAM_ID, first).insert(UPSTREAM_ID, second) =~= m.insert(UPSTREAM_ID, second));
    assert(m.insert(UPSTREAM_ID, second).dom() =~= m.insert(UPSTREAM_ID, first).dom());
    assert(m.insert(UPSTREAM_ID, second).remove(UPSTREAM_ID) =~= m.remove(UPSTREAM_ID));
}

/// Starting from an empty registry, and going through link events only (the
/// one change they make is attaching the upstream link), no client other than
/// the upstream one is ever registered: the invariant holds of the empty
/// registry and every attachment keeps it.
pub proof fn law_only_upstream_is_registered(before: Map<u32, Client>, after: Map<u32, Client>, rx: Receiver<String>)
    requires
        only_upstream(before),
        upstream_attached(before, after, rx) || after == before,
    ensures
        only_upstream(Map::<u32, Client>::empty()),
        only_upstream(after),
{
    if after != before {
        let c = choose|c: Client| {
            &&& after == #[trigger] before.insert(UPSTREAM_ID, c)
            &&& same_channel(c.tx, rx)
            &&& channel_buffer(c.tx) == UPSTREAM_BUFFER
        };
        assert(after == before.insert(UPSTREAM_ID, c));
    }
}

} // verus!
