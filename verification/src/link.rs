use vstd::prelude::*;

use futures::sync::mpsc::Receiver;

use crate::channel::{channel_buffer, same_channel};

use crate::clients::{attach_upstream, only_upstream, upstream_attached, ConnectedClients};

verus! {

/// What happens on the link to the upstream peer.
pub enum LinkEvent {
    /// The connection to the upstream peer has been made.
    Opened,
    /// The upstream peer sent a line.
    Received(String),
    /// The upstream peer closed the connection.
    Closed,
    /// The connection could not be made, or failed.
    Refused,
}

/// What is to be done about a link event.
pub enum LinkAction {
    /// Forward every line of this receiver to the upstream peer.
    Forward(Receiver<String>),
    /// Report this line.
    Report(String),
    /// Report this line, then connect again.
    ReportAndReconnect(String),
}

/// Decides what a link event leads to. Opening the link registers it as the
/// upstream client (replacing the earlier one) and forwards its channel; a
/// received line is reported as it is; a closed or refused link is reported
/// and connected again. No event other than opening touches the registry: a
/// closed link stays registered until the next one replaces it. So a
/// registry that holds only the upstream link still does afterwards.
pub fn on_link_event(clients: &mut ConnectedClients, event: LinkEvent) -> (action: LinkAction)
    ensures
        only_upstream(old(clients)@) ==> only_upstream(final(clients)@),
        (forall|k: u32| #[trigger] old(clients)@.contains_key(k) ==> k == 0)
            ==> (forall|k: u32| #[trigger] final(clients)@.contains_key(k) ==> k == 0),
        match event {
            LinkEvent::Opened => {
                action matches LinkAction::Forward(rx) && {
                    &&& final(clients)@.contains_key(0)
                    &&& final(clients)@ == old(clients)@.insert(0, final(clients)@[0])
                    &&& same_channel(final(clients)@[0].tx, rx)
                    &&& channel_buffer(final(clients)@[0].tx) == 8
                    &&& upstream_attached(old(clients)@, final(clients)@, rx)
                }
            },
            LinkEvent::Received(line) => {
                &&& final(clients)@ == old(clients)@
                &&& action matches LinkAction::Report(note) && note@ == line@
            },
            LinkEvent::Closed => {
                &&& final(clients)@ == old(clients)@
                &&& action matches LinkAction::ReportAndReconnect(note)
                    && note@ == "CLIENT DISCONNECTED"@
            },
            LinkEvent::Refused => {
                &&& final(clients)@ == old(clients)@
                &&& action matches LinkAction::ReportAndReconnect(note)
                    && note@ == "connection refuse"@
            },
        },
{
    match event {
        LinkEvent::Opened => {
            let ghost before = clients@;
            let rx = attach_upstream(clients);
            proof {
                if only_upstream(before) {
                    crate::clients::law_only_upstream_is_registered(before, clients@, rx);
                }
                assert forall|k: u32| #[trigger] clients@.contains_key(k) && k != 0 implies before.contains_key(k) by {
                    assert(clients@ == before.insert(0, clients@[0]));
                }
            }
            LinkAction::Forward(rx)
        },
        LinkEvent::Received(line) => LinkAction::Report(line),
        LinkEvent::Closed => LinkAction::ReportAndReconnect("CLIENT DISCONNECTED".to_owned()),
        LinkEvent::Refused => LinkAction::ReportAndReconnect("connection refuse".to_owned()),
    }
}

} // verus!
