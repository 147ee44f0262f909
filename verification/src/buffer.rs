use vstd::prelude::*;

use futures::sync::mpsc::{Receiver, Sender};

use crate::channel::{channel_buffer, clone_sender, same_channel};

verus! {

/// What `start_send` answers for one offered line.
pub enum SinkAdmission {
    /// The sink cannot take the line yet; it is handed back unchanged.
    NotReady(String),
    /// The sink took the line.
    Ready,
}

/// The answer of `start_send`, with the line that is to be reported for it.
pub struct SendStep {
    pub note: String,
    pub admission: SinkAdmission,
}

/// A sink that holds back every line until the remote side has been
/// declared ready.
pub struct Buffer {
    pub remote_server_is_ready: bool,
    pub remote_tx: Option<Sender<String>>,
}

impl Clone for Buffer {
    /// A copy with its own readiness flag, equal to this one's now: declaring
    /// either ready later does not make the other ready. The copy holds a
    /// sending handle exactly when this buffer does, on the same channel.
    fn clone(&self) -> (res: Buffer)
        ensures
            res.remote_server_is_ready == self.remote_server_is_ready,
            res.remote_tx is Some == self.remote_tx is Some,
            res.remote_tx matches Some(copy) ==> {
                &&& channel_buffer(copy) == channel_buffer(self.remote_tx->0)
                &&& forall|rx: Receiver<String>| same_channel(self.remote_tx->0, rx)
                    ==> #[trigger] same_channel(copy, rx)
            },
    {
        let remote_tx = match &self.remote_tx {
            Some(tx) => Some(clone_sender(tx)),
            None => None,
        };
        Buffer { remote_server_is_ready: self.remote_server_is_ready, remote_tx }
    }
}

impl Buffer {
    /// The sink takes the lines offered to it.
    pub open spec fn takes_lines(self) -> bool {
        self.remote_server_is_ready
    }

    /// The buffer once the remote side has been declared ready.
    pub open spec fn after_ready(self) -> Buffer {
        Buffer { remote_server_is_ready: true, ..self }
    }

    /// Declares the remote side ready: from now on every offered line is taken.
    pub fn ready(&mut self)
        ensures
            final(self).remote_server_is_ready,
            final(self).remote_tx == old(self).remote_tx,
            *final(self) == old(self).after_ready(),
    {
        self.remote_server_is_ready = true;
    }

    /// Offers one line to the sink.
    pub fn start_send(&mut self, msg: String) -> (step: SendStep)
        ensures
            *final(self) == *old(self),
            old(self).remote_server_is_ready ==> step.admission is Ready && step.note@ == msg@,
            !old(self).remote_server_is_ready ==> step.note@ == "not ready"@ && (
                match step.admission {
                    SinkAdmission::NotReady(back) => back@ == msg@,
                    SinkAdmission::Ready => false,
                }),
    {
        if !self.remote_server_is_ready {
            return SendStep { note: "not ready".to_owned(), admission: SinkAdmission::NotReady(msg) };
        }
        SendStep { note: msg, admission: SinkAdmission::Ready }
    }

    /// Asks whether every line taken so far has gone out: it always has, since
    /// a taken line is only reported. Hands back the note to report.
    pub fn poll_complete(&mut self) -> (note: String)
        ensures
            *final(self) == *old(self),
            note@ == "complete"@,
    {
        "complete".to_owned()
    }
}

/// Declaring the remote side ready makes the sink take every line from then
/// on, whatever sending handle it holds, and changes nothing but the flag;
/// declaring it again changes nothing, and neither offering a line nor
/// polling undoes it (both leave the buffer as it was). The sink takes lines
/// exactly when its flag is set.
pub proof fn law_ready_lasts(b: Buffer)
    ensures
        b.takes_lines() == b.remote_server_is_ready,
        b.after_ready().remote_server_is_ready,
        b.after_ready().remote_tx == b.remote_tx,
        b.after_ready().takes_lines(),
        b.after_ready().after_ready() == b.after_ready(),
        b.takes_lines() ==> b.after_ready() == b,
{
}

} // verus!
