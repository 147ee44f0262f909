use vstd::prelude::*;

use futures::sync::mpsc::{Receiver, Sender};

verus! {

/// The sending half of a bounded channel of `futures`; opaque here, it is only
/// carried from where it is made to where lines are sent through it.
#[verifier::external_type_specification]
#[verifier::external_body]
#[verifier::reject_recursive_types(T)]
pub struct ExSender<T>(Sender<T>);

/// The receiving half of a bounded channel of `futures`; opaque here.
#[verifier::external_type_specification]
#[verifier::external_body]
#[verifier::reject_recursive_types(T)]
pub struct ExReceiver<T>(Receiver<T>);

/// The number of lines that the channel of this sending half buffers, as it
/// was given to `futures::sync::mpsc::channel` when the channel was opened.
pub uninterp spec fn channel_buffer(tx: Sender<String>) -> usize;

/// This sending half and this receiving half are the two ends of one channel
/// opened by `futures::sync::mpsc::channel`.
pub uninterp spec fn same_channel(tx: Sender<String>, rx: Receiver<String>) -> bool;

/// Calls `futures::sync::mpsc::channel(buffer)`: a new bounded channel whose two
/// halves are handed back; both are ends of that one channel, which buffers
/// `buffer` lines (plus one per sending handle). The call panics unless
/// `buffer` is below a quarter of `usize::MAX`, which `requires` rules out.
#[verifier::external_body]
pub(crate) fn open_channel(buffer: usize) -> (r: (Sender<String>, Receiver<String>))
    requires
        buffer < usize::MAX / 4,
    ensures
        same_channel(r.0, r.1),
        channel_buffer(r.0) == buffer,
{
    futures::sync::mpsc::channel(buffer)
}

/// Calls `<Sender<String> as Clone>::clone` of `futures`: another sending
/// handle on the channel of `tx`, so it reaches the same receiving half and
/// shares its buffer size. The clone panics once `usize::MAX / 2 - buffer`
/// handles of one channel are alive, a count that is left unstated.
#[verifier::external_body]
pub(crate) fn clone_sender(tx: &Sender<String>) -> (r: Sender<String>)
    ensures
        channel_buffer(r) == channel_buffer(*tx),
        forall|rx: Receiver<String>| same_channel(*tx, rx) ==> #[trigger] same_channel(r, rx),
{
    tx.clone()
}

} // verus!
