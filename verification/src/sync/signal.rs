//! Shutdown signals to background tasks.

use vstd::prelude::*;

verus! {

/// The sending half of a channel that holds the latest value.
#[verifier::external_type_specification]
#[verifier::external_body]
#[verifier::reject_recursive_types(T)]
pub struct ExSender<T>(tokio::sync::watch::Sender<T>);

/// A running task.
#[verifier::external_type_specification]
#[verifier::external_body]
#[verifier::reject_recursive_types(T)]
pub struct ExTask<T>(tokio::task::JoinHandle<T>);

/// Why a task did not end by itself.
#[verifier::external_type_specification]
#[verifier::external_body]
pub struct ExTaskError(tokio::task::JoinError);

/// The signals that were sent, each with its channel, in order. It exists in
/// contracts only; no other part of the library can add a signal to it.
pub struct Signals {
    sent: Ghost<Seq<(tokio::sync::watch::Sender<bool>, bool)>>,
}

impl View for Signals {
    type V = Seq<(tokio::sync::watch::Sender<bool>, bool)>;

    closed spec fn view(&self) -> Seq<(tokio::sync::watch::Sender<bool>, bool)> {
        self.sent@
    }
}

impl Signals {
    /// No signals.
    pub fn new() -> (r: Self)
        ensures
            r@.len() == 0,
    {
        Signals { sent: Ghost(Seq::empty()) }
    }

    /// These signals, and then the others.
    pub fn and(self, later: Signals) -> (r: Self)
        ensures
            r@ == self@ + later@,
    {
        Signals { sent: Ghost(self.sent@ + later.sent@) }
    }
}

/// `tokio::sync::watch::Sender::send`: the value becomes the channel's latest.
/// It is lost where no receiver is left; which holds is not claimed, and not
/// handed out. The signal is noted.
#[verifier::external_body]
pub(crate) fn send_signal(
    sender: &tokio::sync::watch::Sender<bool>,
    value: bool,
    signals: &mut Signals,
)
    ensures
        final(signals)@ == old(signals)@.push((*sender, value)),
{
    let _ = sender.send(value);
}

} // verus!
