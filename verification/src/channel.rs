//! A subscribed client's event channel, together with the record of every
//! message handed to it.

use vstd::prelude::*;

use std::sync::mpsc::Sender;

verus! {

/// `std::sync::mpsc::Sender`, the sending half of a client's event channel.
#[verifier::external_type_specification]
#[verifier::external_body]
#[verifier::reject_recursive_types(T)]
pub struct ExSender<T>(std::sync::mpsc::Sender<T>);

/// One message handed to a channel, and whether its receiving end was still
/// there to take it.
pub struct Attempt {
    pub message: Seq<char>,
    pub accepted: bool,
}

/// A subscribed client: its event channel and every message handed to it,
/// in order.
pub struct Subscriber {
    tx: Sender<String>,
    attempts: Ghost<Seq<Attempt>>,
}

impl Subscriber {
    /// The client's channel.
    pub closed spec fn channel(&self) -> Sender<String> {
        self.tx
    }

    /// Every message handed to the channel so far, in order, with whether
    /// it was taken.
    pub closed spec fn attempts(&self) -> Seq<Attempt> {
        self.attempts@
    }

    /// A subscriber on `tx`, to which nothing has been handed yet.
    pub fn new(tx: Sender<String>) -> (s: Self)
        ensures
            s.channel() == tx,
            s.attempts() == Seq::<Attempt>::empty(),
    {
        Subscriber { tx, attempts: Ghost(Seq::empty()) }
    }

    /// Hands `msg` to the client's channel with `std::sync::mpsc::Sender::send`
    /// and records the attempt: the message handed, and whether the receiving
    /// end was still there (`send` returns `Ok` exactly then, and gives the
    /// message back in `Err` otherwise).  Which of the two happens depends on
    /// the client, so it is stated only through the result.
    #[verifier::external_body]
    pub(crate) fn send(&mut self, msg: String) -> (accepted: bool)
        ensures
            final(self).channel() == old(self).channel(),
            final(self).attempts() == old(self).attempts().push(
                (Attempt { message: msg@, accepted: accepted }),
            ),
    {
        self.tx.send(msg).is_ok()
    }
}

} // verus!
