use vstd::prelude::*;

verus! {

// The two buses the pipeline runs on, taken from crossbeam: a bounded
// channel as the admission queue and an unbounded one as the output bus.
// The channels are shared across threads, so their contents cannot be a
// function of one endpoint value; each wrapper states what holds of every
// outcome, and the discipline the channel documentation promises — bounded
// capacity, senders blocking while full, delivery in send order — is relied
// on where named in the comments and mirrored by the verified
// `crate::admission` model.

#[verifier::external_type_specification]
#[verifier::external_body]
#[verifier::reject_recursive_types(T)]
pub struct ExSender<T>(crossbeam_channel::Sender<T>);

#[verifier::external_type_specification]
#[verifier::external_body]
#[verifier::reject_recursive_types(T)]
pub struct ExReceiver<T>(crossbeam_channel::Receiver<T>);

/// Relies on crossbeam_channel::bounded: a channel of capacity `cap` whose
/// senders block while it is full and whose messages arrive in send order.
#[verifier::external_body]
pub(crate) fn bounded_channel<T>(cap: usize) -> (r: (
    crossbeam_channel::Sender<T>,
    crossbeam_channel::Receiver<T>,
)) {
    crossbeam_channel::bounded(cap)
}

/// Relies on crossbeam_channel::unbounded: a channel whose senders never
/// block and whose messages arrive in send order.
#[verifier::external_body]
pub(crate) fn unbounded_channel<T>() -> (r: (
    crossbeam_channel::Sender<T>,
    crossbeam_channel::Receiver<T>,
)) {
    crossbeam_channel::unbounded()
}

/// Relies on crossbeam_channel::Sender::send: blocks until the channel has
/// room, delivers the message exactly once, and fails only when every
/// receiver is gone — in which case the message is lost with the channel.
#[verifier::external_body]
pub(crate) fn send_value<T>(s: &crossbeam_channel::Sender<T>, v: T) -> (ok: bool) {
    s.send(v).is_ok()
}

/// Relies on crossbeam_channel::Receiver::recv: blocks until a message is
/// available and returns it, or `None` once the channel is empty and every
/// sender is gone.
#[verifier::external_body]
pub(crate) fn recv_value<T>(r: &crossbeam_channel::Receiver<T>) -> (v: Option<T>) {
    r.recv().ok()
}

/// Relies on crossbeam_channel's Clone for Sender: another endpoint of the
/// same channel.
pub assume_specification<T>[ <crossbeam_channel::Sender<T> as Clone>::clone ](
    s: &crossbeam_channel::Sender<T>,
) -> (r: crossbeam_channel::Sender<T>);

/// Relies on crossbeam_channel's Clone for Receiver: another endpoint of
/// the same channel.
pub assume_specification<T>[ <crossbeam_channel::Receiver<T> as Clone>::clone ](
    r: &crossbeam_channel::Receiver<T>,
) -> (c: crossbeam_channel::Receiver<T>);

} // verus!
