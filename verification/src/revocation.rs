//! The signal that tells running sessions that their client is no longer welcome.

use tokio::sync::watch;
use vstd::prelude::*;

verus! {

/// `tokio::sync::watch::Sender`
#[verifier::external_type_specification]
#[verifier::external_body]
#[verifier::reject_recursive_types(T)]
pub struct ExSender<T>(watch::Sender<T>);

/// `tokio::sync::watch::Receiver`
#[verifier::external_type_specification]
#[verifier::external_body]
#[verifier::reject_recursive_types(T)]
pub struct ExReceiver<T>(watch::Receiver<T>);

/// The value that the channel of `sender` holds.
pub uninterp spec fn sent_value(sender: watch::Sender<bool>) -> bool;

/// The channel that `sender` sends on.
pub uninterp spec fn sender_channel(sender: watch::Sender<bool>) -> int;

/// The channel that `receiver` reads from.
pub uninterp spec fn receiver_channel(receiver: watch::Receiver<bool>) -> int;

/// Calls `tokio::sync::watch::channel`. Claimed of it: the two ends belong to one channel,
/// which holds the given value. It is left unsaid that this is a channel of its own.
#[verifier::external_body]
pub(crate) fn watch_channel(initial: bool) -> (ends: (watch::Sender<bool>, watch::Receiver<bool>))
    ensures
        sent_value(ends.0) == initial,
        receiver_channel(ends.1) == sender_channel(ends.0),
{
    watch::channel(initial)
}

/// Calls `Sender::send_replace`. Claimed of it: the channel holds the new value afterwards, and
/// the old value is handed back. The channel has no other sender here (none is ever cloned), so
/// its value changes only where the sender is borrowed mutably.
#[verifier::external_body]
pub(crate) fn watch_send_replace(sender: &mut watch::Sender<bool>, value: bool) -> (previous: bool)
    ensures
        sent_value(*final(sender)) == value,
        sender_channel(*final(sender)) == sender_channel(*old(sender)),
        previous == sent_value(*old(sender)),
{
    sender.send_replace(value)
}

/// Calls `Sender::subscribe`. Claimed of it: the receiver reads from the channel of the sender.
#[verifier::external_body]
pub(crate) fn watch_subscribe(sender: &watch::Sender<bool>) -> (receiver: watch::Receiver<bool>)
    ensures
        receiver_channel(receiver) == sender_channel(*sender),
{
    sender.subscribe()
}

/// Calls the `Clone` of `Receiver`. Claimed of it: the copy reads from the same channel.
#[verifier::external_body]
pub(crate) fn watch_receiver_clone(receiver: &watch::Receiver<bool>) -> (copy: watch::Receiver<bool>)
    ensures
        receiver_channel(copy) == receiver_channel(*receiver),
{
    receiver.clone()
}

} // verus!
