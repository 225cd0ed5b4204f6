//! The outside channels: `std::sync::mpsc`, and `oneshot` for a single message.
use oneshot::{Receiver as OneshotReceiver, Sender as OneshotSender};
use vstd::prelude::*;

verus! {

/// `std::sync::mpsc::Sender`, carried unseen.
#[verifier::external_type_specification]
#[verifier::external_body]
#[verifier::reject_recursive_types(T)]
pub struct ExMpscSender<T>(std::sync::mpsc::Sender<T>);

/// `std::sync::mpsc::Receiver`, carried unseen.
#[verifier::external_type_specification]
#[verifier::external_body]
#[verifier::reject_recursive_types(T)]
pub struct ExMpscReceiver<T>(std::sync::mpsc::Receiver<T>);

/// `std::sync::mpsc::SendError`, which holds the message that was not sent.
#[verifier::external_type_specification]
#[verifier::reject_recursive_types(T)]
pub struct ExMpscSendError<T>(std::sync::mpsc::SendError<T>);

/// `std::sync::mpsc::TryRecvError`: nothing there yet, or nobody left to send.
#[verifier::external_type_specification]
pub struct ExMpscTryRecvError(std::sync::mpsc::TryRecvError);

/// `std::sync::mpsc::RecvError`.
#[verifier::external_type_specification]
pub struct ExMpscRecvError(std::sync::mpsc::RecvError);

/// `oneshot::Sender`, carried unseen.
#[verifier::external_type_specification]
#[verifier::external_body]
#[verifier::reject_recursive_types(T)]
pub struct ExOneshotSender<T>(OneshotSender<T>);

/// `oneshot::Receiver`, carried unseen.
#[verifier::external_type_specification]
#[verifier::external_body]
#[verifier::reject_recursive_types(T)]
pub struct ExOneshotReceiver<T>(OneshotReceiver<T>);

/// `oneshot::TryRecvError`: nothing there yet, or nothing to come.
#[verifier::external_type_specification]
pub struct ExOneshotTryRecvError(oneshot::TryRecvError);

/// `oneshot::RecvError`, what waiting on a `oneshot::Receiver` fails with.
#[verifier::external_type_specification]
pub struct ExOneshotRecvError(oneshot::RecvError);

/// `std::sync::mpsc::channel` gives the two ends of a new channel. Nothing is
/// claimed of them.
pub assume_specification<T>[ std::sync::mpsc::channel::<T> ]() -> (ends: (
    std::sync::mpsc::Sender<T>,
    std::sync::mpsc::Receiver<T>,
));

/// `std::sync::mpsc::Sender::send` gives the message back when it fails. Whether it
/// fails depends on the other end, and is left open.
pub assume_specification<T>[ std::sync::mpsc::Sender::<T>::send ](
    sender: &std::sync::mpsc::Sender<T>,
    t: T,
) -> (r: Result<(), std::sync::mpsc::SendError<T>>)
    ensures
        r matches Err(e) ==> e.0 == t,
;

/// `std::sync::mpsc::Sender::clone` gives one more sending end of the channel.
/// Nothing is claimed of it.
pub assume_specification<T>[ <std::sync::mpsc::Sender<T> as Clone>::clone ](
    sender: &std::sync::mpsc::Sender<T>,
) -> (c: std::sync::mpsc::Sender<T>);

/// `std::sync::mpsc::Receiver::try_recv` takes a message if one is there. What it
/// gives depends on the other ends, and is left open.
pub assume_specification<T>[ std::sync::mpsc::Receiver::<T>::try_recv ](
    receiver: &std::sync::mpsc::Receiver<T>,
) -> (r: Result<T, std::sync::mpsc::TryRecvError>);

/// `std::sync::mpsc::Receiver::recv` waits for a message. What it gives depends on
/// the other ends, and is left open.
pub assume_specification<T>[ std::sync::mpsc::Receiver::<T>::recv ](
    receiver: &std::sync::mpsc::Receiver<T>,
) -> (r: Result<T, std::sync::mpsc::RecvError>);

/// `oneshot::channel` gives the two ends of a new channel. Nothing is claimed of
/// them.
pub assume_specification<T>[ oneshot::channel::<T> ]() -> (ends: (
    OneshotSender<T>,
    OneshotReceiver<T>,
));

/// `s` and `way` are the two ends that one call of `oneshot::channel` gave.
pub open spec fn ends_of_way<T>(s: OneshotSender<T>, way: OneshotReceiver<T>) -> bool {
    call_ensures(oneshot::channel::<T>, (), (s, way))
}

/// Sending `message` by `s` gave `r`, with the message where nobody waits for it.
pub closed spec fn message_sent<T>(s: OneshotSender<T>, message: T, r: Result<(), T>) -> bool {
    call_ensures(oneshot_send::<T>, (s, message), r)
}

/// `message` was sent, with success, at the other end of `way`.
pub open spec fn sent_at_other_end<T>(way: OneshotReceiver<T>, message: T) -> bool {
    forall|s: OneshotSender<T>| #[trigger]
        ends_of_way(s, way) ==> message_sent(s, message, Ok(()))
}

/// What `oneshot_send` gave is what the sending gave.
pub(crate) proof fn lemma_message_sent<T>(s: OneshotSender<T>, message: T, r: Result<(), T>)
    requires
        call_ensures(oneshot_send::<T>, (s, message), r),
    ensures
        message_sent(s, message, r),
{
}

/// `oneshot::Receiver::try_recv` takes the message if it is there. A message that it
/// gives was sent at the other end, with success: the two ends of a channel are ends
/// of no other. Whether there is one depends on the other end, and is left open.
pub assume_specification<T>[ OneshotReceiver::<T>::try_recv ](
    receiver: &OneshotReceiver<T>,
) -> (r: Result<T, oneshot::TryRecvError>)
    ensures
        r matches Ok(m) ==> sent_at_other_end(*receiver, m),
;

/// `oneshot::Sender::send`, whose error gives the message back by
/// `oneshot::SendError::into_inner`. Whether it fails depends on the other end, and
/// is left open.
#[verifier::external_body]
pub(crate) fn oneshot_send<T>(sender: OneshotSender<T>, message: T) -> (r: Result<(), T>)
    ensures
        r matches Err(m) ==> m == message,
{
    sender.send(message).map_err(|e| e.into_inner())
}

/// That a message was sent means that sending it gave that outcome.
pub(crate) proof fn law_message_sent<T>(s: OneshotSender<T>, message: T, r: Result<(), T>)
    ensures
        message_sent(s, message, r) <==> call_ensures(oneshot_send::<T>, (s, message), r),
        message_sent(s, message, r) && r is Err ==> r->Err_0 == message,
{
}

/// A message that was sent at the other end of a way was sent by the end that it has.
pub proof fn law_other_end<T>(s: OneshotSender<T>, way: OneshotReceiver<T>, message: T)
    requires
        call_ensures(oneshot::channel::<T>, (), (s, way)),
        sent_at_other_end(way, message),
    ensures
        message_sent(s, message, Ok(())),
{
    assert(ends_of_way(s, way));
}

} // verus!
