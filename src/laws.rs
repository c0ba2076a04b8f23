//! Properties of the channels that hold across several operations.

use crate::codec::{lemma_message_round_trip, message_of, Transfer};
use crate::ipc::{after_send, recv_result, IpcSender, IpcSharedMemory};
use crate::platform::{
    empty_queue_error, received, release_all, release_one, send_result, sent, ChannelView,
    IpcError, MessageView, OsIpcChannel, OsIpcSender,
};
use vstd::bytes::spec_u64_to_le_bytes;
use vstd::prelude::*;

verus! {

/// The channels after the messages `ms` are queued on channel `id` in turn.
pub open spec fn send_all(cs: Seq<ChannelView>, id: usize, ms: Seq<MessageView>) -> Seq<ChannelView>
    decreases ms.len(),
{
    if ms.len() == 0 {
        cs
    } else {
        sent(send_all(cs, id, ms.drop_last()), id, ms.last())
    }
}

/// The messages that `n` receives in a row on channel `id` take.
pub open spec fn recv_all(cs: Seq<ChannelView>, id: usize, n: nat) -> Seq<MessageView>
    decreases n,
{
    if n == 0 || id >= cs.len() || cs[id as int].queue.len() == 0 {
        Seq::empty()
    } else {
        seq![cs[id as int].queue[0]] + recv_all(received(cs, id), id, (n - 1) as nat)
    }
}

/// The channels after `n` receives in a row on channel `id`.
pub open spec fn drain(cs: Seq<ChannelView>, id: usize, n: nat) -> Seq<ChannelView>
    decreases n,
{
    if n == 0 {
        cs
    } else {
        drain(received(cs, id), id, (n - 1) as nat)
    }
}

/// Sending a value on an open channel with an empty queue and then
/// receiving on it gives the value back.
pub proof fn law_send_recv_round_trip<T: Transfer>(cs: Seq<ChannelView>, id: usize, v: T::V)
    requires
        T::valid(v),
        id < cs.len(),
        cs[id as int].receiver_open,
        cs[id as int].queue.len() == 0,
    ensures
        send_result(cs, id) is Ok,
        forall|r: Result<T, IpcError>|
            recv_result::<T>(after_send(cs, id, message_of::<T>(v), T::handles(v)), id, r) ==> (r matches Ok(
                x,
            ) && x@ == v),
{
    lemma_message_round_trip::<T>(v);
    let after = after_send(cs, id, message_of::<T>(v), T::handles(v));
    assert(after[id as int].queue =~= seq![message_of::<T>(v)]);
}

/// Queuing only ever affects the queue of the channel sent on, which it
/// extends at the back.
proof fn lemma_send_all(cs: Seq<ChannelView>, id: usize, ms: Seq<MessageView>)
    requires
        id < cs.len(),
    ensures
        send_all(cs, id, ms).len() == cs.len(),
        send_all(cs, id, ms)[id as int] == cs[id as int].with_queue(cs[id as int].queue + ms),
        forall|j: int| 0 <= j < cs.len() && j != id ==> #[trigger] send_all(cs, id, ms)[j] == cs[j],
    decreases ms.len(),
{
    if ms.len() == 0 {
        assert(cs[id as int].queue + ms =~= cs[id as int].queue);
    } else {
        lemma_send_all(cs, id, ms.drop_last());
        assert(cs[id as int].queue + ms.drop_last() + seq![ms.last()] =~= cs[id as int].queue + ms);
        assert((cs[id as int].queue + ms.drop_last()).push(ms.last()) =~= cs[id as int].queue + ms);
    }
}

/// Receiving `n` times takes the first `n` messages of the queue, oldest
/// first, and leaves the rest.
proof fn lemma_recv_all(cs: Seq<ChannelView>, id: usize, n: nat)
    requires
        id < cs.len(),
        n <= cs[id as int].queue.len(),
    ensures
        recv_all(cs, id, n) == cs[id as int].queue.take(n as int),
        drain(cs, id, n).len() == cs.len(),
        drain(cs, id, n)[id as int] == cs[id as int].with_queue(cs[id as int].queue.skip(n as int)),
    decreases n,
{
    let q = cs[id as int].queue;
    if n == 0 {
        assert(q.take(0) =~= Seq::<MessageView>::empty());
        assert(q.skip(0) =~= q);
    } else {
        let next = received(cs, id);
        lemma_recv_all(next, id, (n - 1) as nat);
        assert(next[id as int].queue == q.drop_first());
        assert(seq![q[0]] + q.drop_first().take(n - 1) =~= q.take(n as int));
        assert(q.drop_first().skip(n - 1) =~= q.skip(n as int));
    }
}

/// Messages sent on one channel are received in the order they were sent.
pub proof fn law_fifo(cs: Seq<ChannelView>, id: usize, ms: Seq<MessageView>)
    requires
        id < cs.len(),
        cs[id as int].queue.len() == 0,
    ensures
        recv_all(send_all(cs, id, ms), id, ms.len()) == ms,
{
    lemma_send_all(cs, id, ms);
    let after = send_all(cs, id, ms);
    assert(after[id as int].queue =~= ms);
    lemma_recv_all(after, id, ms.len());
    assert(ms.take(ms.len() as int) =~= ms);
}

/// A receive on an empty channel whose sender is still open reports
/// `WouldBlock` and changes nothing, so a value sent afterwards is the next
/// one received.
pub proof fn law_would_block_keeps_messages<T: Transfer>(cs: Seq<ChannelView>, id: usize, v: T::V)
    requires
        T::valid(v),
        id < cs.len(),
        cs[id as int].receiver_open,
        cs[id as int].queue.len() == 0,
        cs[id as int].senders > 0,
    ensures
        forall|r: Result<T, IpcError>| recv_result::<T>(cs, id, r) ==> r == Err::<T, IpcError>(IpcError::WouldBlock),
        received(cs, id) == cs,
        forall|r: Result<T, IpcError>|
            recv_result::<T>(after_send(cs, id, message_of::<T>(v), T::handles(v)), id, r) ==> (r matches Ok(
                x,
            ) && x@ == v),
{
    law_send_recv_round_trip::<T>(cs, id, v);
}

/// Once its last sender is closed, a channel still delivers what was
/// queued, oldest first, and then reports `PeerClosed`.
pub proof fn law_close_then_drain<T: Transfer>(cs: Seq<ChannelView>, id: usize)
    requires
        id < cs.len(),
        cs[id as int].senders == 1,
        !cs[id as int].listening,
    ensures
        ({
            let closed = release_one(cs, OsIpcChannel::Sender(OsIpcSender { id }));
            let n = cs[id as int].queue.len();
            &&& recv_all(closed, id, n) == cs[id as int].queue
            &&& forall|r: Result<T, IpcError>|
                recv_result::<T>(drain(closed, id, n), id, r) ==> r == Err::<T, IpcError>(
                    IpcError::PeerClosed,
                )
        }),
{
    let closed = release_one(cs, OsIpcChannel::Sender(OsIpcSender { id }));
    let n = cs[id as int].queue.len();
    lemma_recv_all(closed, id, n);
    assert(cs[id as int].queue.take(n as int) =~= cs[id as int].queue);
    let rest = drain(closed, id, n);
    assert(rest[id as int].queue =~= Seq::<MessageView>::empty());
    assert(empty_queue_error(rest[id as int]) == IpcError::PeerClosed);
}

/// A sender sent across a channel comes out as a sender of the same
/// channel, so its receiver is still its peer; that channel itself is not
/// touched by the transfer.
pub proof fn law_endpoint_transfer<U>(cs: Seq<ChannelView>, carrier: usize, k: usize)
    requires
        carrier < cs.len(),
        k < cs.len(),
        k != carrier,
        cs[carrier as int].receiver_open,
        cs[carrier as int].queue.len() == 0,
    ensures
        ({
            let after = after_send(
                cs,
                carrier,
                message_of::<IpcSender<U>>(k),
                IpcSender::<U>::handles(k),
            );
            &&& after[k as int] == cs[k as int]
            &&& forall|r: Result<IpcSender<U>, IpcError>|
                recv_result::<IpcSender<U>>(after, carrier, r) ==> (r matches Ok(c) && c@ == k)
        }),
{
    law_send_recv_round_trip::<IpcSender<U>>(cs, carrier, k);
}

/// A region sent across a channel is received with the same bytes.
pub proof fn law_memory_round_trip(cs: Seq<ChannelView>, id: usize, b: Seq<u8>)
    requires
        id < cs.len(),
        cs[id as int].receiver_open,
        cs[id as int].queue.len() == 0,
    ensures
        forall|r: Result<IpcSharedMemory, IpcError>|
            recv_result::<IpcSharedMemory>(
                after_send(cs, id, message_of::<IpcSharedMemory>(b), IpcSharedMemory::handles(b)),
                id,
                r,
            ) ==> (r matches Ok(m) && m@ == b),
{
    law_send_recv_round_trip::<IpcSharedMemory>(cs, id, b);
}

/// Closing endpoints never opens a receiver nor adds a sender, and closes
/// the receiver of every channel whose receiver is among them.
proof fn lemma_release_all(cs: Seq<ChannelView>, hs: Seq<OsIpcChannel>)
    ensures
        release_all(cs, hs).len() == cs.len(),
        forall|j: int| #![trigger release_all(cs, hs)[j]] 0 <= j < cs.len() ==> {
            &&& release_all(cs, hs)[j].senders <= cs[j].senders
            &&& (release_all(cs, hs)[j].receiver_open ==> cs[j].receiver_open)
        },
        forall|i: int| #![trigger hs[i]] 0 <= i < hs.len() && hs[i] is Receiver && hs[i].channel_id() < cs.len()
            ==> !release_all(cs, hs)[hs[i].channel_id() as int].receiver_open,
    decreases hs.len(),
{
    if hs.len() > 0 {
        let prefix = hs.drop_last();
        lemma_release_all(cs, prefix);
        assert forall|i: int| #![trigger hs[i]] 0 <= i < hs.len() - 1 implies hs[i] == prefix[i] by {}
    }
}

/// A send that fails leaks no endpoint: every receiver that the value
/// carried is closed, and no sender count grows.
pub proof fn law_failed_send_releases<T: Transfer>(cs: Seq<ChannelView>, id: usize, v: T::V)
    requires
        send_result(cs, id) is Err,
    ensures
        ({
            let after = after_send(cs, id, message_of::<T>(v), T::handles(v));
            let hs = T::handles(v);
            &&& after == release_all(cs, hs)
            &&& after.len() == cs.len()
            &&& forall|j: int| #![trigger after[j]] 0 <= j < cs.len() ==> after[j].senders <= cs[j].senders
            &&& forall|i: int| #![trigger hs[i]] 0 <= i < hs.len() && hs[i] is Receiver && hs[i].channel_id()
                < cs.len() ==> !after[hs[i].channel_id() as int].receiver_open
        }),
{
    lemma_release_all(cs, T::handles(v));
}


/// Side-band indices start at zero and follow the order in which encoding
/// meets the endpoints: a pair of senders is sent as the indices 0 and 1,
/// with the two channels in that order.
pub proof fn law_indices_in_encoding_order<U>(first: usize, second: usize)
    ensures
        message_of::<(IpcSender<U>, IpcSender<U>)>((first, second)) == (MessageView {
            data: spec_u64_to_le_bytes(0) + spec_u64_to_le_bytes(1),
            channels: seq![first, second],
            memories: Seq::empty(),
        }),
{
    let m = message_of::<(IpcSender<U>, IpcSender<U>)>((first, second));
    assert(m.channels =~= seq![first, second]);
    assert(m.memories =~= Seq::<Seq<u8>>::empty());
}


/// A sender sent across a channel of senders still works on the far side:
/// a value sent through the received sender is received by the receiver
/// that was paired with it.
pub proof fn law_transferred_sender_round_trip<U: Transfer>(
    cs: Seq<ChannelView>,
    carrier: usize,
    k: usize,
    u: U::V,
)
    requires
        U::valid(u),
        carrier < cs.len(),
        k < cs.len(),
        k != carrier,
        cs[carrier as int].receiver_open,
        cs[carrier as int].queue.len() == 0,
        cs[k as int].receiver_open,
        cs[k as int].queue.len() == 0,
    ensures
        ({
            let moved = received(
                after_send(
                    cs,
                    carrier,
                    message_of::<IpcSender<U>>(k),
                    IpcSender::<U>::handles(k),
                ),
                carrier,
            );
            forall|r: Result<U, IpcError>|
                recv_result::<U>(after_send(moved, k, message_of::<U>(u), U::handles(u)), k, r) ==> (r matches Ok(
                    x,
                ) && x@ == u)
        }),
{
    law_endpoint_transfer::<U>(cs, carrier, k);
    let after = after_send(cs, carrier, message_of::<IpcSender<U>>(k), IpcSender::<U>::handles(k));
    let moved = received(after, carrier);
    assert(moved[k as int] == cs[k as int]);
    law_send_recv_round_trip::<U>(moved, k, u);
}

} // verus!


