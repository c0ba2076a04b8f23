//! The transport underneath the typed endpoints: raw senders and receivers,
//! shared-memory regions, message queues, one-shot rendezvous points and
//! receiver sets.

use vstd::prelude::*;

verus! {

/// The failures that channel operations report.
#[derive(Clone, Copy, Debug, PartialEq, Eq, Structural)]
pub enum IpcError {
    /// Every sender of the channel is closed and its queue is empty, or its
    /// receiver is closed.
    PeerClosed,
    /// No message is ready yet.
    WouldBlock,
    /// The payload does not describe a value of the expected type.
    Decode,
    /// The payload names a side-band entry that the message does not hold.
    IndexOutOfRange,
    /// No rendezvous point answers to the given name.
    InvalidName,
    /// A counter or a table of the transport is full.
    Exhausted,
    /// The endpoint does not belong to this transport.
    UnknownChannel,
}

/// Hands out increasing identifiers, starting from one.
pub struct Incrementor {
    pub last_value: u64,
}

impl Incrementor {
    pub fn new() -> (r: Incrementor)
        ensures
            r.last_value == 0,
    {
        Incrementor { last_value: 0 }
    }

    pub fn increment(&mut self) -> (r: u64)
        requires
            old(self).last_value < u64::MAX,
        ensures
            r == old(self).last_value + 1,
            final(self).last_value == r,
    {
        self.last_value = self.last_value + 1;
        self.last_value
    }
}

/// The write end of a channel of the transport.
#[derive(Debug)]
pub struct OsIpcSender {
    pub id: usize,
}

/// The read end of a channel of the transport.
#[derive(Debug)]
pub struct OsIpcReceiver {
    pub id: usize,
}

/// A received handle that is not yet classified as a sender or a receiver.
#[derive(Debug)]
pub struct OsOpaqueIpcChannel {
    pub id: usize,
}

impl OsOpaqueIpcChannel {
    pub fn to_sender(self) -> (r: OsIpcSender)
        ensures
            r.id == self.id,
    {
        OsIpcSender { id: self.id }
    }

    pub fn to_receiver(self) -> (r: OsIpcReceiver)
        ensures
            r.id == self.id,
    {
        OsIpcReceiver { id: self.id }
    }
}

/// An endpoint handed to the transport as part of an outgoing message.
#[derive(Debug)]
pub enum OsIpcChannel {
    Sender(OsIpcSender),
    Receiver(OsIpcReceiver),
}

impl OsIpcChannel {
    /// The channel that the endpoint belongs to.
    pub open spec fn channel_id(&self) -> usize {
        match self {
            OsIpcChannel::Sender(s) => s.id,
            OsIpcChannel::Receiver(r) => r.id,
        }
    }
}

/// A region of bytes shared between a sender and its receivers.
#[derive(Clone, Debug)]
pub struct OsIpcSharedMemory {
    pub bytes: Vec<u8>,
}

impl View for OsIpcSharedMemory {
    type V = Seq<u8>;

    open spec fn view(&self) -> Seq<u8> {
        self.bytes@
    }
}

impl OsIpcSharedMemory {
    pub fn from_bytes(bytes: &[u8]) -> (r: OsIpcSharedMemory)
        ensures
            r@ == bytes@,
    {
        OsIpcSharedMemory { bytes: copy_bytes(bytes) }
    }

    pub fn from_byte(byte: u8, length: usize) -> (r: OsIpcSharedMemory)
        ensures
            r@ == Seq::new(length as nat, |i: int| byte),
    {
        let mut v: Vec<u8> = Vec::with_capacity(length);
        let mut i: usize = 0;
        while i < length
            invariant
                i <= length,
                v@ == Seq::new(i as nat, |k: int| byte),
            decreases length - i,
        {
            v.push(byte);
            i = i + 1;
            assert(v@ =~= Seq::new(i as nat, |k: int| byte));
        }
        OsIpcSharedMemory { bytes: v }
    }

    pub fn as_slice(&self) -> (r: &[u8])
        ensures
            r@ == self@,
    {
        self.bytes.as_slice()
    }
}

/// What a message holds once it is in a queue: the payload, the channel
/// of each side-band endpoint, and the bytes of each side-band region.
pub ghost struct MessageView {
    pub data: Seq<u8>,
    pub channels: Seq<usize>,
    pub memories: Seq<Seq<u8>>,
}

/// A message as the transport delivers it.
#[derive(Debug)]
pub struct OsMessage {
    pub data: Vec<u8>,
    pub channels: Vec<OsOpaqueIpcChannel>,
    pub memories: Vec<OsIpcSharedMemory>,
}

impl View for OsMessage {
    type V = MessageView;

    open spec fn view(&self) -> MessageView {
        MessageView {
            data: self.data@,
            channels: self.channels@.map_values(|c: OsOpaqueIpcChannel| c.id),
            memories: self.memories@.map_values(|m: OsIpcSharedMemory| m@),
        }
    }
}

/// The message that a send with these parts puts in the queue.
pub open spec fn outgoing(
    data: Seq<u8>,
    channels: Seq<OsIpcChannel>,
    memories: Seq<OsIpcSharedMemory>,
) -> MessageView {
    MessageView {
        data,
        channels: channels.map_values(|c: OsIpcChannel| c.channel_id()),
        memories: memories.map_values(|m: OsIpcSharedMemory| m@),
    }
}

/// The state of one channel.
pub ghost struct ChannelView {
    /// Messages sent and not yet received, oldest first.
    pub queue: Seq<MessageView>,
    /// How many senders of the channel are open.
    pub senders: nat,
    pub receiver_open: bool,
    /// Whether the channel is a rendezvous point that no peer has reached yet.
    pub listening: bool,
}

/// All channels of one process, each under the index that its endpoints carry.
pub struct Transport {
    pub queues: Vec<Vec<OsMessage>>,
    pub senders: Vec<u64>,
    pub receiver_open: Vec<bool>,
    pub listening: Vec<bool>,
}

pub open spec fn queue_view(q: Seq<OsMessage>) -> Seq<MessageView> {
    q.map_values(|m: OsMessage| m@)
}

impl Transport {
    pub open spec fn wf(&self) -> bool {
        &&& self.senders@.len() == self.queues@.len()
        &&& self.receiver_open@.len() == self.queues@.len()
        &&& self.listening@.len() == self.queues@.len()
    }

    pub open spec fn len(&self) -> nat {
        self.queues@.len()
    }

    pub open spec fn channel(&self, id: int) -> ChannelView {
        ChannelView {
            queue: queue_view(self.queues@[id]@),
            senders: self.senders@[id] as nat,
            receiver_open: self.receiver_open@[id],
            listening: self.listening@[id],
        }
    }

    pub open spec fn has(&self, id: usize) -> bool {
        id < self.len()
    }

    /// Every channel but `id` is as it was in `old`.
    pub open spec fn others_unchanged(&self, old: &Transport, id: int) -> bool {
        &&& self.len() == old.len()
        &&& forall|j: int| 0 <= j < self.len() && j != id ==> #[trigger] self.channel(j) == old.channel(j)
    }

    pub fn new() -> (r: Transport)
        ensures
            r.wf(),
            r.len() == 0,
    {
        Transport {
            queues: Vec::new(),
            senders: Vec::new(),
            receiver_open: Vec::new(),
            listening: Vec::new(),
        }
    }

    fn add_channel(&mut self, senders: u64, listening: bool) -> (r: Result<usize, IpcError>)
        requires
            old(self).wf(),
        ensures
            final(self).wf(),
            old(self).len() < usize::MAX ==> r == Ok::<usize, IpcError>(old(self).len() as usize),
            old(self).len() >= usize::MAX ==> r == Err::<usize, IpcError>(IpcError::Exhausted),
            r is Ok ==> final(self).len() == old(self).len() + 1 && final(self).channel(
                old(self).len() as int,
            ) == (ChannelView {
                queue: Seq::empty(),
                senders: senders as nat,
                receiver_open: true,
                listening,
            }),
            r is Err ==> *final(self) == *old(self),
            forall|j: int| 0 <= j < old(self).len() ==> #[trigger] final(self).channel(j) == old(self).channel(j),
    {
        let id = self.queues.len();
        if id == usize::MAX {
            return Err(IpcError::Exhausted);
        }
        self.queues.push(Vec::new());
        self.senders.push(senders);
        self.receiver_open.push(true);
        self.listening.push(listening);
        assert(queue_view(self.queues@[id as int]@) =~= Seq::empty());
        Ok(id)
    }

    /// A new channel with one open sender.
    pub fn channel_pair(&mut self) -> (r: Result<(OsIpcSender, OsIpcReceiver), IpcError>)
        requires
            old(self).wf(),
        ensures
            final(self).wf(),
            r is Ok <==> old(self).len() < usize::MAX,
            r is Err ==> *final(self) == *old(self) && r == Err::<(OsIpcSender, OsIpcReceiver), IpcError>(IpcError::Exhausted),
            forall|j: int| 0 <= j < old(self).len() ==> #[trigger] final(self).channel(j) == old(self).channel(j),
            r matches Ok((s, rx)) ==> {
                &&& s.id == old(self).len()
                &&& rx.id == old(self).len()
                &&& final(self).len() == old(self).len() + 1
                &&& final(self).channel(s.id as int) == (ChannelView {
                    queue: Seq::empty(),
                    senders: 1,
                    receiver_open: true,
                    listening: false,
                })
            },
    {
        match self.add_channel(1, false) {
            Ok(id) => Ok((OsIpcSender { id }, OsIpcReceiver { id })),
            Err(e) => Err(e),
        }
    }
}


impl OsIpcChannel {
    pub fn id(&self) -> (r: usize)
        ensures
            r == self.channel_id(),
    {
        match self {
            OsIpcChannel::Sender(s) => s.id,
            OsIpcChannel::Receiver(r) => r.id,
        }
    }
}

/// The side-band endpoints as the receiving end will see them.
fn to_opaque_channels(channels: &Vec<OsIpcChannel>) -> (r: Vec<OsOpaqueIpcChannel>)
    ensures
        r@.map_values(|c: OsOpaqueIpcChannel| c.id) == channels@.map_values(
            |c: OsIpcChannel| c.channel_id(),
        ),
{
    let mut r: Vec<OsOpaqueIpcChannel> = Vec::with_capacity(channels.len());
    let mut i: usize = 0;
    while i < channels.len()
        invariant
            i <= channels@.len(),
            r@.len() == i,
            forall|k: int| 0 <= k < i ==> #[trigger] r@[k].id == channels@[k].channel_id(),
        decreases channels@.len() - i,
    {
        let id = channels[i].id();
        r.push(OsOpaqueIpcChannel { id });
        i = i + 1;
    }
    assert(r@.map_values(|c: OsOpaqueIpcChannel| c.id) =~= channels@.map_values(
        |c: OsIpcChannel| c.channel_id(),
    ));
    r
}

impl ChannelView {
    pub open spec fn with_queue(self, queue: Seq<MessageView>) -> ChannelView {
        ChannelView { queue, ..self }
    }
}

impl Transport {
    /// Queues one message on the channel of `s`. When it cannot, the
    /// endpoints that the message carried are closed, none left open.
    pub fn send(
        &mut self,
        s: &OsIpcSender,
        data: &[u8],
        channels: Vec<OsIpcChannel>,
        memories: Vec<OsIpcSharedMemory>,
    ) -> (r: Result<(), IpcError>)
        requires
            old(self).wf(),
        ensures
            final(self).wf(),
            final(self).len() == old(self).len(),
            r == send_result(old(self)@, s.id),
            r is Ok ==> final(self)@ == sent(old(self)@, s.id, outgoing(data@, channels@, memories@)),
            r is Err ==> final(self)@ == release_all(old(self)@, channels@),
    {
        let id = s.id;
        assert(id < self.len() ==> self@[id as int] == self.channel(id as int));
        if id >= self.queues.len() {
            self.release(channels);
            return Err(IpcError::UnknownChannel);
        }
        if !self.receiver_open[id] {
            self.release(channels);
            return Err(IpcError::PeerClosed);
        }
        let opaque = to_opaque_channels(&channels);
        let bytes = copy_bytes(data);
        let msg = OsMessage { data: bytes, channels: opaque, memories };
        assert(msg@ == outgoing(data@, channels@, memories@));
        let ghost before = self@;
        let ghost old_q = self.queues@[id as int]@;
        let mut q: Vec<OsMessage> = Vec::new();
        std::mem::swap(&mut q, &mut self.queues[id]);
        q.push(msg);
        std::mem::swap(&mut q, &mut self.queues[id]);
        assert(queue_view(self.queues@[id as int]@) =~= queue_view(old_q).push(msg@));
        assert(self@ =~= sent(before, id, msg@));
        Ok(())
    }

    /// Closes each endpoint in turn.
    pub fn release(&mut self, channels: Vec<OsIpcChannel>)
        requires
            old(self).wf(),
        ensures
            final(self).wf(),
            final(self).len() == old(self).len(),
            final(self)@ == release_all(old(self)@, channels@),
    {
        let ghost t0 = self@;
        let ghost h0 = channels@;
        let n = channels.len();
        let mut rest = channels;
        let mut i: usize = 0;
        assert(h0.take(0) =~= Seq::<OsIpcChannel>::empty());
        while rest.len() > 0
            invariant
                self.wf(),
                self.len() == old(self).len(),
                i <= n,
                h0.len() == n,
                rest@ == h0.skip(i as int),
                self@ == release_all(t0, h0.take(i as int)),
            decreases rest@.len(),
        {
            let ghost before = self@;
            let c = rest.remove(0);
            assert(h0.take(i + 1).drop_last() =~= h0.take(i as int));
            assert(h0.take(i + 1).last() == c);
            match c {
                OsIpcChannel::Sender(s) => {
                    self.close_sender(s);
                },
                OsIpcChannel::Receiver(rx) => {
                    self.close_receiver(rx);
                },
            }
            assert(self@ =~= release_one(before, c));
            assert(rest@ =~= h0.skip(i + 1));
            i = i + 1;
        }
        assert(h0.take(n as int) =~= h0);
    }
}

/// What a send on channel `id` reports.
pub open spec fn send_result(cs: Seq<ChannelView>, id: usize) -> Result<(), IpcError> {
    if id >= cs.len() {
        Err(IpcError::UnknownChannel)
    } else if !cs[id as int].receiver_open {
        Err(IpcError::PeerClosed)
    } else {
        Ok(())
    }
}

/// The channels after `m` is queued on channel `id`.
pub open spec fn sent(cs: Seq<ChannelView>, id: usize, m: MessageView) -> Seq<ChannelView> {
    cs.update(id as int, cs[id as int].with_queue(cs[id as int].queue.push(m)))
}

/// The channels after a receive on channel `id`.
pub open spec fn received(cs: Seq<ChannelView>, id: usize) -> Seq<ChannelView> {
    if id < cs.len() && cs[id as int].queue.len() > 0 {
        cs.update(id as int, cs[id as int].with_queue(cs[id as int].queue.drop_first()))
    } else {
        cs
    }
}

/// The channels after the endpoint `c` is closed.
pub open spec fn release_one(cs: Seq<ChannelView>, c: OsIpcChannel) -> Seq<ChannelView> {
    let id = c.channel_id() as int;
    if id >= cs.len() {
        cs
    } else {
        match c {
            OsIpcChannel::Sender(_) => cs.update(
                id,
                ChannelView {
                    senders: if cs[id].senders > 0 {
                        (cs[id].senders - 1) as nat
                    } else {
                        0
                    },
                    ..cs[id]
                },
            ),
            OsIpcChannel::Receiver(_) => cs.update(
                id,
                ChannelView {
                    queue: Seq::empty(),
                    receiver_open: false,
                    listening: false,
                    ..cs[id]
                },
            ),
        }
    }
}

/// The channels after each of `hs` is closed in turn.
pub open spec fn release_all(cs: Seq<ChannelView>, hs: Seq<OsIpcChannel>) -> Seq<ChannelView>
    decreases hs.len(),
{
    if hs.len() == 0 {
        cs
    } else {
        release_one(release_all(cs, hs.drop_last()), hs.last())
    }
}

/// What a receive on a channel in state `c` reports when nothing is queued.
pub open spec fn empty_queue_error(c: ChannelView) -> IpcError {
    if c.senders == 0 && !c.listening {
        IpcError::PeerClosed
    } else {
        IpcError::WouldBlock
    }
}

impl Transport {
    /// Takes the oldest message of the channel of `rx`.
    ///
    /// Nothing can fill the queue while the transport is borrowed here, so a
    /// receive that would have to wait reports `WouldBlock` instead.
    pub fn try_recv(&mut self, rx: &OsIpcReceiver) -> (r: Result<OsMessage, IpcError>)
        requires
            old(self).wf(),
        ensures
            final(self).wf(),
            final(self).others_unchanged(old(self), rx.id as int),
            !old(self).has(rx.id) ==> r == Err::<OsMessage, IpcError>(IpcError::UnknownChannel),
            old(self).has(rx.id) && old(self).channel(rx.id as int).queue.len() == 0 ==> r == Err::<
                OsMessage,
                IpcError,
            >(empty_queue_error(old(self).channel(rx.id as int))),
            r is Err ==> *final(self) == *old(self),
            r is Ok <==> old(self).has(rx.id) && old(self).channel(rx.id as int).queue.len() > 0,
            final(self)@ == received(old(self)@, rx.id),
            r matches Ok(m) ==> {
                &&& m@ == old(self).channel(rx.id as int).queue[0]
                &&& final(self).channel(rx.id as int) == old(self).channel(rx.id as int).with_queue(
                    old(self).channel(rx.id as int).queue.drop_first(),
                )
            },
    {
        let id = rx.id;
        if id >= self.queues.len() {
            return Err(IpcError::UnknownChannel);
        }
        if self.queues[id].len() == 0 {
            if self.senders[id] == 0 && !self.listening[id] {
                return Err(IpcError::PeerClosed);
            }
            return Err(IpcError::WouldBlock);
        }
        let ghost before = self@;
        let ghost old_q = self.queues@[id as int]@;
        let m = self.queues[id].remove(0);
        assert(queue_view(self.queues@[id as int]@) =~= queue_view(old_q).drop_first());
        assert(self@ =~= received(before, id));
        Ok(m)
    }

    /// Opens one more sender of the channel of `s`.
    pub fn clone_sender(&mut self, s: &OsIpcSender) -> (r: Result<OsIpcSender, IpcError>)
        requires
            old(self).wf(),
        ensures
            final(self).wf(),
            final(self).others_unchanged(old(self), s.id as int),
            !old(self).has(s.id) ==> r == Err::<OsIpcSender, IpcError>(IpcError::UnknownChannel),
            old(self).has(s.id) && old(self).channel(s.id as int).senders >= u64::MAX ==> r == Err::<
                OsIpcSender,
                IpcError,
            >(IpcError::Exhausted),
            r is Err ==> *final(self) == *old(self),
            r is Ok <==> old(self).has(s.id) && old(self).channel(s.id as int).senders < u64::MAX,
            r matches Ok(c) ==> {
                &&& c.id == s.id
                &&& final(self).channel(s.id as int) == (ChannelView {
                    senders: old(self).channel(s.id as int).senders + 1,
                    ..old(self).channel(s.id as int)
                })
            },
    {
        let id = s.id;
        if id >= self.queues.len() {
            return Err(IpcError::UnknownChannel);
        }
        if self.senders[id] == u64::MAX {
            return Err(IpcError::Exhausted);
        }
        let n = self.senders[id] + 1;
        self.senders.set(id, n);
        Ok(OsIpcSender { id })
    }

    /// Closes one sender of its channel.
    pub fn close_sender(&mut self, s: OsIpcSender)
        requires
            old(self).wf(),
        ensures
            final(self).wf(),
            final(self).others_unchanged(old(self), s.id as int),
            old(self).has(s.id) ==> final(self).channel(s.id as int) == (ChannelView {
                senders: if old(self).channel(s.id as int).senders > 0 {
                    (old(self).channel(s.id as int).senders - 1) as nat
                } else {
                    0
                },
                ..old(self).channel(s.id as int)
            }),
            !old(self).has(s.id) ==> *final(self) == *old(self),
    {
        let id = s.id;
        if id < self.senders.len() && self.senders[id] > 0 {
            let n = self.senders[id] - 1;
            self.senders.set(id, n);
        }
    }

    /// Closes the receiver of its channel: what is queued is dropped and
    /// later sends fail.
    pub fn close_receiver(&mut self, rx: OsIpcReceiver)
        requires
            old(self).wf(),
        ensures
            final(self).wf(),
            final(self).others_unchanged(old(self), rx.id as int),
            old(self).has(rx.id) ==> final(self).channel(rx.id as int) == (ChannelView {
                queue: Seq::empty(),
                receiver_open: false,
                listening: false,
                ..old(self).channel(rx.id as int)
            }),
            !old(self).has(rx.id) ==> *final(self) == *old(self),
    {
        let id = rx.id;
        if id < self.queues.len() {
            self.queues[id].clear();
            self.receiver_open.set(id, false);
            self.listening.set(id, false);
            assert(queue_view(self.queues@[id as int]@) =~= Seq::empty());
        }
    }
}


impl View for Transport {
    type V = Seq<ChannelView>;

    open spec fn view(&self) -> Seq<ChannelView> {
        Seq::new(self.len(), |j: int| self.channel(j))
    }
}

impl Transport {
    /// A new rendezvous point: a channel with no sender yet, which the first
    /// peer to connect reaches.
    pub fn new_server(&mut self) -> (r: Result<OsIpcReceiver, IpcError>)
        requires
            old(self).wf(),
        ensures
            final(self).wf(),
            r is Ok <==> old(self).len() < usize::MAX,
            r is Err ==> *final(self) == *old(self) && r == Err::<OsIpcReceiver, IpcError>(IpcError::Exhausted),
            forall|j: int| 0 <= j < old(self).len() ==> #[trigger] final(self).channel(j) == old(self).channel(j),
            r matches Ok(rx) ==> {
                &&& rx.id == old(self).len()
                &&& final(self).len() == old(self).len() + 1
                &&& final(self).channel(rx.id as int) == (ChannelView {
                    queue: Seq::empty(),
                    senders: 0,
                    receiver_open: true,
                    listening: true,
                })
            },
    {
        match self.add_channel(0, true) {
            Ok(id) => Ok(OsIpcReceiver { id }),
            Err(e) => Err(e),
        }
    }

    /// Reaches the rendezvous point `id`; only the first peer succeeds.
    pub fn connect(&mut self, id: usize) -> (r: Result<OsIpcSender, IpcError>)
        requires
            old(self).wf(),
        ensures
            final(self).wf(),
            final(self).others_unchanged(old(self), id as int),
            r is Ok <==> old(self).has(id) && old(self).channel(id as int).listening && old(self).channel(
                id as int,
            ).senders < u64::MAX,
            r is Err ==> *final(self) == *old(self),
            !(old(self).has(id) && old(self).channel(id as int).listening) ==> r == Err::<
                OsIpcSender,
                IpcError,
            >(IpcError::InvalidName),
            r matches Ok(s) ==> {
                &&& s.id == id
                &&& final(self).channel(id as int) == (ChannelView {
                    senders: old(self).channel(id as int).senders + 1,
                    listening: false,
                    ..old(self).channel(id as int)
                })
            },
    {
        if id >= self.queues.len() || !self.listening[id] {
            return Err(IpcError::InvalidName);
        }
        if self.senders[id] == u64::MAX {
            return Err(IpcError::Exhausted);
        }
        let n = self.senders[id] + 1;
        self.senders.set(id, n);
        self.listening.set(id, false);
        Ok(OsIpcSender { id })
    }
}

/// What one entry of a selection reports.
pub ghost enum SelectionView {
    Data(u64, MessageView),
    Closed(u64),
}

/// One entry of what a receiver set reports.
#[derive(Debug)]
pub enum OsIpcSelectionResult {
    DataReceived(u64, OsMessage),
    ChannelClosed(u64),
}

impl View for OsIpcSelectionResult {
    type V = SelectionView;

    open spec fn view(&self) -> SelectionView {
        match self {
            OsIpcSelectionResult::DataReceived(id, m) => SelectionView::Data(*id, m@),
            OsIpcSelectionResult::ChannelClosed(id) => SelectionView::Closed(*id),
        }
    }
}

/// Polls the member `(set_id, ch)` once: what it reports, the channels
/// afterwards, and whether it stays in the set.
pub open spec fn poll_member(cs: Seq<ChannelView>, set_id: u64, ch: usize) -> (
    Option<SelectionView>,
    Seq<ChannelView>,
    bool,
) {
    if ch >= cs.len() {
        (Some(SelectionView::Closed(set_id)), cs, false)
    } else if cs[ch as int].queue.len() > 0 {
        (
            Some(SelectionView::Data(set_id, cs[ch as int].queue[0])),
            cs.update(ch as int, cs[ch as int].with_queue(cs[ch as int].queue.drop_first())),
            true,
        )
    } else if empty_queue_error(cs[ch as int]) == IpcError::PeerClosed {
        (Some(SelectionView::Closed(set_id)), cs, false)
    } else {
        (None, cs, true)
    }
}

/// Polls the members in order: the reports, the channels afterwards, and
/// the members that stay.
pub open spec fn select_spec(cs: Seq<ChannelView>, members: Seq<(u64, usize)>) -> (
    Seq<SelectionView>,
    Seq<ChannelView>,
    Seq<(u64, usize)>,
)
    decreases members.len(),
{
    if members.len() == 0 {
        (Seq::empty(), cs, Seq::empty())
    } else {
        let last = members.last();
        let (reports, cs1, kept) = select_spec(cs, members.drop_last());
        let (o, cs2, keep) = poll_member(cs1, last.0, last.1);
        (
            match o {
                Some(v) => reports.push(v),
                None => reports,
            },
            cs2,
            if keep {
                kept.push(last)
            } else {
                kept
            },
        )
    }
}

/// A set of receivers, each under an identifier unique within the set.
pub struct OsIpcReceiverSet {
    pub incrementor: Incrementor,
    pub ids: Vec<u64>,
    pub receivers: Vec<OsIpcReceiver>,
}

impl OsIpcReceiverSet {
    pub open spec fn wf(&self) -> bool {
        &&& self.ids@.len() == self.receivers@.len()
        &&& forall|i: int| 0 <= i < self.ids@.len() ==> #[trigger] self.ids@[i] <= self.incrementor.last_value
    }

    /// The members, as pairs of identifier and channel.
    pub open spec fn members(&self) -> Seq<(u64, usize)> {
        Seq::new(self.ids@.len(), |i: int| (self.ids@[i], self.receivers@[i].id))
    }

    pub fn new() -> (r: OsIpcReceiverSet)
        ensures
            r.wf(),
            r.members().len() == 0,
    {
        OsIpcReceiverSet { incrementor: Incrementor::new(), ids: Vec::new(), receivers: Vec::new() }
    }

    /// Adds a receiver under a fresh identifier.
    pub fn add(&mut self, rx: OsIpcReceiver) -> (r: Result<u64, IpcError>)
        requires
            old(self).wf(),
        ensures
            final(self).wf(),
            r is Ok <==> old(self).incrementor.last_value < u64::MAX,
            r is Err ==> r == Err::<u64, IpcError>(IpcError::Exhausted) && *final(self) == *old(self),
            r matches Ok(id) ==> {
                &&& final(self).members() == old(self).members().push((id, rx.id))
                &&& forall|i: int| 0 <= i < old(self).members().len() ==> #[trigger] old(self).members()[i].0 != id
            },
    {
        if self.incrementor.last_value == u64::MAX {
            return Err(IpcError::Exhausted);
        }
        let ghost old_members = self.members();
        let id = self.incrementor.increment();
        self.ids.push(id);
        self.receivers.push(rx);
        assert(self.members() =~= old_members.push((id, rx.id)));
        Ok(id)
    }
}


pub open spec fn selection_views(v: Seq<OsIpcSelectionResult>) -> Seq<SelectionView> {
    v.map_values(|x: OsIpcSelectionResult| x@)
}

impl OsIpcReceiverSet {
    /// Polls every member once, in the order they were added: a member with a
    /// queued message reports its oldest message, one whose senders are all
    /// closed reports that and leaves the set. Nothing to report is
    /// `WouldBlock`.
    pub fn select(&mut self, t: &mut Transport) -> (r: Result<Vec<OsIpcSelectionResult>, IpcError>)
        requires
            old(self).wf(),
            old(t).wf(),
        ensures
            final(self).wf(),
            final(t).wf(),
            final(t).len() == old(t).len(),
            final(t)@ == select_spec(old(t)@, old(self).members()).1,
            final(self).members() == select_spec(old(t)@, old(self).members()).2,
            r is Err <==> select_spec(old(t)@, old(self).members()).0.len() == 0,
            r is Err ==> r == Err::<Vec<OsIpcSelectionResult>, IpcError>(IpcError::WouldBlock),
            r matches Ok(v) ==> selection_views(v@) == select_spec(old(t)@, old(self).members()).0,
    {
        let ghost members = self.members();
        let ghost t0 = t@;
        let mut ids: Vec<u64> = Vec::new();
        let mut rxs: Vec<OsIpcReceiver> = Vec::new();
        std::mem::swap(&mut ids, &mut self.ids);
        std::mem::swap(&mut rxs, &mut self.receivers);
        let ghost rx0 = rxs@;
        let n = ids.len();
        let mut results: Vec<OsIpcSelectionResult> = Vec::new();
        let mut i: usize = 0;
        assert(members.take(0) =~= Seq::<(u64, usize)>::empty());
        assert(self.members() =~= Seq::<(u64, usize)>::empty());
        assert(selection_views(results@) =~= Seq::<SelectionView>::empty());
        while i < n
            invariant
                t.wf(),
                t.len() == old(t).len(),
                n == ids@.len(),
                n == rx0.len(),
                i <= n,
                members.len() == n,
                forall|k: int| 0 <= k < n ==> #[trigger] members[k] == (ids@[k], rx0[k].id),
                rxs@ == rx0.skip(i as int),
                self.incrementor == old(self).incrementor,
                forall|k: int| 0 <= k < n ==> #[trigger] ids@[k] <= self.incrementor.last_value,
                self.ids@.len() == self.receivers@.len(),
                forall|k: int| 0 <= k < self.ids@.len() ==> #[trigger] self.ids@[k] <= self.incrementor.last_value,
                selection_views(results@) == select_spec(t0, members.take(i as int)).0,
                t@ == select_spec(t0, members.take(i as int)).1,
                self.members() == select_spec(t0, members.take(i as int)).2,
            decreases n - i,
        {
            assert(members.take(i + 1).drop_last() =~= members.take(i as int));
            assert(members.take(i + 1).last() == members[i as int]);
            let ghost before = t@;
            let ghost prev_members = self.members();
            let ghost prev_results = selection_views(results@);
            let rx = rxs.remove(0);
            assert(rx == rx0[i as int]);
            let sid = ids[i];
            let ch = rx.id;
            let mut keep = true;
            if ch >= t.queues.len() {
                results.push(OsIpcSelectionResult::ChannelClosed(sid));
                keep = false;
            } else {
                match t.try_recv(&rx) {
                    Ok(m) => {
                        results.push(OsIpcSelectionResult::DataReceived(sid, m));
                        assert(t@ =~= before.update(
                            ch as int,
                            before[ch as int].with_queue(before[ch as int].queue.drop_first()),
                        ));
                    },
                    Err(e) => {
                        if e == IpcError::PeerClosed {
                            results.push(OsIpcSelectionResult::ChannelClosed(sid));
                            keep = false;
                        }
                        assert(t@ =~= before);
                    },
                }
            }
            assert(selection_views(results@) =~= match poll_member(before, sid, ch).0 {
                Some(v) => prev_results.push(v),
                None => prev_results,
            });
            if keep {
                self.ids.push(sid);
                self.receivers.push(rx);
                assert(self.members() =~= prev_members.push((sid, ch)));
            }
            assert(rxs@ =~= rx0.skip(i + 1));
            i = i + 1;
        }
        assert(members.take(n as int) =~= members);
        if results.len() == 0 {
            return Err(IpcError::WouldBlock);
        }
        Ok(results)
    }
}


/// A copy of `bytes` in a vector of its own.
pub fn copy_bytes(bytes: &[u8]) -> (r: Vec<u8>)
    ensures
        r@ == bytes@,
{
    let mut v: Vec<u8> = Vec::with_capacity(bytes.len());
    let mut i: usize = 0;
    while i < bytes.len()
        invariant
            i <= bytes@.len(),
            v@ == bytes@.subrange(0, i as int),
        decreases bytes@.len() - i,
    {
        v.push(bytes[i]);
        i = i + 1;
    }
    assert(v@ == bytes@);
    v
}

} // verus!



