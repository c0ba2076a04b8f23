//! Typed endpoints over the transport: senders and receivers of values of a
//! given type, byte channels, shared-memory regions, rendezvous points and
//! receiver sets, and how each endpoint or region travels inside a message.

use crate::codec::{
    decode, decode_channel, decode_memory, encode, encode_channel, encode_memory, fresh, ids,
    lemma_parse_channel, lemma_parse_memory, message_of, parse_channel, parse_memory, value_of,
    Encoder, SlotsView,
};
pub use crate::codec::{OpaqueIpcMessage, Transfer};
use crate::platform::{
    empty_queue_error, outgoing, received, release_all, release_one, select_spec, selection_views,
    send_result, sent, ChannelView, IpcError, MessageView, OsIpcChannel, OsIpcReceiver,
    OsIpcReceiverSet, OsIpcSelectionResult, OsIpcSender, OsIpcSharedMemory, SelectionView,
    Transport,
};
use std::marker::PhantomData;
use vstd::bytes::spec_u64_to_le_bytes;
use vstd::prelude::*;
use vstd::string::to_string_from_display_ensures;

verus! {

/// What a typed receive on channel `id` of `cs` gives.
pub open spec fn recv_result<T: Transfer>(cs: Seq<ChannelView>, id: usize, r: Result<T, IpcError>) -> bool {
    if id >= cs.len() {
        r == Err::<T, IpcError>(IpcError::UnknownChannel)
    } else if cs[id as int].queue.len() == 0 {
        r == Err::<T, IpcError>(empty_queue_error(cs[id as int]))
    } else {
        match value_of::<T>(fresh(cs[id as int].queue[0])) {
            Some(v) => r matches Ok(x) && x@ == v,
            None => r matches Err(e) && (e == IpcError::Decode || e == IpcError::IndexOutOfRange),
        }
    }
}

/// What a receive of raw bytes on channel `id` of `cs` gives.
pub open spec fn bytes_recv_result(cs: Seq<ChannelView>, id: usize, r: Result<Vec<u8>, IpcError>) -> bool {
    if id >= cs.len() {
        r == Err::<Vec<u8>, IpcError>(IpcError::UnknownChannel)
    } else if cs[id as int].queue.len() == 0 {
        r == Err::<Vec<u8>, IpcError>(empty_queue_error(cs[id as int]))
    } else {
        r matches Ok(x) && x@ == cs[id as int].queue[0].data
    }
}

/// The message that a send of raw bytes queues.
pub open spec fn bytes_message(data: Seq<u8>) -> MessageView {
    MessageView { data, channels: Seq::empty(), memories: Seq::empty() }
}

/// Takes the oldest message of the channel of `rx` and decodes it.
fn receive<T: Transfer>(t: &mut Transport, rx: &OsIpcReceiver) -> (r: Result<T, IpcError>)
    requires
        old(t).wf(),
    ensures
        final(t).wf(),
        final(t).len() == old(t).len(),
        final(t)@ == received(old(t)@, rx.id),
        recv_result::<T>(old(t)@, rx.id, r),
{
    match t.try_recv(rx) {
        Ok(m) => decode::<T>(OpaqueIpcMessage::from_os(m)),
        Err(e) => Err(e),
    }
}

/// The channels after a send of a message `m` carrying the endpoints `hs`
/// on channel `id`: queued, or, when the send fails, the endpoints closed.
pub open spec fn after_send(cs: Seq<ChannelView>, id: usize, m: MessageView, hs: Seq<OsIpcChannel>) -> Seq<
    ChannelView,
> {
    if send_result(cs, id) is Ok {
        sent(cs, id, m)
    } else {
        release_all(cs, hs)
    }
}

/// Encodes `data` and queues it on the channel of `s`.
fn transmit<T: Transfer>(t: &mut Transport, s: &OsIpcSender, data: T) -> (r: Result<(), IpcError>)
    requires
        old(t).wf(),
    ensures
        final(t).wf(),
        final(t).len() == old(t).len(),
        T::valid(data@),
        r == send_result(old(t)@, s.id),
        final(t)@ == after_send(old(t)@, s.id, message_of::<T>(data@), T::handles(data@)),
{
    let e = encode(data);
    t.send(s, e.data.as_slice(), e.channels, e.memories)
}

/// The sending end of a channel of values of type `T`.
#[derive(Debug)]
pub struct IpcSender<T> {
    pub os_sender: OsIpcSender,
    pub phantom: PhantomData<T>,
}

/// The receiving end of a channel of values of type `T`.
#[derive(Debug)]
pub struct IpcReceiver<T> {
    pub os_receiver: OsIpcReceiver,
    pub phantom: PhantomData<T>,
}

/// The sending end of a channel of byte vectors.
#[derive(Debug)]
pub struct IpcBytesSender {
    pub os_sender: OsIpcSender,
}

/// The receiving end of a channel of byte vectors.
#[derive(Debug)]
pub struct IpcBytesReceiver {
    pub os_receiver: OsIpcReceiver,
}

/// A sender whose message type is forgotten.
#[derive(Debug)]
pub struct OpaqueIpcSender {
    pub os_sender: OsIpcSender,
}

/// A receiver whose message type is forgotten.
#[derive(Debug)]
pub struct OpaqueIpcReceiver {
    pub os_receiver: OsIpcReceiver,
}

impl<T> View for IpcSender<T> {
    type V = usize;

    open spec fn view(&self) -> usize {
        self.os_sender.id
    }
}

impl<T> View for IpcReceiver<T> {
    type V = usize;

    open spec fn view(&self) -> usize {
        self.os_receiver.id
    }
}

impl View for IpcBytesSender {
    type V = usize;

    open spec fn view(&self) -> usize {
        self.os_sender.id
    }
}

impl View for IpcBytesReceiver {
    type V = usize;

    open spec fn view(&self) -> usize {
        self.os_receiver.id
    }
}

impl View for OpaqueIpcSender {
    type V = usize;

    open spec fn view(&self) -> usize {
        self.os_sender.id
    }
}

impl View for OpaqueIpcReceiver {
    type V = usize;

    open spec fn view(&self) -> usize {
        self.os_receiver.id
    }
}

/// A new channel of values of type `T`, with one open sender.
pub fn channel<T: Transfer>(t: &mut Transport) -> (r: Result<(IpcSender<T>, IpcReceiver<T>), IpcError>)
    requires
        old(t).wf(),
    ensures
        final(t).wf(),
        r is Ok <==> old(t).len() < usize::MAX,
        r is Err ==> final(t)@ == old(t)@ && r == Err::<(IpcSender<T>, IpcReceiver<T>), IpcError>(
            IpcError::Exhausted,
        ),
        r matches Ok((s, rx)) ==> s@ == old(t).len() && rx@ == old(t).len() && final(t)@ == old(
            t,
        )@.push(ChannelView { queue: Seq::empty(), senders: 1, receiver_open: true, listening: false }),
{
    let ghost before = t@;
    match t.channel_pair() {
        Ok((os_sender, os_receiver)) => {
            assert(t@ =~= before.push(
                ChannelView { queue: Seq::empty(), senders: 1, receiver_open: true, listening: false },
            ));
            Ok((
                IpcSender { os_sender, phantom: PhantomData },
                IpcReceiver { os_receiver, phantom: PhantomData },
            ))
        },
        Err(e) => {
            assert(t@ =~= before);
            Err(e)
        },
    }
}

/// A new channel of byte vectors, with one open sender.
pub fn bytes_channel(t: &mut Transport) -> (r: Result<(IpcBytesSender, IpcBytesReceiver), IpcError>)
    requires
        old(t).wf(),
    ensures
        final(t).wf(),
        r is Ok <==> old(t).len() < usize::MAX,
        r is Err ==> final(t)@ == old(t)@ && r == Err::<(IpcBytesSender, IpcBytesReceiver), IpcError>(
            IpcError::Exhausted,
        ),
        r matches Ok((s, rx)) ==> s@ == old(t).len() && rx@ == old(t).len() && final(t)@ == old(
            t,
        )@.push(ChannelView { queue: Seq::empty(), senders: 1, receiver_open: true, listening: false }),
{
    let ghost before = t@;
    match t.channel_pair() {
        Ok((os_sender, os_receiver)) => {
            assert(t@ =~= before.push(
                ChannelView { queue: Seq::empty(), senders: 1, receiver_open: true, listening: false },
            ));
            Ok((IpcBytesSender { os_sender }, IpcBytesReceiver { os_receiver }))
        },
        Err(e) => {
            assert(t@ =~= before);
            Err(e)
        },
    }
}

impl<T: Transfer> IpcReceiver<T> {
    /// Takes the oldest message and decodes it.
    ///
    /// Nothing else can fill the queue while the transport is borrowed, so
    /// a receive that would have to wait reports `WouldBlock`.
    pub fn recv(&self, t: &mut Transport) -> (r: Result<T, IpcError>)
        requires
            old(t).wf(),
        ensures
            final(t).wf(),
            final(t).len() == old(t).len(),
            final(t)@ == received(old(t)@, self@),
            recv_result::<T>(old(t)@, self@, r),
    {
        receive(t, &self.os_receiver)
    }

    /// Takes the oldest message if there is one, and decodes it.
    pub fn try_recv(&self, t: &mut Transport) -> (r: Result<T, IpcError>)
        requires
            old(t).wf(),
        ensures
            final(t).wf(),
            final(t).len() == old(t).len(),
            final(t)@ == received(old(t)@, self@),
            recv_result::<T>(old(t)@, self@, r),
    {
        receive(t, &self.os_receiver)
    }
}

impl<T> IpcReceiver<T> {
    pub fn to_opaque(self) -> (r: OpaqueIpcReceiver)
        ensures
            r@ == self@,
    {
        OpaqueIpcReceiver { os_receiver: self.os_receiver }
    }

    /// Closes the receiver: what is queued is dropped and later sends fail.
    pub fn close(self, t: &mut Transport)
        requires
            old(t).wf(),
        ensures
            final(t).wf(),
            final(t)@ == release_one(old(t)@, OsIpcChannel::Receiver(self.os_receiver)),
    {
        let ghost before = t@;
        let ghost c = OsIpcChannel::Receiver(self.os_receiver);
        t.close_receiver(self.os_receiver);
        assert(t@ =~= release_one(before, c));
    }
}

impl<T: Transfer> IpcSender<T> {
    /// Encodes `data`, its endpoints and regions going through the side
    /// band, and queues it.
    pub fn send(&self, t: &mut Transport, data: T) -> (r: Result<(), IpcError>)
        requires
            old(t).wf(),
        ensures
            final(t).wf(),
            final(t).len() == old(t).len(),
            T::valid(data@),
            r == send_result(old(t)@, self@),
            final(t)@ == after_send(old(t)@, self@, message_of::<T>(data@), T::handles(data@)),
    {
        transmit(t, &self.os_sender, data)
    }
}

impl<T> IpcSender<T> {
    /// Another sender of the same channel.
    pub fn try_clone(&self, t: &mut Transport) -> (r: Result<IpcSender<T>, IpcError>)
        requires
            old(t).wf(),
        ensures
            final(t).wf(),
            r is Ok <==> old(t).has(self@) && old(t)@[self@ as int].senders < u64::MAX,
            r is Err ==> final(t)@ == old(t)@,
            r matches Ok(c) ==> c@ == self@ && final(t)@ == old(t)@.update(
                self@ as int,
                ChannelView { senders: old(t)@[self@ as int].senders + 1, ..old(t)@[self@ as int] },
            ),
    {
        let ghost before = t@;
        match t.clone_sender(&self.os_sender) {
            Ok(os_sender) => {
                assert(t@ =~= before.update(
                    self@ as int,
                    ChannelView { senders: before[self@ as int].senders + 1, ..before[self@ as int] },
                ));
                Ok(IpcSender { os_sender, phantom: PhantomData })
            },
            Err(e) => {
                assert(t@ =~= before);
                Err(e)
            },
        }
    }

    /// Closes this sender; once every sender is closed and the queue is
    /// drained, receives report `PeerClosed`.
    pub fn close(self, t: &mut Transport)
        requires
            old(t).wf(),
        ensures
            final(t).wf(),
            final(t)@ == release_one(old(t)@, OsIpcChannel::Sender(self.os_sender)),
    {
        let ghost before = t@;
        let ghost c = OsIpcChannel::Sender(self.os_sender);
        t.close_sender(self.os_sender);
        assert(t@ =~= release_one(before, c));
    }

    pub fn to_opaque(self) -> (r: OpaqueIpcSender)
        ensures
            r@ == self@,
    {
        OpaqueIpcSender { os_sender: self.os_sender }
    }
}

impl OpaqueIpcSender {
    pub fn to<T>(self) -> (r: IpcSender<T>)
        ensures
            r@ == self@,
    {
        IpcSender { os_sender: self.os_sender, phantom: PhantomData }
    }
}

impl IpcBytesSender {
    /// Queues `data` with empty side bands.
    pub fn send(&self, t: &mut Transport, data: &[u8]) -> (r: Result<(), IpcError>)
        requires
            old(t).wf(),
        ensures
            final(t).wf(),
            final(t).len() == old(t).len(),
            r == send_result(old(t)@, self@),
            final(t)@ == after_send(old(t)@, self@, bytes_message(data@), Seq::empty()),
    {
        let ghost before = t@;
        let channels: Vec<OsIpcChannel> = Vec::new();
        let memories: Vec<OsIpcSharedMemory> = Vec::new();
        let r = t.send(&self.os_sender, data, channels, memories);
        assert(channels@.map_values(|c: OsIpcChannel| c.channel_id()) =~= Seq::<usize>::empty());
        assert(memories@.map_values(|m: OsIpcSharedMemory| m@) =~= Seq::<Seq<u8>>::empty());
        assert(outgoing(data@, channels@, memories@) == bytes_message(data@));
        assert(release_all(before, channels@) == before);
        r
    }
}

impl IpcBytesReceiver {
    /// Takes the payload of the oldest message; its side bands are dropped.
    pub fn recv(&self, t: &mut Transport) -> (r: Result<Vec<u8>, IpcError>)
        requires
            old(t).wf(),
        ensures
            final(t).wf(),
            final(t).len() == old(t).len(),
            final(t)@ == received(old(t)@, self@),
            bytes_recv_result(old(t)@, self@, r),
    {
        match t.try_recv(&self.os_receiver) {
            Ok(m) => Ok(m.data),
            Err(e) => Err(e),
        }
    }
}


impl<T> Transfer for IpcSender<T> {
    open spec fn valid(v: usize) -> bool {
        true
    }

    open spec fn payload(v: usize, nch: int, nmem: int) -> Seq<u8> {
        spec_u64_to_le_bytes(nch as u64)
    }

    open spec fn handles(v: usize) -> Seq<OsIpcChannel> {
        seq![OsIpcChannel::Sender(OsIpcSender { id: v })]
    }

    open spec fn regions(v: usize) -> Seq<Seq<u8>> {
        Seq::empty()
    }

    open spec fn parse(m: SlotsView, pos: int) -> Option<(usize, int, SlotsView)> {
        parse_channel(m, pos)
    }

    proof fn lemma_valid(v: usize) {
    }

    proof fn lemma_parse_payload(v: usize, m: SlotsView, pos: int, nch: int, nmem: int) {
        vstd::bytes::lemma_auto_spec_u64_to_from_le_bytes();
        lemma_parse_channel(OsIpcChannel::Sender(OsIpcSender { id: v }), m, pos, nch, nmem);
    }

    fn encode_into(self, e: &mut Encoder) {
        encode_channel(e, OsIpcChannel::Sender(self.os_sender));
    }

    fn decode_from(m: &mut OpaqueIpcMessage, pos: usize) -> (r: Result<(IpcSender<T>, usize), IpcError>) {
        match decode_channel(m, pos) {
            Ok((c, next)) => Ok((IpcSender { os_sender: c.to_sender(), phantom: PhantomData }, next)),
            Err(e) => Err(e),
        }
    }
}

impl<T> Transfer for IpcReceiver<T> {
    open spec fn valid(v: usize) -> bool {
        true
    }

    open spec fn payload(v: usize, nch: int, nmem: int) -> Seq<u8> {
        spec_u64_to_le_bytes(nch as u64)
    }

    open spec fn handles(v: usize) -> Seq<OsIpcChannel> {
        seq![OsIpcChannel::Receiver(OsIpcReceiver { id: v })]
    }

    open spec fn regions(v: usize) -> Seq<Seq<u8>> {
        Seq::empty()
    }

    open spec fn parse(m: SlotsView, pos: int) -> Option<(usize, int, SlotsView)> {
        parse_channel(m, pos)
    }

    proof fn lemma_valid(v: usize) {
    }

    proof fn lemma_parse_payload(v: usize, m: SlotsView, pos: int, nch: int, nmem: int) {
        vstd::bytes::lemma_auto_spec_u64_to_from_le_bytes();
        lemma_parse_channel(OsIpcChannel::Receiver(OsIpcReceiver { id: v }), m, pos, nch, nmem);
    }

    fn encode_into(self, e: &mut Encoder) {
        encode_channel(e, OsIpcChannel::Receiver(self.os_receiver));
    }

    fn decode_from(m: &mut OpaqueIpcMessage, pos: usize) -> (r: Result<(IpcReceiver<T>, usize), IpcError>) {
        match decode_channel(m, pos) {
            Ok((c, next)) => Ok((IpcReceiver { os_receiver: c.to_receiver(), phantom: PhantomData }, next)),
            Err(e) => Err(e),
        }
    }
}

impl Transfer for IpcBytesSender {
    open spec fn valid(v: usize) -> bool {
        true
    }

    open spec fn payload(v: usize, nch: int, nmem: int) -> Seq<u8> {
        spec_u64_to_le_bytes(nch as u64)
    }

    open spec fn handles(v: usize) -> Seq<OsIpcChannel> {
        seq![OsIpcChannel::Sender(OsIpcSender { id: v })]
    }

    open spec fn regions(v: usize) -> Seq<Seq<u8>> {
        Seq::empty()
    }

    open spec fn parse(m: SlotsView, pos: int) -> Option<(usize, int, SlotsView)> {
        parse_channel(m, pos)
    }

    proof fn lemma_valid(v: usize) {
    }

    proof fn lemma_parse_payload(v: usize, m: SlotsView, pos: int, nch: int, nmem: int) {
        vstd::bytes::lemma_auto_spec_u64_to_from_le_bytes();
        lemma_parse_channel(OsIpcChannel::Sender(OsIpcSender { id: v }), m, pos, nch, nmem);
    }

    fn encode_into(self, e: &mut Encoder) {
        encode_channel(e, OsIpcChannel::Sender(self.os_sender));
    }

    fn decode_from(m: &mut OpaqueIpcMessage, pos: usize) -> (r: Result<(IpcBytesSender, usize), IpcError>) {
        match decode_channel(m, pos) {
            Ok((c, next)) => Ok((IpcBytesSender { os_sender: c.to_sender() }, next)),
            Err(e) => Err(e),
        }
    }
}

impl Transfer for IpcBytesReceiver {
    open spec fn valid(v: usize) -> bool {
        true
    }

    open spec fn payload(v: usize, nch: int, nmem: int) -> Seq<u8> {
        spec_u64_to_le_bytes(nch as u64)
    }

    open spec fn handles(v: usize) -> Seq<OsIpcChannel> {
        seq![OsIpcChannel::Receiver(OsIpcReceiver { id: v })]
    }

    open spec fn regions(v: usize) -> Seq<Seq<u8>> {
        Seq::empty()
    }

    open spec fn parse(m: SlotsView, pos: int) -> Option<(usize, int, SlotsView)> {
        parse_channel(m, pos)
    }

    proof fn lemma_valid(v: usize) {
    }

    proof fn lemma_parse_payload(v: usize, m: SlotsView, pos: int, nch: int, nmem: int) {
        vstd::bytes::lemma_auto_spec_u64_to_from_le_bytes();
        lemma_parse_channel(OsIpcChannel::Receiver(OsIpcReceiver { id: v }), m, pos, nch, nmem);
    }

    fn encode_into(self, e: &mut Encoder) {
        encode_channel(e, OsIpcChannel::Receiver(self.os_receiver));
    }

    fn decode_from(m: &mut OpaqueIpcMessage, pos: usize) -> (r: Result<(IpcBytesReceiver, usize), IpcError>) {
        match decode_channel(m, pos) {
            Ok((c, next)) => Ok((IpcBytesReceiver { os_receiver: c.to_receiver() }, next)),
            Err(e) => Err(e),
        }
    }
}

impl Transfer for OpaqueIpcSender {
    open spec fn valid(v: usize) -> bool {
        true
    }

    open spec fn payload(v: usize, nch: int, nmem: int) -> Seq<u8> {
        spec_u64_to_le_bytes(nch as u64)
    }

    open spec fn handles(v: usize) -> Seq<OsIpcChannel> {
        seq![OsIpcChannel::Sender(OsIpcSender { id: v })]
    }

    open spec fn regions(v: usize) -> Seq<Seq<u8>> {
        Seq::empty()
    }

    open spec fn parse(m: SlotsView, pos: int) -> Option<(usize, int, SlotsView)> {
        parse_channel(m, pos)
    }

    proof fn lemma_valid(v: usize) {
    }

    proof fn lemma_parse_payload(v: usize, m: SlotsView, pos: int, nch: int, nmem: int) {
        vstd::bytes::lemma_auto_spec_u64_to_from_le_bytes();
        lemma_parse_channel(OsIpcChannel::Sender(OsIpcSender { id: v }), m, pos, nch, nmem);
    }

    fn encode_into(self, e: &mut Encoder) {
        encode_channel(e, OsIpcChannel::Sender(self.os_sender));
    }

    fn decode_from(m: &mut OpaqueIpcMessage, pos: usize) -> (r: Result<(OpaqueIpcSender, usize), IpcError>) {
        match decode_channel(m, pos) {
            Ok((c, next)) => Ok((OpaqueIpcSender { os_sender: c.to_sender() }, next)),
            Err(e) => Err(e),
        }
    }
}

impl Transfer for OpaqueIpcReceiver {
    open spec fn valid(v: usize) -> bool {
        true
    }

    open spec fn payload(v: usize, nch: int, nmem: int) -> Seq<u8> {
        spec_u64_to_le_bytes(nch as u64)
    }

    open spec fn handles(v: usize) -> Seq<OsIpcChannel> {
        seq![OsIpcChannel::Receiver(OsIpcReceiver { id: v })]
    }

    open spec fn regions(v: usize) -> Seq<Seq<u8>> {
        Seq::empty()
    }

    open spec fn parse(m: SlotsView, pos: int) -> Option<(usize, int, SlotsView)> {
        parse_channel(m, pos)
    }

    proof fn lemma_valid(v: usize) {
    }

    proof fn lemma_parse_payload(v: usize, m: SlotsView, pos: int, nch: int, nmem: int) {
        vstd::bytes::lemma_auto_spec_u64_to_from_le_bytes();
        lemma_parse_channel(OsIpcChannel::Receiver(OsIpcReceiver { id: v }), m, pos, nch, nmem);
    }

    fn encode_into(self, e: &mut Encoder) {
        encode_channel(e, OsIpcChannel::Receiver(self.os_receiver));
    }

    fn decode_from(m: &mut OpaqueIpcMessage, pos: usize) -> (r: Result<(OpaqueIpcReceiver, usize), IpcError>) {
        match decode_channel(m, pos) {
            Ok((c, next)) => Ok((OpaqueIpcReceiver { os_receiver: c.to_receiver() }, next)),
            Err(e) => Err(e),
        }
    }
}

/// A region of shared memory; equal regions hold equal bytes.
#[derive(Clone, Debug)]
pub struct IpcSharedMemory {
    pub os_shared_memory: OsIpcSharedMemory,
}

impl View for IpcSharedMemory {
    type V = Seq<u8>;

    open spec fn view(&self) -> Seq<u8> {
        self.os_shared_memory@
    }
}

impl IpcSharedMemory {
    /// A new region holding a copy of `bytes`.
    pub fn from_bytes(bytes: &[u8]) -> (r: IpcSharedMemory)
        ensures
            r@ == bytes@,
    {
        IpcSharedMemory { os_shared_memory: OsIpcSharedMemory::from_bytes(bytes) }
    }

    /// A new region of `length` bytes, each `byte`.
    pub fn from_byte(byte: u8, length: usize) -> (r: IpcSharedMemory)
        ensures
            r@ == Seq::new(length as nat, |i: int| byte),
    {
        IpcSharedMemory { os_shared_memory: OsIpcSharedMemory::from_byte(byte, length) }
    }

    /// The bytes of the region.
    pub fn as_slice(&self) -> (r: &[u8])
        ensures
            r@ == self@,
    {
        self.os_shared_memory.as_slice()
    }

    pub fn len(&self) -> (r: usize)
        ensures
            r == self@.len(),
    {
        self.os_shared_memory.bytes.len()
    }
}

impl PartialEq for IpcSharedMemory {
    fn eq(&self, other: &IpcSharedMemory) -> (r: bool) {
        let a = self.as_slice();
        let b = other.as_slice();
        if a.len() != b.len() {
            return false;
        }
        let mut i: usize = 0;
        while i < a.len()
            invariant
                a@ == self@,
                b@ == other@,
                a@.len() == b@.len(),
                i <= a@.len(),
                forall|k: int| 0 <= k < i ==> a@[k] == b@[k],
            decreases a@.len() - i,
        {
            if a[i] != b[i] {
                return false;
            }
            i = i + 1;
        }
        assert(self@ =~= other@);
        true
    }
}

impl vstd::std_specs::cmp::PartialEqSpecImpl for IpcSharedMemory {
    open spec fn obeys_eq_spec() -> bool {
        true
    }

    open spec fn eq_spec(&self, other: &IpcSharedMemory) -> bool {
        self@ == other@
    }
}

impl Transfer for IpcSharedMemory {
    open spec fn valid(v: Seq<u8>) -> bool {
        true
    }

    open spec fn payload(v: Seq<u8>, nch: int, nmem: int) -> Seq<u8> {
        spec_u64_to_le_bytes(nmem as u64)
    }

    open spec fn handles(v: Seq<u8>) -> Seq<OsIpcChannel> {
        Seq::empty()
    }

    open spec fn regions(v: Seq<u8>) -> Seq<Seq<u8>> {
        seq![v]
    }

    open spec fn parse(m: SlotsView, pos: int) -> Option<(Seq<u8>, int, SlotsView)> {
        parse_memory(m, pos)
    }

    proof fn lemma_valid(v: Seq<u8>) {
    }

    proof fn lemma_parse_payload(v: Seq<u8>, m: SlotsView, pos: int, nch: int, nmem: int) {
        vstd::bytes::lemma_auto_spec_u64_to_from_le_bytes();
        assert(ids(Seq::<OsIpcChannel>::empty()) =~= Seq::<usize>::empty());
        lemma_parse_memory(v, m, pos, nch, nmem);
    }

    fn encode_into(self, e: &mut Encoder) {
        encode_memory(e, self.os_shared_memory);
    }

    fn decode_from(m: &mut OpaqueIpcMessage, pos: usize) -> (r: Result<(IpcSharedMemory, usize), IpcError>) {
        match decode_memory(m, pos) {
            Ok((region, next)) => Ok((IpcSharedMemory { os_shared_memory: region }, next)),
            Err(e) => Err(e),
        }
    }
}

/// The number that the decimal digits `d` spell.
pub open spec fn decimal_value(d: Seq<char>) -> int
    decreases d.len(),
{
    if d.len() == 0 {
        0
    } else {
        decimal_value(d.drop_last()) * 10 + (d.last() as int - '0' as int)
    }
}

pub open spec fn all_digits(d: Seq<char>) -> bool {
    forall|i: int| 0 <= i < d.len() ==> '0' <= #[trigger] d[i] && d[i] <= '9'
}

/// What parsing `s` as an unsigned decimal number gives: an optional `+`,
/// then at least one digit, and a value that fits.
pub open spec fn parsed_decimal(s: Seq<char>) -> Option<usize> {
    let d = if s.len() > 0 && s[0] == '+' {
        s.skip(1)
    } else {
        s
    };
    if d.len() > 0 && all_digits(d) && decimal_value(d) <= usize::MAX {
        Some(decimal_value(d) as usize)
    } else {
        None
    }
}

/// Relies on `str::parse::<usize>`: an optional `+` sign then decimal
/// digits, with an error on anything else or on overflow.
#[verifier::external_body]
fn parse_usize(s: &str) -> (r: Option<usize>)
    ensures
        r == parsed_decimal(s@),
{
    s.parse::<usize>().ok()
}

/// A rendezvous point that the first peer to connect reaches, under a name
/// that can be handed to that peer.
#[derive(Debug)]
pub struct IpcOneShotServer<T> {
    pub os_server: OsIpcReceiver,
    pub phantom: PhantomData<T>,
}

impl<T> View for IpcOneShotServer<T> {
    type V = usize;

    open spec fn view(&self) -> usize {
        self.os_server.id
    }
}

impl<T: Transfer> IpcOneShotServer<T> {
    /// A new rendezvous point and its name, the decimal form of its channel.
    pub fn new(t: &mut Transport) -> (r: Result<(IpcOneShotServer<T>, String), IpcError>)
        requires
            old(t).wf(),
        ensures
            final(t).wf(),
            r is Ok <==> old(t).len() < usize::MAX,
            r is Err ==> final(t)@ == old(t)@ && r == Err::<(IpcOneShotServer<T>, String), IpcError>(
                IpcError::Exhausted,
            ),
            r matches Ok((server, name)) ==> {
                &&& server@ == old(t).len()
                &&& to_string_from_display_ensures::<usize>(&server.os_server.id, name)
                &&& final(t)@ == old(t)@.push(
                    ChannelView { queue: Seq::empty(), senders: 0, receiver_open: true, listening: true },
                )
            },
    {
        let ghost before = t@;
        match t.new_server() {
            Ok(os_server) => {
                assert(t@ =~= before.push(
                    ChannelView { queue: Seq::empty(), senders: 0, receiver_open: true, listening: true },
                ));
                let name = os_server.id.to_string();
                Ok((IpcOneShotServer { os_server, phantom: PhantomData }, name))
            },
            Err(e) => {
                assert(t@ =~= before);
                Err(e)
            },
        }
    }

    /// Takes the first message that the connected peer sent, and turns the
    /// rendezvous point into a receiver for the messages that follow.
    pub fn accept(self, t: &mut Transport) -> (r: Result<(IpcReceiver<T>, T), IpcError>)
        requires
            old(t).wf(),
        ensures
            final(t).wf(),
            final(t).len() == old(t).len(),
            final(t)@ == received(old(t)@, self@),
            r matches Ok((rx, v)) ==> rx@ == self@ && recv_result::<T>(old(t)@, self@, Ok::<T, IpcError>(v)),
            r matches Err(e) ==> recv_result::<T>(old(t)@, self@, Err::<T, IpcError>(e)),
    {
        match receive::<T>(t, &self.os_server) {
            Ok(v) => Ok((IpcReceiver { os_receiver: self.os_server, phantom: PhantomData }, v)),
            Err(e) => Err(e),
        }
    }
}

impl<T> IpcSender<T> {
    /// A sender to the rendezvous point called `name`; only the first peer
    /// to connect succeeds.
    pub fn connect(t: &mut Transport, name: String) -> (r: Result<IpcSender<T>, IpcError>)
        requires
            old(t).wf(),
        ensures
            final(t).wf(),
            final(t).len() == old(t).len(),
            r is Err ==> final(t)@ == old(t)@,
            match parsed_decimal(name@) {
                None => r == Err::<IpcSender<T>, IpcError>(IpcError::InvalidName),
                Some(id) => {
                    &&& (r is Ok <==> old(t).has(id) && old(t)@[id as int].listening && old(t)@[id as int].senders
                        < u64::MAX)
                    &&& (!(old(t).has(id) && old(t)@[id as int].listening) ==> r == Err::<
                        IpcSender<T>,
                        IpcError,
                    >(IpcError::InvalidName))
                    &&& (r matches Ok(s) ==> s@ == id && final(t)@ == old(t)@.update(
                        id as int,
                        ChannelView {
                            senders: old(t)@[id as int].senders + 1,
                            listening: false,
                            ..old(t)@[id as int]
                        },
                    ))
                },
            },
    {
        let ghost before = t@;
        let id = match parse_usize(name.as_str()) {
            Some(id) => id,
            None => return Err(IpcError::InvalidName),
        };
        assert(id < t.len() ==> before[id as int] == t.channel(id as int));
        match t.connect(id) {
            Ok(os_sender) => {
                assert(t@ =~= before.update(
                    id as int,
                    ChannelView { senders: before[id as int].senders + 1, listening: false, ..before[id as int] },
                ));
                Ok(IpcSender { os_sender, phantom: PhantomData })
            },
            Err(e) => {
                assert(t@ =~= before);
                Err(e)
            },
        }
    }
}


/// What one entry of a selection reports, its message as decoding sees it.
pub ghost enum IpcSelectionView {
    Message(u64, SlotsView),
    Closed(u64),
}

pub open spec fn fresh_selection(v: SelectionView) -> IpcSelectionView {
    match v {
        SelectionView::Data(id, m) => IpcSelectionView::Message(id, fresh(m)),
        SelectionView::Closed(id) => IpcSelectionView::Closed(id),
    }
}

/// One entry of what a receiver set reports: a message from the member
/// with the given identifier, or that its senders are all closed.
#[derive(Debug)]
pub enum IpcSelectionResult {
    MessageReceived(u64, OpaqueIpcMessage),
    ChannelClosed(u64),
}

impl View for IpcSelectionResult {
    type V = IpcSelectionView;

    open spec fn view(&self) -> IpcSelectionView {
        match self {
            IpcSelectionResult::MessageReceived(id, m) => IpcSelectionView::Message(*id, m@),
            IpcSelectionResult::ChannelClosed(id) => IpcSelectionView::Closed(*id),
        }
    }
}

impl IpcSelectionResult {
    /// The member and the message of a `MessageReceived` entry.
    pub fn unwrap(self) -> (r: (u64, OpaqueIpcMessage))
        requires
            self is MessageReceived,
        ensures
            self@ == IpcSelectionView::Message(r.0, r.1@),
    {
        match self {
            IpcSelectionResult::MessageReceived(id, message) => (id, message),
            IpcSelectionResult::ChannelClosed(_) => {
                proof {
                    assert(false);
                }
                unreached()
            },
        }
    }
}

/// Several receivers, polled together.
pub struct IpcReceiverSet {
    pub os_receiver_set: OsIpcReceiverSet,
}

impl IpcReceiverSet {
    pub open spec fn wf(&self) -> bool {
        self.os_receiver_set.wf()
    }

    /// The members, as pairs of identifier and channel, in the order they
    /// were added.
    pub open spec fn members(&self) -> Seq<(u64, usize)> {
        self.os_receiver_set.members()
    }

    pub fn new() -> (r: Result<IpcReceiverSet, IpcError>)
        ensures
            r matches Ok(set) && set.wf() && set.members().len() == 0,
    {
        Ok(IpcReceiverSet { os_receiver_set: OsIpcReceiverSet::new() })
    }

    /// Adds a receiver under an identifier that no member has.
    pub fn add<T>(&mut self, receiver: IpcReceiver<T>) -> (r: Result<u64, IpcError>)
        requires
            old(self).wf(),
        ensures
            final(self).wf(),
            r is Ok <==> old(self).os_receiver_set.incrementor.last_value < u64::MAX,
            r is Err ==> r == Err::<u64, IpcError>(IpcError::Exhausted) && final(self).members() == old(
                self,
            ).members(),
            r matches Ok(id) ==> {
                &&& final(self).members() == old(self).members().push((id, receiver@))
                &&& forall|i: int| 0 <= i < old(self).members().len() ==> #[trigger] old(self).members()[i].0 != id
            },
    {
        self.os_receiver_set.add(receiver.os_receiver)
    }

    /// Adds a receiver under an identifier that no member has.
    pub fn add_opaque(&mut self, receiver: OpaqueIpcReceiver) -> (r: Result<u64, IpcError>)
        requires
            old(self).wf(),
        ensures
            final(self).wf(),
            r is Ok <==> old(self).os_receiver_set.incrementor.last_value < u64::MAX,
            r is Err ==> r == Err::<u64, IpcError>(IpcError::Exhausted) && final(self).members() == old(
                self,
            ).members(),
            r matches Ok(id) ==> {
                &&& final(self).members() == old(self).members().push((id, receiver@))
                &&& forall|i: int| 0 <= i < old(self).members().len() ==> #[trigger] old(self).members()[i].0 != id
            },
    {
        self.os_receiver_set.add(receiver.os_receiver)
    }

    /// Polls every member once, in the order they were added: a member with
    /// a queued message reports its oldest message, one whose senders are all
    /// closed reports that and leaves the set. Nothing to report is
    /// `WouldBlock`.
    pub fn select(&mut self, t: &mut Transport) -> (r: Result<Vec<IpcSelectionResult>, IpcError>)
        requires
            old(self).wf(),
            old(t).wf(),
        ensures
            final(self).wf(),
            final(t).wf(),
            final(t).len() == old(t).len(),
            final(t)@ == select_spec(old(t)@, old(self).members()).1,
            final(self).members() == select_spec(old(t)@, old(self).members()).2,
            r is Err <==> select_spec(old(t)@, old(self).members()).0.len() == 0,
            r is Err ==> r == Err::<Vec<IpcSelectionResult>, IpcError>(IpcError::WouldBlock),
            r matches Ok(v) ==> v@.map_values(|x: IpcSelectionResult| x@) == select_spec(
                old(t)@,
                old(self).members(),
            ).0.map_values(|x: SelectionView| fresh_selection(x)),
    {
        let results = match self.os_receiver_set.select(t) {
            Ok(v) => v,
            Err(e) => return Err(e),
        };
        let ghost r0 = results@;
        let n = results.len();
        let mut rest = results;
        let mut out: Vec<IpcSelectionResult> = Vec::new();
        let mut i: usize = 0;
        while rest.len() > 0
            invariant
                i <= n,
                r0.len() == n,
                rest@ == r0.skip(i as int),
                out@.len() == i,
                forall|k: int| 0 <= k < i ==> #[trigger] out@[k]@ == fresh_selection(r0[k]@),
            decreases rest@.len(),
        {
            let x = rest.remove(0);
            let y = match x {
                OsIpcSelectionResult::DataReceived(id, m) => IpcSelectionResult::MessageReceived(
                    id,
                    OpaqueIpcMessage::from_os(m),
                ),
                OsIpcSelectionResult::ChannelClosed(id) => IpcSelectionResult::ChannelClosed(id),
            };
            out.push(y);
            assert(rest@ =~= r0.skip(i + 1));
            i = i + 1;
        }
        assert(out@.map_values(|x: IpcSelectionResult| x@) =~= selection_views(r0).map_values(
            |x: SelectionView| fresh_selection(x),
        ));
        Ok(out)
    }
}


impl OpaqueIpcMessage {
    /// Decodes the message as a value of type `T`.
    pub fn to<T: Transfer>(self) -> (r: Result<T, IpcError>)
        ensures
            r is Ok <==> value_of::<T>(self@) is Some,
            r matches Ok(v) ==> value_of::<T>(self@) == Some(v@),
            r matches Err(e) ==> e == IpcError::Decode || e == IpcError::IndexOutOfRange,
    {
        decode::<T>(self)
    }
}


/// One step of reading a receiver as a sequence of values.
#[derive(Debug, PartialEq, Eq)]
pub enum Async<T> {
    /// The next value.
    Ready(T),
    /// No value yet; the sequence goes on.
    NotReady,
    /// Every sender is closed and nothing is left: the sequence is over.
    Done,
}

/// What a poll on channel `id` of `cs` gives.
pub open spec fn poll_result<T: Transfer>(cs: Seq<ChannelView>, id: usize, r: Result<Async<T>, IpcError>) -> bool {
    if id >= cs.len() {
        r == Err::<Async<T>, IpcError>(IpcError::UnknownChannel)
    } else if cs[id as int].queue.len() == 0 {
        r == Ok::<Async<T>, IpcError>(
            if empty_queue_error(cs[id as int]) == IpcError::PeerClosed {
                Async::Done
            } else {
                Async::NotReady
            },
        )
    } else {
        match value_of::<T>(fresh(cs[id as int].queue[0])) {
            Some(v) => r matches Ok(Async::Ready(w)) && w@ == v,
            None => r matches Err(e) && (e == IpcError::Decode || e == IpcError::IndexOutOfRange),
        }
    }
}

impl<T: Transfer> IpcReceiver<T> {
    /// The next step of the sequence of values that this receiver yields:
    /// a value, `NotReady` when nothing is queued yet, `Done` once the
    /// senders are closed and the queue drained; other failures are errors.
    pub fn poll(&self, t: &mut Transport) -> (r: Result<Async<T>, IpcError>)
        requires
            old(t).wf(),
        ensures
            final(t).wf(),
            final(t).len() == old(t).len(),
            final(t)@ == received(old(t)@, self@),
            poll_result::<T>(old(t)@, self@, r),
    {
        match receive::<T>(t, &self.os_receiver) {
            Ok(v) => Ok(Async::Ready(v)),
            Err(IpcError::PeerClosed) => Ok(Async::Done),
            Err(IpcError::WouldBlock) => Ok(Async::NotReady),
            Err(e) => Err(e),
        }
    }
}

impl IpcBytesSender {
    /// Another sender of the same channel.
    pub fn try_clone(&self, t: &mut Transport) -> (r: Result<IpcBytesSender, IpcError>)
        requires
            old(t).wf(),
        ensures
            final(t).wf(),
            r is Ok <==> old(t).has(self@) && old(t)@[self@ as int].senders < u64::MAX,
            r is Err ==> final(t)@ == old(t)@,
            r matches Ok(c) ==> c@ == self@ && final(t)@ == old(t)@.update(
                self@ as int,
                ChannelView { senders: old(t)@[self@ as int].senders + 1, ..old(t)@[self@ as int] },
            ),
    {
        let ghost before = t@;
        match t.clone_sender(&self.os_sender) {
            Ok(os_sender) => {
                assert(t@ =~= before.update(
                    self@ as int,
                    ChannelView { senders: before[self@ as int].senders + 1, ..before[self@ as int] },
                ));
                Ok(IpcBytesSender { os_sender })
            },
            Err(e) => {
                assert(t@ =~= before);
                Err(e)
            },
        }
    }

    /// Closes this sender.
    pub fn close(self, t: &mut Transport)
        requires
            old(t).wf(),
        ensures
            final(t).wf(),
            final(t)@ == release_one(old(t)@, OsIpcChannel::Sender(self.os_sender)),
    {
        let ghost before = t@;
        let ghost c = OsIpcChannel::Sender(self.os_sender);
        t.close_sender(self.os_sender);
        assert(t@ =~= release_one(before, c));
    }
}

impl IpcBytesReceiver {
    /// Closes the receiver: what is queued is dropped and later sends fail.
    pub fn close(self, t: &mut Transport)
        requires
            old(t).wf(),
        ensures
            final(t).wf(),
            final(t)@ == release_one(old(t)@, OsIpcChannel::Receiver(self.os_receiver)),
    {
        let ghost before = t@;
        let ghost c = OsIpcChannel::Receiver(self.os_receiver);
        t.close_receiver(self.os_receiver);
        assert(t@ =~= release_one(before, c));
    }
}

} // verus!







