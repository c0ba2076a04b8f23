//! The transfer protocol: how a value becomes a payload and two side bands
//! (endpoints and shared-memory regions), each side-band entry standing in
//! the payload as its index, numbered in the order encoding meets them; and
//! how a received message becomes a value again, each entry taken once.

use crate::platform::{
    copy_bytes, outgoing, IpcError, MessageView, OsIpcChannel, OsIpcSharedMemory, OsMessage,
    OsOpaqueIpcChannel,
};
use vstd::bytes::{spec_u64_from_le_bytes, spec_u64_to_le_bytes, u64_from_le_bytes, u64_to_le_bytes};
use vstd::prelude::*;
use vstd::utf8::{decode_utf8, encode_utf8, valid_utf8};

verus! {

/// A received message as decoding sees it: the payload, and each side-band
/// entry or `None` once decoding has taken it.
pub ghost struct SlotsView {
    pub data: Seq<u8>,
    pub channels: Seq<Option<usize>>,
    pub memories: Seq<Option<Seq<u8>>>,
}

/// A delivered message before decoding has taken anything from it.
pub open spec fn fresh(m: MessageView) -> SlotsView {
    SlotsView {
        data: m.data,
        channels: m.channels.map_values(|c: usize| Some(c)),
        memories: m.memories.map_values(|b: Seq<u8>| Some(b)),
    }
}

/// A received message whose payload is not decoded yet.
#[derive(Debug)]
pub struct OpaqueIpcMessage {
    pub data: Vec<u8>,
    pub os_ipc_channels: Vec<Option<OsOpaqueIpcChannel>>,
    pub os_ipc_shared_memory_regions: Vec<Option<OsIpcSharedMemory>>,
}

impl View for OpaqueIpcMessage {
    type V = SlotsView;

    open spec fn view(&self) -> SlotsView {
        SlotsView {
            data: self.data@,
            channels: self.os_ipc_channels@.map_values(
                |c: Option<OsOpaqueIpcChannel>|
                    match c {
                        Some(c) => Some(c.id),
                        None => None,
                    },
            ),
            memories: self.os_ipc_shared_memory_regions@.map_values(
                |m: Option<OsIpcSharedMemory>|
                    match m {
                        Some(m) => Some(m@),
                        None => None,
                    },
            ),
        }
    }
}

impl OpaqueIpcMessage {
    pub fn new(
        data: Vec<u8>,
        os_ipc_channels: Vec<OsOpaqueIpcChannel>,
        os_ipc_shared_memory_regions: Vec<OsIpcSharedMemory>,
    ) -> (r: OpaqueIpcMessage)
        ensures
            r@ == fresh(
                OsMessage {
                    data,
                    channels: os_ipc_channels,
                    memories: os_ipc_shared_memory_regions,
                }@,
            ),
    {
        let ghost m = OsMessage {
            data,
            channels: os_ipc_channels,
            memories: os_ipc_shared_memory_regions,
        }@;
        let mut channels = os_ipc_channels;
        let ghost c0 = channels@;
        let nc = channels.len();
        let mut slots: Vec<Option<OsOpaqueIpcChannel>> = Vec::new();
        let mut i: usize = 0;
        while channels.len() > 0
            invariant
                i <= c0.len(),
                c0.len() == nc,
                channels@ == c0.skip(i as int),
                slots@.len() == i,
                forall|k: int| 0 <= k < i ==> #[trigger] slots@[k] == Some(c0[k]),
            decreases channels@.len(),
        {
            let c = channels.remove(0);
            slots.push(Some(c));
            assert(channels@ =~= c0.skip(i + 1));
            i = i + 1;
        }
        let mut memories = os_ipc_shared_memory_regions;
        let ghost r0 = memories@;
        let nm = memories.len();
        let mut regions: Vec<Option<OsIpcSharedMemory>> = Vec::new();
        let mut j: usize = 0;
        while memories.len() > 0
            invariant
                j <= r0.len(),
                r0.len() == nm,
                memories@ == r0.skip(j as int),
                regions@.len() == j,
                forall|k: int| 0 <= k < j ==> #[trigger] regions@[k] == Some(r0[k]),
            decreases memories@.len(),
        {
            let r = memories.remove(0);
            regions.push(Some(r));
            assert(memories@ =~= r0.skip(j + 1));
            j = j + 1;
        }
        let r = OpaqueIpcMessage {
            data,
            os_ipc_channels: slots,
            os_ipc_shared_memory_regions: regions,
        };
        assert(r@.channels =~= fresh(m).channels);
        assert(r@.memories =~= fresh(m).memories);
        r
    }

    pub fn from_os(m: OsMessage) -> (r: OpaqueIpcMessage)
        ensures
            r@ == fresh(m@),
    {
        OpaqueIpcMessage::new(m.data, m.channels, m.memories)
    }

    /// Takes the endpoint at `index` of the side band, which can be taken once.
    pub fn take_channel(&mut self, index: u64) -> (r: Result<OsOpaqueIpcChannel, IpcError>)
        ensures
            final(self)@.data == old(self)@.data,
            final(self)@.memories == old(self)@.memories,
            r is Ok <==> index < old(self)@.channels.len() && old(self)@.channels[index as int] is Some,
            r is Err ==> r == Err::<OsOpaqueIpcChannel, IpcError>(IpcError::IndexOutOfRange)
                && final(self)@ == old(self)@,
            r matches Ok(c) ==> Some(c.id) == old(self)@.channels[index as int]
                && final(self)@.channels == old(self)@.channels.update(index as int, None),
    {
        if index >= self.os_ipc_channels.len() as u64 {
            return Err(IpcError::IndexOutOfRange);
        }
        let i = index as usize;
        let ghost before = self.os_ipc_channels@;
        let mut slot: Option<OsOpaqueIpcChannel> = None;
        std::mem::swap(&mut slot, &mut self.os_ipc_channels[i]);
        match slot {
            Some(c) => {
                assert(self@.channels =~= old(self)@.channels.update(index as int, None));
                Ok(c)
            },
            None => {
                std::mem::swap(&mut slot, &mut self.os_ipc_channels[i]);
                assert(self.os_ipc_channels@ =~= before);
                Err(IpcError::IndexOutOfRange)
            },
        }
    }

    /// Takes the region at `index` of the side band, which can be taken once.
    pub fn take_memory(&mut self, index: u64) -> (r: Result<OsIpcSharedMemory, IpcError>)
        ensures
            final(self)@.data == old(self)@.data,
            final(self)@.channels == old(self)@.channels,
            r is Ok <==> index < old(self)@.memories.len() && old(self)@.memories[index as int] is Some,
            r is Err ==> r == Err::<OsIpcSharedMemory, IpcError>(IpcError::IndexOutOfRange)
                && final(self)@ == old(self)@,
            r matches Ok(m) ==> Some(m@) == old(self)@.memories[index as int]
                && final(self)@.memories == old(self)@.memories.update(index as int, None),
    {
        if index >= self.os_ipc_shared_memory_regions.len() as u64 {
            return Err(IpcError::IndexOutOfRange);
        }
        let i = index as usize;
        let ghost before = self.os_ipc_shared_memory_regions@;
        let mut slot: Option<OsIpcSharedMemory> = None;
        std::mem::swap(&mut slot, &mut self.os_ipc_shared_memory_regions[i]);
        match slot {
            Some(m) => {
                assert(self@.memories =~= old(self)@.memories.update(index as int, None));
                Ok(m)
            },
            None => {
                std::mem::swap(&mut slot, &mut self.os_ipc_shared_memory_regions[i]);
                assert(self.os_ipc_shared_memory_regions@ =~= before);
                Err(IpcError::IndexOutOfRange)
            },
        }
    }
}

/// An outgoing message being built: the payload and the two side bands.
pub struct Encoder {
    pub data: Vec<u8>,
    pub channels: Vec<OsIpcChannel>,
    pub memories: Vec<OsIpcSharedMemory>,
}

impl View for Encoder {
    type V = MessageView;

    open spec fn view(&self) -> MessageView {
        outgoing(self.data@, self.channels@, self.memories@)
    }
}

impl Encoder {
    pub fn new() -> (r: Encoder)
        ensures
            r@ == (MessageView { data: Seq::empty(), channels: Seq::empty(), memories: Seq::empty() }),
            r.channels@ == Seq::<OsIpcChannel>::empty(),
            r.memories@.len() == 0,
    {
        let r = Encoder { data: Vec::new(), channels: Vec::new(), memories: Vec::new() };
        assert(r.channels@ =~= Seq::empty());
        assert(r@.channels =~= Seq::empty());
        assert(r@.memories =~= Seq::empty());
        r
    }

    /// Appends bytes to the payload.
    pub fn write_bytes(&mut self, bytes: &[u8])
        ensures
            final(self)@ == (MessageView { data: old(self)@.data + bytes@, ..old(self)@ }),
            final(self).channels == old(self).channels,
            final(self).memories == old(self).memories,
    {
        let mut b = copy_bytes(bytes);
        self.data.append(&mut b);
    }

    /// Puts an endpoint in the side band and writes its index in the payload.
    pub fn add_channel(&mut self, c: OsIpcChannel) -> (index: u64)
        ensures
            index == old(self)@.channels.len(),
            final(self).channels@ == old(self).channels@.push(c),
            final(self).memories == old(self).memories,
            final(self)@ == (MessageView {
                data: old(self)@.data + spec_u64_to_le_bytes(index),
                channels: old(self)@.channels.push(c.channel_id()),
                memories: old(self)@.memories,
            }),
    {
        let index = self.channels.len() as u64;
        self.channels.push(c);
        let mut b = u64_to_le_bytes(index);
        self.data.append(&mut b);
        assert(self@.channels =~= old(self)@.channels.push(c.channel_id()));
        index
    }

    /// Puts a region in the side band and writes its index in the payload.
    pub fn add_memory(&mut self, m: OsIpcSharedMemory) -> (index: u64)
        ensures
            index == old(self)@.memories.len(),
            final(self).channels == old(self).channels,
            final(self)@ == (MessageView {
                data: old(self)@.data + spec_u64_to_le_bytes(index),
                channels: old(self)@.channels,
                memories: old(self)@.memories.push(m@),
            }),
    {
        let index = self.memories.len() as u64;
        let ghost mv = m@;
        self.memories.push(m);
        let mut b = u64_to_le_bytes(index);
        self.data.append(&mut b);
        assert(self@.memories =~= old(self)@.memories.push(mv));
        index
    }
}



/// The number that the eight bytes at `pos` of `data` hold, least
/// significant first.
pub open spec fn read_u64_at(data: Seq<u8>, pos: int) -> Option<u64> {
    if 0 <= pos && pos + 8 <= data.len() {
        Some(spec_u64_from_le_bytes(data.subrange(pos, pos + 8)))
    } else {
        None
    }
}

impl OpaqueIpcMessage {
    /// The number that the eight payload bytes at `pos` hold.
    pub fn read_u64(&self, pos: usize) -> (r: Result<u64, IpcError>)
        ensures
            match read_u64_at(self@.data, pos as int) {
                Some(x) => r == Ok::<u64, IpcError>(x),
                None => r == Err::<u64, IpcError>(IpcError::Decode),
            },
    {
        let len = self.data.len();
        if pos > len || len - pos < 8 {
            return Err(IpcError::Decode);
        }
        let mut b: Vec<u8> = Vec::with_capacity(8);
        let mut i: usize = 0;
        while i < 8
            invariant
                pos + 8 <= self.data@.len(),
                len == self.data@.len(),
                i <= 8,
                b@ == self.data@.subrange(pos as int, pos + i),
            decreases 8 - i,
        {
            b.push(self.data[pos + i]);
            i = i + 1;
            assert(b@ =~= self.data@.subrange(pos as int, pos + i));
        }
        Ok(u64_from_le_bytes(b.as_slice()))
    }

    /// The `n` payload bytes from `pos`.
    pub fn read_bytes(&self, pos: usize, n: u64) -> (r: Result<Vec<u8>, IpcError>)
        ensures
            pos + n <= self@.data.len() ==> (r matches Ok(b) && b@ == self@.data.subrange(
                pos as int,
                pos + n,
            )),
            pos + n > self@.data.len() ==> r == Err::<Vec<u8>, IpcError>(IpcError::Decode),
    {
        let len = self.data.len();
        if pos > len || ((len - pos) as u64) < n {
            return Err(IpcError::Decode);
        }
        let count = n as usize;
        let mut b: Vec<u8> = Vec::with_capacity(count);
        let mut i: usize = 0;
        while i < count
            invariant
                pos + count <= self.data@.len(),
                len == self.data@.len(),
                count == n,
                i <= count,
                b@ == self.data@.subrange(pos as int, pos + i),
            decreases count - i,
        {
            b.push(self.data[pos + i]);
            i = i + 1;
            assert(b@ =~= self.data@.subrange(pos as int, pos + i));
        }
        Ok(b)
    }
}

/// The channels of the endpoints `hs`.
pub open spec fn ids(hs: Seq<OsIpcChannel>) -> Seq<usize> {
    hs.map_values(|c: OsIpcChannel| c.channel_id())
}

/// Whether `m` holds the payload `p` from position `pos`, the endpoints of
/// channels `hs` in its slots from `nch`, and the regions `rs` in its slots
/// from `nmem`.
pub open spec fn holds(
    m: SlotsView,
    pos: int,
    p: Seq<u8>,
    nch: int,
    hs: Seq<usize>,
    nmem: int,
    rs: Seq<Seq<u8>>,
) -> bool {
    &&& 0 <= pos
    &&& 0 <= nch
    &&& 0 <= nmem
    &&& pos + p.len() <= m.data.len()
    &&& m.data.subrange(pos, pos + p.len()) == p
    &&& m.channels.len() <= u64::MAX
    &&& m.memories.len() <= u64::MAX
    &&& nch + hs.len() <= m.channels.len()
    &&& nmem + rs.len() <= m.memories.len()
    &&& forall|i: int| 0 <= i < hs.len() ==> m.channels[nch + i] == Some(#[trigger] hs[i])
    &&& forall|i: int| 0 <= i < rs.len() ==> m.memories[nmem + i] == Some(#[trigger] rs[i])
}

/// `m` with the `k` endpoint slots from `nch` and the `j` region slots from
/// `nmem` taken.
pub open spec fn taken(m: SlotsView, nch: int, k: int, nmem: int, j: int) -> SlotsView {
    SlotsView {
        data: m.data,
        channels: Seq::new(
            m.channels.len(),
            |i: int|
                if nch <= i < nch + k {
                    None
                } else {
                    m.channels[i]
                },
        ),
        memories: Seq::new(
            m.memories.len(),
            |i: int|
                if nmem <= i < nmem + j {
                    None
                } else {
                    m.memories[i]
                },
        ),
    }
}

proof fn lemma_taken_nothing(m: SlotsView, nch: int, nmem: int)
    ensures
        taken(m, nch, 0, nmem, 0) == m,
{
    assert(taken(m, nch, 0, nmem, 0).channels =~= m.channels);
    assert(taken(m, nch, 0, nmem, 0).memories =~= m.memories);
}

/// Reading back a number written as eight bytes in front of `rest`.
proof fn lemma_read_u64(data: Seq<u8>, pos: int, x: u64, rest: Seq<u8>)
    requires
        0 <= pos,
        pos + 8 + rest.len() <= data.len(),
        data.subrange(pos, pos + 8 + rest.len()) == spec_u64_to_le_bytes(x) + rest,
    ensures
        read_u64_at(data, pos) == Some(x),
        data.subrange(pos + 8, pos + 8 + rest.len()) == rest,
{
    vstd::bytes::lemma_auto_spec_u64_to_from_le_bytes();
    let whole = data.subrange(pos, pos + 8 + rest.len());
    assert(data.subrange(pos, pos + 8) =~= whole.subrange(0, 8));
    assert(whole.subrange(0, 8) =~= spec_u64_to_le_bytes(x));
    assert(data.subrange(pos + 8, pos + 8 + rest.len()) =~= whole.subrange(8, 8 + rest.len() as int));
    assert(whole.subrange(8, 8 + rest.len() as int) =~= rest);
}

/// A value that can travel in a message. Encoding appends its payload and
/// puts its endpoints and regions in the side bands; decoding reads the
/// payload from a position and takes the side-band entries it names.
pub trait Transfer: Sized + View {
    /// Whether `v` is the view of a value that exists.
    spec fn valid(v: Self::V) -> bool;

    /// The payload of `v` when the side bands already hold `nch` endpoints
    /// and `nmem` regions.
    spec fn payload(v: Self::V, nch: int, nmem: int) -> Seq<u8>;

    /// The endpoints that `v` puts in the side band, in order.
    spec fn handles(v: Self::V) -> Seq<OsIpcChannel>;

    /// The regions that `v` puts in the side band, in order.
    spec fn regions(v: Self::V) -> Seq<Seq<u8>>;

    /// The value read from position `pos` of `m`, the position after it, and
    /// the message with what it took from the side bands gone.
    spec fn parse(m: SlotsView, pos: int) -> Option<(Self::V, int, SlotsView)>;

    proof fn lemma_valid(v: Self::V)
        requires
            Self::valid(v),
        ensures
            Self::handles(v).len() <= u64::MAX,
            Self::regions(v).len() <= u64::MAX,
    ;

    /// Reading what encoding wrote gives the value back and takes exactly
    /// its side-band entries.
    proof fn lemma_parse_payload(v: Self::V, m: SlotsView, pos: int, nch: int, nmem: int)
        requires
            Self::valid(v),
            holds(m, pos, Self::payload(v, nch, nmem), nch, ids(Self::handles(v)), nmem, Self::regions(v)),
        ensures
            Self::parse(m, pos) == Some(
                (
                    v,
                    pos + Self::payload(v, nch, nmem).len(),
                    taken(m, nch, Self::handles(v).len() as int, nmem, Self::regions(v).len() as int),
                ),
            ),
    ;

    fn encode_into(self, e: &mut Encoder)
        ensures
            Self::valid(self@),
            final(e).data@ == old(e).data@ + Self::payload(
                self@,
                old(e).channels@.len() as int,
                old(e).memories@.len() as int,
            ),
            final(e).channels@ == old(e).channels@ + Self::handles(self@),
            final(e)@.memories == old(e)@.memories + Self::regions(self@),
    ;

    fn decode_from(m: &mut OpaqueIpcMessage, pos: usize) -> (r: Result<(Self, usize), IpcError>)
        ensures
            match Self::parse(old(m)@, pos as int) {
                Some(x) => (r matches Ok(y) && y.0@ == x.0 && y.1 == x.1 && final(m)@ == x.2),
                None => (r matches Err(e) && (e == IpcError::Decode || e == IpcError::IndexOutOfRange)),
            },
    ;
}

/// The message that sending a value with view `v` queues.
pub open spec fn message_of<T: Transfer>(v: T::V) -> MessageView {
    MessageView { data: T::payload(v, 0, 0), channels: ids(T::handles(v)), memories: T::regions(v) }
}

/// The value that a received message decodes to, if it is well formed.
pub open spec fn value_of<T: Transfer>(m: SlotsView) -> Option<T::V> {
    match T::parse(m, 0) {
        Some(x) => Some(x.0),
        None => None,
    }
}

/// Decoding the message that a value was sent as gives the value back.
pub proof fn lemma_message_round_trip<T: Transfer>(v: T::V)
    requires
        T::valid(v),
    ensures
        value_of::<T>(fresh(message_of::<T>(v))) == Some(v),
{
    T::lemma_valid(v);
    let msg = message_of::<T>(v);
    let m = fresh(msg);
    assert(m.data.subrange(0, T::payload(v, 0, 0).len() as int) =~= T::payload(v, 0, 0));
    assert forall|i: int| 0 <= i < ids(T::handles(v)).len() implies m.channels[0 + i] == Some(
        #[trigger] ids(T::handles(v))[i],
    ) by {}
    assert forall|i: int| 0 <= i < T::regions(v).len() implies m.memories[0 + i] == Some(
        #[trigger] T::regions(v)[i],
    ) by {}
    T::lemma_parse_payload(v, m, 0, 0, 0);
}

/// Encodes `v` as a message of its own.
pub fn encode<T: Transfer>(v: T) -> (r: Encoder)
    ensures
        T::valid(v@),
        r@ == message_of::<T>(v@),
        r.channels@ == T::handles(v@),
{
    let mut e = Encoder::new();
    let ghost view = v@;
    v.encode_into(&mut e);
    assert(e.data@ =~= T::payload(view, 0, 0));
    assert(e.channels@ =~= T::handles(view));
    assert(e@.memories =~= T::regions(view));
    e
}

/// Decodes a whole message as a value of type `T`.
pub fn decode<T: Transfer>(msg: OpaqueIpcMessage) -> (r: Result<T, IpcError>)
    ensures
        r is Ok <==> value_of::<T>(msg@) is Some,
        r matches Ok(v) ==> value_of::<T>(msg@) == Some(v@),
        r matches Err(e) ==> e == IpcError::Decode || e == IpcError::IndexOutOfRange,
{
    let mut msg = msg;
    match T::decode_from(&mut msg, 0) {
        Ok((v, _)) => Ok(v),
        Err(e) => Err(e),
    }
}


/// Relies on `String::from_utf8`: it accepts exactly the byte vectors that
/// are valid UTF-8, and the string it returns holds those bytes.
#[verifier::external_body]
fn string_from_utf8(bytes: Vec<u8>) -> (r: Option<String>)
    ensures
        r is Some <==> valid_utf8(bytes@),
        r matches Some(s) ==> encode_utf8(s@) == bytes@,
{
    String::from_utf8(bytes).ok()
}

/// A length-prefixed run of bytes read from position `pos`.
pub open spec fn parse_bytes(m: SlotsView, pos: int) -> Option<(Seq<u8>, int)> {
    match read_u64_at(m.data, pos) {
        Some(n) => if pos + 8 + n <= m.data.len() {
            Some((m.data.subrange(pos + 8, pos + 8 + n), pos + 8 + n))
        } else {
            None
        },
        None => None,
    }
}

/// The eight-byte length of `b` followed by `b`.
pub open spec fn prefixed(b: Seq<u8>) -> Seq<u8> {
    spec_u64_to_le_bytes(b.len() as u64) + b
}

proof fn lemma_parse_bytes(b: Seq<u8>, m: SlotsView, pos: int)
    requires
        b.len() <= u64::MAX,
        0 <= pos,
        pos + prefixed(b).len() <= m.data.len(),
        m.data.subrange(pos, pos + prefixed(b).len()) == prefixed(b),
    ensures
        parse_bytes(m, pos) == Some((b, pos + prefixed(b).len())),
{
    vstd::bytes::lemma_auto_spec_u64_to_from_le_bytes();
    lemma_read_u64(m.data, pos, b.len() as u64, b);
}

fn write_prefixed(e: &mut Encoder, b: &[u8])
    ensures
        final(e).data@ == old(e).data@ + prefixed(b@),
        final(e).channels == old(e).channels,
        final(e).memories == old(e).memories,
{
    let n = b.len() as u64;
    let len = u64_to_le_bytes(n);
    e.write_bytes(len.as_slice());
    e.write_bytes(b);
    assert(e.data@ =~= old(e).data@ + prefixed(b@));
}

fn read_prefixed(m: &OpaqueIpcMessage, pos: usize) -> (r: Result<(Vec<u8>, usize), IpcError>)
    ensures
        match parse_bytes(m@, pos as int) {
            Some(x) => (r matches Ok(y) && y.0@ == x.0 && y.1 == x.1),
            None => r == Err::<(Vec<u8>, usize), IpcError>(IpcError::Decode),
        },
{
    let len = m.data.len();
    let n = match m.read_u64(pos) {
        Ok(n) => n,
        Err(e) => return Err(e),
    };
    match m.read_bytes(pos + 8, n) {
        Ok(b) => Ok((b, pos + 8 + n as usize)),
        Err(e) => Err(e),
    }
}

impl Transfer for u64 {
    open spec fn valid(v: u64) -> bool {
        true
    }

    open spec fn payload(v: u64, nch: int, nmem: int) -> Seq<u8> {
        spec_u64_to_le_bytes(v)
    }

    open spec fn handles(v: u64) -> Seq<OsIpcChannel> {
        Seq::empty()
    }

    open spec fn regions(v: u64) -> Seq<Seq<u8>> {
        Seq::empty()
    }

    open spec fn parse(m: SlotsView, pos: int) -> Option<(u64, int, SlotsView)> {
        match read_u64_at(m.data, pos) {
            Some(x) => Some((x, pos + 8, m)),
            None => None,
        }
    }

    proof fn lemma_valid(v: u64) {
    }

    proof fn lemma_parse_payload(v: u64, m: SlotsView, pos: int, nch: int, nmem: int) {
        vstd::bytes::lemma_auto_spec_u64_to_from_le_bytes();
        assert(spec_u64_to_le_bytes(v) + Seq::<u8>::empty() =~= spec_u64_to_le_bytes(v));
        lemma_read_u64(m.data, pos, v, Seq::empty());
        lemma_taken_nothing(m, nch, nmem);
    }

    fn encode_into(self, e: &mut Encoder) {
        let b = u64_to_le_bytes(self);
        e.write_bytes(b.as_slice());
        assert(e.channels@ =~= old(e).channels@ + Seq::empty());
        assert(e@.memories =~= old(e)@.memories + Seq::empty());
    }

    fn decode_from(m: &mut OpaqueIpcMessage, pos: usize) -> (r: Result<(u64, usize), IpcError>) {
        let len = m.data.len();
        match m.read_u64(pos) {
            Ok(x) => Ok((x, pos + 8)),
            Err(e) => Err(e),
        }
    }
}

impl Transfer for Vec<u8> {
    open spec fn valid(v: Seq<u8>) -> bool {
        v.len() <= u64::MAX
    }

    open spec fn payload(v: Seq<u8>, nch: int, nmem: int) -> Seq<u8> {
        prefixed(v)
    }

    open spec fn handles(v: Seq<u8>) -> Seq<OsIpcChannel> {
        Seq::empty()
    }

    open spec fn regions(v: Seq<u8>) -> Seq<Seq<u8>> {
        Seq::empty()
    }

    open spec fn parse(m: SlotsView, pos: int) -> Option<(Seq<u8>, int, SlotsView)> {
        match parse_bytes(m, pos) {
            Some(x) => Some((x.0, x.1, m)),
            None => None,
        }
    }

    proof fn lemma_valid(v: Seq<u8>) {
    }

    proof fn lemma_parse_payload(v: Seq<u8>, m: SlotsView, pos: int, nch: int, nmem: int) {
        lemma_parse_bytes(v, m, pos);
        lemma_taken_nothing(m, nch, nmem);
    }

    fn encode_into(self, e: &mut Encoder) {
        let _ = self.len();
        write_prefixed(e, self.as_slice());
        assert(e.channels@ =~= old(e).channels@ + Seq::empty());
        assert(e@.memories =~= old(e)@.memories + Seq::empty());
    }

    fn decode_from(m: &mut OpaqueIpcMessage, pos: usize) -> (r: Result<(Vec<u8>, usize), IpcError>) {
        read_prefixed(m, pos)
    }
}

impl Transfer for String {
    open spec fn valid(v: Seq<char>) -> bool {
        encode_utf8(v).len() <= u64::MAX
    }

    open spec fn payload(v: Seq<char>, nch: int, nmem: int) -> Seq<u8> {
        prefixed(encode_utf8(v))
    }

    open spec fn handles(v: Seq<char>) -> Seq<OsIpcChannel> {
        Seq::empty()
    }

    open spec fn regions(v: Seq<char>) -> Seq<Seq<u8>> {
        Seq::empty()
    }

    open spec fn parse(m: SlotsView, pos: int) -> Option<(Seq<char>, int, SlotsView)> {
        match parse_bytes(m, pos) {
            Some(x) => if valid_utf8(x.0) {
                Some((decode_utf8(x.0), x.1, m))
            } else {
                None
            },
            None => None,
        }
    }

    proof fn lemma_valid(v: Seq<char>) {
    }

    proof fn lemma_parse_payload(v: Seq<char>, m: SlotsView, pos: int, nch: int, nmem: int) {
        lemma_parse_bytes(encode_utf8(v), m, pos);
        vstd::utf8::encode_utf8_valid_utf8(v);
        vstd::utf8::encode_utf8_decode_utf8(v);
        lemma_taken_nothing(m, nch, nmem);
    }

    fn encode_into(self, e: &mut Encoder) {
        let b = self.as_str().as_bytes();
        let _ = b.len();
        write_prefixed(e, b);
        assert(e.channels@ =~= old(e).channels@ + Seq::empty());
        assert(e@.memories =~= old(e)@.memories + Seq::empty());
    }

    fn decode_from(m: &mut OpaqueIpcMessage, pos: usize) -> (r: Result<(String, usize), IpcError>) {
        let (b, next) = match read_prefixed(m, pos) {
            Ok(x) => x,
            Err(e) => return Err(e),
        };
        let ghost bytes = b@;
        match string_from_utf8(b) {
            Some(s) => {
                proof {
                    vstd::utf8::encode_utf8_decode_utf8(s@);
                }
                Ok((s, next))
            },
            None => Err(IpcError::Decode),
        }
    }
}

impl<A: Transfer, B: Transfer> Transfer for (A, B) {
    open spec fn valid(v: (A::V, B::V)) -> bool {
        &&& A::valid(v.0)
        &&& B::valid(v.1)
        &&& A::handles(v.0).len() + B::handles(v.1).len() <= u64::MAX
        &&& A::regions(v.0).len() + B::regions(v.1).len() <= u64::MAX
    }

    open spec fn payload(v: (A::V, B::V), nch: int, nmem: int) -> Seq<u8> {
        A::payload(v.0, nch, nmem) + B::payload(
            v.1,
            nch + A::handles(v.0).len(),
            nmem + A::regions(v.0).len(),
        )
    }

    open spec fn handles(v: (A::V, B::V)) -> Seq<OsIpcChannel> {
        A::handles(v.0) + B::handles(v.1)
    }

    open spec fn regions(v: (A::V, B::V)) -> Seq<Seq<u8>> {
        A::regions(v.0) + B::regions(v.1)
    }

    open spec fn parse(m: SlotsView, pos: int) -> Option<((A::V, B::V), int, SlotsView)> {
        match A::parse(m, pos) {
            Some(x) => match B::parse(x.2, x.1) {
                Some(y) => Some(((x.0, y.0), y.1, y.2)),
                None => None,
            },
            None => None,
        }
    }

    proof fn lemma_valid(v: (A::V, B::V)) {
    }

    proof fn lemma_parse_payload(v: (A::V, B::V), m: SlotsView, pos: int, nch: int, nmem: int) {
        let a = v.0;
        let b = v.1;
        let pa = A::payload(a, nch, nmem);
        let ha = A::handles(a);
        let ra = A::regions(a);
        let nch2 = nch + ha.len();
        let nmem2 = nmem + ra.len();
        let pb = B::payload(b, nch2, nmem2);
        let hb = B::handles(b);
        let rb = B::regions(b);
        let whole = m.data.subrange(pos, pos + pa.len() + pb.len());
        assert(whole == pa + pb);
        assert(ids(ha + hb) =~= ids(ha) + ids(hb));
        assert(m.data.subrange(pos, pos + pa.len()) =~= whole.subrange(0, pa.len() as int));
        assert(whole.subrange(0, pa.len() as int) =~= pa);
        assert forall|i: int| 0 <= i < ids(ha).len() implies m.channels[nch + i] == Some(
            #[trigger] ids(ha)[i],
        ) by {
            assert(ids(ha + hb)[i] == ids(ha)[i]);
        }
        assert forall|i: int| 0 <= i < ra.len() implies m.memories[nmem + i] == Some(#[trigger] ra[i]) by {
            assert((ra + rb)[i] == ra[i]);
        }
        A::lemma_parse_payload(a, m, pos, nch, nmem);
        let m1 = taken(m, nch, ha.len() as int, nmem, ra.len() as int);
        assert(m1.data.subrange(pos + pa.len(), pos + pa.len() + pb.len()) =~= whole.subrange(
            pa.len() as int,
            (pa.len() + pb.len()) as int,
        ));
        assert(whole.subrange(pa.len() as int, (pa.len() + pb.len()) as int) =~= pb);
        assert forall|i: int| 0 <= i < ids(hb).len() implies m1.channels[nch2 + i] == Some(
            #[trigger] ids(hb)[i],
        ) by {
            assert(ids(ha + hb)[ha.len() + i] == ids(hb)[i]);
            assert(m.channels[nch + (ha.len() + i)] == Some(ids(ha + hb)[ha.len() + i]));
        }
        assert forall|i: int| 0 <= i < rb.len() implies m1.memories[nmem2 + i] == Some(#[trigger] rb[i]) by {
            assert((ra + rb)[ra.len() + i] == rb[i]);
            assert(m.memories[nmem + (ra.len() + i)] == Some((ra + rb)[ra.len() + i]));
        }
        B::lemma_parse_payload(b, m1, pos + pa.len(), nch2, nmem2);
        let m2 = taken(m1, nch2, hb.len() as int, nmem2, rb.len() as int);
        let all = taken(m, nch, (ha + hb).len() as int, nmem, (ra + rb).len() as int);
        assert(m2.channels =~= all.channels);
        assert(m2.memories =~= all.memories);
    }

    fn encode_into(self, e: &mut Encoder) {
        let (a, b) = self;
        a.encode_into(e);
        b.encode_into(e);
        let _ = e.channels.len();
        let _ = e.memories.len();
        assert(e.data@ =~= old(e).data@ + Self::payload(
            (a@, b@),
            old(e).channels@.len() as int,
            old(e).memories@.len() as int,
        ));
        assert(e.channels@ =~= old(e).channels@ + Self::handles((a@, b@)));
        assert(e@.memories =~= old(e)@.memories + Self::regions((a@, b@)));
    }

    fn decode_from(m: &mut OpaqueIpcMessage, pos: usize) -> (r: Result<((A, B), usize), IpcError>) {
        let (a, next) = match A::decode_from(m, pos) {
            Ok(x) => x,
            Err(e) => return Err(e),
        };
        let (b, last) = match B::decode_from(m, next) {
            Ok(x) => x,
            Err(e) => return Err(e),
        };
        Ok(((a, b), last))
    }
}

/// An endpoint read from position `pos`: the side-band entry that the index
/// there names, which is then taken.
pub open spec fn parse_channel(m: SlotsView, pos: int) -> Option<(usize, int, SlotsView)> {
    match read_u64_at(m.data, pos) {
        Some(i) => if i < m.channels.len() {
            match m.channels[i as int] {
                Some(id) => Some((id, pos + 8, SlotsView { channels: m.channels.update(i as int, None), ..m })),
                None => None,
            }
        } else {
            None
        },
        None => None,
    }
}

/// A region read from position `pos`: the side-band entry that the index
/// there names, which is then taken.
pub open spec fn parse_memory(m: SlotsView, pos: int) -> Option<(Seq<u8>, int, SlotsView)> {
    match read_u64_at(m.data, pos) {
        Some(i) => if i < m.memories.len() {
            match m.memories[i as int] {
                Some(b) => Some((b, pos + 8, SlotsView { memories: m.memories.update(i as int, None), ..m })),
                None => None,
            }
        } else {
            None
        },
        None => None,
    }
}

pub proof fn lemma_parse_channel(c: OsIpcChannel, m: SlotsView, pos: int, nch: int, nmem: int)
    requires
        holds(m, pos, spec_u64_to_le_bytes(nch as u64), nch, ids(seq![c]), nmem, Seq::empty()),
    ensures
        parse_channel(m, pos) == Some((c.channel_id(), pos + 8, taken(m, nch, 1, nmem, 0))),
{
    vstd::bytes::lemma_auto_spec_u64_to_from_le_bytes();
    assert(spec_u64_to_le_bytes(nch as u64) + Seq::<u8>::empty() =~= spec_u64_to_le_bytes(nch as u64));
    lemma_read_u64(m.data, pos, nch as u64, Seq::empty());
    assert(ids(seq![c])[0] == c.channel_id());
    assert(m.channels[nch + 0] == Some(ids(seq![c])[0]));
    assert(taken(m, nch, 1, nmem, 0).channels =~= m.channels.update(nch, None));
    assert(taken(m, nch, 1, nmem, 0).memories =~= m.memories);
}

pub proof fn lemma_parse_memory(b: Seq<u8>, m: SlotsView, pos: int, nch: int, nmem: int)
    requires
        holds(m, pos, spec_u64_to_le_bytes(nmem as u64), nch, Seq::empty(), nmem, seq![b]),
    ensures
        parse_memory(m, pos) == Some((b, pos + 8, taken(m, nch, 0, nmem, 1))),
{
    vstd::bytes::lemma_auto_spec_u64_to_from_le_bytes();
    assert(spec_u64_to_le_bytes(nmem as u64) + Seq::<u8>::empty() =~= spec_u64_to_le_bytes(nmem as u64));
    lemma_read_u64(m.data, pos, nmem as u64, Seq::empty());
    assert(m.memories[nmem + 0] == Some(seq![b][0]));
    assert(taken(m, nch, 0, nmem, 1).channels =~= m.channels);
    assert(taken(m, nch, 0, nmem, 1).memories =~= m.memories.update(nmem, None));
}

/// Puts an endpoint in the side band and writes its index.
pub fn encode_channel(e: &mut Encoder, c: OsIpcChannel)
    ensures
        final(e).data@ == old(e).data@ + spec_u64_to_le_bytes(old(e).channels@.len() as u64),
        final(e).channels@ == old(e).channels@ + seq![c],
        final(e)@.memories == old(e)@.memories + Seq::<Seq<u8>>::empty(),
{
    e.add_channel(c);
    assert(e.channels@ =~= old(e).channels@ + seq![c]);
    assert(e@.memories =~= old(e)@.memories + Seq::<Seq<u8>>::empty());
}

/// Puts a region in the side band and writes its index.
pub fn encode_memory(e: &mut Encoder, m: OsIpcSharedMemory)
    ensures
        final(e).data@ == old(e).data@ + spec_u64_to_le_bytes(old(e).memories@.len() as u64),
        final(e).channels@ == old(e).channels@ + Seq::<OsIpcChannel>::empty(),
        final(e)@.memories == old(e)@.memories + seq![m@],
{
    let ghost b = m@;
    e.add_memory(m);
    assert(e.channels@ =~= old(e).channels@ + Seq::<OsIpcChannel>::empty());
    assert(e@.memories =~= old(e)@.memories + seq![b]);
}

/// Reads an index at `pos` and takes the endpoint it names.
pub fn decode_channel(m: &mut OpaqueIpcMessage, pos: usize) -> (r: Result<(OsOpaqueIpcChannel, usize), IpcError>)
    ensures
        match parse_channel(old(m)@, pos as int) {
            Some(x) => (r matches Ok(y) && y.0.id == x.0 && y.1 == x.1 && final(m)@ == x.2),
            None => (r matches Err(e) && (e == IpcError::Decode || e == IpcError::IndexOutOfRange)),
        },
{
    let len = m.data.len();
    let index = match m.read_u64(pos) {
        Ok(i) => i,
        Err(e) => return Err(e),
    };
    match m.take_channel(index) {
        Ok(c) => Ok((c, pos + 8)),
        Err(e) => Err(e),
    }
}

/// Reads an index at `pos` and takes the region it names.
pub fn decode_memory(m: &mut OpaqueIpcMessage, pos: usize) -> (r: Result<(OsIpcSharedMemory, usize), IpcError>)
    ensures
        match parse_memory(old(m)@, pos as int) {
            Some(x) => (r matches Ok(y) && y.0@ == x.0 && y.1 == x.1 && final(m)@ == x.2),
            None => (r matches Err(e) && (e == IpcError::Decode || e == IpcError::IndexOutOfRange)),
        },
{
    let len = m.data.len();
    let index = match m.read_u64(pos) {
        Ok(i) => i,
        Err(e) => return Err(e),
    };
    match m.take_memory(index) {
        Ok(r) => Ok((r, pos + 8)),
        Err(e) => Err(e),
    }
}

} // verus!


