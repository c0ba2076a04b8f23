use ipc_channel::ipc::{
    Async,
    bytes_channel, channel, IpcBytesReceiver, IpcOneShotServer, IpcReceiver, IpcReceiverSet,
    IpcSelectionResult, IpcSender, IpcSharedMemory, OpaqueIpcMessage,
};
use ipc_channel::platform::{Incrementor, IpcError, OsOpaqueIpcChannel, Transport};

#[test]
fn hello_world_round_trip() {
    let mut t = Transport::new();
    let payload = "Hello, World!".to_owned();
    let (tx, rx) = channel::<String>(&mut t).unwrap();
    tx.send(&mut t, payload.clone()).unwrap();
    let response = rx.recv(&mut t).unwrap();
    assert_eq!(response, payload);
}

#[test]
fn bytes_channel_round_trip() {
    let mut t = Transport::new();
    let payload = b"Tis but a scratch";
    let (tx, rx) = bytes_channel(&mut t).unwrap();
    tx.send(&mut t, payload).unwrap();
    let response = rx.recv(&mut t).unwrap();
    assert_eq!(response.len(), 17);
    assert_eq!(response, payload.to_vec());
}

#[test]
fn sender_sent_across_channel_reaches_its_receiver() {
    let mut t = Transport::new();
    let (a, b) = channel::<IpcSender<u64>>(&mut t).unwrap();
    let (c, d) = channel::<u64>(&mut t).unwrap();
    a.send(&mut t, c).unwrap();
    let c2 = b.recv(&mut t).unwrap();
    c2.send(&mut t, 42).unwrap();
    assert_eq!(d.recv(&mut t).unwrap(), 42);
}

#[test]
fn receiver_sent_across_channel_still_receives() {
    let mut t = Transport::new();
    let (a, b) = channel::<IpcReceiver<String>>(&mut t).unwrap();
    let (c, d) = channel::<String>(&mut t).unwrap();
    a.send(&mut t, d).unwrap();
    let d2 = b.recv(&mut t).unwrap();
    c.send(&mut t, "moved".to_owned()).unwrap();
    assert_eq!(d2.recv(&mut t).unwrap(), "moved");
}

#[test]
fn one_shot_server_accepts_first_message() {
    let mut t = Transport::new();
    let (server, name) = IpcOneShotServer::<String>::new(&mut t).unwrap();
    let tx = IpcSender::<String>::connect(&mut t, name.clone()).unwrap();
    tx.send(&mut t, "ping".to_owned()).unwrap();
    let (rx, first) = server.accept(&mut t).unwrap();
    assert_eq!(first, "ping");
    tx.send(&mut t, "pong".to_owned()).unwrap();
    assert_eq!(rx.recv(&mut t).unwrap(), "pong");
    assert_eq!(
        IpcSender::<String>::connect(&mut t, name).err(),
        Some(IpcError::InvalidName)
    );
}

#[test]
fn connect_to_unknown_name_fails() {
    let mut t = Transport::new();
    let (_server, _name) = IpcOneShotServer::<String>::new(&mut t).unwrap();
    assert_eq!(
        IpcSender::<String>::connect(&mut t, "not a name".to_owned()).err(),
        Some(IpcError::InvalidName)
    );
    assert_eq!(
        IpcSender::<String>::connect(&mut t, "7".to_owned()).err(),
        Some(IpcError::InvalidName)
    );
}

#[test]
fn connect_accepts_signed_decimal_name() {
    let mut t = Transport::new();
    let (server, name) = IpcOneShotServer::<u64>::new(&mut t).unwrap();
    assert_eq!(name, "0");
    let tx = IpcSender::<u64>::connect(&mut t, "+0".to_owned()).unwrap();
    tx.send(&mut t, 9).unwrap();
    let (_rx, first) = server.accept(&mut t).unwrap();
    assert_eq!(first, 9);
}

#[test]
fn accept_before_connect_would_block() {
    let mut t = Transport::new();
    let (server, _name) = IpcOneShotServer::<String>::new(&mut t).unwrap();
    assert_eq!(server.accept(&mut t).err(), Some(IpcError::WouldBlock));
}

#[test]
fn receiver_set_reports_only_the_middle_receiver() {
    let mut t = Transport::new();
    let (_tx0, rx0) = channel::<String>(&mut t).unwrap();
    let (tx1, rx1) = channel::<String>(&mut t).unwrap();
    let (_tx2, rx2) = channel::<String>(&mut t).unwrap();
    let mut set = IpcReceiverSet::new().unwrap();
    let id0 = set.add(rx0).unwrap();
    let id1 = set.add(rx1).unwrap();
    let id2 = set.add(rx2).unwrap();
    assert!(id0 != id1 && id1 != id2 && id0 != id2);
    tx1.send(&mut t, "middle".to_owned()).unwrap();
    let results = set.select(&mut t).unwrap();
    assert_eq!(results.len(), 1);
    let mut results = results;
    let (id, message) = results.remove(0).unwrap();
    assert_eq!(id, id1);
    assert_eq!(message.to::<String>().unwrap(), "middle");
}

#[test]
fn receiver_set_reports_closed_channel_once() {
    let mut t = Transport::new();
    let (tx, rx) = channel::<u64>(&mut t).unwrap();
    let mut set = IpcReceiverSet::new().unwrap();
    let id = set.add_opaque(rx.to_opaque()).unwrap();
    tx.send(&mut t, 5).unwrap();
    tx.close(&mut t);
    let mut first = set.select(&mut t).unwrap();
    assert_eq!(first.len(), 1);
    let (got, message) = first.remove(0).unwrap();
    assert_eq!(got, id);
    assert_eq!(message.to::<u64>().unwrap(), 5);
    let second = set.select(&mut t).unwrap();
    assert_eq!(second.len(), 1);
    assert!(matches!(second[0], IpcSelectionResult::ChannelClosed(c) if c == id));
    assert_eq!(set.select(&mut t).err(), Some(IpcError::WouldBlock));
}

#[test]
fn receiver_set_with_nothing_ready_would_block() {
    let mut t = Transport::new();
    let (_tx, rx) = channel::<u64>(&mut t).unwrap();
    let mut set = IpcReceiverSet::new().unwrap();
    set.add(rx).unwrap();
    assert_eq!(set.select(&mut t).err(), Some(IpcError::WouldBlock));
}

#[test]
fn shared_memory_survives_transfer() {
    let mut t = Transport::new();
    let original = IpcSharedMemory::from_byte(0xAB, 1024);
    let (tx, rx) = channel::<IpcSharedMemory>(&mut t).unwrap();
    tx.send(&mut t, original.clone()).unwrap();
    let received = rx.recv(&mut t).unwrap();
    assert_eq!(received.len(), 1024);
    assert!(received.as_slice().iter().all(|b| *b == 0xAB));
    assert!(received == original);
}

#[test]
fn shared_memory_from_bytes_and_equality() {
    let a = IpcSharedMemory::from_bytes(&[1, 2, 3]);
    let b = IpcSharedMemory::from_bytes(&[1, 2, 3]);
    let c = IpcSharedMemory::from_bytes(&[1, 2, 4]);
    let d = IpcSharedMemory::from_byte(1, 0);
    assert_eq!(a.as_slice(), &[1, 2, 3]);
    assert!(a == b);
    assert!(a != c);
    assert_eq!(d.len(), 0);
    assert!(d != a);
}

#[test]
fn messages_arrive_in_order() {
    let mut t = Transport::new();
    let (tx, rx) = channel::<u64>(&mut t).unwrap();
    for i in 0..10u64 {
        tx.send(&mut t, i * 3).unwrap();
    }
    for i in 0..10u64 {
        assert_eq!(rx.recv(&mut t).unwrap(), i * 3);
    }
}

#[test]
fn try_recv_on_empty_channel_would_block_and_loses_nothing() {
    let mut t = Transport::new();
    let (tx, rx) = channel::<String>(&mut t).unwrap();
    assert_eq!(rx.try_recv(&mut t).err(), Some(IpcError::WouldBlock));
    tx.send(&mut t, "later".to_owned()).unwrap();
    assert_eq!(rx.try_recv(&mut t).unwrap(), "later");
    assert_eq!(rx.try_recv(&mut t).err(), Some(IpcError::WouldBlock));
}

#[test]
fn closing_all_senders_drains_then_reports_peer_closed() {
    let mut t = Transport::new();
    let (tx, rx) = channel::<u64>(&mut t).unwrap();
    let tx2 = tx.try_clone(&mut t).unwrap();
    tx.send(&mut t, 1).unwrap();
    tx2.send(&mut t, 2).unwrap();
    tx.close(&mut t);
    assert_eq!(rx.recv(&mut t).unwrap(), 1);
    tx2.close(&mut t);
    assert_eq!(rx.recv(&mut t).unwrap(), 2);
    assert_eq!(rx.recv(&mut t).err(), Some(IpcError::PeerClosed));
}

#[test]
fn send_to_closed_receiver_fails_and_closes_carried_endpoints() {
    let mut t = Transport::new();
    let (a, b) = channel::<IpcSender<u64>>(&mut t).unwrap();
    let (c, d) = channel::<u64>(&mut t).unwrap();
    b.close(&mut t);
    assert_eq!(a.send(&mut t, c), Err(IpcError::PeerClosed));
    // The sender that the failed message carried was closed with it.
    assert_eq!(d.recv(&mut t).err(), Some(IpcError::PeerClosed));
}

#[test]
fn failed_send_closes_carried_receiver() {
    let mut t = Transport::new();
    let (a, b) = channel::<IpcReceiver<u64>>(&mut t).unwrap();
    let (c, d) = channel::<u64>(&mut t).unwrap();
    b.close(&mut t);
    assert_eq!(a.send(&mut t, d), Err(IpcError::PeerClosed));
    assert_eq!(c.send(&mut t, 3), Err(IpcError::PeerClosed));
}

#[test]
fn bytes_endpoints_travel_in_typed_messages() {
    let mut t = Transport::new();
    let (a, b) = channel::<IpcBytesReceiver>(&mut t).unwrap();
    let (tx, rx) = bytes_channel(&mut t).unwrap();
    a.send(&mut t, rx).unwrap();
    let rx2 = b.recv(&mut t).unwrap();
    tx.send(&mut t, &[7, 8, 9]).unwrap();
    assert_eq!(rx2.recv(&mut t).unwrap(), vec![7, 8, 9]);
}

#[test]
fn opaque_sender_keeps_its_channel() {
    let mut t = Transport::new();
    let (tx, rx) = channel::<u64>(&mut t).unwrap();
    let typed: IpcSender<u64> = tx.to_opaque().to();
    typed.send(&mut t, 11).unwrap();
    assert_eq!(rx.recv(&mut t).unwrap(), 11);
}

#[test]
fn u64_payload_is_little_endian() {
    let message = OpaqueIpcMessage::new(vec![8, 7, 6, 5, 4, 3, 2, 1], vec![], vec![]);
    assert_eq!(message.to::<u64>().unwrap(), 0x0102030405060708);
}

fn prefixed(bytes: &[u8]) -> Vec<u8> {
    let mut v = (bytes.len() as u64).to_le_bytes().to_vec();
    v.extend_from_slice(bytes);
    v
}

#[test]
fn invalid_utf8_payload_is_a_decode_error() {
    let message = OpaqueIpcMessage::new(prefixed(&[0xff, 0xfe]), vec![], vec![]);
    assert_eq!(message.to::<String>().err(), Some(IpcError::Decode));
    let message = OpaqueIpcMessage::new(prefixed("h\u{e9}llo".as_bytes()), vec![], vec![]);
    assert_eq!(message.to::<String>().unwrap(), "h\u{e9}llo");
}

#[test]
fn truncated_payload_is_a_decode_error() {
    let message = OpaqueIpcMessage::new(vec![1, 2, 3, 4, 5, 6, 7], vec![], vec![]);
    assert_eq!(message.to::<u64>().err(), Some(IpcError::Decode));
    let mut short = prefixed(b"abc");
    short.pop();
    let message = OpaqueIpcMessage::new(short, vec![], vec![]);
    assert_eq!(message.to::<Vec<u8>>().err(), Some(IpcError::Decode));
}

#[test]
fn out_of_range_index_is_an_error() {
    let payload = 1u64.to_le_bytes().to_vec();
    let message = OpaqueIpcMessage::new(payload.clone(), vec![OsOpaqueIpcChannel { id: 0 }], vec![]);
    assert_eq!(message.to::<IpcSender<u64>>().err(), Some(IpcError::IndexOutOfRange));
    let message = OpaqueIpcMessage::new(payload, vec![], vec![]);
    assert_eq!(message.to::<IpcSharedMemory>().err(), Some(IpcError::IndexOutOfRange));
}

#[test]
fn side_band_entry_is_taken_once() {
    let mut payload = 0u64.to_le_bytes().to_vec();
    payload.extend_from_slice(&0u64.to_le_bytes());
    let message = OpaqueIpcMessage::new(payload, vec![OsOpaqueIpcChannel { id: 3 }], vec![]);
    assert_eq!(
        message.to::<(IpcSender<u64>, IpcSender<u64>)>().err(),
        Some(IpcError::IndexOutOfRange)
    );
}

#[test]
fn index_names_the_side_band_entry() {
    let payload = 1u64.to_le_bytes().to_vec();
    let message = OpaqueIpcMessage::new(
        payload,
        vec![OsOpaqueIpcChannel { id: 4 }, OsOpaqueIpcChannel { id: 9 }],
        vec![],
    );
    let sender = message.to::<IpcSender<u64>>().unwrap();
    assert_eq!(sender.os_sender.id, 9);
}

#[test]
fn pair_indices_follow_encoding_order() {
    let mut payload = 1u64.to_le_bytes().to_vec();
    payload.extend_from_slice(&0u64.to_le_bytes());
    let message = OpaqueIpcMessage::new(
        payload,
        vec![OsOpaqueIpcChannel { id: 4 }, OsOpaqueIpcChannel { id: 9 }],
        vec![],
    );
    let (first, second) = message.to::<(IpcSender<u64>, IpcSender<u64>)>().unwrap();
    assert_eq!(first.os_sender.id, 9);
    assert_eq!(second.os_sender.id, 4);
}

#[test]
fn nested_value_with_endpoints_and_memory_round_trips() {
    let mut t = Transport::new();
    type Bundle = ((IpcSender<u64>, String), (IpcSharedMemory, IpcReceiver<String>));
    let (a, b) = channel::<Bundle>(&mut t).unwrap();
    let (c, d) = channel::<u64>(&mut t).unwrap();
    let (e, f) = channel::<String>(&mut t).unwrap();
    let region = IpcSharedMemory::from_bytes(&[5, 6, 7]);
    a.send(&mut t, ((c, "label".to_owned()), (region.clone(), f))).unwrap();
    let ((c2, label), (region2, f2)) = b.recv(&mut t).unwrap();
    assert_eq!(label, "label");
    assert!(region2 == region);
    c2.send(&mut t, 77).unwrap();
    assert_eq!(d.recv(&mut t).unwrap(), 77);
    e.send(&mut t, "through".to_owned()).unwrap();
    assert_eq!(f2.recv(&mut t).unwrap(), "through");
}

#[test]
fn byte_vector_values_round_trip() {
    let mut t = Transport::new();
    let (tx, rx) = channel::<(Vec<u8>, Vec<u8>)>(&mut t).unwrap();
    tx.send(&mut t, (vec![], vec![1, 2, 3])).unwrap();
    assert_eq!(rx.recv(&mut t).unwrap(), (vec![], vec![1, 2, 3]));
}

#[test]
fn unknown_endpoint_is_reported() {
    let mut t = Transport::new();
    let mut other = Transport::new();
    let (tx, rx) = channel::<u64>(&mut other).unwrap();
    assert_eq!(tx.send(&mut t, 1), Err(IpcError::UnknownChannel));
    assert_eq!(rx.recv(&mut t).err(), Some(IpcError::UnknownChannel));
}

#[test]
fn poll_walks_the_sequence_to_its_end() {
    let mut t = Transport::new();
    let (tx, rx) = channel::<u64>(&mut t).unwrap();
    assert_eq!(rx.poll(&mut t).unwrap(), Async::NotReady);
    tx.send(&mut t, 4).unwrap();
    tx.send(&mut t, 5).unwrap();
    tx.close(&mut t);
    assert_eq!(rx.poll(&mut t).unwrap(), Async::Ready(4));
    assert_eq!(rx.poll(&mut t).unwrap(), Async::Ready(5));
    assert_eq!(rx.poll(&mut t).unwrap(), Async::Done);
}

#[test]
fn poll_passes_on_decode_errors() {
    let mut t = Transport::new();
    let (tx, rx) = bytes_channel(&mut t).unwrap();
    let typed: IpcReceiver<String> = IpcReceiver {
        os_receiver: rx.os_receiver,
        phantom: std::marker::PhantomData,
    };
    tx.send(&mut t, &[1, 0, 0, 0, 0, 0, 0, 0, 0xff]).unwrap();
    assert_eq!(typed.poll(&mut t).err(), Some(IpcError::Decode));
}

#[test]
fn bytes_sender_clones_share_the_channel() {
    let mut t = Transport::new();
    let (tx, rx) = bytes_channel(&mut t).unwrap();
    let tx2 = tx.try_clone(&mut t).unwrap();
    tx.close(&mut t);
    tx2.send(&mut t, b"still open").unwrap();
    assert_eq!(rx.recv(&mut t).unwrap(), b"still open".to_vec());
    tx2.close(&mut t);
    assert_eq!(rx.recv(&mut t).err(), Some(IpcError::PeerClosed));
}

#[test]
fn closed_bytes_receiver_refuses_sends() {
    let mut t = Transport::new();
    let (tx, rx) = bytes_channel(&mut t).unwrap();
    rx.close(&mut t);
    assert_eq!(tx.send(&mut t, &[1]), Err(IpcError::PeerClosed));
}

#[test]
fn incrementor_counts_from_one() {
    let mut i = Incrementor::new();
    assert_eq!(i.increment(), 1);
    assert_eq!(i.increment(), 2);
    assert_eq!(i.last_value, 2);
}

#[test]
fn payloads_read_what_bincode_writes() {
    let bytes = bincode::serialize(&(7u64, "hi".to_owned())).unwrap();
    let message = OpaqueIpcMessage::new(bytes, vec![], vec![]);
    assert_eq!(message.to::<(u64, String)>().unwrap(), (7, "hi".to_owned()));
    let bytes = bincode::serialize(&vec![1u8, 2, 3]).unwrap();
    let message = OpaqueIpcMessage::new(bytes, vec![], vec![]);
    assert_eq!(message.to::<Vec<u8>>().unwrap(), vec![1, 2, 3]);
}

#[test]
fn endpoint_index_reads_like_a_bincode_index() {
    let bytes = bincode::serialize(&(1usize, 0usize)).unwrap();
    let message = OpaqueIpcMessage::new(
        bytes,
        vec![OsOpaqueIpcChannel { id: 2 }, OsOpaqueIpcChannel { id: 5 }],
        vec![],
    );
    let (a, b) = message.to::<(IpcSender<u64>, IpcReceiver<u64>)>().unwrap();
    assert_eq!(a.os_sender.id, 5);
    assert_eq!(b.os_receiver.id, 2);
}
