use futures::sync::mpsc;
use futures::Stream;

use line_relay::buffer::{Buffer, SinkAdmission};
use line_relay::clients::{attach_upstream, Client, ConnectedClients, UPSTREAM_ID};
use line_relay::line_codec::{decode_frame, encode_line, Frame};
use line_relay::link::{on_link_event, LinkAction, LinkEvent};

fn client_and_inbox() -> (Client, mpsc::Receiver<String>) {
    let (tx, rx) = mpsc::channel(4);
    (Client::new(tx), rx)
}

fn first_line(rx: mpsc::Receiver<String>) -> Option<String> {
    rx.wait().next().map(|r| r.unwrap())
}

#[test]
fn registry_starts_empty() {
    let mut clients = ConnectedClients::new();
    assert!(clients.remove(&7).is_none());
    assert!(clients.broadcast(&"x".to_string()).is_empty());
}

#[test]
fn remove_after_insert_gives_the_client_back() {
    let mut clients = ConnectedClients::new();
    let (c, _rx) = client_and_inbox();
    clients.insert(3, c);
    assert!(clients.remove(&3).is_some());
    assert!(clients.remove(&3).is_none());
    assert!(clients.broadcast(&"x".to_string()).is_empty());
}

#[test]
fn insert_replaces_a_client_with_the_same_id() {
    let mut clients = ConnectedClients::new();
    let (first, first_rx) = client_and_inbox();
    let (second, second_rx) = client_and_inbox();
    clients.insert(5, first);
    clients.insert(5, second);
    let ds = clients.broadcast(&"only the newest".to_string());
    assert_eq!(ds.len(), 1);
    for d in ds {
        d.tx.clone().try_send(d.line).unwrap();
    }
    drop(clients);
    assert_eq!(first_line(second_rx), Some("only the newest".to_string()));
    assert_eq!(first_line(first_rx), None);
}

#[test]
fn broadcast_reaches_every_client_once() {
    let mut clients = ConnectedClients::new();
    let (a, rx_a) = client_and_inbox();
    let (b, rx_b) = client_and_inbox();
    let (c, rx_c) = client_and_inbox();
    clients.insert(1, a);
    clients.insert(2, b);
    clients.insert(9, c);
    let ds = clients.broadcast(&"hello".to_string());
    let mut ids: Vec<u32> = ds.iter().map(|d| d.client).collect();
    ids.sort();
    assert_eq!(ids, vec![1, 2, 9]);
    for d in ds {
        assert_eq!(d.line, "hello");
        d.tx.clone().try_send(d.line).unwrap();
    }
    drop(clients);
    assert_eq!(first_line(rx_a), Some("hello".to_string()));
    assert_eq!(first_line(rx_b), Some("hello".to_string()));
    assert_eq!(first_line(rx_c), Some("hello".to_string()));
}

#[test]
fn upstream_is_registered_under_its_id_and_replaced() {
    let mut clients = ConnectedClients::new();
    let (other, _rx_other) = client_and_inbox();
    clients.insert(4, other);
    let old_rx = attach_upstream(&mut clients);
    let new_rx = attach_upstream(&mut clients);
    let ds = clients.broadcast(&"up".to_string());
    let mut ids: Vec<u32> = ds.iter().map(|d| d.client).collect();
    ids.sort();
    assert_eq!(ids, vec![UPSTREAM_ID, 4]);
    for d in ds {
        if d.client == UPSTREAM_ID {
            d.tx.clone().try_send(d.line).unwrap();
        }
    }
    assert!(clients.remove(&UPSTREAM_ID).is_some());
    drop(clients);
    assert_eq!(first_line(new_rx), Some("up".to_string()));
    assert_eq!(first_line(old_rx), None);
}

#[test]
fn upstream_channel_holds_eight_lines() {
    let mut clients = ConnectedClients::new();
    let _rx = attach_upstream(&mut clients);
    let mut ds = clients.broadcast(&"l".to_string());
    let d = ds.pop().unwrap();
    let mut tx = d.tx.clone();
    let mut taken = 0;
    while tx.try_send("l".to_string()).is_ok() {
        taken += 1;
        assert!(taken < 100);
    }
    // the buffer, plus the one guaranteed slot of this sending handle
    assert_eq!(taken, 9);
    drop(ds);
}

#[test]
fn encode_appends_bytes_and_newline() {
    let mut buf = b"ab".to_vec();
    encode_line("héllo".to_string(), &mut buf);
    assert_eq!(buf, "abhéllo\n".as_bytes().to_vec());
    let mut empty = Vec::new();
    encode_line(String::new(), &mut empty);
    assert_eq!(empty, b"\n".to_vec());
}

#[test]
fn decode_finds_the_first_line() {
    match decode_frame(b"hello\nworld\n") {
        Frame::Line { consumed, text } => {
            assert_eq!(consumed, 6);
            assert_eq!(text, "hello");
        }
        _ => panic!("expected a line"),
    }
}

#[test]
fn decode_waits_for_a_newline() {
    assert!(matches!(decode_frame(b"partial"), Frame::Incomplete));
    assert!(matches!(decode_frame(b""), Frame::Incomplete));
}

#[test]
fn decode_reads_an_empty_line() {
    assert!(matches!(decode_frame(b"\nx"), Frame::Line { consumed: 1, ref text } if text.is_empty()));
}

#[test]
fn decode_rejects_bytes_that_are_not_utf8() {
    assert!(matches!(decode_frame(&[0x61, 0xff, b'\n', 0x62]), Frame::Invalid { consumed: 3 }));
}

#[test]
fn written_line_is_read_back() {
    let mut buf = Vec::new();
    encode_line("ünïcode line".to_string(), &mut buf);
    let len = buf.len();
    buf.extend_from_slice(b"next");
    match decode_frame(&buf) {
        Frame::Line { consumed, text } => {
            assert_eq!(consumed, len);
            assert_eq!(text, "ünïcode line");
            assert_eq!(&buf[consumed..], b"next");
        }
        _ => panic!("expected a line"),
    }
}

#[test]
fn text_with_a_newline_comes_back_split() {
    let mut buf = Vec::new();
    encode_line("a\nb".to_string(), &mut buf);
    match decode_frame(&buf) {
        Frame::Line { consumed, text } => {
            assert_eq!(consumed, 2);
            assert_eq!(text, "a");
        }
        _ => panic!("expected a line"),
    }
}

#[test]
fn buffer_holds_lines_until_ready() {
    let mut buffer = Buffer { remote_server_is_ready: false, remote_tx: None };
    let step = buffer.start_send("prova".to_string());
    assert_eq!(step.note, "not ready");
    match step.admission {
        SinkAdmission::NotReady(back) => assert_eq!(back, "prova"),
        SinkAdmission::Ready => panic!("taken too early"),
    }
    assert!(!buffer.remote_server_is_ready);
    buffer.ready();
    let step = buffer.start_send("prova".to_string());
    assert_eq!(step.note, "prova");
    assert!(matches!(step.admission, SinkAdmission::Ready));
    buffer.ready();
    assert!(buffer.remote_server_is_ready);
}

#[test]
fn clone_of_buffer_is_not_made_ready() {
    let mut buffer = Buffer { remote_server_is_ready: false, remote_tx: None };
    let mut copy = buffer.clone();
    buffer.ready();
    assert!(matches!(copy.start_send("x".to_string()).admission, SinkAdmission::NotReady(_)));
}

#[test]
fn poll_complete_reports_completion() {
    let mut buffer = Buffer { remote_server_is_ready: false, remote_tx: None };
    assert_eq!(buffer.poll_complete(), "complete");
    assert!(!buffer.remote_server_is_ready);
}

#[test]
fn link_events_lead_to_their_actions() {
    let mut clients = ConnectedClients::new();
    let rx = match on_link_event(&mut clients, LinkEvent::Opened) {
        LinkAction::Forward(rx) => rx,
        _ => panic!("expected the channel to forward"),
    };
    match on_link_event(&mut clients, LinkEvent::Received("from upstream".to_string())) {
        LinkAction::Report(note) => assert_eq!(note, "from upstream"),
        _ => panic!("expected a report"),
    }
    match on_link_event(&mut clients, LinkEvent::Closed) {
        LinkAction::ReportAndReconnect(note) => assert_eq!(note, "CLIENT DISCONNECTED"),
        _ => panic!("expected a reconnect"),
    }
    match on_link_event(&mut clients, LinkEvent::Refused) {
        LinkAction::ReportAndReconnect(note) => assert_eq!(note, "connection refuse"),
        _ => panic!("expected a reconnect"),
    }
    // a closed link stays registered
    let ds = clients.broadcast(&"still there".to_string());
    assert_eq!(ds.len(), 1);
    for d in ds {
        assert_eq!(d.client, UPSTREAM_ID);
        d.tx.clone().try_send(d.line).unwrap();
    }
    drop(clients);
    assert_eq!(first_line(rx), Some("still there".to_string()));
}

#[test]
fn clone_of_buffer_sends_on_the_same_channel() {
    let (tx, rx) = mpsc::channel(2);
    let buffer = Buffer { remote_server_is_ready: true, remote_tx: Some(tx) };
    let copy = buffer.clone();
    assert!(copy.remote_server_is_ready);
    drop(buffer);
    copy.remote_tx.unwrap().try_send("via copy".to_string()).unwrap();
    assert_eq!(first_line(rx), Some("via copy".to_string()));
}

#[test]
fn clone_of_client_sends_on_the_same_channel() {
    let (client, rx) = client_and_inbox();
    let mut copy = client.clone();
    drop(client);
    copy.tx.try_send("via client copy".to_string()).unwrap();
    drop(copy);
    assert_eq!(first_line(rx), Some("via client copy".to_string()));
}
