use qduct::session::{next_action, SessionAction, SessionEvent};
use qduct::tunnel::forward::{RunningTunnel, TaskEnd, TunnelEvent, BUF_SIZE};
use qduct::tunnel::keypair::KeyPair;
use qduct::tunnel::queue::DESTINATION_QUEUE;
use qduct::tunnel::{CertificateDer, Client, Server, SocketAddr, TunnelError, UdpTunnel};
use qduct::CommonArgs;

const COMMON: CommonArgs = CommonArgs { trust: true };

fn local(port: u16) -> SocketAddr {
    SocketAddr::V4 {
        ipv4: 0x7f00_0001,
        port,
    }
}

fn keypair() -> KeyPair {
    KeyPair {
        certificate: CertificateDer { der: Vec::new() },
        private_key: Vec::new(),
    }
}

/// One end of a tunnel without sockets: what it sent is kept.
struct End {
    tunnel: RunningTunnel,
    sent: Vec<(Vec<u8>, SocketAddr)>,
}

impl End {
    fn start(tunnel: UdpTunnel) -> End {
        End {
            tunnel: tunnel.run(),
            sent: Vec::new(),
        }
    }

    fn receive(&mut self, source: SocketAddr, data: &[u8]) {
        self.tunnel.on_datagram(source, data.to_vec()).unwrap();
    }

    fn read(&mut self, data: Vec<u8>) {
        self.tunnel.take_destinations();
        if let Some(delivery) = self.tunnel.on_stream(data) {
            self.sent.push((delivery.data, delivery.destination));
        }
    }

    fn write_to(&mut self, other: &mut End) {
        while let Some(data) = self.tunnel.next_datagram().unwrap() {
            other.read(data);
        }
    }
}

const SERVER_SIDE: u16 = 1;
const CLIENT_SIDE: u16 = 2;

fn setup_client_and_server() -> (End, End) {
    let server = Server::with_keypair(local(0), local(SERVER_SIDE), COMMON, keypair());
    let client = Client::with_keypair(local(0), COMMON, keypair());
    let client_end = End::start(client.connect(local(3)).tunnel);
    let server_end = End::start(server.accept());
    (client_end, server_end)
}

#[test]
fn client_to_server_test() {
    let (mut client, mut server) = setup_client_and_server();
    client.receive(local(CLIENT_SIDE), "Hello server!".as_bytes());
    client.write_to(&mut server);
    let mut buf = [0; 1024];
    let (data, destination) = &server.sent[0];
    let len = data.len();
    buf[..len].copy_from_slice(data);
    assert_eq!(&buf[..len], "Hello server!".as_bytes());
    assert_eq!(*destination, local(SERVER_SIDE));
}

#[test]
fn server_to_client_test() {
    let (mut client, mut server) = setup_client_and_server();
    // Need an initial message for the client to learn the sender's address
    client.receive(local(CLIENT_SIDE), "Initial message".as_bytes());
    client.write_to(&mut server);
    server.receive(local(SERVER_SIDE), "Hello client!".as_bytes());
    server.write_to(&mut client);
    let mut buf = [0; 1024];
    let (data, destination) = &client.sent[0];
    let len = data.len();
    buf[..len].copy_from_slice(data);
    assert_eq!(&buf[..len], "Hello client!".as_bytes());
    assert_eq!(*destination, local(CLIENT_SIDE));
}

#[test]
fn a_client_drops_what_comes_before_its_first_datagram() {
    let (mut client, mut server) = setup_client_and_server();
    server.receive(local(SERVER_SIDE), b"too early");
    server.write_to(&mut client);
    assert!(client.sent.is_empty());
    client.receive(local(CLIENT_SIDE), b"here I am");
    server.receive(local(SERVER_SIDE), b"in time");
    server.write_to(&mut client);
    assert_eq!(client.sent, vec![(b"in time".to_vec(), local(CLIENT_SIDE))]);
}

#[test]
fn answers_follow_whoever_wrote_last() {
    let (mut client, mut server) = setup_client_and_server();
    for port in [20, 21, 20] {
        client.receive(local(port), b"ping");
            server.receive(local(SERVER_SIDE), b"pong");
        server.write_to(&mut client);
    }
    let ports: Vec<SocketAddr> = client.sent.iter().map(|(_, to)| *to).collect();
    assert_eq!(ports, vec![local(20), local(21), local(20)]);
}

#[test]
fn a_local_sender_replaces_the_preset_destination() {
    let (_, mut server) = setup_client_and_server();
    server.receive(local(30), b"from elsewhere");
    server.read(b"data".to_vec());
    assert_eq!(server.sent, vec![(b"data".to_vec(), local(30))]);
}

#[test]
fn datagrams_keep_their_order() {
    let (mut client, mut server) = setup_client_and_server();
    for byte in 0..50u8 {
        client.receive(local(CLIENT_SIDE), &[byte, byte + 1]);
    }
    client.write_to(&mut server);
    let expected: Vec<(Vec<u8>, SocketAddr)> = (0..50u8)
        .map(|byte| (vec![byte, byte + 1], local(SERVER_SIDE)))
        .collect();
    assert_eq!(server.sent, expected);
}

#[test]
fn a_refused_announcement_is_not_repeated() {
    let (mut client, _) = setup_client_and_server();
    for port in 0..20 {
        client.receive(local(port), b"ping");
    }
    client.receive(local(19), b"ping");
    assert_eq!(client.tunnel.waiting(), 21);
    client.read(b"pong".to_vec());
    client.receive(local(19), b"ping");
    client.read(b"pong".to_vec());
    client.receive(local(20), b"ping");
    client.read(b"pong".to_vec());
    let destinations: Vec<SocketAddr> = client.sent.iter().map(|(_, to)| *to).collect();
    assert_eq!(destinations, vec![local(9), local(9), local(20)]);
}

#[test]
fn a_preset_destination_takes_room() {
    let (_, mut server) = setup_client_and_server();
    for port in 10..30 {
        server.receive(local(port), b"ping");
    }
    server.read(b"pong".to_vec());
    assert_eq!(server.sent, vec![(b"pong".to_vec(), local(18))]);
}

#[test]
fn a_sender_is_announced_only_when_it_changes() {
    let (mut client, _) = setup_client_and_server();
    for _ in 0..30 {
        client.receive(local(1), b"ping");
    }
    for port in 2..11 {
        client.receive(local(port), b"ping");
    }
    client.read(b"pong".to_vec());
    assert_eq!(client.sent, vec![(b"pong".to_vec(), local(10))]);
}

#[test]
fn senders_differ_in_any_part_of_their_address() {
    let (mut client, _) = setup_client_and_server();
    let source = |flowinfo: u32, scope_id: u32| SocketAddr::V6 {
        ipv6: 1,
        port: 5,
        flowinfo,
        scope_id,
    };
    for (flowinfo, scope_id) in [(0, 0), (1, 0), (1, 1)] {
        client.receive(source(flowinfo, scope_id), &[7]);
        client.read(vec![8]);
        assert_eq!(
            client.sent.last(),
            Some(&(vec![8], source(flowinfo, scope_id)))
        );
    }
}

#[test]
fn a_destination_counts_once_it_is_taken() {
    let (mut client, _) = setup_client_and_server();
    client.receive(local(CLIENT_SIDE), b"ping");
    assert!(client.tunnel.on_stream(vec![1]).is_none());
    client.tunnel.take_destinations();
    assert!(client.tunnel.on_stream(vec![1]).is_some());
}

#[test]
fn datagrams_wait_until_they_are_written() {
    let (mut client, _) = setup_client_and_server();
    assert!(client.tunnel.next_datagram().unwrap().is_none());
    client.receive(local(CLIENT_SIDE), b"one");
    client.receive(local(CLIENT_SIDE), b"");
    assert_eq!(client.tunnel.waiting(), 2);
    assert_eq!(client.tunnel.next_datagram().unwrap().unwrap(), b"one");
    assert_eq!(client.tunnel.next_datagram().unwrap().unwrap(), b"");
    assert_eq!(client.tunnel.waiting(), 0);
    assert!(client.tunnel.next_datagram().unwrap().is_none());
}

#[test]
fn no_destination_is_left_once_receiving_ended() {
    let (_, mut server) = setup_client_and_server();
    server.read(vec![1]);
    assert_eq!(server.sent.len(), 1);
    server.tunnel.receiving_ended();
    server.read(vec![2]);
    assert_eq!(server.sent.len(), 1);
}

#[test]
fn what_was_received_is_still_written_once_receiving_ended() {
    let (mut client, _) = setup_client_and_server();
    client.receive(local(CLIENT_SIDE), b"last");
    client.tunnel.receiving_ended();
    assert_eq!(client.tunnel.next_datagram().unwrap().unwrap(), b"last");
    assert!(matches!(
        client.tunnel.next_datagram(),
        Err(TunnelError::ChannelClosed)
    ));
}

#[test]
fn nothing_is_received_once_sending_ended() {
    let (mut client, _) = setup_client_and_server();
    client.tunnel.sending_ended();
    assert!(matches!(
        client.tunnel.on_datagram(local(CLIENT_SIDE), vec![1]),
        Err(TunnelError::ChannelClosed)
    ));
    assert_eq!(client.tunnel.waiting(), 0);
    client.read(vec![2]);
    assert_eq!(client.sent, vec![(vec![2], local(CLIENT_SIDE))]);
}

#[test]
fn a_closed_queue_is_named() {
    let (mut client, _) = setup_client_and_server();
    client.tunnel.receiving_ended();
    let error = client.tunnel.next_datagram().unwrap_err();
    assert_eq!(error.message(), Some("channel closed".to_string()));
}

#[test]
fn the_server_keeps_its_preset_destination_after_an_answer() {
    let (mut client, mut server) = setup_client_and_server();
    client.receive(local(CLIENT_SIDE), b"first");
    client.write_to(&mut server);
    server.receive(local(SERVER_SIDE), b"answer");
    server.write_to(&mut client);
    client.receive(local(CLIENT_SIDE), b"second");
    client.write_to(&mut server);
    assert_eq!(
        server.sent,
        vec![
            (b"first".to_vec(), local(SERVER_SIDE)),
            (b"second".to_vec(), local(SERVER_SIDE))
        ]
    );
}

#[test]
fn the_longest_datagram_passes() {
    let (mut client, mut server) = setup_client_and_server();
    client.receive(local(CLIENT_SIDE), &[3; BUF_SIZE]);
    client.write_to(&mut server);
    assert_eq!(
        server.sent,
        vec![(vec![3; BUF_SIZE], local(SERVER_SIDE))]
    );
}

#[test]
fn limits() {
    assert_eq!(BUF_SIZE, 1500);
    assert_eq!(DESTINATION_QUEUE, 10);
}

#[test]
fn a_shut_down_tunnel_ends_well_and_aborts_its_tasks() {
    let exit = UdpTunnel::finish::<String>(TunnelEvent::Shutdown);
    assert!(exit.abort_tasks);
    assert_eq!(exit.result, Ok(()));
}

#[test]
fn a_tunnel_reports_what_ended_its_task() {
    let exit = UdpTunnel::finish(TunnelEvent::UdpReceive(TaskEnd::Failed("socket")));
    assert!(!exit.abort_tasks);
    assert_eq!(exit.result, Err("socket"));
    let exit = UdpTunnel::finish(TunnelEvent::QuicSend(TaskEnd::Lost("panic")));
    assert!(!exit.abort_tasks);
    assert_eq!(exit.result, Err("panic"));
    let exit = UdpTunnel::finish::<String>(TunnelEvent::QuicReceive(TaskEnd::Returned));
    assert!(!exit.abort_tasks);
    assert_eq!(exit.result, Ok(()));
}

#[test]
fn a_session_goes_on_after_a_tunnel() {
    assert!(matches!(
        next_action::<u8, String>(SessionEvent::Ready),
        SessionAction::Connect
    ));
    assert!(matches!(
        next_action::<u8, String>(SessionEvent::Connected(7)),
        SessionAction::RunTunnel(7)
    ));
    assert!(matches!(
        next_action::<u8, String>(SessionEvent::TunnelEnded(Ok(()))),
        SessionAction::Connect
    ));
    assert!(matches!(
        next_action::<u8, &str>(SessionEvent::TunnelEnded(Err("lost"))),
        SessionAction::Connect
    ));
}

#[test]
fn a_session_ends_on_request_or_without_a_connection() {
    assert!(matches!(
        next_action::<u8, String>(SessionEvent::Interrupted),
        SessionAction::ShutDown
    ));
    assert!(matches!(
        next_action::<u8, &str>(SessionEvent::NotConnected("no route")),
        SessionAction::Fail("no route")
    ));
}
