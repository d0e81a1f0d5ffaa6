//! The two ends of a tunnel: how they are set up, what they offer each other,
//! and how they are shut down.
use crate::CommonArgs;
use crate::tunnel::address::SocketAddr;
use crate::tunnel::bytewords::CertificateDer;
use crate::tunnel::error::TunnelError;
use crate::tunnel::forward::{TunnelEvent, TunnelState, UdpTunnel};
use crate::tunnel::keypair::{CERT_NAME, KeyPair, new_keypair};
use crate::tunnel::trust::InteractiveCertificateVerifier;
use vstd::prelude::*;

verus! {

/// How many streams the other end can have open at a time.
pub const MAX_STREAMS: u16 = 1024;

/// After how many seconds without traffic a server sends a sign of life.
pub const KEEP_ALIVE_SECS: u64 = 25;

/// After how many seconds without traffic a connection is given up.
pub const IDLE_TIMEOUT_SECS: u64 = 120;

/// How the QUIC connections of one end behave. Times are in seconds.
#[derive(Clone, Copy, Debug, PartialEq, Eq)]
pub struct TransportSettings {
    pub max_concurrent_uni_streams: u16,
    pub keep_alive_interval: Option<u64>,
    pub max_idle_timeout: u64,
}

/// How the connections of a server behave.
pub open spec fn server_transport() -> TransportSettings {
    TransportSettings {
        max_concurrent_uni_streams: MAX_STREAMS,
        keep_alive_interval: Some(KEEP_ALIVE_SECS),
        max_idle_timeout: IDLE_TIMEOUT_SECS,
    }
}

/// How the connections of a client behave.
pub open spec fn client_transport() -> TransportSettings {
    TransportSettings {
        max_concurrent_uni_streams: MAX_STREAMS,
        keep_alive_interval: None,
        max_idle_timeout: IDLE_TIMEOUT_SECS,
    }
}

/// What one end of a tunnel does in every handshake.
pub struct Handshake {
    /// The certificates that it shows, its own first.
    pub chain: Vec<CertificateDer>,
    /// The private key that it signs with, in PKCS#8 form.
    pub private_key: Vec<u8>,
    /// How it judges the certificate of the other end.
    pub verifier: InteractiveCertificateVerifier,
}

impl Handshake {
    /// Whether exactly this certificate is shown, with this key, and the other end
    /// is judged by `verifier`.
    pub open spec fn shows(
        &self,
        certificate: CertificateDer,
        private_key: Seq<u8>,
        verifier: InteractiveCertificateVerifier,
    ) -> bool {
        &&& self.chain@.len() == 1
        &&& self.chain@[0].der@ == certificate.der@
        &&& self.private_key@ == private_key
        &&& self.verifier == verifier
    }

    fn with(
        certificate: &CertificateDer,
        private_key: &Vec<u8>,
        verifier: InteractiveCertificateVerifier,
    ) -> (handshake: Handshake)
        ensures
            handshake.shows(*certificate, private_key@, verifier),
    {
        let der = certificate.der.clone();
        let key = private_key.clone();
        assert(der@ =~= certificate.der@);
        assert(key@ =~= private_key@);
        let mut chain: Vec<CertificateDer> = Vec::new();
        chain.push(CertificateDer { der });
        Handshake { chain, private_key: key, verifier }
    }
}

/// What one end of a tunnel does to shut down, step by step.
#[derive(Debug)]
pub enum ShutdownStep {
    /// The tunnels of this end are told to end.
    CancelTunnels,
    /// The endpoint is closed. The other ends are told the error code and the
    /// reason.
    CloseEndpoint { code: u32, reason: Vec<u8> },
    /// Everything that was sent is waited for.
    WaitIdle,
}

/// A [`ShutdownStep`] with its reason as a sequence.
pub enum ShutdownStepView {
    CancelTunnels,
    CloseEndpoint { code: u32, reason: Seq<u8> },
    WaitIdle,
}

impl View for ShutdownStep {
    type V = ShutdownStepView;

    open spec fn view(&self) -> ShutdownStepView {
        match *self {
            ShutdownStep::CancelTunnels => ShutdownStepView::CancelTunnels,
            ShutdownStep::CloseEndpoint { code, reason } => ShutdownStepView::CloseEndpoint {
                code,
                reason: reason@,
            },
            ShutdownStep::WaitIdle => ShutdownStepView::WaitIdle,
        }
    }
}

/// How either end shuts down: it ends its tunnels, closes its endpoint without an
/// error and without a reason, and waits.
pub open spec fn orderly_shutdown() -> Seq<ShutdownStepView> {
    seq![
        ShutdownStepView::CancelTunnels,
        ShutdownStepView::CloseEndpoint { code: 0, reason: Seq::empty() },
        ShutdownStepView::WaitIdle,
    ]
}

fn shutdown_steps() -> (steps: Vec<ShutdownStep>)
    ensures
        steps@.map_values(|step: ShutdownStep| step@) == orderly_shutdown(),
        steps@.len() == 3,
        steps@[0] is CancelTunnels,
        steps@[1] matches ShutdownStep::CloseEndpoint { code, reason } && code == 0
            && reason@.len() == 0,
        steps@[2] is WaitIdle,
{
    let reason: Vec<u8> = Vec::new();
    let mut steps: Vec<ShutdownStep> = Vec::new();
    steps.push(ShutdownStep::CancelTunnels);
    steps.push(ShutdownStep::CloseEndpoint { code: 0, reason });
    steps.push(ShutdownStep::WaitIdle);
    assert(reason@ =~= Seq::empty());
    assert(steps@.map_values(|step: ShutdownStep| step@) =~= orderly_shutdown());
    steps
}

/// Any address of the kind of `addr`, with any port.
pub open spec fn any_like(addr: SocketAddr) -> SocketAddr {
    match addr {
        SocketAddr::V4 { .. } => SocketAddr::V4 { ipv4: 0, port: 0 },
        SocketAddr::V6 { .. } => SocketAddr::V6 { ipv6: 0, port: 0, flowinfo: 0, scope_id: 0 },
    }
}

/// The end of a tunnel that waits for connections, and forwards to one local
/// address.
pub struct Server {
    /// The address of the QUIC endpoint.
    pub quic_addr: SocketAddr,
    /// The address of the socket from which received data is forwarded.
    pub udp_addr: SocketAddr,
    /// Where received data is forwarded to.
    pub udp_destination: SocketAddr,
    pub certificate: CertificateDer,
    /// The private key of the certificate, in PKCS#8 form.
    pub private_key: Vec<u8>,
    pub transport: TransportSettings,
    pub verifier: InteractiveCertificateVerifier,
}

impl Server {
    /// The address of the socket from which a server forwards to
    /// `udp_destination`: any of the same kind.
    pub fn udp_bind_addr(udp_destination: SocketAddr) -> (addr: SocketAddr)
        ensures
            addr == any_like(udp_destination),
            addr is V6 <==> udp_destination is V6,
            addr is V4 ==> addr == (SocketAddr::V4 { ipv4: 0, port: 0 }),
            addr is V6 ==> addr == (SocketAddr::V6 { ipv6: 0, port: 0, flowinfo: 0, scope_id: 0 }),
    {
        if udp_destination.is_ipv6() {
            SocketAddr::unspecified_v6()
        } else {
            SocketAddr::unspecified_v4()
        }
    }

    /// Whether this is the server that is set up with these arguments.
    pub open spec fn set_up_with(
        &self,
        quic_addr: SocketAddr,
        udp_destination: SocketAddr,
        common: CommonArgs,
    ) -> bool {
        &&& self.quic_addr == quic_addr
        &&& self.udp_addr == any_like(udp_destination)
        &&& self.udp_destination == udp_destination
        &&& self.transport == server_transport()
        &&& self.verifier.trust == common.trust
    }

    /// The server at `quic_addr` that has the certificate of `keypair` and
    /// forwards to `udp_destination`.
    pub fn with_keypair(
        quic_addr: SocketAddr,
        udp_destination: SocketAddr,
        common: CommonArgs,
        keypair: KeyPair,
    ) -> (server: Server)
        ensures
            server.set_up_with(quic_addr, udp_destination, common),
            server.quic_addr == quic_addr,
            server.udp_destination == udp_destination,
            server.udp_addr is V6 <==> udp_destination is V6,
            server.udp_addr is V4 ==> server.udp_addr == (SocketAddr::V4 { ipv4: 0, port: 0 }),
            server.udp_addr is V6 ==> server.udp_addr == (SocketAddr::V6 {
                ipv6: 0,
                port: 0,
                flowinfo: 0,
                scope_id: 0,
            }),
            server.transport.max_concurrent_uni_streams == 1024,
            server.transport.keep_alive_interval == Some(25u64),
            server.transport.max_idle_timeout == 120,
            server.verifier.trust == common.trust,
            server.certificate == keypair.certificate,
            server.private_key == keypair.private_key,
    {
        Server {
            quic_addr,
            udp_addr: Server::udp_bind_addr(udp_destination),
            udp_destination,
            certificate: keypair.certificate,
            private_key: keypair.private_key,
            transport: TransportSettings {
                max_concurrent_uni_streams: MAX_STREAMS,
                keep_alive_interval: Some(KEEP_ALIVE_SECS),
                max_idle_timeout: IDLE_TIMEOUT_SECS,
            },
            verifier: InteractiveCertificateVerifier::new(&common),
        }
    }

    /// The server at `quic_addr` that forwards to `udp_destination`, with a
    /// certificate of its own. There is none only if no key could be made.
    pub fn try_new(
        quic_addr: SocketAddr,
        udp_destination: SocketAddr,
        common: CommonArgs,
    ) -> (result: Result<Server, TunnelError>)
        ensures
            match result {
                Ok(server) => {
                    &&& server.set_up_with(quic_addr, udp_destination, common)
                    &&& crate::tunnel::keypair::self_signed_for(
                        seq![CERT_NAME@],
                        server.certificate.der@,
                        server.private_key@,
                    )
                    &&& crate::tunnel::keypair::self_signed_for(
                        seq!["Qduct"@],
                        server.certificate.der@,
                        server.private_key@,
                    )
                    &&& server.quic_addr == quic_addr
                    &&& server.udp_destination == udp_destination
                    &&& server.udp_addr is V6 <==> udp_destination is V6
                    &&& server.verifier.trust == common.trust
                },
                Err(e) => e is KeyGeneration,
            },
    {
        match new_keypair() {
            Ok(keypair) => Ok(Server::with_keypair(quic_addr, udp_destination, common, keypair)),
            Err(e) => Err(e),
        }
    }

    /// Whether `tunnel` is one over a connection that this server has accepted: it
    /// sends to the server's destination from its start.
    pub open spec fn accepts(&self, tunnel: UdpTunnel) -> bool {
        tunnel.preset_udp_destination == Some(self.udp_destination)
    }

    /// The tunnel over a connection that this server has accepted.
    pub fn accept(&self) -> (tunnel: UdpTunnel)
        ensures
            self.accepts(tunnel),
            tunnel.preset_udp_destination == Some(self.udp_destination),
    {
        UdpTunnel { preset_udp_destination: Some(self.udp_destination) }
    }

    /// What this server does in every handshake: it shows its own certificate, and
    /// nothing else, and signs with the key of that.
    pub fn handshake(&self) -> (handshake: Handshake)
        ensures
            handshake.shows(self.certificate, self.private_key@, self.verifier),
            handshake.chain@.len() == 1,
            handshake.chain@[0].der@ == self.certificate.der@,
            handshake.private_key@ == self.private_key@,
            handshake.verifier.trust == self.verifier.trust,
    {
        Handshake::with(&self.certificate, &self.private_key, self.verifier)
    }

    /// What this server does at its end, in this order.
    pub fn shutdown(self) -> (steps: Vec<ShutdownStep>)
        ensures
            steps@.map_values(|step: ShutdownStep| step@) == orderly_shutdown(),
            steps@.len() == 3,
            steps@[0] is CancelTunnels,
            steps@[1] matches ShutdownStep::CloseEndpoint { code, reason } && code == 0
                && reason@.len() == 0,
            steps@[2] is WaitIdle,
    {
        shutdown_steps()
    }
}

/// What a client asks its endpoint for, and the tunnel over the connection.
#[derive(Debug)]
pub struct Connect {
    pub remote_server: SocketAddr,
    /// The name that the server's certificate has to bear.
    pub server_name: String,
    pub tunnel: UdpTunnel,
}

/// The end of a tunnel that connects to a server.
pub struct Client {
    /// The address on which data to forward is received.
    pub udp_sink: SocketAddr,
    /// The address of the QUIC endpoint.
    pub endpoint_addr: SocketAddr,
    pub certificate: CertificateDer,
    /// The private key of the certificate, in PKCS#8 form.
    pub private_key: Vec<u8>,
    pub transport: TransportSettings,
    pub verifier: InteractiveCertificateVerifier,
}

impl Client {
    /// Whether this is the client that is set up with these arguments.
    pub open spec fn set_up_with(&self, udp_sink: SocketAddr, common: CommonArgs) -> bool {
        &&& self.udp_sink == udp_sink
        &&& self.endpoint_addr == (SocketAddr::V6 { ipv6: 0, port: 0, flowinfo: 0, scope_id: 0 })
        &&& self.transport == client_transport()
        &&& self.verifier.trust == common.trust
    }

    /// The client that has the certificate of `keypair` and receives on
    /// `udp_sink`.
    pub fn with_keypair(udp_sink: SocketAddr, common: CommonArgs, keypair: KeyPair) -> (client:
        Client)
        ensures
            client.set_up_with(udp_sink, common),
            client.udp_sink == udp_sink,
            client.endpoint_addr == (SocketAddr::V6 {
                ipv6: 0,
                port: 0,
                flowinfo: 0,
                scope_id: 0,
            }),
            client.transport.max_concurrent_uni_streams == 1024,
            client.transport.keep_alive_interval is None,
            client.transport.max_idle_timeout == 120,
            client.verifier.trust == common.trust,
            client.certificate == keypair.certificate,
            client.private_key == keypair.private_key,
    {
        Client {
            udp_sink,
            endpoint_addr: SocketAddr::unspecified_v6(),
            certificate: keypair.certificate,
            private_key: keypair.private_key,
            transport: TransportSettings {
                max_concurrent_uni_streams: MAX_STREAMS,
                keep_alive_interval: None,
                max_idle_timeout: IDLE_TIMEOUT_SECS,
            },
            verifier: InteractiveCertificateVerifier::new(&common),
        }
    }

    /// The client that receives on `udp_sink`, with a certificate of its own.
    /// There is none only if no key could be made.
    pub fn try_new(udp_sink: SocketAddr, common: CommonArgs) -> (result: Result<
        Client,
        TunnelError,
    >)
        ensures
            match result {
                Ok(client) => {
                    &&& client.set_up_with(udp_sink, common)
                    &&& crate::tunnel::keypair::self_signed_for(
                        seq![CERT_NAME@],
                        client.certificate.der@,
                        client.private_key@,
                    )
                    &&& crate::tunnel::keypair::self_signed_for(
                        seq!["Qduct"@],
                        client.certificate.der@,
                        client.private_key@,
                    )
                    &&& client.udp_sink == udp_sink
                    &&& client.verifier.trust == common.trust
                },
                Err(e) => e is KeyGeneration,
            },
    {
        match new_keypair() {
            Ok(keypair) => Ok(Client::with_keypair(udp_sink, common, keypair)),
            Err(e) => Err(e),
        }
    }

    /// How this client connects to `remote_server`, and the tunnel that it then
    /// has: it sends to nobody until a datagram is received.
    pub fn connect(&self, remote_server: SocketAddr) -> (connect: Connect)
        ensures
            connect.remote_server == remote_server,
            connect.server_name@ == CERT_NAME@,
            connect.server_name@ == "Qduct"@,
            connect.tunnel.preset_udp_destination is None,
    {
        Connect {
            remote_server,
            server_name: CERT_NAME.to_owned(),
            tunnel: UdpTunnel { preset_udp_destination: None },
        }
    }

    /// What this client does in every handshake: it shows its own certificate, and
    /// nothing else, and signs with the key of that.
    pub fn handshake(&self) -> (handshake: Handshake)
        ensures
            handshake.shows(self.certificate, self.private_key@, self.verifier),
            handshake.chain@.len() == 1,
            handshake.chain@[0].der@ == self.certificate.der@,
            handshake.private_key@ == self.private_key@,
            handshake.verifier.trust == self.verifier.trust,
    {
        Handshake::with(&self.certificate, &self.private_key, self.verifier)
    }

    /// What this client does at its end, in this order.
    pub fn shutdown(self) -> (steps: Vec<ShutdownStep>)
        ensures
            steps@.map_values(|step: ShutdownStep| step@) == orderly_shutdown(),
            steps@.len() == 3,
            steps@[0] is CancelTunnels,
            steps@[1] matches ShutdownStep::CloseEndpoint { code, reason } && code == 0
                && reason@.len() == 0,
            steps@[2] is WaitIdle,
    {
        shutdown_steps()
    }
}

/// A server forwards from a socket of the kind of its destination, whichever that
/// is: an IPv6 socket for an IPv6 destination, an IPv4 socket for every other. The
/// system picks address and port. Its endpoint is where it was told to be, lets each
/// client have 1024 streams, gives a sign of life every 25 seconds, and gives a
/// connection up after 120; and it trusts every peer only if it was told to.
pub proof fn law_server_is_set_up_as_told(
    server: Server,
    quic_addr: SocketAddr,
    udp_destination: SocketAddr,
    common: CommonArgs,
)
    requires
        server.set_up_with(quic_addr, udp_destination, common),
    ensures
        server.udp_addr is V6 <==> udp_destination is V6,
        server.udp_addr is V4 ==> server.udp_addr == (SocketAddr::V4 { ipv4: 0, port: 0 }),
        server.udp_addr is V6 ==> server.udp_addr == (SocketAddr::V6 {
            ipv6: 0,
            port: 0,
            flowinfo: 0,
            scope_id: 0,
        }),
        server.quic_addr == quic_addr,
        server.udp_destination == udp_destination,
        server.transport.max_concurrent_uni_streams == 1024,
        server.transport.keep_alive_interval == Some(25u64),
        server.transport.max_idle_timeout == 120,
        server.verifier.trust == common.trust,
{
}

/// The sockets of two servers have the same address exactly if their destinations
/// are of the same kind.
pub proof fn law_sockets_are_of_the_kind_of_their_destinations(
    first: Server,
    second: Server,
    first_quic: SocketAddr,
    second_quic: SocketAddr,
    first_destination: SocketAddr,
    second_destination: SocketAddr,
    first_args: CommonArgs,
    second_args: CommonArgs,
)
    requires
        first.set_up_with(first_quic, first_destination, first_args),
        second.set_up_with(second_quic, second_destination, second_args),
    ensures
        first.udp_addr == second.udp_addr <==> (first_destination is V6
            <==> second_destination is V6),
{
}

/// A client receives where it was told to. Its endpoint is an IPv6 socket for which
/// the system picks address and port, lets the server have 1024 streams, gives no
/// signs of life of its own, and gives a connection up after 120 seconds; and it
/// trusts every peer only if it was told to.
pub proof fn law_client_is_set_up_as_told(client: Client, udp_sink: SocketAddr, common: CommonArgs)
    requires
        client.set_up_with(udp_sink, common),
    ensures
        client.udp_sink == udp_sink,
        client.endpoint_addr == (SocketAddr::V6 { ipv6: 0, port: 0, flowinfo: 0, scope_id: 0 }),
        client.transport.max_concurrent_uni_streams == 1024,
        client.transport.keep_alive_interval is None,
        client.transport.max_idle_timeout == 120,
        client.verifier.trust == common.trust,
{
}

/// A client and a server that are set up the ordinary way fit together: they
/// allow each other as many streams and give a connection up after the same
/// time, and the server gives signs of life often enough that none is given up
/// for want of traffic.
pub proof fn law_ends_fit_together(
    server: Server,
    quic_addr: SocketAddr,
    udp_destination: SocketAddr,
    server_args: CommonArgs,
    client: Client,
    udp_sink: SocketAddr,
    client_args: CommonArgs,
)
    requires
        server.set_up_with(quic_addr, udp_destination, server_args),
        client.set_up_with(udp_sink, client_args),
    ensures
        server.transport.max_concurrent_uni_streams == client.transport.max_concurrent_uni_streams,
        server.transport.max_idle_timeout == client.transport.max_idle_timeout,
        server.transport.keep_alive_interval is Some,
        server.transport.keep_alive_interval->0 < client.transport.max_idle_timeout,
{
}

/// The tunnels of one server all have its destination preset, and start alike.
pub proof fn law_tunnels_of_a_server_start_alike(server: Server, first: UdpTunnel, second: UdpTunnel)
    requires
        server.accepts(first),
        server.accepts(second),
    ensures
        first.preset_udp_destination == Some(server.udp_destination),
        first.preset_udp_destination == second.preset_udp_destination,
        TunnelState::started(first.preset_udp_destination) == TunnelState::started(
            second.preset_udp_destination,
        ),
{
}

/// A server or a client shows its own certificate in a handshake, and no other, and
/// signs with the key that was made with it. So the words that the peer's user is
/// asked to confirm are the words that this end's user is told.
pub proof fn law_shown_certificate_is_the_own(
    handshake: Handshake,
    certificate: CertificateDer,
    private_key: Seq<u8>,
    verifier: InteractiveCertificateVerifier,
    asked: Seq<char>,
    told: Seq<char>,
)
    requires
        handshake.shows(certificate, private_key, verifier),
        crate::tunnel::keypair::self_signed_for(seq![CERT_NAME@], certificate.der@, private_key),
        crate::tunnel::bytewords::speaks_for(asked, handshake.chain@[0].der@),
        crate::tunnel::bytewords::speaks_for(told, certificate.der@),
    ensures
        handshake.chain@.len() == 1,
        crate::tunnel::keypair::self_signed_for(
            seq![CERT_NAME@],
            handshake.chain@[0].der@,
            handshake.private_key@,
        ),
        asked == told,
{
}

/// A handshake shows one certificate, the given one, and is made with the given key
/// and the given trust.
pub proof fn law_handshakes_show_what_they_are_given(
    handshake: Handshake,
    certificate: CertificateDer,
    private_key: Seq<u8>,
    verifier: InteractiveCertificateVerifier,
)
    requires
        handshake.shows(certificate, private_key, verifier),
    ensures
        handshake.chain@.len() == 1,
        handshake.chain@[0].der@ == certificate.der@,
        handshake.private_key@ == private_key,
        handshake.verifier.trust == verifier.trust,
{
}

/// A shutdown has three steps: the tunnels are told to end, the endpoint is closed
/// without an error and without a reason, and what was sent is waited for.
pub proof fn law_a_shutdown_has_three_steps(steps: Seq<ShutdownStep>)
    requires
        steps.map_values(|step: ShutdownStep| step@) == orderly_shutdown(),
    ensures
        steps.len() == 3,
        steps[0] is CancelTunnels,
        steps[1] matches ShutdownStep::CloseEndpoint { code, reason } && code == 0
            && reason@.len() == 0,
        steps[2] is WaitIdle,
{
    let views = steps.map_values(|step: ShutdownStep| step@);
    assert(views.len() == 3);
    assert(views[0] == steps[0]@);
    assert(views[1] == steps[1]@);
    assert(views[2] == steps[2]@);
}

/// Whoever shuts down ends its tunnels first: only then is its endpoint closed,
/// without an error, and only after that does it wait. Each of the tunnels that
/// are told so ends without an error.
pub proof fn law_tunnels_end_before_their_endpoint<E>(cancelled: int, closed: int, idle: int)
    requires
        0 <= cancelled < orderly_shutdown().len(),
        0 <= closed < orderly_shutdown().len(),
        0 <= idle < orderly_shutdown().len(),
        orderly_shutdown()[cancelled] is CancelTunnels,
        orderly_shutdown()[closed] is CloseEndpoint,
        orderly_shutdown()[idle] is WaitIdle,
    ensures
        cancelled < closed < idle,
        orderly_shutdown()[closed] == (ShutdownStepView::CloseEndpoint {
            code: 0,
            reason: Seq::empty(),
        }),
        crate::tunnel::forward::tunnel_result(TunnelEvent::<E>::Shutdown) is Ok,
{
}

} // verus!
