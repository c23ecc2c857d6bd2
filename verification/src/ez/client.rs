//! How a client connects.

use std::time::Duration;
use vstd::prelude::*;

use crate::ez::tls::{
    certificate_error, certificate_steps, client_plan, presents, usable_or_refused, verifies,
    verify_steps, CertifiedKey, ClientVerify, TlsError, TlsStep,
};

verus! {

/// How the traces of a connection are compressed.
#[derive(Clone, Copy, Debug, PartialEq, Eq, Structural)]
pub enum QlogCompression {
    Uncompressed,
    Gzip,
    Zstd,
}

/// Settings of a connection.
#[derive(Debug)]
pub struct Settings {
    /// The application protocols that are supported, `h3` by default.
    pub alpn: Vec<Vec<u8>>,
    /// Whether datagrams are supported.
    pub enable_dgram: bool,
    /// How many received datagrams are queued.
    pub dgram_recv_max_queue_len: usize,
    /// How many datagrams are queued to be sent.
    pub dgram_send_max_queue_len: usize,
    /// Whether a server accepts early data.
    pub enable_early_data: bool,
    /// How much the peer may send at first.
    pub initial_max_data: u64,
    /// How much the peer may send at first on a bidirectional stream opened here.
    pub initial_max_stream_data_bidi_local: u64,
    /// How much the peer may send at first on a bidirectional stream that it opened.
    pub initial_max_stream_data_bidi_remote: u64,
    /// How much the peer may send at first on a unidirectional stream.
    pub initial_max_stream_data_uni: u64,
    /// How many bidirectional streams the peer may open at first.
    pub initial_max_streams_bidi: u64,
    /// How many unidirectional streams the peer may open at first.
    pub initial_max_streams_uni: u64,
    /// After how many milliseconds an idle connection is closed, if ever.
    pub max_idle_timeout_ms: Option<u64>,
    /// Whether the connection stays on its path.
    pub disable_active_migration: bool,
    /// How many connection identifiers are kept.
    pub active_connection_id_limit: u64,
    /// The largest packet that is received.
    pub max_recv_udp_payload_size: usize,
    /// The largest packet that is sent.
    pub max_send_udp_payload_size: usize,
    /// Whether the address of a client is taken on trust.
    pub disable_client_ip_validation: bool,
    /// The file that the secrets of TLS are written to.
    pub keylog_file: Option<String>,
    /// The directory that traces of the connection are written to.
    pub qlog_dir: Option<String>,
    /// How those are compressed.
    pub qlog_compression: QlogCompression,
    /// The algorithm for congestion control.
    pub cc_algorithm: String,
    /// The congestion window at first, in packets.
    pub initial_congestion_window_packets: usize,
    /// Whether losses that were none relax the detection of losses.
    pub enable_relaxed_loss_threshold: bool,
    /// Whether the largest packet of the path is looked for.
    pub discover_path_mtu: bool,
    /// How often a size is tried in that.
    pub pmtud_max_probes: u8,
    /// Whether a slow start ends early.
    pub enable_hystart: bool,
    /// Whether packets are paced.
    pub enable_pacing: bool,
    /// The rate that packets are paced at, at most.
    pub max_pacing_rate: Option<u64>,
    /// Whether initial packets are counted for each subnet.
    pub enable_expensive_packet_count_metrics: bool,
    /// Whether the logs of the transport are forwarded.
    pub capture_quiche_logs: bool,
    /// After how many milliseconds a handshake is given up, if ever.
    pub handshake_timeout_ms: Option<u64>,
    /// How many new connections are queued for a server.
    pub listen_backlog: usize,
    /// Whether the certificate of the peer is verified.
    pub verify_peer: bool,
    /// The largest window for the flow control of the connection.
    pub max_connection_window: u64,
    /// The largest window for the flow control of a stream.
    pub max_stream_window: u64,
    /// Whether the peer is told when no more streams can be opened.
    pub enable_send_streams_blocked: bool,
    /// Whether reserved values are sent.
    pub grease: bool,
    /// How much more is sent than received before the address of a client is known.
    pub max_amplification_factor: usize,
    /// The exponent that delays are encoded with.
    pub ack_delay_exponent: u64,
    /// By how many milliseconds an acknowledgement is delayed at most.
    pub max_ack_delay: u64,
    /// How many challenges of a path are queued.
    pub max_path_challenge_recv_queue_len: usize,
    /// The token that a server resets by at first.
    pub stateless_reset_token: Option<u128>,
    /// Whether every path has an identifier of its own.
    pub disable_dcid_reuse: bool,
    /// How many bytes of unknown parameters are kept, if any.
    pub track_unknown_transport_parameters: Option<usize>,
    /// Whether connections share the buffers that they send from.
    pub pool_send_buffer: bool,
}

impl Settings {
    /// All settings are at their defaults, but for whether the peer is verified.
    pub open spec fn usual(self) -> bool {
        &&& self.alpn@.len() == 1 && self.alpn@[0]@ == seq![0x68u8, 0x33u8]
        &&& self.enable_dgram
        &&& self.dgram_recv_max_queue_len == 65536
        &&& self.dgram_send_max_queue_len == 65536
        &&& !self.enable_early_data
        &&& self.initial_max_data == 10_000_000
        &&& self.initial_max_stream_data_bidi_local == 1_000_000
        &&& self.initial_max_stream_data_bidi_remote == 1_000_000
        &&& self.initial_max_stream_data_uni == 1_000_000
        &&& self.initial_max_streams_bidi == 100
        &&& self.initial_max_streams_uni == 100
        &&& self.max_idle_timeout_ms == Some(56_000u64)
        &&& self.disable_active_migration
        &&& self.active_connection_id_limit == 2
        &&& self.max_recv_udp_payload_size == 1350
        &&& self.max_send_udp_payload_size == 1350
        &&& !self.disable_client_ip_validation
        &&& self.keylog_file is None
        &&& self.qlog_dir is None
        &&& self.qlog_compression is Uncompressed
        &&& self.cc_algorithm@ == "cubic"@
        &&& self.initial_congestion_window_packets == 10
        &&& !self.enable_relaxed_loss_threshold
        &&& !self.discover_path_mtu
        &&& self.pmtud_max_probes == 3
        &&& self.enable_hystart
        &&& !self.enable_pacing
        &&& self.max_pacing_rate is None
        &&& !self.enable_expensive_packet_count_metrics
        &&& !self.capture_quiche_logs
        &&& self.handshake_timeout_ms is None
        &&& self.listen_backlog == 1024
        &&& self.max_connection_window == 25_165_824
        &&& self.max_stream_window == 16_777_216
        &&& !self.enable_send_streams_blocked
        &&& self.grease
        &&& self.max_amplification_factor == 3
        &&& self.ack_delay_exponent == 3
        &&& self.max_ack_delay == 25
        &&& self.max_path_challenge_recv_queue_len == 3
        &&& self.stateless_reset_token is None
        &&& !self.disable_dcid_reuse
        &&& self.track_unknown_transport_parameters is None
        &&& self.pool_send_buffer
    }
}

impl Default for Settings {
    fn default() -> (settings: Self)
        ensures
            settings.usual(),
            !settings.verify_peer,
    {
        Settings {
            alpn: vec![vec![0x68, 0x33]],
            enable_dgram: true,
            dgram_recv_max_queue_len: 65536,
            dgram_send_max_queue_len: 65536,
            enable_early_data: false,
            initial_max_data: 10_000_000,
            initial_max_stream_data_bidi_local: 1_000_000,
            initial_max_stream_data_bidi_remote: 1_000_000,
            initial_max_stream_data_uni: 1_000_000,
            initial_max_streams_bidi: 100,
            initial_max_streams_uni: 100,
            max_idle_timeout_ms: Some(56_000),
            disable_active_migration: true,
            active_connection_id_limit: 2,
            max_recv_udp_payload_size: 1350,
            max_send_udp_payload_size: 1350,
            disable_client_ip_validation: false,
            keylog_file: None,
            qlog_dir: None,
            qlog_compression: QlogCompression::Uncompressed,
            cc_algorithm: "cubic".to_owned(),
            initial_congestion_window_packets: 10,
            enable_relaxed_loss_threshold: false,
            discover_path_mtu: false,
            pmtud_max_probes: 3,
            enable_hystart: true,
            enable_pacing: false,
            max_pacing_rate: None,
            enable_expensive_packet_count_metrics: false,
            capture_quiche_logs: false,
            handshake_timeout_ms: None,
            listen_backlog: 1024,
            verify_peer: false,
            max_connection_window: 25_165_824,
            max_stream_window: 16_777_216,
            enable_send_streams_blocked: false,
            grease: true,
            max_amplification_factor: 3,
            ack_delay_exponent: 3,
            max_ack_delay: 25,
            max_path_challenge_recv_queue_len: 3,
            stateless_reset_token: None,
            disable_dcid_reuse: false,
            track_unknown_transport_parameters: None,
            pool_send_buffer: true,
        }
    }
}

/// Construct a client using sane defaults. `K` is a bound socket.
pub struct ClientBuilder<K> {
    pub settings: Settings,
    pub socket: Option<K>,
    pub tls: Option<CertifiedKey>,
    pub verify: ClientVerify,
    pub server_name: Option<String>,
    pub keep_alive: Option<Duration>,
    pub gso: bool,
}

/// What to do next to reach a server, where `A` is an address.
pub enum ConnectStep<A> {
    /// Bind a socket to an ephemeral port.
    Bind,
    /// Look up the addresses of the host.
    Resolve,
    /// Connect the socket to an address.
    Join(A),
    /// The server can be dialled.
    Dial,
    /// It cannot.
    Failed(ConnectError),
}

/// What came of it.
pub enum ConnectEvent<K, A> {
    /// Nothing was done yet.
    Start,
    /// To [`ConnectStep::Bind`].
    Bound(Result<K, String>),
    /// To [`ConnectStep::Resolve`].
    Resolved(Result<Vec<A>, String>),
    /// To [`ConnectStep::Join`].
    Joined(Result<(), String>),
}

/// Why a server cannot be reached.
#[derive(Debug)]
pub enum ConnectError {
    /// The socket fails.
    Socket(String),
    /// The host has no address.
    HostUnreachable(String),
}

/// How a server is dialled.
pub struct ConnectPlan<K> {
    pub settings: Settings,
    pub socket: Option<K>,
    /// What is set up for TLS, unless the defaults do.
    pub tls: Option<Vec<TlsStep>>,
    /// The name that the certificate of the server must match.
    pub server_name: String,
    pub keep_alive: Option<Duration>,
    pub gso: bool,
    /// Nothing about the server is verified.
    pub insecure: bool,
}

impl<K> ClientBuilder<K> {
    /// Create a new client builder, which verifies the server.
    pub fn new() -> (builder: Self)
        ensures
            builder.settings.usual() && builder.settings.verify_peer,
            builder == (ClientBuilder::<K> {
                settings: builder.settings,
                socket: None,
                tls: None,
                verify: ClientVerify::Default,
                server_name: None,
                keep_alive: None,
                gso: true,
            }),
    {
        let mut settings = Settings::default();
        settings.verify_peer = true;
        ClientBuilder {
            settings,
            socket: None,
            tls: None,
            verify: ClientVerify::Default,
            server_name: None,
            keep_alive: None,
            gso: true,
        }
    }

    /// Keep an idle connection alive by sending something on this interval.
    pub fn with_keep_alive(self, interval: Duration) -> (builder: Self)
        ensures
            builder == (ClientBuilder { keep_alive: Some(interval), ..self }),
    {
        ClientBuilder { keep_alive: Some(interval), ..self }
    }

    /// Let the kernel segment what is sent, which is the default.
    pub fn with_gso(self, enabled: bool) -> (builder: Self)
        ensures
            builder == (ClientBuilder { gso: enabled, ..self }),
    {
        ClientBuilder { gso: enabled, ..self }
    }

    /// Use a socket rather than one on an ephemeral port.
    pub fn with_socket(self, socket: K) -> (builder: Self)
        ensures
            builder == (ClientBuilder { socket: Some(socket), ..self }),
    {
        ClientBuilder { socket: Some(socket), ..self }
    }

    /// Use these settings instead of the defaults. Note that settings do not verify the
    /// peer by default.
    pub fn with_settings(self, settings: Settings) -> (builder: Self)
        ensures
            builder == (ClientBuilder { settings, ..self }),
    {
        ClientBuilder { settings, ..self }
    }

    /// Present a certificate to the server.
    pub fn with_single_cert(self, certified: CertifiedKey) -> (builder: Self)
        ensures
            builder == (ClientBuilder { tls: Some(certified), ..self }),
    {
        ClientBuilder { tls: Some(certified), ..self }
    }

    /// Expect this name of the server, rather than that of the host which is dialled.
    pub fn with_server_name(self, name: String) -> (builder: Self)
        ensures
            builder == (ClientBuilder { server_name: Some(name), ..self }),
    {
        ClientBuilder { server_name: Some(name), ..self }
    }

    /// Verify the server against these root certificates, rather than those of the system.
    pub fn with_root_certificates(self, roots: Vec<Vec<u8>>) -> (builder: Self)
        ensures
            builder == (ClientBuilder { verify: ClientVerify::Roots(roots), ..self }),
    {
        ClientBuilder { verify: ClientVerify::Roots(roots), ..self }
    }

    /// Accept the server only if the SHA-256 of its certificate is one of these.
    pub fn with_server_certificate_hashes(self, hashes: Vec<[u8; 32]>) -> (builder: Self)
        ensures
            builder == (ClientBuilder { verify: ClientVerify::Hashes(hashes), ..self }),
    {
        ClientBuilder { verify: ClientVerify::Hashes(hashes), ..self }
    }

    /// Take one step of reaching a server: a socket is bound unless there is one, the
    /// host is looked up, and the socket is connected to its first address.
    pub fn connect<A>(&mut self, event: ConnectEvent<K, A>) -> (step: ConnectStep<A>)
        ensures
            *final(self) == match event {
                ConnectEvent::Bound(Ok(socket)) => (ClientBuilder { socket: Some(socket), ..*old(self) }),
                _ => *old(self),
            },
            match event {
                ConnectEvent::Start => step == if old(self).socket is None {
                    ConnectStep::<A>::Bind
                } else {
                    ConnectStep::<A>::Resolve
                },
                ConnectEvent::Bound(Ok(_)) => step is Resolve,
                ConnectEvent::Bound(Err(text)) => step == ConnectStep::<A>::Failed(
                    ConnectError::Socket(text),
                ),
                ConnectEvent::Resolved(Ok(addresses)) => if addresses@.len() > 0 {
                    step == ConnectStep::Join(addresses@[0])
                } else {
                    step matches ConnectStep::Failed(ConnectError::HostUnreachable(text)) && text@
                        == "no addresses found for host"@
                },
                ConnectEvent::Resolved(Err(text)) => step == ConnectStep::<A>::Failed(
                    ConnectError::HostUnreachable(text),
                ),
                ConnectEvent::Joined(Ok(_)) => step is Dial,
                ConnectEvent::Joined(Err(text)) => step == ConnectStep::<A>::Failed(
                    ConnectError::Socket(text),
                ),
            },
    {
        match event {
            ConnectEvent::Start => {
                if self.socket.is_none() {
                    ConnectStep::Bind
                } else {
                    ConnectStep::Resolve
                }
            },
            ConnectEvent::Bound(Ok(socket)) => {
                self.socket = Some(socket);
                ConnectStep::Resolve
            },
            ConnectEvent::Resolved(Ok(addresses)) => {
                let mut addresses = addresses;
                if addresses.len() > 0 {
                    ConnectStep::Join(addresses.remove(0))
                } else {
                    ConnectStep::Failed(
                        ConnectError::HostUnreachable("no addresses found for host".to_owned()),
                    )
                }
            },
            ConnectEvent::Resolved(Err(text)) => {
                ConnectStep::Failed(ConnectError::HostUnreachable(text))
            },
            ConnectEvent::Joined(Ok(_)) => ConnectStep::Dial,
            ConnectEvent::Bound(Err(text)) | ConnectEvent::Joined(Err(text)) => {
                ConnectStep::Failed(ConnectError::Socket(text))
            },
        }
    }

    /// Whether anything but the defaults is to be set up for TLS.
    pub open spec fn needs_hook(self) -> bool {
        self.tls is Some || !(self.verify is Default)
    }

    /// Plan how to dial the server that has been reached under the name of a host.
    ///
    /// What is to be set up for TLS is validated here, so that bad material fails the
    /// connection rather than silently dropping what was asked for.
    pub fn plan(self, host: &str) -> (plan: Result<ConnectPlan<K>, TlsError>)
        ensures
            match self.tls {
                Some(certified) if certificate_error(certified) is Some => plan == Err::<
                    ConnectPlan<K>,
                    TlsError,
                >(certificate_error(certified)->0),
                _ => plan matches Ok(plan) && {
                    &&& plan.settings == self.settings
                    &&& plan.socket == self.socket
                    &&& plan.keep_alive == self.keep_alive
                    &&& plan.gso == self.gso
                    &&& plan.insecure == (!self.settings.verify_peer && self.verify is Default)
                    &&& plan.server_name@ == match self.server_name {
                        Some(name) => name@,
                        None => host@,
                    }
                    &&& plan.tls is Some <==> self.needs_hook()
                    &&& plan.tls matches Some(steps) ==> match self.tls {
                        None => steps@ == verify_steps(self.verify),
                        Some(certified) => {
                            let own = certified.chain@.len() + 1;
                            &&& certificate_steps(steps@.take(own as int), certified)
                            &&& steps@ == steps@.take(own as int) + verify_steps(self.verify)
                        },
                    }
                },
            },
    {
        let default_verify = match &self.verify {
            ClientVerify::Default => true,
            _ => false,
        };
        let insecure = !self.settings.verify_peer && default_verify;
        let tls = if self.tls.is_some() || !default_verify {
            match client_plan(self.tls, self.verify) {
                Ok(steps) => Some(steps),
                Err(error) => return Err(error),
            }
        } else {
            None
        };
        let server_name = match self.server_name {
            Some(name) => name,
            None => host.to_owned(),
        };
        Ok(
            ConnectPlan {
                settings: self.settings,
                socket: self.socket,
                tls,
                server_name,
                keep_alive: self.keep_alive,
                gso: self.gso,
                insecure,
            },
        )
    }
}

impl<K> Default for ClientBuilder<K> {
    fn default() -> (builder: Self)
        ensures
            builder.settings.usual() && builder.settings.verify_peer,
            builder.verify is Default,
            builder.tls is None,
            builder.socket is None,
            builder.server_name is None,
            builder.keep_alive is None,
            builder.gso,
    {
        ClientBuilder::new()
    }
}

/// A server is reached in order: a socket is bound exactly if there is none, then the host is
/// looked up, then the socket is joined to the first of its addresses, and then the server is
/// dialled. What fails on the way ends it, with what failed; a host without addresses cannot
/// be reached. The socket that was bound is the one that is used, and nothing else changes.
pub proof fn law_a_server_is_reached_in_order<K, A>()
    ensures
        forall|client: &mut ClientBuilder<K>, event: ConnectEvent<K, A>, step: ConnectStep<A>|
            #[trigger] call_ensures(ClientBuilder::<K>::connect::<A>, (client, event), step) ==> {
                &&& step is Bind <==> event is Start && client.socket is None
                &&& step is Resolve <==> (event is Start && client.socket is Some) || (event is Bound
                    && event->Bound_0 is Ok)
                &&& forall|address: A|
                    step == ConnectStep::Join(address) <==> event is Resolved && event->Resolved_0 is Ok
                        && event->Resolved_0->Ok_0@.len() > 0 && event->Resolved_0->Ok_0@[0] == address
                &&& step is Dial <==> event is Joined && event->Joined_0 is Ok
                &&& event is Bound && event->Bound_0 is Err ==> step == ConnectStep::<A>::Failed(
                    ConnectError::Socket(event->Bound_0->Err_0),
                )
                &&& event is Joined && event->Joined_0 is Err ==> step == ConnectStep::<A>::Failed(
                    ConnectError::Socket(event->Joined_0->Err_0),
                )
                &&& event is Resolved && event->Resolved_0 is Err ==> step == ConnectStep::<A>::Failed(
                    ConnectError::HostUnreachable(event->Resolved_0->Err_0),
                )
                &&& event is Resolved && event->Resolved_0 is Ok && event->Resolved_0->Ok_0@.len() == 0
                    ==> step is Failed && step->Failed_0 is HostUnreachable && step->Failed_0->HostUnreachable_0@
                    == "no addresses found for host"@
                &&& final(client).socket == if event is Bound && event->Bound_0 is Ok {
                    Some(event->Bound_0->Ok_0)
                } else {
                    client.socket
                }
                &&& final(client).settings == client.settings && final(client).tls == client.tls
                &&& final(client).verify == client.verify && final(client).gso == client.gso
                &&& final(client).server_name == client.server_name && final(client).keep_alive
                    == client.keep_alive
            },
{
}

/// A server is dialled as the client was built: with its settings and its socket, under the
/// name that is expected of it or else that of the host. TLS is set up exactly if anything
/// was asked of it, and what cannot be set up fails the connection. It is insecure exactly if
/// nothing verifies the server.
pub proof fn law_a_server_is_dialled_as_the_client_was_built<K>(
    client: ClientBuilder<K>,
    host: &str,
    plan: Result<ConnectPlan<K>, TlsError>,
)
    requires
        call_ensures(ClientBuilder::<K>::plan, (client, host), plan),
    ensures
        client.tls is None ==> plan is Ok,
        client.tls is Some ==> usable_or_refused(client.tls->0, plan),
        plan is Ok ==> {
            let made = plan->Ok_0;
            &&& made.settings == client.settings && made.socket == client.socket
            &&& made.keep_alive == client.keep_alive && made.gso == client.gso
            &&& client.server_name is Some ==> made.server_name@ == client.server_name->0@
            &&& client.server_name is None ==> made.server_name@ == host@
            &&& made.tls is None <==> client.tls is None && client.verify is Default
            &&& made.insecure <==> !client.settings.verify_peer && client.verify is Default
            &&& made.tls is Some && client.tls is None ==> verifies(made.tls->0@, client.verify)
            &&& made.tls is Some && client.tls is Some ==> {
                let own = (client.tls->0).chain@.len() as int + 1;
                &&& own <= made.tls->0@.len()
                &&& presents(made.tls->0@.take(own), client.tls->0)
                &&& verifies(made.tls->0@.skip(own), client.verify)
            }
        },
{
    if plan is Ok {
        let made = plan->Ok_0;
        if made.tls is Some && client.tls is Some {
            let own = (client.tls->0).chain@.len() as int + 1;
            assert(made.tls->0@.skip(own) =~= verify_steps(client.verify));
        }
    }
}

/// A client verifies the server unless it is told otherwise, and each thing that it is told
/// changes that thing alone. Settings on their own do not verify the peer.
pub proof fn law_a_client_is_built_step_by_step<K>(client: ClientBuilder<K>)
    ensures
        forall|made: ClientBuilder<K>|
            #[trigger] call_ensures(ClientBuilder::<K>::new, (), made) || call_ensures(
                ClientBuilder::<K>::default,
                (),
                made,
            ) ==> {
                &&& made.settings.verify_peer && made.settings.usual() && made.gso
                &&& made.socket is None && made.tls is None && made.verify is Default
                &&& made.server_name is None && made.keep_alive is None
            },
        forall|settings: Settings|
            #[trigger] call_ensures(Settings::default, (), settings) ==> settings.usual()
                && !settings.verify_peer,
        forall|interval: Duration, made: ClientBuilder<K>|
            #[trigger] call_ensures(ClientBuilder::<K>::with_keep_alive, (client, interval), made) ==> {
                &&& made.keep_alive == Some(interval)
                &&& made == (ClientBuilder { keep_alive: made.keep_alive, ..client })
            },
        forall|enabled: bool, made: ClientBuilder<K>|
            #[trigger] call_ensures(ClientBuilder::<K>::with_gso, (client, enabled), made) ==> {
                &&& made.gso == enabled
                &&& made == (ClientBuilder { gso: made.gso, ..client })
            },
        forall|socket: K, made: ClientBuilder<K>|
            #[trigger] call_ensures(ClientBuilder::<K>::with_socket, (client, socket), made) ==> {
                &&& made.socket == Some(socket)
                &&& made == (ClientBuilder { socket: made.socket, ..client })
            },
        forall|settings: Settings, made: ClientBuilder<K>|
            #[trigger] call_ensures(ClientBuilder::<K>::with_settings, (client, settings), made) ==> {
                &&& made.settings == settings
                &&& made == (ClientBuilder { settings: made.settings, ..client })
            },
        forall|certified: CertifiedKey, made: ClientBuilder<K>|
            #[trigger] call_ensures(ClientBuilder::<K>::with_single_cert, (client, certified), made) ==> {
                &&& made.tls == Some(certified)
                &&& made == (ClientBuilder { tls: made.tls, ..client })
            },
        forall|name: String, made: ClientBuilder<K>|
            #[trigger] call_ensures(ClientBuilder::<K>::with_server_name, (client, name), made) ==> {
                &&& made.server_name == Some(name)
                &&& made == (ClientBuilder { server_name: made.server_name, ..client })
            },
        forall|roots: Vec<Vec<u8>>, made: ClientBuilder<K>|
            #[trigger] call_ensures(ClientBuilder::<K>::with_root_certificates, (client, roots), made) ==> {
                &&& made.verify == ClientVerify::Roots(roots)
                &&& made == (ClientBuilder { verify: made.verify, ..client })
            },
        forall|hashes: Vec<[u8; 32]>, made: ClientBuilder<K>|
            #[trigger] call_ensures(
                ClientBuilder::<K>::with_server_certificate_hashes,
                (client, hashes),
                made,
            ) ==> {
                &&& made.verify == ClientVerify::Hashes(hashes)
                &&& made == (ClientBuilder { verify: made.verify, ..client })
            },
{
}

/// What a connection does where nothing else is set.
pub proof fn law_settings_begin_with_the_defaults_of_the_transport(settings: Settings)
    requires
        call_ensures(Settings::default, (), settings),
    ensures
        settings.enable_dgram && settings.dgram_recv_max_queue_len == 0x1_0000
            && settings.dgram_send_max_queue_len == 0x1_0000,
        settings.initial_max_data == 10 * 1000 * 1000,
        settings.initial_max_stream_data_bidi_local == 1000 * 1000,
        settings.initial_max_stream_data_bidi_remote == settings.initial_max_stream_data_bidi_local,
        settings.initial_max_stream_data_uni == settings.initial_max_stream_data_bidi_local,
        settings.initial_max_streams_bidi == 100 && settings.initial_max_streams_uni == 100,
        settings.max_idle_timeout_ms == Some(56_000u64) && settings.handshake_timeout_ms is None,
        settings.max_recv_udp_payload_size == 1350 && settings.max_send_udp_payload_size == 1350,
        settings.max_connection_window == 24 * 1024 * 1024 && settings.max_stream_window == 16 * 1024 * 1024,
        settings.active_connection_id_limit == 2 && settings.initial_congestion_window_packets == 10,
        settings.cc_algorithm@ == "cubic"@,
        settings.alpn@.len() == 1 && settings.alpn@[0]@ =~= seq![0x68u8, 0x33u8],
        settings.pmtud_max_probes == 3 && settings.max_amplification_factor == 3,
        settings.ack_delay_exponent == 3 && settings.max_ack_delay == 25,
        settings.max_path_challenge_recv_queue_len == 3 && settings.listen_backlog == 1024,
        settings.disable_active_migration && settings.enable_hystart && settings.grease
            && settings.pool_send_buffer,
        !settings.enable_early_data && !settings.disable_client_ip_validation
            && !settings.enable_relaxed_loss_threshold && !settings.discover_path_mtu,
        !settings.enable_pacing && !settings.enable_expensive_packet_count_metrics
            && !settings.capture_quiche_logs && !settings.enable_send_streams_blocked,
        !settings.disable_dcid_reuse && !settings.verify_peer,
        settings.max_pacing_rate is None && settings.stateless_reset_token is None
            && settings.track_unknown_transport_parameters is None,
        settings.keylog_file is None && settings.qlog_dir is None && settings.qlog_compression
            is Uncompressed,
{
}

} // verus!
