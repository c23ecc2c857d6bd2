//! How a client connects, and what the endpoints ask of TLS.

use std::time::Duration;

use web_transport::ez::client::{
    ClientBuilder, ConnectError, ConnectEvent, ConnectStep, QlogCompression, Settings,
};
use web_transport::ez::socket::{capabilities, SocketOption};
use web_transport::ez::tls::{
    alpn_select, client_plan, dynamic_plan, resolved_plan, server_plan, verify_hash, CertResolver,
    CertificateAlert, CertifiedKey, ClientVerify, KeyFormat, PeerCertificate, TlsError, TlsStep,
};

fn certified(chain: &[&[u8]]) -> CertifiedKey {
    CertifiedKey {
        chain: chain.iter().map(|cert| cert.to_vec()).collect(),
        format: KeyFormat::Pkcs8,
        key: b"key".to_vec(),
    }
}

fn names(steps: &[TlsStep]) -> Vec<String> {
    steps
        .iter()
        .map(|step| match step {
            TlsStep::Leaf(cert) => format!("leaf {}", String::from_utf8_lossy(cert)),
            TlsStep::Intermediate(cert) => format!("more {}", String::from_utf8_lossy(cert)),
            TlsStep::Key(format, key) => format!("{format:?} {}", String::from_utf8_lossy(key)),
            TlsStep::Alpn(protocols) => format!("alpn {}", protocols.len()),
            TlsStep::Root(cert) => format!("root {}", String::from_utf8_lossy(cert)),
            TlsStep::TrustRoots => "trust roots".to_string(),
            TlsStep::TrustHashes(hashes) => format!("trust {} hashes", hashes.len()),
        })
        .collect()
}

#[test]
fn the_server_decides_between_protocols() {
    let server = [b"h3".to_vec(), b"moq".to_vec()];
    assert_eq!(alpn_select(&server, b"\x03moq\x02h3"), Some(&b"h3"[..]));
    assert_eq!(alpn_select(&server, b"\x03moq\x02h2"), Some(&b"moq"[..]));
    assert_eq!(alpn_select(&server, b"\x02h2"), None);
    assert_eq!(alpn_select(&server, b""), None);
    assert_eq!(alpn_select(&[], b"\x02h3"), None);
    // What follows a name that is empty or cut short is ignored.
    assert_eq!(alpn_select(&server, b"\x00\x02h3"), None);
    assert_eq!(alpn_select(&server, b"\x09h3"), None);
    assert_eq!(alpn_select(&server, b"\x03moq\x09h3"), Some(&b"moq"[..]));
}

#[test]
fn certificates_are_presented_leaf_first() {
    let plan = server_plan(certified(&[b"a", b"b", b"c"]), vec![b"h3".to_vec()]).unwrap();
    assert_eq!(names(&plan), ["leaf a", "more b", "more c", "Pkcs8 key", "alpn 1"]);
    let plan = server_plan(certified(&[b"a"]), Vec::new()).unwrap();
    assert_eq!(names(&plan), ["leaf a", "Pkcs8 key"]);

    assert!(matches!(
        server_plan(certified(&[]), Vec::new()),
        Err(TlsError::EmptyChain)
    ));
    let mut unsupported = certified(&[b"a"]);
    unsupported.format = KeyFormat::Other;
    assert!(matches!(
        client_plan(Some(unsupported), ClientVerify::Default),
        Err(TlsError::UnsupportedKey)
    ));

    let roots = ClientVerify::Roots(vec![b"r".to_vec(), b"s".to_vec()]);
    let plan = client_plan(Some(certified(&[b"a"])), roots).unwrap();
    assert_eq!(names(&plan), ["leaf a", "Pkcs8 key", "root r", "root s", "trust roots"]);
    let plan = client_plan(None, ClientVerify::Hashes(vec![[1; 32]])).unwrap();
    assert_eq!(names(&plan), ["trust 1 hashes"]);
    assert!(client_plan(None, ClientVerify::Default).unwrap().is_empty());
}

#[test]
fn a_listed_hash_is_trusted() {
    let hashes = vec![[1; 32], [2; 32]];
    let check = |peer| verify_hash(&hashes, peer);
    assert_eq!(check(PeerCertificate::Digest(vec![2; 32])), Ok(()));
    assert_eq!(
        check(PeerCertificate::Digest(vec![3; 32])),
        Err(CertificateAlert::BadCertificateHashValue)
    );
    assert_eq!(
        check(PeerCertificate::Digest(vec![2; 31])),
        Err(CertificateAlert::BadCertificateHashValue)
    );
    assert_eq!(
        check(PeerCertificate::Missing),
        Err(CertificateAlert::CertificateUnknown)
    );
    assert_eq!(
        check(PeerCertificate::Unhashable),
        Err(CertificateAlert::BadCertificate)
    );
}

#[test]
fn a_client_reaches_the_first_address() {
    type Event = ConnectEvent<u16, &'static str>;
    let mut client: ClientBuilder<u16> = ClientBuilder::new();
    assert!(matches!(client.connect(Event::Start), ConnectStep::Bind));
    assert!(matches!(
        client.connect(Event::Bound(Err("busy".to_string()))),
        ConnectStep::Failed(ConnectError::Socket(text)) if text == "busy"
    ));
    assert!(matches!(client.connect(Event::Bound(Ok(9))), ConnectStep::Resolve));
    assert!(matches!(client.connect(Event::Start), ConnectStep::Resolve));
    assert!(matches!(
        client.connect(Event::Resolved(Ok(vec!["::1", "127.0.0.1"]))),
        ConnectStep::Join("::1")
    ));
    assert!(matches!(
        client.connect(Event::Resolved(Ok(Vec::new()))),
        ConnectStep::Failed(ConnectError::HostUnreachable(text))
            if text == "no addresses found for host"
    ));
    assert!(matches!(
        client.connect(Event::Resolved(Err("no such host".to_string()))),
        ConnectStep::Failed(ConnectError::HostUnreachable(text)) if text == "no such host"
    ));
    assert!(matches!(
        client.connect(Event::Joined(Err("refused".to_string()))),
        ConnectStep::Failed(ConnectError::Socket(text)) if text == "refused"
    ));
    assert!(matches!(client.connect(Event::Joined(Ok(()))), ConnectStep::Dial));
    assert_eq!(client.plan("host").unwrap().socket, Some(9));
}

#[test]
fn a_client_verifies_the_server_by_default() {
    let plan = ClientBuilder::<u16>::default().plan("host").unwrap();
    assert!(plan.settings.verify_peer && !plan.insecure);
    assert!(plan.tls.is_none() && plan.gso && plan.keep_alive.is_none());
    assert_eq!(plan.server_name, "host");

    assert_eq!(plan.settings.max_idle_timeout_ms, Some(56_000));
    assert_eq!(plan.settings.alpn, [b"h3"]);
    assert_eq!(plan.settings.cc_algorithm, "cubic");

    let settings = Settings {
        qlog_compression: QlogCompression::Zstd,
        max_idle_timeout_ms: Some(750),
        ..Settings::default()
    };
    let client = ClientBuilder::<u16>::new()
        .with_settings(settings)
        .with_gso(false)
        .with_keep_alive(Duration::from_secs(5))
        .with_socket(7)
        .with_server_name("name".to_string());
    let plan = client.plan("host").unwrap();
    assert!(plan.insecure && !plan.gso);
    assert_eq!(plan.settings.qlog_compression, QlogCompression::Zstd);
    assert_eq!(plan.settings.max_idle_timeout_ms, Some(750));
    assert_eq!(plan.keep_alive, Some(Duration::from_secs(5)));
    assert_eq!(plan.server_name, "name");

    // Verifying by hash or root still authenticates the server.
    let client = ClientBuilder::<u16>::new()
        .with_settings(Settings::default())
        .with_server_certificate_hashes(vec![[0; 32]]);
    let plan = client.plan("host").unwrap();
    assert!(!plan.insecure);
    assert_eq!(names(&plan.tls.unwrap()), ["trust 1 hashes"]);

    let client = ClientBuilder::<u16>::new()
        .with_single_cert(certified(&[b"a"]))
        .with_root_certificates(vec![b"r".to_vec()]);
    let steps = client.plan("host").unwrap().tls.unwrap();
    assert_eq!(names(&steps), ["leaf a", "Pkcs8 key", "root r", "trust roots"]);

    // Bad material fails the connection rather than dropping what was asked for.
    let client = ClientBuilder::<u16>::new().with_single_cert(certified(&[]));
    assert!(matches!(client.plan("host"), Err(TlsError::EmptyChain)));
}

#[test]
fn source_addresses_are_controlled_only_where_that_is_of_use() {
    // Where segmentation is wanted, the kernel is asked for all that it can do.
    assert!(capabilities(true, false).is_none() && capabilities(true, true).is_none());

    let bound = capabilities(false, false).unwrap();
    let free = capabilities(false, true).unwrap();
    assert_eq!(bound.len(), 6);
    assert_eq!(free[..6], bound[..]);
    assert_eq!(
        free[6..],
        [
            SocketOption::Ipv4PktInfo,
            SocketOption::Ipv4RecvOrigDstAddr,
            SocketOption::Ipv6PktInfo,
            SocketOption::Ipv6RecvOrigDstAddr,
        ]
    );
}

#[test]
fn a_protocol_is_selected_only_where_there_are_any() {
    assert!(dynamic_plan(Vec::new()).is_empty());
    let steps = dynamic_plan(vec![b"h3".to_vec(), b"moq".to_vec()]);
    assert_eq!(steps.len(), 1);
    assert!(matches!(&steps[0], TlsStep::Alpn(names) if names[..] == [b"h3".to_vec(), b"moq".to_vec()]));
}

#[test]
fn certificates_are_resolved_by_name() {
    struct OneName;

    impl CertResolver for OneName {
        fn resolve(&self, server_name: Option<&str>) -> Option<CertifiedKey> {
            (server_name == Some("example.com")).then(|| certified(&[b"a", b"b"]))
        }
    }

    let plan = resolved_plan(OneName.resolve(Some("example.com"))).unwrap();
    assert_eq!(names(&plan), ["leaf a", "more b", "Pkcs8 key"]);
    assert!(matches!(
        resolved_plan(OneName.resolve(None)),
        Err(TlsError::Unresolved)
    ));
    assert!(matches!(
        resolved_plan(Some(certified(&[]))),
        Err(TlsError::EmptyChain)
    ));
}
