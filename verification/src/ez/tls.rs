//! What the endpoints of a connection ask of TLS.

use vstd::prelude::*;

verus! {

/// The protocols that a client offers, as they are written on the wire: each with its
/// length in front. What comes after a protocol without a name, or cut short, is ignored.
pub open spec fn alpn_offers(client: Seq<u8>) -> Seq<Seq<u8>>
    decreases client.len(),
{
    if client.len() == 0 || client[0] == 0 || 1 + client[0] > client.len() {
        Seq::empty()
    } else {
        let len = client[0] as int;
        seq![client.subrange(1, 1 + len)] + alpn_offers(client.skip(1 + len))
    }
}

/// The first protocol of a server that a client offers too.
pub open spec fn alpn_choice(server: Seq<Vec<u8>>, client: Seq<u8>) -> Option<Seq<u8>>
    decreases server.len(),
{
    if server.len() == 0 {
        None
    } else if alpn_offers(client).contains(server.first()@) {
        Some(server.first()@)
    } else {
        alpn_choice(server.drop_first(), client)
    }
}

/// Whether two slices hold the same bytes.
fn same_bytes(a: &[u8], b: &[u8]) -> (same: bool)
    ensures
        same == (a@ == b@),
{
    if a.len() != b.len() {
        return false;
    }
    let mut index: usize = 0;
    while index < a.len()
        invariant
            a@.len() == b@.len(),
            index <= a@.len(),
            forall|i: int| 0 <= i < index ==> a@[i] == b@[i],
        decreases a@.len() - index,
    {
        if a[index] != b[index] {
            return false;
        }
        index = index + 1;
    }
    assert(a@ =~= b@);
    true
}

/// Find a protocol among those that a client offers.
fn alpn_find<'a>(client: &'a [u8], proto: &[u8]) -> (found: Option<&'a [u8]>)
    ensures
        found is Some <==> alpn_offers(client@).contains(proto@),
        found matches Some(name) ==> name@ == proto@,
{
    let mut start: usize = 0;
    assert(client@.skip(0) =~= client@);
    while start < client.len()
        invariant_except_break
            alpn_offers(client@).contains(proto@) <==> alpn_offers(client@.skip(start as int)).contains(
                proto@,
            ),
        invariant
            start <= client@.len(),
        ensures
            !alpn_offers(client@).contains(proto@),
        decreases client@.len() - start,
    {
        let ghost rest = client@.skip(start as int);
        let len: usize = client[start] as usize;
        if len == 0 || len > client.len() - start - 1 {
            break;
        }
        let name = vstd::slice::slice_subrange(client, start + 1, start + 1 + len);
        proof {
            assert(name@ =~= rest.subrange(1, 1 + len));
            assert(client@.skip(start + 1 + len) =~= rest.skip(1 + len));
            let tail = alpn_offers(rest.skip(1 + len));
            assert(alpn_offers(rest) == seq![name@] + tail);
            assert forall|p: Seq<u8>| #[trigger] (seq![name@] + tail).contains(p) <==> (p == name@
                || tail.contains(p)) by {
                if tail.contains(p) {
                    let i = choose|i: int| 0 <= i < tail.len() && tail[i] == p;
                    assert((seq![name@] + tail)[i + 1] == p);
                }
                if p == name@ {
                    assert((seq![name@] + tail)[0] == p);
                }
            }
        }
        if same_bytes(name, proto) {
            return Some(name);
        }
        start = start + 1 + len;
    }
    None
}

/// Select the first protocol of the server that the client also offers, where the offers
/// are as they are written on the wire.
pub fn alpn_select<'a>(server: &[Vec<u8>], client: &'a [u8]) -> (selected: Option<&'a [u8]>)
    ensures
        match alpn_choice(server@, client@) {
            Some(name) => selected matches Some(proto) && proto@ == name,
            None => selected is None,
        },
{
    let mut index: usize = 0;
    assert(server@.skip(0) =~= server@);
    while index < server.len()
        invariant
            index <= server@.len(),
            alpn_choice(server@, client@) == alpn_choice(server@.skip(index as int), client@),
        decreases server@.len() - index,
    {
        assert(server@.skip(index as int).first() == server@[index as int]);
        assert(server@.skip(index as int).drop_first() =~= server@.skip(index + 1));
        if let Some(proto) = alpn_find(client, server[index].as_slice()) {
            return Some(proto);
        }
        index = index + 1;
    }
    None
}

/// What is selected is a protocol of the server that the client offers, and no protocol
/// that the server prefers to it is offered.
pub proof fn law_alpn_selects_what_the_server_prefers(server: Seq<Vec<u8>>, client: Seq<u8>)
    ensures
        match alpn_choice(server, client) {
            Some(name) => exists|i: int| #![trigger server[i]]
                {
                    &&& 0 <= i < server.len()
                    &&& server[i]@ == name
                    &&& alpn_offers(client).contains(name)
                    &&& forall|j: int|
                        0 <= j < i ==> !alpn_offers(client).contains((#[trigger] server[j])@)
                },
            None => forall|i: int|
                0 <= i < server.len() ==> !alpn_offers(client).contains((#[trigger] server[i])@),
        },
    decreases server.len(),
{
    if server.len() > 0 && !alpn_offers(client).contains(server.first()@) {
        let rest = server.drop_first();
        law_alpn_selects_what_the_server_prefers(rest, client);
        assert forall|j: int| 1 <= j < server.len() implies #[trigger] server[j] == rest[j - 1] by {}
        if alpn_choice(rest, client) is Some {
            let name = alpn_choice(rest, client)->0;
            let i = choose|i: int| #![trigger rest[i]]
                {
                    &&& 0 <= i < rest.len()
                    &&& rest[i]@ == name
                    &&& alpn_offers(client).contains(name)
                    &&& forall|j: int|
                        0 <= j < i ==> !alpn_offers(client).contains((#[trigger] rest[j])@)
                };
            assert(server[i + 1] == rest[i]);
            assert forall|j: int| 0 <= j < i + 1 implies !alpn_offers(client).contains(
                (#[trigger] server[j])@,
            ) by {
                if j > 0 {
                    assert(server[j] == rest[j - 1]);
                }
            }
        } else {
            assert forall|i: int| 0 <= i < server.len() implies !alpn_offers(client).contains(
                (#[trigger] server[i])@,
            ) by {
                if i > 0 {
                    assert(server[i] == rest[i - 1]);
                }
            }
        }
    } else if server.len() > 0 {
        assert(server[0] == server.first());
    }
}

/// How a private key is written down.
#[derive(Clone, Copy, Debug, PartialEq, Eq, Structural)]
pub enum KeyFormat {
    Pkcs8,
    Pkcs1,
    Sec1,
    /// A format that is not supported.
    Other,
}

/// A certificate chain, leaf first, and the private key that goes with it.
#[derive(Debug)]
pub struct CertifiedKey {
    pub chain: Vec<Vec<u8>>,
    pub format: KeyFormat,
    pub key: Vec<u8>,
}

/// How a client verifies the certificate of a server.
#[derive(Debug)]
pub enum ClientVerify {
    /// Against the default trust store.
    Default,
    /// Against an explicit set of root certificates.
    Roots(Vec<Vec<u8>>),
    /// By the SHA-256 of its encoding, which is to be one of these. This bypasses
    /// certificate authorities entirely.
    Hashes(Vec<[u8; 32]>),
}

/// One thing to be set up for TLS.
#[derive(Debug)]
pub enum TlsStep {
    /// Present this certificate.
    Leaf(Vec<u8>),
    /// Present this certificate too.
    Intermediate(Vec<u8>),
    /// Use this private key.
    Key(KeyFormat, Vec<u8>),
    /// Select a protocol out of these.
    Alpn(Vec<Vec<u8>>),
    /// Trust this certificate.
    Root(Vec<u8>),
    /// Trust the certificates given rather than the default ones, and require the peer to
    /// present one that leads to them.
    TrustRoots,
    /// Trust the peer if the hash of its certificate is one of these.
    TrustHashes(Vec<[u8; 32]>),
}

/// Resolves certificates dynamically, based on the name that a client asks for.
pub trait CertResolver: Send + Sync {
    /// The certificate to present to a client, if there is one for it.
    fn resolve(&self, server_name: Option<&str>) -> Option<CertifiedKey>;
}

/// Why TLS cannot be set up.
#[derive(Clone, Copy, Debug, PartialEq, Eq, Structural)]
pub enum TlsError {
    /// There is no certificate for the name that was asked for.
    Unresolved,
    /// There is no certificate to present.
    EmptyChain,
    /// The private key is in a format that is not supported.
    UnsupportedKey,
}

/// The steps that present a certificate: the leaf, what leads to it, and the key.
pub open spec fn certificate_steps(steps: Seq<TlsStep>, certified: CertifiedKey) -> bool {
    let chain = certified.chain@;
    &&& chain.len() > 0
    &&& steps.len() == chain.len() + 1
    &&& steps[0] == TlsStep::Leaf(chain[0])
    &&& forall|i: int| 1 <= i < chain.len() ==> #[trigger] steps[i] == TlsStep::Intermediate(chain[i])
    &&& steps[chain.len() as int] == TlsStep::Key(certified.format, certified.key)
}

/// Why a certificate cannot be presented, if it cannot.
pub open spec fn certificate_error(certified: CertifiedKey) -> Option<TlsError> {
    if certified.chain@.len() == 0 {
        Some(TlsError::EmptyChain)
    } else if certified.format is Other {
        Some(TlsError::UnsupportedKey)
    } else {
        None
    }
}

/// Plan how to present a certificate.
pub fn apply_cert(certified: CertifiedKey) -> (plan: Result<Vec<TlsStep>, TlsError>)
    ensures
        match certificate_error(certified) {
            Some(error) => plan == Err::<Vec<TlsStep>, TlsError>(error),
            None => plan matches Ok(steps) && certificate_steps(steps@, certified),
        },
{
    let ghost chain0 = certified.chain@;
    let mut chain = certified.chain;
    if chain.len() == 0 {
        return Err(TlsError::EmptyChain);
    }
    if let KeyFormat::Other = certified.format {
        return Err(TlsError::UnsupportedKey);
    }
    let mut steps: Vec<TlsStep> = Vec::new();
    let leaf = chain.remove(0);
    steps.push(TlsStep::Leaf(leaf));
    while chain.len() > 0
        invariant
            chain0.len() > 0,
            steps@.len() + chain@.len() == chain0.len(),
            steps@.len() >= 1,
            steps@[0] == TlsStep::Leaf(chain0[0]),
            forall|i: int| 1 <= i < steps@.len() ==> #[trigger] steps@[i] == TlsStep::Intermediate(chain0[i]),
            chain@ == chain0.skip(steps@.len() as int),
        decreases chain@.len(),
    {
        let cert = chain.remove(0);
        steps.push(TlsStep::Intermediate(cert));
        assert(chain@ =~= chain0.skip(steps@.len() as int));
    }
    steps.push(TlsStep::Key(certified.format, certified.key));
    Ok(steps)
}

/// The plan of a server whose certificate is resolved for each client: select a protocol,
/// if it has any.
pub fn dynamic_plan(alpn: Vec<Vec<u8>>) -> (steps: Vec<TlsStep>)
    ensures
        steps@ == if alpn@.len() == 0 {
            Seq::<TlsStep>::empty()
        } else {
            seq![TlsStep::Alpn(alpn)]
        },
{
    let mut steps: Vec<TlsStep> = Vec::new();
    if alpn.len() > 0 {
        steps.push(TlsStep::Alpn(alpn));
    }
    steps
}

/// The plan of a server: present a certificate, and select a protocol if it has any.
pub fn server_plan(certified: CertifiedKey, alpn: Vec<Vec<u8>>) -> (plan: Result<Vec<TlsStep>, TlsError>)
    ensures
        match certificate_error(certified) {
            Some(error) => plan == Err::<Vec<TlsStep>, TlsError>(error),
            None => plan matches Ok(steps) && if alpn@.len() == 0 {
                certificate_steps(steps@, certified)
            } else {
                &&& steps@.len() > 0
                &&& certificate_steps(steps@.drop_last(), certified)
                &&& steps@.last() == TlsStep::Alpn(alpn)
            },
        },
{
    let mut steps = match apply_cert(certified) {
        Ok(steps) => steps,
        Err(error) => return Err(error),
    };
    if alpn.len() > 0 {
        let ghost before = steps@;
        steps.push(TlsStep::Alpn(alpn));
        assert(steps@.drop_last() =~= before);
    }
    Ok(steps)
}

/// The plan of a server for one client: present the certificate that was resolved for it,
/// if there is one.
pub fn resolved_plan(resolved: Option<CertifiedKey>) -> (plan: Result<Vec<TlsStep>, TlsError>)
    ensures
        match resolved {
            None => plan == Err::<Vec<TlsStep>, TlsError>(TlsError::Unresolved),
            Some(certified) => match certificate_error(certified) {
                Some(error) => plan == Err::<Vec<TlsStep>, TlsError>(error),
                None => plan matches Ok(steps) && certificate_steps(steps@, certified),
            },
        },
{
    match resolved {
        Some(certified) => apply_cert(certified),
        None => Err(TlsError::Unresolved),
    }
}

/// The steps that set up how a client verifies a server.
pub open spec fn verify_steps(verify: ClientVerify) -> Seq<TlsStep> {
    match verify {
        ClientVerify::Default => Seq::empty(),
        ClientVerify::Roots(roots) => roots@.map_values(|root: Vec<u8>| TlsStep::Root(root)).push(
            TlsStep::TrustRoots,
        ),
        ClientVerify::Hashes(hashes) => seq![TlsStep::TrustHashes(hashes)],
    }
}

/// The plan of a client: present a certificate if it has one, and verify that of the
/// server.
pub fn client_plan(certified: Option<CertifiedKey>, verify: ClientVerify) -> (plan: Result<
    Vec<TlsStep>,
    TlsError,
>)
    ensures
        match certified {
            None => plan matches Ok(steps) && steps@ == verify_steps(verify),
            Some(certified) => match certificate_error(certified) {
                Some(error) => plan == Err::<Vec<TlsStep>, TlsError>(error),
                None => plan matches Ok(steps) && {
                    let own = certified.chain@.len() + 1;
                    &&& certificate_steps(steps@.take(own as int), certified)
                    &&& steps@ == steps@.take(own as int) + verify_steps(verify)
                },
            },
        },
{
    let mut steps: Vec<TlsStep> = Vec::new();
    if let Some(certified) = certified {
        steps = match apply_cert(certified) {
            Ok(steps) => steps,
            Err(error) => return Err(error),
        };
    }
    let ghost own = steps@;
    match verify {
        ClientVerify::Default => {},
        ClientVerify::Roots(roots) => {
            let ghost roots0 = roots@;
            let mut roots = roots;
            while roots.len() > 0
                invariant
                    own.len() <= steps@.len(),
                    steps@.len() - own.len() + roots@.len() == roots0.len(),
                    roots@ == roots0.skip(steps@.len() - own.len()),
                    steps@ == own + roots0.take(steps@.len() - own.len()).map_values(
                        |root: Vec<u8>| TlsStep::Root(root),
                    ),
                decreases roots@.len(),
            {
                let ghost done = steps@.len() - own.len();
                let root = roots.remove(0);
                steps.push(TlsStep::Root(root));
                proof {
                    assert(roots@ =~= roots0.skip(done + 1));
                    assert(steps@ =~= own + roots0.take(done + 1).map_values(
                        |root: Vec<u8>| TlsStep::Root(root),
                    ));
                }
            }
            assert(roots0.take(roots0.len() as int) =~= roots0);
            steps.push(TlsStep::TrustRoots);
        },
        ClientVerify::Hashes(hashes) => {
            steps.push(TlsStep::TrustHashes(hashes));
        },
    }
    proof {
        assert(steps@ =~= own + verify_steps(verify));
        assert(steps@.take(own.len() as int) =~= own);
    }
    Ok(steps)
}

/// What is known of the certificate that a peer presents.
pub enum PeerCertificate {
    /// It presents none.
    Missing,
    /// Its hash cannot be computed.
    Unhashable,
    /// Its hash.
    Digest(Vec<u8>),
}

/// Why a peer is not trusted.
#[derive(Clone, Copy, Debug, PartialEq, Eq, Structural)]
pub enum CertificateAlert {
    CertificateUnknown,
    BadCertificate,
    BadCertificateHashValue,
}

/// Whether a hash is one of those given.
pub open spec fn is_listed(hashes: Seq<[u8; 32]>, digest: Seq<u8>) -> bool {
    exists|i: int| 0 <= i < hashes.len() && (#[trigger] hashes[i])@ == digest
}

/// Trust a peer if, and only if, the hash of its certificate is one of those given.
pub fn verify_hash(hashes: &Vec<[u8; 32]>, peer: PeerCertificate) -> (result: Result<(), CertificateAlert>)
    ensures
        result == match peer {
            PeerCertificate::Missing => Err(CertificateAlert::CertificateUnknown),
            PeerCertificate::Unhashable => Err(CertificateAlert::BadCertificate),
            PeerCertificate::Digest(digest) => if is_listed(hashes@, digest@) {
                Ok(())
            } else {
                Err(CertificateAlert::BadCertificateHashValue)
            },
        },
{
    let digest = match peer {
        PeerCertificate::Missing => return Err(CertificateAlert::CertificateUnknown),
        PeerCertificate::Unhashable => return Err(CertificateAlert::BadCertificate),
        PeerCertificate::Digest(digest) => digest,
    };
    let mut index: usize = 0;
    while index < hashes.len()
        invariant
            peer == PeerCertificate::Digest(digest),
            index <= hashes@.len(),
            forall|i: int| 0 <= i < index ==> (#[trigger] hashes@[i])@ != digest@,
        decreases hashes@.len() - index,
    {
        if same_bytes(hashes[index].as_slice(), digest.as_slice()) {
            assert(hashes@[index as int]@ == digest@);
            return Ok(());
        }
        index = index + 1;
    }
    Err(CertificateAlert::BadCertificateHashValue)
}

/// What is selected is a protocol of the server that the client offers, the one that the
/// server prefers of those; there is none to select exactly if the client offers none of the
/// server's.
pub proof fn law_the_server_prefers_what_is_selected(server: &[Vec<u8>], client: &[u8], selected: Option<&[u8]>)
    requires
        call_ensures(alpn_select, (server, client), selected),
    ensures
        match selected {
            Some(name) => exists|i: int| #![trigger server@[i]]
                {
                    &&& 0 <= i < server@.len()
                    &&& server@[i]@ == name@
                    &&& alpn_offers(client@).contains(name@)
                    &&& forall|j: int|
                        0 <= j < i ==> !alpn_offers(client@).contains((#[trigger] server@[j])@)
                },
            None => forall|i: int|
                0 <= i < server@.len() ==> !alpn_offers(client@).contains((#[trigger] server@[i])@),
        },
{
    law_alpn_selects_what_the_server_prefers(server@, client@);
}

/// A list of protocols as a client writes it: each with its length in front.
pub open spec fn written_offers(names: Seq<Seq<u8>>) -> Seq<u8>
    decreases names.len(),
{
    if names.len() == 0 {
        Seq::empty()
    } else {
        seq![names[0].len() as u8] + names[0] + written_offers(names.drop_first())
    }
}

/// The protocols that a client writes down are the ones that the server reads, in order.
pub proof fn law_offers_are_read_as_they_are_written(names: Seq<Seq<u8>>)
    requires
        forall|i: int| 0 <= i < names.len() ==> 0 < (#[trigger] names[i]).len() < 256,
    ensures
        alpn_offers(written_offers(names)) == names,
    decreases names.len(),
{
    if names.len() > 0 {
        let rest = names.drop_first();
        let bytes = written_offers(names);
        let len = names[0].len() as int;
        assert forall|i: int| 0 <= i < rest.len() implies 0 < (#[trigger] rest[i]).len() < 256 by {
            assert(rest[i] == names[i + 1]);
        }
        law_offers_are_read_as_they_are_written(rest);
        assert(0 < names[0].len() < 256);
        assert(bytes[0] as int == len);
        assert(bytes.subrange(1, 1 + len) =~= names[0]);
        assert(bytes.skip(1 + len) =~= written_offers(rest));
        assert(seq![names[0]] + rest =~= names);
    } else {
        assert(alpn_offers(written_offers(names)) =~= names);
    }
}

/// What a plan presents of a certificate: the certificates of the chain, in order and with
/// the leaf as such, and then its key.
pub open spec fn presents(steps: Seq<TlsStep>, certified: CertifiedKey) -> bool {
    &&& steps.len() == certified.chain@.len() + 1
    &&& forall|i: int|
        0 <= i < certified.chain@.len() ==> match #[trigger] steps[i] {
            TlsStep::Leaf(der) => i == 0 && der == certified.chain@[0],
            TlsStep::Intermediate(der) => i > 0 && der == certified.chain@[i],
            _ => false,
        }
    &&& steps.last() == TlsStep::Key(certified.format, certified.key)
}

/// A certificate is presented exactly if it has a chain and a key that can be used, and then
/// all of it is. A server presents the one that it has, or that was resolved for the client,
/// and selects a protocol after that exactly if it has any.
pub proof fn law_a_server_presents_all_of_its_certificate(
    certified: CertifiedKey,
    alpn: Vec<Vec<u8>>,
    plan: Result<Vec<TlsStep>, TlsError>,
)
    ensures
        call_ensures(apply_cert, (certified,), plan) || call_ensures(
            resolved_plan,
            (Some(certified),),
            plan,
        ) ==> {
            &&& usable_or_refused(certified, plan)
            &&& plan matches Ok(steps) ==> presents(steps@, certified)
        },
        call_ensures(resolved_plan, (None,), plan) ==> plan is Err && plan->Err_0 is Unresolved,
        call_ensures(server_plan, (certified, alpn), plan) ==> {
            &&& usable_or_refused(certified, plan)
            &&& plan matches Ok(steps) ==> if alpn@.len() == 0 {
                presents(steps@, certified)
            } else {
                presents(steps@.drop_last(), certified) && steps@.last() == TlsStep::Alpn(alpn)
            }
        },
        forall|steps: Vec<TlsStep>|
            #[trigger] call_ensures(dynamic_plan, (alpn,), steps) ==> {
                &&& alpn@.len() == 0 <==> steps@.len() == 0
                &&& alpn@.len() > 0 ==> steps@.len() == 1 && steps@[0] == TlsStep::Alpn(alpn)
            },
{
}

/// Whether a plan fails exactly because there is no certificate to present, or else because
/// its key cannot be used.
pub open spec fn usable_or_refused<T>(certified: CertifiedKey, plan: Result<T, TlsError>) -> bool {
    &&& plan is Ok <==> certified.chain@.len() > 0 && certified.format != KeyFormat::Other
    &&& plan matches Err(error) ==> (if certified.chain@.len() == 0 {
        error is EmptyChain
    } else {
        error is UnsupportedKey
    })
}

/// What a client sets up to verify a server: nothing but the default; or every root that it
/// was given, which then replace the default; or all of the hashes that it was given.
pub open spec fn verifies(steps: Seq<TlsStep>, verify: ClientVerify) -> bool {
    match verify {
        ClientVerify::Default => steps.len() == 0,
        ClientVerify::Roots(roots) => {
            &&& steps.len() == roots@.len() + 1
            &&& forall|i: int| 0 <= i < roots@.len() ==> #[trigger] steps[i] == TlsStep::Root(roots@[i])
            &&& steps.last() is TrustRoots
        },
        ClientVerify::Hashes(hashes) => steps.len() == 1 && steps[0] == TlsStep::TrustHashes(hashes),
    }
}

/// A client presents all of the certificate that it was given, if it was, and sets up how it
/// verifies the server as it was told.
pub proof fn law_a_client_verifies_as_it_was_told(
    certified: Option<CertifiedKey>,
    verify: ClientVerify,
    plan: Result<Vec<TlsStep>, TlsError>,
)
    requires
        call_ensures(client_plan, (certified, verify), plan),
    ensures
        certified is None ==> plan is Ok && verifies(plan->Ok_0@, verify),
        certified is Some ==> usable_or_refused(certified->0, plan) && (plan is Ok ==> {
            let own = (certified->0).chain@.len() as int + 1;
            &&& own <= plan->Ok_0@.len()
            &&& presents(plan->Ok_0@.take(own), certified->0)
            &&& verifies(plan->Ok_0@.skip(own), verify)
        }),
{
    if certified is Some && plan is Ok {
        let own = (certified->0).chain@.len() as int + 1;
        assert(plan->Ok_0@.skip(own) =~= verify_steps(verify));
    }
}

/// A peer is trusted exactly if the hash of its certificate is among those given; a peer
/// without one, or whose certificate cannot be hashed, never is.
pub proof fn law_only_a_listed_hash_is_trusted(
    hashes: &Vec<[u8; 32]>,
    peer: PeerCertificate,
    result: Result<(), CertificateAlert>,
)
    requires
        call_ensures(verify_hash, (hashes, peer), result),
    ensures
        result is Ok <==> peer is Digest && exists|i: int|
            0 <= i < hashes@.len() && (#[trigger] hashes@[i])@ == peer->Digest_0@,
        result is Err ==> result->Err_0 == match peer {
            PeerCertificate::Missing => CertificateAlert::CertificateUnknown,
            PeerCertificate::Unhashable => CertificateAlert::BadCertificate,
            PeerCertificate::Digest(_) => CertificateAlert::BadCertificateHashValue,
        },
{
}

} // verus!
