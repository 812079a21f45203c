//! TLS as far as the proxy looks at it: what is known of a handshake, the backend's certificate,
//! and the certificates and keys in PEM files.
use crate::digest::{absorb, absorbed, digest_of, encode_hex, hex_text, new_hasher, sha256};
use crate::text::{copy_bytes, copy_text, joined, opt_text};
use rama::tls::rustls::dep::pki_types::PrivateKeyDer;
use vstd::prelude::*;

verus! {

/// What is logged of the TLS session with the client.
#[derive(Debug, Clone)]
pub struct FrontendTlsMetadata {
    pub version: Option<String>,
    pub cipher_suite: Option<String>,
    pub alpn: Option<String>,
    pub sni: Option<String>,
    pub ja3: Option<String>,
    pub ja4: Option<String>,
}

/// What is logged of the TLS session with the backend. Points in time are nanoseconds since 1970.
#[derive(Debug, Clone)]
pub struct BackendTlsMetadata {
    pub version: Option<String>,
    pub cipher_suite: Option<String>,
    pub alpn: Option<String>,
    pub sni: Option<String>,
    pub cert_leaf_sha256: Option<String>,
    pub cert_subject: Option<String>,
    pub cert_issuer: Option<String>,
    pub cert_not_before: Option<i128>,
    pub cert_not_after: Option<i128>,
}

impl Default for FrontendTlsMetadata {
    fn default() -> (metadata: FrontendTlsMetadata)
        ensures
            metadata == (FrontendTlsMetadata {
                version: None,
                cipher_suite: None,
                alpn: None,
                sni: None,
                ja3: None,
                ja4: None,
            }),
    {
        FrontendTlsMetadata {
            version: None,
            cipher_suite: None,
            alpn: None,
            sni: None,
            ja3: None,
            ja4: None,
        }
    }
}

impl BackendTlsMetadata {
    /// Nothing known of the session.
    pub open spec fn unknown() -> BackendTlsMetadata {
        BackendTlsMetadata {
            version: None,
            cipher_suite: None,
            alpn: None,
            sni: None,
            cert_leaf_sha256: None,
            cert_subject: None,
            cert_issuer: None,
            cert_not_before: None,
            cert_not_after: None,
        }
    }
}

impl Default for BackendTlsMetadata {
    fn default() -> (metadata: BackendTlsMetadata)
        ensures
            metadata == BackendTlsMetadata::unknown(),
    {
        BackendTlsMetadata {
            version: None,
            cipher_suite: None,
            alpn: None,
            sni: None,
            cert_leaf_sha256: None,
            cert_subject: None,
            cert_issuer: None,
            cert_not_before: None,
            cert_not_after: None,
        }
    }
}

/// What a handshake agreed on: the protocol version, the application protocol and, where they
/// were kept, the peer's certificates in DER, the leaf first.
#[derive(Debug, Clone)]
pub struct NegotiatedTls {
    pub version: String,
    pub alpn: Option<String>,
    pub peer_certificates: Option<Vec<Vec<u8>>>,
}

/// What is logged of the TLS session with the client: what the handshake agreed on, the server
/// name that the client asked for and the client's fingerprints.
pub fn frontend_tls_metadata(
    negotiated: &Option<NegotiatedTls>,
    sni: Option<String>,
    ja3: Option<String>,
    ja4: Option<String>,
) -> (metadata: FrontendTlsMetadata)
    ensures
        opt_text(metadata.version) == match *negotiated {
            Some(params) => Some(params.version@),
            None => None,
        },
        opt_text(metadata.alpn) == match *negotiated {
            Some(params) => opt_text(params.alpn),
            None => None,
        },
        metadata.cipher_suite is None,
        metadata.sni == sni,
        metadata.ja3 == ja3,
        metadata.ja4 == ja4,
{
    let mut metadata = FrontendTlsMetadata::default();
    if let Some(params) = negotiated {
        metadata.version = Some(params.version.clone());
        metadata.alpn = copy_text(&params.alpn);
    }
    metadata.sni = sni;
    metadata.ja3 = ja3;
    metadata.ja4 = ja4;
    metadata
}

/// What a certificate says: whom it is for, who issued it and when it is valid.
#[derive(Debug, Clone)]
pub struct CertificateFacts {
    pub subject: String,
    pub issuer: String,
    pub not_before: i128,
    pub not_after: i128,
}

/// What a `CertificateFacts` holds.
pub ghost struct CertificateView {
    pub subject: Seq<char>,
    pub issuer: Seq<char>,
    pub not_before: i128,
    pub not_after: i128,
}

impl View for CertificateFacts {
    type V = CertificateView;

    open spec fn view(&self) -> CertificateView {
        CertificateView {
            subject: self.subject@,
            issuer: self.issuer@,
            not_before: self.not_before,
            not_after: self.not_after,
        }
    }
}

/// What x509-parser reads from a certificate in DER, where it is one.
pub uninterp spec fn certificate_facts(der: Seq<u8>) -> Option<CertificateView>;

/// `x509_parser::parse_x509_certificate`, which is `X509Certificate::from_der`, refuses bytes or
/// reads a certificate: its subject and issuer as texts and the ends of its validity. How a
/// certificate is read is not spelled out here.
#[verifier::external_body]
fn read_certificate(der: &[u8]) -> (facts: Option<CertificateFacts>)
    ensures
        match facts {
            Some(facts) => certificate_facts(der@) == Some(facts@),
            None => certificate_facts(der@) is None,
        },
{
    let parsed = x509_parser::parse_x509_certificate(der).ok();
    parsed.map(|(_, cert)| CertificateFacts {
        subject: cert.subject().to_string(),
        issuer: cert.issuer().to_string(),
        not_before: cert.validity().not_before.to_datetime().unix_timestamp_nanos(),
        not_after: cert.validity().not_after.to_datetime().unix_timestamp_nanos(),
    })
}

impl BackendTlsMetadata {
    /// Whether metadata is `before` with what is known of a certificate filled in: the digest of
    /// its bytes and, where they could be read, what it says.
    pub open spec fn fills_in(
        self,
        before: BackendTlsMetadata,
        der: Seq<u8>,
        facts: Option<CertificateView>,
    ) -> bool {
        &&& self.version == before.version
        &&& self.cipher_suite == before.cipher_suite
        &&& self.alpn == before.alpn
        &&& self.sni == before.sni
        &&& opt_text(self.cert_leaf_sha256) == Some(hex_text(sha256(der)))
        &&& match facts {
            Some(facts) => {
                &&& opt_text(self.cert_subject) == Some(facts.subject)
                &&& opt_text(self.cert_issuer) == Some(facts.issuer)
                &&& self.cert_not_before == Some(facts.not_before)
                &&& self.cert_not_after == Some(facts.not_after)
            },
            None => {
                &&& self.cert_subject == before.cert_subject
                &&& self.cert_issuer == before.cert_issuer
                &&& self.cert_not_before == before.cert_not_before
                &&& self.cert_not_after == before.cert_not_after
            },
        }
    }
}

/// Fills in what is known of a certificate, given what was read from it.
pub fn fill_in_certificate(
    metadata: &mut BackendTlsMetadata,
    leaf: &[u8],
    facts: Option<CertificateFacts>,
)
    ensures
        final(metadata).fills_in(
            *old(metadata),
            leaf@,
            match facts {
                Some(facts) => Some(facts@),
                None => None,
            },
        ),
{
    let mut hasher = new_hasher();
    absorb(&mut hasher, leaf);
    assert(absorbed(hasher) == leaf@);
    metadata.cert_leaf_sha256 = Some(encode_hex(digest_of(&hasher).as_slice()));
    if let Some(facts) = facts {
        metadata.cert_subject = Some(facts.subject);
        metadata.cert_issuer = Some(facts.issuer);
        metadata.cert_not_before = Some(facts.not_before);
        metadata.cert_not_after = Some(facts.not_after);
    }
}

/// Fills in what is known of the first certificate of a chain.
pub fn populate_cert_metadata(metadata: &mut BackendTlsMetadata, chain: &Vec<Vec<u8>>)
    ensures
        chain@.len() == 0 ==> *final(metadata) == *old(metadata),
        chain@.len() > 0 ==> final(metadata).fills_in(
            *old(metadata),
            chain@[0]@,
            certificate_facts(chain@[0]@),
        ),
{
    if chain.len() > 0 {
        let facts = read_certificate(chain[0].as_slice());
        fill_in_certificate(metadata, chain[0].as_slice(), facts);
    }
}

impl BackendTlsMetadata {
    /// Whether metadata is what is logged of a session: the server name that was asked for, what
    /// the handshake agreed on and what is known of the backend's certificate.
    pub open spec fn is_of_session(
        self,
        negotiated: Option<NegotiatedTls>,
        configured_sni: Seq<char>,
    ) -> bool {
        &&& opt_text(self.sni) == Some(configured_sni)
        &&& self.cipher_suite is None
        &&& opt_text(self.version) == match negotiated {
            Some(params) => Some(params.version@),
            None => None,
        }
        &&& opt_text(self.alpn) == match negotiated {
            Some(params) => opt_text(params.alpn),
            None => None,
        }
        &&& match negotiated {
            Some(
                NegotiatedTls { peer_certificates: Some(chain), .. },
            ) if chain@.len() > 0 => self.fills_in(
                (BackendTlsMetadata {
                    version: self.version,
                    alpn: self.alpn,
                    sni: self.sni,
                    ..BackendTlsMetadata::unknown()
                }),
                chain@[0]@,
                certificate_facts(chain@[0]@),
            ),
            _ => {
                &&& self.cert_leaf_sha256 is None
                &&& self.cert_subject is None
                &&& self.cert_issuer is None
                &&& self.cert_not_before is None
                &&& self.cert_not_after is None
            },
        }
    }
}

/// What is logged of the TLS session with the backend.
pub fn backend_tls_metadata(negotiated: &Option<NegotiatedTls>, configured_sni: &str) -> (metadata:
    BackendTlsMetadata)
    ensures
        metadata.is_of_session(*negotiated, configured_sni@),
{
    let mut metadata = BackendTlsMetadata::default();
    metadata.sni = Some(configured_sni.to_owned());
    if let Some(params) = negotiated {
        metadata.version = Some(params.version.clone());
        metadata.alpn = copy_text(&params.alpn);
        if let Some(chain) = &params.peer_certificates {
            populate_cert_metadata(&mut metadata, chain);
        }
    }
    metadata
}

// ---------------------------------------------------------------------------
// PEM files and trust roots
// ---------------------------------------------------------------------------

/// Why certificates or a key cannot be used.
#[derive(Debug, Clone)]
pub enum TlsError {
    UnreadableCertificates(String),
    NoCertificates(String),
    UnreadableKey(String),
    NoPrivateKey(String),
    NoTrustRoots,
}

impl TlsError {
    /// The message that describes the error.
    pub open spec fn message_text(self) -> Seq<char> {
        match self {
            TlsError::UnreadableCertificates(path) => "read PEM cert chain from "@ + path@,
            TlsError::NoCertificates(path) => "no certificates found in "@ + path@,
            TlsError::UnreadableKey(path) => "read PEM private key from "@ + path@,
            TlsError::NoPrivateKey(path) => "no private key found in "@ + path@,
            TlsError::NoTrustRoots => "no trust roots were loaded for upstream TLS verification"@,
        }
    }

    /// The message that describes the error.
    pub fn message(&self) -> (text: String)
        ensures
            text@ == self.message_text(),
    {
        match self {
            TlsError::UnreadableCertificates(path) => joined(
                "read PEM cert chain from ",
                path.as_str(),
            ),
            TlsError::NoCertificates(path) => joined("no certificates found in ", path.as_str()),
            TlsError::UnreadableKey(path) => joined("read PEM private key from ", path.as_str()),
            TlsError::NoPrivateKey(path) => joined("no private key found in ", path.as_str()),
            TlsError::NoTrustRoots => "no trust roots were loaded for upstream TLS verification".to_owned(),
        }
    }
}

/// The bytes of a list of runs of bytes.
pub open spec fn byte_views(list: Seq<Vec<u8>>) -> Seq<Seq<u8>> {
    list.map_values(|bytes: Vec<u8>| bytes@)
}

/// The certificates that rustls-pemfile reads from a PEM file, where it can be read throughout.
pub uninterp spec fn pem_certificates(pem: Seq<u8>) -> Option<Seq<Seq<u8>>>;

/// `rustls_pemfile::certs` reads the certificates of a PEM file in their order, or fails. How PEM
/// is read is not spelled out here.
#[verifier::external_body]
fn read_pem_certificates(pem: &[u8]) -> (certificates: Option<Vec<Vec<u8>>>)
    ensures
        match certificates {
            Some(certificates) => pem_certificates(pem@) == Some(byte_views(certificates@)),
            None => pem_certificates(pem@) is None,
        },
{
    let mut reader = pem;
    rustls_pemfile::certs(&mut reader).map(|cert| cert.ok().map(|der| der.to_vec())).collect()
}

/// How a private key is encoded.
#[derive(Debug, Clone, Copy, PartialEq, Eq, Structural)]
pub enum KeyKind {
    Pkcs1,
    Pkcs8,
    Sec1,
    /// None of the encodings above.
    Other,
}

/// A private key in DER.
#[derive(Clone)]
pub struct PrivateKey {
    pub kind: KeyKind,
    pub der: Vec<u8>,
}

/// What a `PrivateKey` holds.
pub ghost struct PrivateKeyView {
    pub kind: KeyKind,
    pub der: Seq<u8>,
}

impl View for PrivateKey {
    type V = PrivateKeyView;

    open spec fn view(&self) -> PrivateKeyView {
        PrivateKeyView { kind: self.kind, der: self.der@ }
    }
}

/// The private key that rustls-pemfile reads from a PEM file: nothing where the file cannot be
/// read, and else the first key, where there is one.
pub uninterp spec fn pem_private_key(pem: Seq<u8>) -> Option<Option<PrivateKeyView>>;

/// `rustls_pemfile::private_key` reads the first private key of a PEM file, in DER, with its kind,
/// finds none, or fails. How PEM is read is not spelled out here.
#[verifier::external_body]
fn read_pem_private_key(pem: &[u8]) -> (key: Option<Option<PrivateKey>>)
    ensures
        match key {
            Some(Some(key)) => pem_private_key(pem@) == Some(Some(key@)),
            Some(None) => pem_private_key(pem@) == Some(None::<PrivateKeyView>),
            None => pem_private_key(pem@) is None,
        },
{
    let mut reader = pem;
    rustls_pemfile::private_key(&mut reader).ok().map(|key| key.map(|key| PrivateKey {
        kind: match &key {
            PrivateKeyDer::Pkcs1(_) => KeyKind::Pkcs1,
            PrivateKeyDer::Pkcs8(_) => KeyKind::Pkcs8,
            PrivateKeyDer::Sec1(_) => KeyKind::Sec1,
            _ => KeyKind::Other,
        },
        der: key.secret_der().to_vec(),
    }))
}

/// Accepts the certificates that were read from a file, unless there are none.
pub fn accept_cert_chain(certificates: Option<Vec<Vec<u8>>>, path: &str) -> (result: Result<
    Vec<Vec<u8>>,
    TlsError,
>)
    ensures
        match certificates {
            None => result matches Err(TlsError::UnreadableCertificates(named)) && named@ == path@,
            Some(certificates) => if certificates@.len() == 0 {
                result matches Err(TlsError::NoCertificates(named)) && named@ == path@
            } else {
                result == Ok::<Vec<Vec<u8>>, TlsError>(certificates)
            },
        },
{
    match certificates {
        None => Err(TlsError::UnreadableCertificates(path.to_owned())),
        Some(certificates) => {
            if certificates.len() == 0 {
                Err(TlsError::NoCertificates(path.to_owned()))
            } else {
                Ok(certificates)
            }
        },
    }
}

/// The certificate chain in the contents of a PEM file.
pub fn load_cert_chain(pem: &[u8], path: &str) -> (result: Result<Vec<Vec<u8>>, TlsError>)
    ensures
        match pem_certificates(pem@) {
            None => result matches Err(TlsError::UnreadableCertificates(named)) && named@ == path@,
            Some(certificates) => if certificates.len() == 0 {
                result matches Err(TlsError::NoCertificates(named)) && named@ == path@
            } else {
                result matches Ok(chain) && byte_views(chain@) == certificates
            },
        },
{
    accept_cert_chain(read_pem_certificates(pem), path)
}

/// Accepts the private key that was read from a file, unless there is none.
pub fn accept_private_key(key: Option<Option<PrivateKey>>, path: &str) -> (result: Result<
    PrivateKey,
    TlsError,
>)
    ensures
        match key {
            None => result matches Err(TlsError::UnreadableKey(named)) && named@ == path@,
            Some(None) => result matches Err(TlsError::NoPrivateKey(named)) && named@ == path@,
            Some(Some(key)) => result == Ok::<PrivateKey, TlsError>(key),
        },
{
    match key {
        None => Err(TlsError::UnreadableKey(path.to_owned())),
        Some(None) => Err(TlsError::NoPrivateKey(path.to_owned())),
        Some(Some(key)) => Ok(key),
    }
}

/// The private key in the contents of a PEM file, in DER, with its kind.
pub fn load_private_key(pem: &[u8], path: &str) -> (result: Result<PrivateKey, TlsError>)
    ensures
        match pem_private_key(pem@) {
            None => result matches Err(TlsError::UnreadableKey(named)) && named@ == path@,
            Some(None) => result matches Err(TlsError::NoPrivateKey(named)) && named@ == path@,
            Some(Some(read)) => result matches Ok(key) && key@ == read,
        },
{
    accept_private_key(read_pem_private_key(pem), path)
}

/// The certificates to trust: those of the machine and, behind them, those of the CA bundle.
pub fn load_root_store(native: Vec<Vec<u8>>, bundle: Option<Vec<Vec<u8>>>) -> (result: Result<
    Vec<Vec<u8>>,
    TlsError,
>)
    ensures
        ({
            let roots = byte_views(native@) + match bundle {
                Some(bundle) => byte_views(bundle@),
                None => Seq::empty(),
            };
            if roots.len() == 0 {
                result == Err::<Vec<Vec<u8>>, TlsError>(TlsError::NoTrustRoots)
            } else {
                result matches Ok(store) && byte_views(store@) == roots
            }
        }),
{
    let ghost machine = byte_views(native@);
    let mut store = native;
    if let Some(bundle) = &bundle {
        let mut i: usize = 0;
        while i < bundle.len()
            invariant
                i <= bundle.len(),
                byte_views(store@) == machine + byte_views(bundle@).take(i as int),
            decreases bundle.len() - i,
        {
            let ghost before = store@;
            let copy = copy_bytes(bundle[i].as_slice());
            store.push(copy);
            assert(byte_views(store@) =~= byte_views(before).push(copy@));
            assert(byte_views(bundle@).take(i + 1) =~= byte_views(bundle@).take(i as int).push(
                bundle@[i as int]@,
            ));
            i += 1;
        }
        assert(byte_views(bundle@).take(i as int) =~= byte_views(bundle@));
    }
    if store.len() == 0 {
        Err(TlsError::NoTrustRoots)
    } else {
        Ok(store)
    }
}

/// What is logged of a session with the backend is what the handshake agreed on, the server name
/// that was asked for, and what the first certificate of the backend says.
pub proof fn sessions_are_logged_as_agreed(
    metadata: BackendTlsMetadata,
    negotiated: Option<NegotiatedTls>,
    sni: Seq<char>,
)
    requires
        metadata.is_of_session(negotiated, sni),
    ensures
        opt_text(metadata.sni) == Some(sni),
        negotiated is None ==> metadata.version is None && metadata.alpn is None
            && metadata.cert_leaf_sha256 is None && metadata.cert_subject is None,
        negotiated matches Some(params) ==> opt_text(metadata.version) == Some(params.version@)
            && opt_text(metadata.alpn) == opt_text(params.alpn),
        negotiated matches Some(NegotiatedTls { peer_certificates: Some(chain), .. }) ==> chain@.len()
            > 0 ==> {
            &&& opt_text(metadata.cert_leaf_sha256) == Some(hex_text(sha256(chain@[0]@)))
            &&& certificate_facts(chain@[0]@) matches Some(facts) ==> {
                &&& opt_text(metadata.cert_subject) == Some(facts.subject)
                &&& opt_text(metadata.cert_issuer) == Some(facts.issuer)
                &&& metadata.cert_not_before == Some(facts.not_before)
                &&& metadata.cert_not_after == Some(facts.not_after)
            }
            &&& certificate_facts(chain@[0]@) is None ==> metadata.cert_subject is None
                && metadata.cert_issuer is None && metadata.cert_not_before is None
                && metadata.cert_not_after is None
        },
        negotiated matches Some(params) && (params.peer_certificates is None
            || params.peer_certificates->0@.len() == 0) ==> metadata.cert_leaf_sha256 is None
            && metadata.cert_subject is None && metadata.cert_issuer is None,
        metadata.cipher_suite is None,
{
}

/// Filling in a certificate changes nothing but what is known of the certificate.
pub proof fn certificates_are_filled_in(
    before: BackendTlsMetadata,
    after: BackendTlsMetadata,
    der: Seq<u8>,
    facts: CertificateView,
)
    requires
        after.fills_in(before, der, Some(facts)),
    ensures
        after.version == before.version,
        after.alpn == before.alpn,
        after.sni == before.sni,
        after.cipher_suite == before.cipher_suite,
        opt_text(after.cert_leaf_sha256) == Some(hex_text(sha256(der))),
        opt_text(after.cert_subject) == Some(facts.subject),
        opt_text(after.cert_issuer) == Some(facts.issuer),
        after.cert_not_before == Some(facts.not_before),
        after.cert_not_after == Some(facts.not_after),
{
}

/// Errors about certificates and keys say which file they are about.
pub proof fn errors_name_the_file(path: String)
    ensures
        TlsError::UnreadableCertificates(path).message_text() == "read PEM cert chain from "@ + path@,
        TlsError::NoCertificates(path).message_text() == "no certificates found in "@ + path@,
        TlsError::UnreadableKey(path).message_text() == "read PEM private key from "@ + path@,
        TlsError::NoPrivateKey(path).message_text() == "no private key found in "@ + path@,
        TlsError::NoTrustRoots.message_text()
            == "no trust roots were loaded for upstream TLS verification"@,
{
}

/// Keys, certificates and runs of bytes are taken for what they hold.
pub proof fn keys_are_what_they_hold(key: PrivateKey, list: Seq<Vec<u8>>, i: int)
    ensures
        key@.kind == key.kind,
        key@.der == key.der@,
        byte_views(list).len() == list.len(),
        0 <= i < list.len() ==> byte_views(list)[i] == list[i]@,
{
}

} // verus!
