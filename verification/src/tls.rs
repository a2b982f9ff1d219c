//! TLS protocol versions and certificate summaries.
use vstd::prelude::*;
use crate::error::PlatformError;
use crate::plugin::event_bus::copy_bytes;
use crate::text::{owned, pad_zeros, push_str, radix_chars, radix_digits, string_of, views, zero_padded};
use rustls::pki_types::{
    CertificateDer, PrivateKeyDer, PrivatePkcs1KeyDer, PrivatePkcs8KeyDer, PrivateSec1KeyDer,
    ServerName,
};
use rustls::{ClientConfig, RootCertStore, SupportedProtocolVersion};
use std::sync::Arc;

verus! {

/// TLS protocol versions, from oldest to newest.
#[derive(Debug, Clone, Copy, PartialEq, Eq, PartialOrd, Ord, Hash)]
pub enum TlsVersion {
    /// TLS 1.0 (deprecated, avoid).
    Tls10,
    /// TLS 1.1 (deprecated, avoid).
    Tls11,
    /// TLS 1.2.
    Tls12,
    /// TLS 1.3.
    Tls13,
}

/// Position of a version in protocol history.
pub open spec fn version_rank(v: TlsVersion) -> nat {
    match v {
        TlsVersion::Tls10 => 0,
        TlsVersion::Tls11 => 1,
        TlsVersion::Tls12 => 2,
        TlsVersion::Tls13 => 3,
    }
}

impl TlsVersion {
    /// Position of the version in protocol history (1.0 is 0).
    pub fn rank(&self) -> (r: u8)
        ensures
            r == version_rank(*self),
    {
        match self {
            TlsVersion::Tls10 => 0,
            TlsVersion::Tls11 => 1,
            TlsVersion::Tls12 => 2,
            TlsVersion::Tls13 => 3,
        }
    }

    /// Whether this version is newer than `other`.
    pub fn is_newer_than(&self, other: &TlsVersion) -> (r: bool)
        ensures
            r == (version_rank(*self) > version_rank(*other)),
    {
        self.rank() > other.rank()
    }
}

/// Summary information about a certificate.
#[derive(Debug, Clone)]
pub struct CertificateInfo {
    /// Subject name.
    pub subject: String,
    /// Issuer name.
    pub issuer: String,
    /// Serial number (hex).
    pub serial: String,
    /// Not before date.
    pub not_before: String,
    /// Not after date.
    pub not_after: String,
    /// Whether the certificate is self-signed.
    pub is_self_signed: bool,
}

impl CertificateInfo {
    /// Certificate information from DER data. The fields are not decoded:
    /// the summary records that a certificate is present, and its serial
    /// is the length of the data in lower-case hex, at least two digits.
    pub fn from_der(der: &[u8]) -> (r: Option<Self>)
        ensures
            r matches Some(c) && c.subject@ == "Certificate present"@ && c.issuer@ == "Unknown"@
                && c.serial@ == zero_padded(radix_digits(der@.len(), 16), 2) && c.not_before@
                == "Unknown"@ && c.not_after@ == "Unknown"@ && !c.is_self_signed,
    {
        let digits = radix_chars(der.len() as u128, 16);
        let serial = pad_zeros(digits.as_slice(), 2);
        Some(
            CertificateInfo {
                subject: owned("Certificate present"),
                issuer: owned("Unknown"),
                serial: string_of(serial.as_slice()),
                not_before: owned("Unknown"),
                not_after: owned("Unknown"),
                is_self_signed: false,
            },
        )
    }
}

/// Where the root certificates of a connection come from.
#[derive(Debug, Clone)]
pub enum RootCertificates {
    /// The bundled WebPKI roots.
    WebPki,
    /// The operating system's roots.
    System,
    /// Custom roots, each DER-encoded.
    Custom(Vec<Vec<u8>>),
}

/// The encoding of a private key.
#[derive(Debug, Clone, Copy, PartialEq, Eq)]
pub enum KeyFormat {
    /// An RSA key (PKCS #1).
    Pkcs1,
    /// A PKCS #8 key.
    Pkcs8,
    /// An EC key (SEC1).
    Sec1,
}

/// A DER-encoded private key with its encoding.
#[derive(Debug, Clone)]
pub struct PrivateKey {
    /// The encoding.
    pub format: KeyFormat,
    /// The DER bytes.
    pub der: Vec<u8>,
}

/// Client certificate chain and key for mutual TLS.
#[derive(Debug, Clone)]
pub struct ClientCertificate {
    /// The certificate chain, each DER-encoded.
    pub cert: Vec<Vec<u8>>,
    /// The private key.
    pub key: PrivateKey,
}

/// TLS configuration, built up by the `with_*` methods.
#[derive(Debug, Clone)]
pub struct TlsConfig {
    /// Root certificates.
    pub root_certs: RootCertificates,
    /// Client certificate for mutual TLS.
    pub client_cert: Option<ClientCertificate>,
    /// Minimum TLS version.
    pub min_version: TlsVersion,
    /// Maximum TLS version.
    pub max_version: TlsVersion,
    /// ALPN protocols, in order of preference.
    pub alpn_protocols: Vec<String>,
    /// Whether server certificates are verified.
    pub verify_server: bool,
    /// Whether the server hostname is verified.
    pub verify_hostname: bool,
}

/// The views of a list of byte strings.
pub open spec fn byte_views(v: Seq<Vec<u8>>) -> Seq<Seq<u8>> {
    v.map_values(|b: Vec<u8>| b@)
}

impl TlsConfig {
    /// The default configuration: WebPKI roots, no client certificate,
    /// TLS 1.2 to 1.3, ALPN `h2` then `http/1.1`, full verification.
    pub fn new() -> (r: Self)
        ensures
            r.root_certs is WebPki,
            r.client_cert is None,
            r.min_version == TlsVersion::Tls12,
            r.max_version == TlsVersion::Tls13,
            views(r.alpn_protocols@) == seq!["h2"@, "http/1.1"@],
            r.verify_server,
            r.verify_hostname,
    {
        let mut alpn: Vec<String> = Vec::new();
        alpn.push(owned("h2"));
        alpn.push(owned("http/1.1"));
        let r = TlsConfig {
            root_certs: RootCertificates::WebPki,
            client_cert: None,
            min_version: TlsVersion::Tls12,
            max_version: TlsVersion::Tls13,
            alpn_protocols: alpn,
            verify_server: true,
            verify_hostname: true,
        };
        assert(views(r.alpn_protocols@) =~= seq!["h2"@, "http/1.1"@]);
        r
    }

    /// Use the operating system's root certificates.
    pub fn with_system_roots(self) -> (r: Self)
        ensures
            r.root_certs is System,
            r.client_cert == self.client_cert,
            r.min_version == self.min_version,
            r.max_version == self.max_version,
            r.alpn_protocols == self.alpn_protocols,
            r.verify_server == self.verify_server,
            r.verify_hostname == self.verify_hostname,
    {
        let mut s = self;
        s.root_certs = RootCertificates::System;
        s
    }

    /// Use the bundled WebPKI root certificates.
    pub fn with_webpki_roots(self) -> (r: Self)
        ensures
            r.root_certs is WebPki,
            r.client_cert == self.client_cert,
            r.min_version == self.min_version,
            r.max_version == self.max_version,
            r.alpn_protocols == self.alpn_protocols,
            r.verify_server == self.verify_server,
            r.verify_hostname == self.verify_hostname,
    {
        let mut s = self;
        s.root_certs = RootCertificates::WebPki;
        s
    }

    /// Use the certificates of the PEM data as the roots; fails as
    /// `load_certificates_from_pem` does.
    pub fn with_root_certs_pem(self, pem: &[u8]) -> (r: Result<Self, PlatformError>)
        ensures
            certificate_ders(pem_sections(pem@)).len() == 0 <==> r is Err,
            r is Err ==> is_certificate_error(r, "No certificates found in PEM data"@),
            r matches Ok(c) ==> (c.root_certs matches RootCertificates::Custom(v) && byte_views(v@)
                == certificate_ders(pem_sections(pem@))) && c.client_cert == self.client_cert
                && c.min_version == self.min_version && c.max_version == self.max_version
                && c.alpn_protocols == self.alpn_protocols && c.verify_server == self.verify_server
                && c.verify_hostname == self.verify_hostname,
    {
        match load_certificates_from_pem(pem) {
            Ok(certs) => {
                let mut s = self;
                s.root_certs = RootCertificates::Custom(certs);
                Ok(s)
            },
            Err(e) => Err(e),
        }
    }

    /// Use the certificate chain and the first private key of the PEM data
    /// for mutual TLS; fails as the two loaders do, the chain first.
    pub fn with_client_cert_pem(self, cert_pem: &[u8], key_pem: &[u8]) -> (r: Result<
        Self,
        PlatformError,
    >)
        ensures
            ({
                let certs = certificate_ders(pem_sections(cert_pem@));
                let key = first_private_key(pem_sections(key_pem@));
                &&& certs.len() == 0 ==> is_certificate_error(r, "No certificates found in PEM data"@)
                &&& certs.len() > 0 ==> match key {
                    Some(Ok((format, der))) => r matches Ok(c) && c.client_cert matches Some(cc)
                        && byte_views(cc.cert@) == certs && cc.key.format == format
                        && cc.key.der@ == der && c.root_certs == self.root_certs
                        && c.min_version == self.min_version && c.max_version
                        == self.max_version && c.alpn_protocols == self.alpn_protocols
                        && c.verify_server == self.verify_server && c.verify_hostname
                        == self.verify_hostname,
                    Some(Err(m)) => is_certificate_error(r, m),
                    None => is_certificate_error(r, "No private key found in PEM data"@),
                }
            }),
    {
        let cert = match load_certificates_from_pem(cert_pem) {
            Ok(c) => c,
            Err(e) => {
                return Err(e);
            },
        };
        let key = match load_private_key_from_pem(key_pem) {
            Ok(k) => k,
            Err(e) => {
                return Err(e);
            },
        };
        let mut s = self;
        s.client_cert = Some(ClientCertificate { cert, key });
        Ok(s)
    }

    /// Set the minimum TLS version.
    pub fn with_min_version(self, version: TlsVersion) -> (r: Self)
        ensures
            r.min_version == version,
            r.root_certs == self.root_certs,
            r.client_cert == self.client_cert,
            r.max_version == self.max_version,
            r.alpn_protocols == self.alpn_protocols,
            r.verify_server == self.verify_server,
            r.verify_hostname == self.verify_hostname,
    {
        let mut s = self;
        s.min_version = version;
        s
    }

    /// Set the maximum TLS version.
    pub fn with_max_version(self, version: TlsVersion) -> (r: Self)
        ensures
            r.max_version == version,
            r.root_certs == self.root_certs,
            r.client_cert == self.client_cert,
            r.min_version == self.min_version,
            r.alpn_protocols == self.alpn_protocols,
            r.verify_server == self.verify_server,
            r.verify_hostname == self.verify_hostname,
    {
        let mut s = self;
        s.max_version = version;
        s
    }

    /// Set the ALPN protocols.
    pub fn with_alpn(self, protocols: Vec<String>) -> (r: Self)
        ensures
            r.alpn_protocols == protocols,
            r.root_certs == self.root_certs,
            r.client_cert == self.client_cert,
            r.min_version == self.min_version,
            r.max_version == self.max_version,
            r.verify_server == self.verify_server,
            r.verify_hostname == self.verify_hostname,
    {
        let mut s = self;
        s.alpn_protocols = protocols;
        s
    }

    /// Turn off verification of the server certificate and of the hostname.
    pub fn danger_disable_verify(self) -> (r: Self)
        ensures
            !r.verify_server,
            !r.verify_hostname,
            r.root_certs == self.root_certs,
            r.client_cert == self.client_cert,
            r.min_version == self.min_version,
            r.max_version == self.max_version,
            r.alpn_protocols == self.alpn_protocols,
    {
        let mut s = self;
        s.verify_server = false;
        s.verify_hostname = false;
        s
    }

    /// Turn off verification of the hostname only.
    pub fn disable_hostname_verification(self) -> (r: Self)
        ensures
            !r.verify_hostname,
            r.verify_server == self.verify_server,
            r.root_certs == self.root_certs,
            r.client_cert == self.client_cert,
            r.min_version == self.min_version,
            r.max_version == self.max_version,
            r.alpn_protocols == self.alpn_protocols,
    {
        let mut s = self;
        s.verify_hostname = false;
        s
    }
}

impl Default for TlsConfig {
    fn default() -> (r: Self)
        ensures
            r.root_certs is WebPki,
            r.client_cert is None,
            r.min_version == TlsVersion::Tls12,
            r.max_version == TlsVersion::Tls13,
            views(r.alpn_protocols@) == seq!["h2"@, "http/1.1"@],
            r.verify_server,
            r.verify_hostname,
    {
        TlsConfig::new()
    }
}

/// One section of PEM data, as the PEM reader hands it out.
#[derive(Debug, Clone)]
pub enum PemItem {
    /// A DER-encoded X.509 certificate.
    Certificate(Vec<u8>),
    /// A DER-encoded RSA private key (PKCS #1).
    Pkcs1Key(Vec<u8>),
    /// A DER-encoded PKCS #8 private key.
    Pkcs8Key(Vec<u8>),
    /// A DER-encoded EC private key (SEC1).
    Sec1Key(Vec<u8>),
    /// A section of another recognised kind (public key, CRL, CSR).
    Other,
    /// A section that could not be read, with the reader's message.
    Failed(String),
}

/// The contents of a PEM section.
pub enum PemSection {
    /// A certificate.
    Certificate(Seq<u8>),
    /// An RSA private key.
    Pkcs1Key(Seq<u8>),
    /// A PKCS #8 private key.
    Pkcs8Key(Seq<u8>),
    /// An EC private key.
    Sec1Key(Seq<u8>),
    /// Another kind of section.
    Other,
    /// A section that could not be read.
    Failed(Seq<char>),
}

impl View for PemItem {
    type V = PemSection;

    open spec fn view(&self) -> PemSection {
        match self {
            PemItem::Certificate(d) => PemSection::Certificate(d@),
            PemItem::Pkcs1Key(d) => PemSection::Pkcs1Key(d@),
            PemItem::Pkcs8Key(d) => PemSection::Pkcs8Key(d@),
            PemItem::Sec1Key(d) => PemSection::Sec1Key(d@),
            PemItem::Other => PemSection::Other,
            PemItem::Failed(m) => PemSection::Failed(m@),
        }
    }
}

/// The views of a list of PEM items.
pub open spec fn section_views(items: Seq<PemItem>) -> Seq<PemSection> {
    items.map_values(|i: PemItem| i@)
}

/// The sections that the PEM reader finds in the given bytes, in order.
pub uninterp spec fn pem_sections(pem: Seq<u8>) -> Seq<PemSection>;

/// `rustls_pemfile::read_all` over the bytes: every section it yields, in
/// order, each turned into a `PemItem` (an error by its message).
#[verifier::external_body]
fn read_pem_sections(pem: &[u8]) -> (r: Vec<PemItem>)
    ensures
        section_views(r@) == pem_sections(pem@),
{
    let mut reader = std::io::BufReader::new(pem);
    rustls_pemfile::read_all(&mut reader).map(|item| match item {
        Ok(rustls_pemfile::Item::X509Certificate(c)) => PemItem::Certificate(c.to_vec()),
        Ok(rustls_pemfile::Item::Pkcs1Key(k)) => PemItem::Pkcs1Key(k.secret_pkcs1_der().to_vec()),
        Ok(rustls_pemfile::Item::Pkcs8Key(k)) => PemItem::Pkcs8Key(k.secret_pkcs8_der().to_vec()),
        Ok(rustls_pemfile::Item::Sec1Key(k)) => PemItem::Sec1Key(k.secret_sec1_der().to_vec()),
        Ok(_) => PemItem::Other,
        Err(e) => PemItem::Failed(e.to_string()),
    }).collect()
}

/// The certificates among the sections, in order.
pub open spec fn certificate_ders(items: Seq<PemSection>) -> Seq<Seq<u8>>
    decreases items.len(),
{
    if items.len() == 0 {
        Seq::empty()
    } else {
        let rest = certificate_ders(items.drop_last());
        match items.last() {
            PemSection::Certificate(d) => rest.push(d),
            _ => rest,
        }
    }
}

/// The first section that is a private key or a read failure: the key with
/// its encoding, or the failure's message; `None` where there is neither.
pub open spec fn first_private_key(items: Seq<PemSection>) -> Option<
    Result<(KeyFormat, Seq<u8>), Seq<char>>,
>
    decreases items.len(),
{
    if items.len() == 0 {
        None
    } else {
        match items[0] {
            PemSection::Pkcs1Key(d) => Some(Ok((KeyFormat::Pkcs1, d))),
            PemSection::Pkcs8Key(d) => Some(Ok((KeyFormat::Pkcs8, d))),
            PemSection::Sec1Key(d) => Some(Ok((KeyFormat::Sec1, d))),
            PemSection::Failed(m) => Some(Err(m)),
            _ => first_private_key(items.subrange(1, items.len() as int)),
        }
    }
}

/// Whether `r` is the certificate error with the given message.
pub open spec fn is_certificate_error<T>(r: Result<T, PlatformError>, msg: Seq<char>) -> bool {
    r matches Err(PlatformError::Certificate(m)) && m@ == msg
}

/// The certificates among the PEM items, in order; an error where there is
/// none.
pub fn certificates_among(items: &[PemItem]) -> (r: Result<Vec<Vec<u8>>, PlatformError>)
    ensures
        certificate_ders(section_views(items@)).len() == 0 <==> r is Err,
        r is Err ==> is_certificate_error(r, "No certificates found in PEM data"@),
        r matches Ok(v) ==> byte_views(v@) == certificate_ders(section_views(items@)),
{
    let mut out: Vec<Vec<u8>> = Vec::new();
    let mut i: usize = 0;
    while i < items.len()
        invariant
            i <= items@.len(),
            byte_views(out@) == certificate_ders(section_views(items@.subrange(0, i as int))),
        decreases items.len() - i,
    {
        proof {
            let pre = items@.subrange(0, i as int + 1);
            assert(section_views(pre).drop_last() =~= section_views(items@.subrange(0, i as int)));
            assert(section_views(pre).last() == items@[i as int]@);
        }
        match &items[i] {
            PemItem::Certificate(d) => {
                out.push(copy_bytes(d));
                assert(byte_views(out@) =~= certificate_ders(
                    section_views(items@.subrange(0, i as int)),
                ).push(d@));
            },
            _ => {},
        }
        i = i + 1;
    }
    assert(items@.subrange(0, items@.len() as int) =~= items@);
    if out.len() == 0 {
        proof {
            reveal_strlit("No certificates found in PEM data");
        }
        return Err(PlatformError::Certificate(owned("No certificates found in PEM data")));
    }
    Ok(out)
}

/// The first private key among the PEM items; the reader's message where a
/// section failed before any key, and an error where there is no key.
pub fn private_key_among(items: &[PemItem]) -> (r: Result<PrivateKey, PlatformError>)
    ensures
        match first_private_key(section_views(items@)) {
            Some(Ok((format, der))) => r matches Ok(k) && k.format == format && k.der@ == der,
            Some(Err(m)) => is_certificate_error(r, m),
            None => is_certificate_error(r, "No private key found in PEM data"@),
        },
{
    let mut i: usize = 0;
    assert(items@.subrange(0, items@.len() as int) =~= items@);
    while i < items.len()
        invariant
            i <= items@.len(),
            first_private_key(section_views(items@)) == first_private_key(
                section_views(items@.subrange(i as int, items@.len() as int)),
            ),
        decreases items.len() - i,
    {
        let ghost rest = section_views(items@.subrange(i as int, items@.len() as int));
        assert(rest[0] == items@[i as int]@);
        assert(rest.subrange(1, rest.len() as int) =~= section_views(
            items@.subrange(i as int + 1, items@.len() as int),
        ));
        match &items[i] {
            PemItem::Pkcs1Key(d) => {
                return Ok(PrivateKey { format: KeyFormat::Pkcs1, der: copy_bytes(d) });
            },
            PemItem::Pkcs8Key(d) => {
                return Ok(PrivateKey { format: KeyFormat::Pkcs8, der: copy_bytes(d) });
            },
            PemItem::Sec1Key(d) => {
                return Ok(PrivateKey { format: KeyFormat::Sec1, der: copy_bytes(d) });
            },
            PemItem::Failed(m) => {
                return Err(PlatformError::Certificate(owned(m.as_str())));
            },
            _ => {},
        }
        i = i + 1;
    }
    proof {
        reveal_strlit("No private key found in PEM data");
    }
    Err(PlatformError::Certificate(owned("No private key found in PEM data")))
}

/// The certificates of PEM data, in order; an error where there is none.
pub fn load_certificates_from_pem(pem: &[u8]) -> (r: Result<Vec<Vec<u8>>, PlatformError>)
    ensures
        certificate_ders(pem_sections(pem@)).len() == 0 <==> r is Err,
        r is Err ==> is_certificate_error(r, "No certificates found in PEM data"@),
        r matches Ok(v) ==> byte_views(v@) == certificate_ders(pem_sections(pem@)),
{
    let items = read_pem_sections(pem);
    certificates_among(items.as_slice())
}

/// The first private key of PEM data (RSA, PKCS #8 or EC).
pub fn load_private_key_from_pem(pem: &[u8]) -> (r: Result<PrivateKey, PlatformError>)
    ensures
        match first_private_key(pem_sections(pem@)) {
            Some(Ok((format, der))) => r matches Ok(k) && k.format == format && k.der@ == der,
            Some(Err(m)) => is_certificate_error(r, m),
            None => is_certificate_error(r, "No private key found in PEM data"@),
        },
{
    let items = read_pem_sections(pem);
    private_key_among(items.as_slice())
}

#[verifier::external_type_specification]
#[verifier::external_body]
pub struct ExRootCertStore(rustls::RootCertStore);

#[verifier::external_type_specification]
#[verifier::external_body]
pub struct ExClientConfig(rustls::ClientConfig);

#[verifier::external_type_specification]
#[verifier::external_body]
pub struct ExSupportedProtocolVersion(rustls::SupportedProtocolVersion);

/// The number of trust anchors a root store holds.
pub uninterp spec fn root_count(store: RootCertStore) -> nat;

/// Why `RootCertStore::add` refuses the DER certificate as a trust anchor,
/// `None` where it accepts it.
pub uninterp spec fn trust_anchor_problem(der: Seq<u8>) -> Option<Seq<char>>;

/// Whether `ServerName::try_from` accepts the text as a server name.
pub uninterp spec fn valid_server_name(name: Seq<char>) -> bool;

/// The TLS protocol number (0x0303 for 1.2, 0x0304 for 1.3) of a version
/// that rustls supports.
pub uninterp spec fn protocol_number(v: SupportedProtocolVersion) -> u16;

/// `RootCertStore::empty`: a store without anchors.
#[verifier::external_body]
fn empty_root_store() -> (r: RootCertStore)
    ensures
        root_count(r) == 0,
{
    RootCertStore::empty()
}

/// `RootCertStore::extend` with the bundled `webpki_roots::TLS_SERVER_ROOTS`;
/// returns how many anchors were added.
#[verifier::external_body]
fn add_webpki_roots(store: &mut RootCertStore) -> (added: usize)
    ensures
        root_count(*final(store)) == root_count(*old(store)) + added,
{
    store.extend(webpki_roots::TLS_SERVER_ROOTS.iter().cloned());
    webpki_roots::TLS_SERVER_ROOTS.len()
}

/// `RootCertStore::add`: adds the certificate as a trust anchor, or leaves
/// the store as it was and reports the problem.
#[verifier::external_body]
fn add_root_certificate(store: &mut RootCertStore, der: &Vec<u8>) -> (r: Result<(), String>)
    ensures
        match r {
            Ok(()) => trust_anchor_problem(der@) is None && root_count(*final(store)) == root_count(
                *old(store),
            ) + 1,
            Err(e) => trust_anchor_problem(der@) == Some(e@) && root_count(*final(store))
                == root_count(*old(store)),
        },
{
    store.add(CertificateDer::from(der.clone())).map_err(|e| e.to_string())
}

/// `ClientConfig::builder().with_root_certificates(..).with_no_client_auth()`.
#[verifier::external_body]
fn config_without_client_auth(store: RootCertStore) -> (r: Arc<ClientConfig>) {
    Arc::new(ClientConfig::builder().with_root_certificates(store).with_no_client_auth())
}

/// `ClientConfig::builder().with_root_certificates(..).with_client_auth_cert(..)`:
/// whether the key is accepted depends on the process's crypto provider, so
/// nothing is promised of the outcome.
#[verifier::external_body]
fn config_with_client_auth(store: RootCertStore, cert: &ClientCertificate) -> (r: Result<
    Arc<ClientConfig>,
    String,
>) {
    let chain = cert.cert.iter().map(|c| CertificateDer::from(c.clone())).collect();
    let key = match cert.key.format {
        KeyFormat::Pkcs1 => PrivateKeyDer::Pkcs1(PrivatePkcs1KeyDer::from(cert.key.der.clone())),
        KeyFormat::Pkcs8 => PrivateKeyDer::Pkcs8(PrivatePkcs8KeyDer::from(cert.key.der.clone())),
        KeyFormat::Sec1 => PrivateKeyDer::Sec1(PrivateSec1KeyDer::from(cert.key.der.clone())),
    };
    let builder = ClientConfig::builder().with_root_certificates(store);
    builder.with_client_auth_cert(chain, key).map(Arc::new).map_err(|e| e.to_string())
}

/// `ServerName::try_from` on the text, succeeded or not.
#[verifier::external_body]
fn is_server_name(name: &str) -> (r: bool)
    ensures
        r == valid_server_name(name@),
{
    ServerName::try_from(name).is_ok()
}

/// `rustls::version::TLS12`.
#[verifier::external_body]
fn rustls_tls12() -> (r: &'static SupportedProtocolVersion)
    ensures
        protocol_number(*r) == 0x0303,
{
    &rustls::version::TLS12
}

/// `rustls::version::TLS13`.
#[verifier::external_body]
fn rustls_tls13() -> (r: &'static SupportedProtocolVersion)
    ensures
        protocol_number(*r) == 0x0304,
{
    &rustls::version::TLS13
}

/// `Arc::clone`: another handle on the same configuration.
#[verifier::external_body]
fn share_config(c: &Arc<ClientConfig>) -> (r: Arc<ClientConfig>)
    ensures
        r == *c,
{
    Arc::clone(c)
}

impl TlsVersion {
    /// The rustls protocol version for this version; rustls has no TLS 1.0
    /// or 1.1, so those map to TLS 1.2.
    pub fn as_rustls(&self) -> (r: &'static SupportedProtocolVersion)
        ensures
            protocol_number(*r) == if *self == TlsVersion::Tls13 {
                0x0304u16
            } else {
                0x0303u16
            },
    {
        match self {
            TlsVersion::Tls13 => rustls_tls13(),
            _ => rustls_tls12(),
        }
    }
}

/// The first custom root certificate that cannot be a trust anchor, with
/// its problem.
pub open spec fn first_anchor_problem(certs: Seq<Vec<u8>>) -> Option<Seq<char>>
    decreases certs.len(),
{
    if certs.len() == 0 {
        None
    } else {
        match trust_anchor_problem(certs[0]@) {
            Some(m) => Some(m),
            None => first_anchor_problem(certs.subrange(1, certs.len() as int)),
        }
    }
}

/// Whether `r` failed with the certificate problem of the custom roots of
/// `roots`, where they have one.
pub open spec fn root_store_outcome<T>(roots: RootCertificates, r: Result<T, PlatformError>) -> bool {
    match roots {
        RootCertificates::Custom(certs) => match first_anchor_problem(certs@) {
            Some(m) => is_certificate_error(r, m),
            None => r is Ok,
        },
        _ => r is Ok,
    }
}

impl TlsConfig {
    /// The root store of the configuration: the bundled roots (also for
    /// the system choice), or each custom certificate in turn, failing at
    /// the first that cannot be an anchor.
    pub fn build_root_store(&self) -> (r: Result<RootCertStore, PlatformError>)
        ensures
            root_store_outcome(self.root_certs, r),
            r matches Ok(store) ==> (self.root_certs matches RootCertificates::Custom(certs)
                ==> root_count(store) == certs@.len()),
    {
        let mut store = empty_root_store();
        match &self.root_certs {
            RootCertificates::WebPki => {
                add_webpki_roots(&mut store);
            },
            RootCertificates::System => {
                add_webpki_roots(&mut store);
            },
            RootCertificates::Custom(certs) => {
                let mut i: usize = 0;
                assert(certs@.subrange(0, certs@.len() as int) =~= certs@);
                while i < certs.len()
                    invariant
                        i <= certs@.len(),
                        self.root_certs == RootCertificates::Custom(*certs),
                        root_count(store) == i,
                        first_anchor_problem(certs@) == first_anchor_problem(
                            certs@.subrange(i as int, certs@.len() as int),
                        ),
                    decreases certs.len() - i,
                {
                    proof {
                        let rest = certs@.subrange(i as int, certs@.len() as int);
                        assert(rest[0] == certs@[i as int]);
                        assert(rest.subrange(1, rest.len() as int) =~= certs@.subrange(
                            i + 1,
                            certs@.len() as int,
                        ));
                    }
                    match add_root_certificate(&mut store, &certs[i]) {
                        Ok(()) => {},
                        Err(e) => {
                            proof {
                                let rest = certs@.subrange(i as int, certs@.len() as int);
                                assert(trust_anchor_problem(rest[0]@) == Some(e@));
                                assert(first_anchor_problem(rest) == Some(e@));
                            }
                            return Err(PlatformError::Certificate(e));
                        },
                    }
                    i = i + 1;
                }
                proof {
                    assert(certs@.subrange(i as int, certs@.len() as int).len() == 0);
                }
            },
        }
        Ok(store)
    }

    /// A rustls client configuration: the root store, and the client
    /// certificate where one is set. A custom root that cannot be an anchor
    /// fails as in `build_root_store`; a client key that rustls refuses fails
    /// with a TLS error.
    pub fn build_client_config(&self) -> (r: Result<Arc<ClientConfig>, PlatformError>)
        ensures
            first_anchor_problem_of(self.root_certs) is Some ==> root_store_outcome(self.root_certs, r),
            first_anchor_problem_of(self.root_certs) is None ==> match self.client_cert {
                None => r is Ok,
                Some(_) => r is Ok || r matches Err(PlatformError::Tls(_)),
            },
    {
        let store = match self.build_root_store() {
            Ok(s) => s,
            Err(e) => {
                return Err(e);
            },
        };
        match &self.client_cert {
            Some(cert) => match config_with_client_auth(store, cert) {
                Ok(c) => Ok(c),
                Err(e) => Err(PlatformError::Tls(e)),
            },
            None => Ok(config_without_client_auth(store)),
        }
    }
}

/// The first problem among the custom roots, if the roots are custom.
pub open spec fn first_anchor_problem_of(roots: RootCertificates) -> Option<Seq<char>> {
    match roots {
        RootCertificates::Custom(certs) => first_anchor_problem(certs@),
        _ => None,
    }
}

/// Checks a certificate chain before a handshake: it must hold a
/// certificate, and the hostname must be a valid server name. The full
/// validation happens during the handshake.
pub fn validate_certificate_chain(chain: &[Vec<u8>], hostname: &str) -> (r: Result<(), PlatformError>)
    ensures
        chain@.len() == 0 ==> is_certificate_error(r, "Empty certificate chain"@),
        chain@.len() > 0 && !valid_server_name(hostname@) ==> is_certificate_error(
            r,
            "Invalid hostname: "@ + hostname@,
        ),
        chain@.len() > 0 && valid_server_name(hostname@) ==> r is Ok,
{
    if chain.len() == 0 {
        proof {
            reveal_strlit("Empty certificate chain");
        }
        return Err(PlatformError::Certificate(owned("Empty certificate chain")));
    }
    if !is_server_name(hostname) {
        let mut msg: Vec<char> = Vec::new();
        push_str(&mut msg, "Invalid hostname: ");
        push_str(&mut msg, hostname);
        proof {
            reveal_strlit("Invalid hostname: ");
        }
        return Err(PlatformError::Certificate(string_of(msg.as_slice())));
    }
    Ok(())
}

/// A TLS connector: a shared rustls client configuration.
#[derive(Debug, Clone)]
pub struct TlsConnector {
    config: Arc<ClientConfig>,
}

impl TlsConnector {
    /// The configuration the connector hands out.
    pub closed spec fn shared_config(self) -> Arc<ClientConfig> {
        self.config
    }

    /// A connector with the default configuration.
    pub fn new() -> (r: Result<Self, PlatformError>)
        ensures
            r is Ok,
    {
        let config = TlsConfig::new();
        match config.build_client_config() {
            Ok(c) => Ok(TlsConnector { config: c }),
            Err(e) => Err(e),
        }
    }

    /// A connector for the given configuration; fails as
    /// `build_client_config` does.
    pub fn from_config(config: &TlsConfig) -> (r: Result<Self, PlatformError>)
        ensures
            first_anchor_problem_of(config.root_certs) is Some ==> root_store_outcome(config.root_certs, r),
            first_anchor_problem_of(config.root_certs) is None ==> match config.client_cert {
                None => r is Ok,
                Some(_) => r is Ok || r matches Err(PlatformError::Tls(_)),
            },
    {
        match config.build_client_config() {
            Ok(c) => Ok(TlsConnector { config: c }),
            Err(e) => Err(e),
        }
    }

    /// The shared rustls client configuration.
    pub fn config(&self) -> (r: Arc<ClientConfig>)
        ensures
            r == self.shared_config(),
    {
        share_config(&self.config)
    }
}

} // verus!
