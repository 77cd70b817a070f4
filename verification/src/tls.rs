//! The TLS front of the HTTPS proxy: where its certificates come from and how a handshake ends.
//!
//! With `[tls]` one certificate of one's own serves every domain. With `[acme]` certificates are
//! issued and renewed by Let's Encrypt, which checks a domain by a handshake of its own kind.

use vstd::prelude::*;
use vstd::string::*;

use crate::config::{AcmeConfig, Config, TlsCertConfig};

verus! {

/// The bytes of each item of a list.
pub open spec fn byte_lists(list: Seq<Vec<u8>>) -> Seq<Seq<u8>> {
    list.map_values(|item: Vec<u8>| item@)
}

/// What Let's Encrypt is asked for.
#[derive(Debug, Clone)]
pub struct AcmePlan {
    /// The domains to certify, in lowercase.
    pub domains: Vec<String>,
    /// The contact, as a `mailto:` address.
    pub contact: String,
    /// Where certificates and the account are kept.
    pub cache_dir: String,
    /// Whether to use the production environment rather than the test one.
    pub production: bool,
}

/// Where the certificates come from.
#[derive(Debug, Clone)]
pub enum CertSource {
    /// Two PEM files.
    Custom(TlsCertConfig),
    /// Let's Encrypt.
    Acme(AcmePlan),
}

/// Where the certificates come from, as characters.
pub enum CertSourceView {
    Custom { cert: Seq<char>, key: Seq<char> },
    Acme {
        domains: Seq<Seq<char>>,
        contact: Seq<char>,
        cache_dir: Seq<char>,
        production: bool,
    },
}

impl View for CertSource {
    type V = CertSourceView;

    open spec fn view(&self) -> CertSourceView {
        match self {
            CertSource::Custom(files) => CertSourceView::Custom { cert: files.cert@, key: files.key@ },
            CertSource::Acme(plan) => CertSourceView::Acme {
                domains: crate::text::texts(plan.domains@),
                contact: plan.contact@,
                cache_dir: plan.cache_dir@,
                production: plan.production,
            },
        }
    }
}

/// Why the front cannot start.
#[derive(Debug, Clone, Copy, PartialEq, Eq, Structural)]
pub enum TlsError {
    /// There is neither `[tls]` nor `[acme]`.
    NoCertSource,
    /// There is no domain to certify.
    NoDomains,
}

impl TlsError {
    /// Tells the user what is wrong.
    pub fn message(&self) -> (r: String)
        ensures
            r@ == (match *self {
                TlsError::NoCertSource => "既没有 [tls] 自定义证书也没有 [acme] 配置"@,
                TlsError::NoDomains => "没有 [[http]] 路由，无法启动 HTTPS 前置"@,
            }),
    {
        match self {
            TlsError::NoCertSource => "既没有 [tls] 自定义证书也没有 [acme] 配置".to_owned(),
            TlsError::NoDomains => "没有 [[http]] 路由，无法启动 HTTPS 前置".to_owned(),
        }
    }
}

/// What Let's Encrypt is asked for: certificates for the given domains.
pub open spec fn acme_source(domains: Seq<Seq<char>>, acme: AcmeConfig) -> Result<
    CertSourceView,
    TlsError,
> {
    if domains.len() == 0 {
        Err(TlsError::NoDomains)
    } else {
        Ok(
            CertSourceView::Acme {
                domains,
                contact: "mailto:"@ + acme.email@,
                cache_dir: acme.cache_dir@,
                production: !acme.staging,
            },
        )
    }
}

/// Where the certificates of a configuration come from: `[tls]` first, then `[acme]`.
pub open spec fn cert_source(config: Config, domains: Seq<Seq<char>>) -> Result<
    CertSourceView,
    TlsError,
> {
    match (config.tls, config.acme) {
        (Some(files), _) => Ok(CertSourceView::Custom { cert: files.cert@, key: files.key@ }),
        (None, None) => Err(TlsError::NoCertSource),
        (None, Some(acme)) => acme_source(domains, acme),
    }
}

/// The protocols offered to clients, the preferred one first.
pub open spec fn offered_protocols() -> Seq<Seq<u8>> {
    seq![vstd::utf8::encode_utf8("h2"@), vstd::utf8::encode_utf8("http/1.1"@)]
}

/// The TLS front: where its certificates come from and which protocols it offers.
#[derive(Debug, Clone)]
pub struct TlsFront {
    pub source: CertSource,
    pub alpn: Vec<Vec<u8>>,
}

/// What is done with a connection once its first message is read.
#[derive(Debug, Clone, Copy, PartialEq, Eq, Structural)]
pub enum AcceptStep {
    /// A check by Let's Encrypt: finish the handshake with the challenge certificate and close.
    AnswerChallenge,
    /// A client: finish the handshake with the ordinary certificate and serve it.
    Serve,
}

impl TlsFront {
    /// Plans the front of a configuration: a certificate of one's own first, else Let's Encrypt.
    pub fn start(config: &Config) -> (r: Result<TlsFront, TlsError>)
        ensures
            match r {
                Ok(front) => byte_lists(front.alpn@) == offered_protocols() && cert_source(
                    *config,
                    crate::config::lowered_domains(config.http@),
                ) == Ok::<CertSourceView, TlsError>(front.source@),
                Err(error) => cert_source(
                    *config,
                    crate::config::lowered_domains(config.http@),
                ) == Err::<CertSourceView, TlsError>(error),
            },
    {
        let mut alpn: Vec<Vec<u8>> = Vec::new();
        alpn.push("h2".as_bytes_vec());
        alpn.push("http/1.1".as_bytes_vec());
        assert(byte_lists(alpn@) =~= offered_protocols());
        match &config.tls {
            Some(files) => Ok(
                TlsFront {
                    source: CertSource::Custom(
                        TlsCertConfig { cert: files.cert.clone(), key: files.key.clone() },
                    ),
                    alpn,
                },
            ),
            None => match &config.acme {
                Some(acme) => match Self::start_acme(config.acme_domains(), acme) {
                    Ok(source) => Ok(TlsFront { source, alpn }),
                    Err(error) => Err(error),
                },
                None => Err(TlsError::NoCertSource),
            },
        }
    }

    /// Plans certificates from Let's Encrypt for the given domains.
    pub fn start_acme(domains: Vec<String>, acme: &AcmeConfig) -> (r: Result<CertSource, TlsError>)
        ensures
            match r {
                Ok(source) => acme_source(crate::text::texts(domains@), *acme) == Ok::<
                    CertSourceView,
                    TlsError,
                >(source@),
                Err(error) => acme_source(crate::text::texts(domains@), *acme) == Err::<
                    CertSourceView,
                    TlsError,
                >(error),
            },
    {
        if domains.len() == 0 {
            return Err(TlsError::NoDomains);
        }
        Ok(
            CertSource::Acme(
                AcmePlan {
                    domains,
                    contact: crate::text::joined("mailto:", acme.email.as_str()),
                    cache_dir: acme.cache_dir.clone(),
                    production: !acme.staging,
                },
            ),
        )
    }

    /// Decides how a handshake goes on, given whether it is a check by Let's Encrypt.
    pub fn accept(&self, is_challenge: bool) -> (r: AcceptStep)
        ensures
            r == (if is_challenge {
                AcceptStep::AnswerChallenge
            } else {
                AcceptStep::Serve
            }),
    {
        if is_challenge {
            AcceptStep::AnswerChallenge
        } else {
            AcceptStep::Serve
        }
    }
}

/// The front of an accepted configuration with HTTP routes can always be planned. It uses the
/// certificate of one's own exactly where there is one, and otherwise asks Let's Encrypt for each
/// route's domain.
pub proof fn law_accepted_configuration_has_certificates(config: Config)
    requires
        config.valid(),
        config.http@.len() > 0,
    ensures
        ({
            let domains = crate::config::lowered_domains(config.http@);
            match cert_source(config, domains) {
                Ok(CertSourceView::Custom { cert, key }) => config.tls matches Some(files) && cert
                    == files.cert@ && key == files.key@,
                Ok(CertSourceView::Acme { domains: asked, .. }) => config.tls is None && asked
                    == domains,
                Err(_) => false,
            }
        }),
{
    crate::config::law_accepted_configurations(config);
}

/// A private key, by its encoding.
#[derive(Debug, Clone)]
pub enum PrivateKey {
    Pkcs1(Vec<u8>),
    Sec1(Vec<u8>),
    Pkcs8(Vec<u8>),
}

/// A private key as bytes.
pub enum PrivateKeyView {
    Pkcs1(Seq<u8>),
    Sec1(Seq<u8>),
    Pkcs8(Seq<u8>),
}

impl View for PrivateKey {
    type V = PrivateKeyView;

    open spec fn view(&self) -> PrivateKeyView {
        match self {
            PrivateKey::Pkcs1(der) => PrivateKeyView::Pkcs1(der@),
            PrivateKey::Sec1(der) => PrivateKeyView::Sec1(der@),
            PrivateKey::Pkcs8(der) => PrivateKeyView::Pkcs8(der@),
        }
    }
}

/// The certificates in a PEM text, in their order, or why it cannot be parsed.
pub uninterp spec fn pem_certificates(pem: Seq<u8>) -> Result<Seq<Seq<u8>>, Seq<char>>;

/// The first private key in a PEM text, or its absence, or why it cannot be parsed.
pub uninterp spec fn pem_private_key(pem: Seq<u8>) -> Result<Option<PrivateKeyView>, Seq<char>>;

/// The bytes of certificates, or why there are none.
pub open spec fn certificates_view(certs: Result<Vec<Vec<u8>>, String>) -> Result<
    Seq<Seq<u8>>,
    Seq<char>,
> {
    match certs {
        Ok(certs) => Ok(byte_lists(certs@)),
        Err(cause) => Err(cause@),
    }
}

/// The bytes of a key that may be absent, or why there is none.
pub open spec fn private_key_view(key: Result<Option<PrivateKey>, String>) -> Result<
    Option<PrivateKeyView>,
    Seq<char>,
> {
    match key {
        Ok(Some(key)) => Ok(Some(key@)),
        Ok(None) => Ok(None),
        Err(cause) => Err(cause@),
    }
}

/// `rustls_pemfile::certs` on bytes in memory, all its items collected: the certificates, or the text
/// of the first error. Either depends on the bytes alone.
#[verifier::external_body]
fn parse_certificates(pem: &[u8]) -> (r: Result<Vec<Vec<u8>>, String>)
    ensures
        certificates_view(r) == pem_certificates(pem@),
{
    let mut reader = pem;
    rustls_pemfile::certs(&mut reader).map(
        |cert| cert.map(|c| c.to_vec()).map_err(|error| error.to_string()),
    ).collect()
}

/// `rustls_pemfile::private_key` on bytes in memory: the first key, or its absence, or the text of the
/// error. These depend on the bytes alone. The keys it gives are of one of three encodings; any other
/// would count as a text that cannot be parsed.
#[verifier::external_body]
fn parse_private_key(pem: &[u8]) -> (r: Result<Option<PrivateKey>, String>)
    ensures
        private_key_view(r) == pem_private_key(pem@),
{
    let mut reader = pem;
    match rustls_pemfile::private_key(&mut reader).map_err(|error| error.to_string())? {
        Some(rustls::pki_types::PrivateKeyDer::Pkcs1(key)) => Ok(
            Some(PrivateKey::Pkcs1(key.secret_pkcs1_der().to_vec())),
        ),
        Some(rustls::pki_types::PrivateKeyDer::Sec1(key)) => Ok(
            Some(PrivateKey::Sec1(key.secret_sec1_der().to_vec())),
        ),
        Some(rustls::pki_types::PrivateKeyDer::Pkcs8(key)) => Ok(
            Some(PrivateKey::Pkcs8(key.secret_pkcs8_der().to_vec())),
        ),
        Some(other) => Err(format!("{other:?}")),
        None => Ok(None),
    }
}

/// What reading a PEM file gave.
#[derive(Debug, Clone)]
pub enum PemFile {
    /// It could not be opened, for this reason.
    NotOpened(String),
    /// It was opened and could not be read, for this reason.
    NotRead(String),
    /// What it holds.
    Holds(Vec<u8>),
}

/// Why a certificate of one's own cannot be used. Each names the file, and the reason where there is
/// one.
#[derive(Debug, Clone)]
pub enum CertError {
    CertNotOpened(String, String),
    CertNotParsed(String, String),
    NoCertificate(String),
    KeyNotOpened(String, String),
    KeyNotParsed(String, String),
    NoKey(String),
}

/// A `CertError` with its text as characters.
pub enum CertErrorView {
    CertNotOpened(Seq<char>, Seq<char>),
    CertNotParsed(Seq<char>, Seq<char>),
    NoCertificate(Seq<char>),
    KeyNotOpened(Seq<char>, Seq<char>),
    KeyNotParsed(Seq<char>, Seq<char>),
    NoKey(Seq<char>),
}

impl View for CertError {
    type V = CertErrorView;

    open spec fn view(&self) -> CertErrorView {
        match self {
            CertError::CertNotOpened(path, cause) => CertErrorView::CertNotOpened(path@, cause@),
            CertError::CertNotParsed(path, cause) => CertErrorView::CertNotParsed(path@, cause@),
            CertError::NoCertificate(path) => CertErrorView::NoCertificate(path@),
            CertError::KeyNotOpened(path, cause) => CertErrorView::KeyNotOpened(path@, cause@),
            CertError::KeyNotParsed(path, cause) => CertErrorView::KeyNotParsed(path@, cause@),
            CertError::NoKey(path) => CertErrorView::NoKey(path@),
        }
    }
}

impl CertErrorView {
    /// The sentence that tells the user what is wrong.
    pub open spec fn message(self) -> Seq<char> {
        match self {
            CertErrorView::CertNotOpened(path, cause) => "打开证书文件失败: "@ + path + ": "@ + cause,
            CertErrorView::CertNotParsed(path, cause) => "解析证书 PEM 失败: "@ + path + ": "@ + cause,
            CertErrorView::NoCertificate(path) => "证书文件里没有任何证书: "@ + path,
            CertErrorView::KeyNotOpened(path, cause) => "打开私钥文件失败: "@ + path + ": "@ + cause,
            CertErrorView::KeyNotParsed(path, cause) => "解析私钥 PEM 失败: "@ + path + ": "@ + cause,
            CertErrorView::NoKey(path) => "私钥文件里没有找到私钥: "@ + path,
        }
    }
}

/// What is wrong with a file, and why.
fn with_cause(what: &str, path: &String, cause: &String) -> (r: String)
    ensures
        r@ == what@ + path@ + ": "@ + cause@,
{
    let mut out = crate::text::joined(what, path.as_str());
    out.append(": ");
    out.append(cause.as_str());
    out
}

impl CertError {
    /// Tells the user what is wrong.
    pub fn message(&self) -> (r: String)
        ensures
            r@ == self@.message(),
    {
        match self {
            CertError::CertNotOpened(path, cause) => with_cause("打开证书文件失败: ", path, cause),
            CertError::CertNotParsed(path, cause) => with_cause("解析证书 PEM 失败: ", path, cause),
            CertError::NoCertificate(path) => crate::text::joined(
                "证书文件里没有任何证书: ",
                path.as_str(),
            ),
            CertError::KeyNotOpened(path, cause) => with_cause("打开私钥文件失败: ", path, cause),
            CertError::KeyNotParsed(path, cause) => with_cause("解析私钥 PEM 失败: ", path, cause),
            CertError::NoKey(path) => crate::text::joined(
                "私钥文件里没有找到私钥: ",
                path.as_str(),
            ),
        }
    }
}

/// The certificate chain in the certificate file, given what its PEM text holds.
pub open spec fn chain_of(path: Seq<char>, certs: Result<Seq<Seq<u8>>, Seq<char>>) -> Result<
    Seq<Seq<u8>>,
    CertErrorView,
> {
    match certs {
        Err(cause) => Err(CertErrorView::CertNotParsed(path, cause)),
        Ok(certs) => if certs.len() == 0 {
            Err(CertErrorView::NoCertificate(path))
        } else {
            Ok(certs)
        },
    }
}

/// The key in the key file, given what its PEM text holds.
pub open spec fn key_of(path: Seq<char>, key: Result<Option<PrivateKeyView>, Seq<char>>) -> Result<
    PrivateKeyView,
    CertErrorView,
> {
    match key {
        Err(cause) => Err(CertErrorView::KeyNotParsed(path, cause)),
        Ok(None) => Err(CertErrorView::NoKey(path)),
        Ok(Some(key)) => Ok(key),
    }
}

/// Takes the certificate chain from what the PEM text of the certificate file holds.
pub fn take_chain(path: &String, certs: Result<Vec<Vec<u8>>, String>) -> (r: Result<
    Vec<Vec<u8>>,
    CertError,
>)
    ensures
        match r {
            Ok(chain) => chain_of(path@, certificates_view(certs)) == Ok::<
                Seq<Seq<u8>>,
                CertErrorView,
            >(byte_lists(chain@)),
            Err(error) => chain_of(path@, certificates_view(certs)) == Err::<
                Seq<Seq<u8>>,
                CertErrorView,
            >(error@),
        },
{
    match certs {
        Err(cause) => Err(CertError::CertNotParsed(path.clone(), cause)),
        Ok(certs) => if certs.len() == 0 {
            Err(CertError::NoCertificate(path.clone()))
        } else {
            Ok(certs)
        },
    }
}

/// Takes the key from what the PEM text of the key file holds.
pub fn take_key(path: &String, key: Result<Option<PrivateKey>, String>) -> (r: Result<
    PrivateKey,
    CertError,
>)
    ensures
        match r {
            Ok(taken) => key_of(path@, private_key_view(key)) == Ok::<PrivateKeyView, CertErrorView>(
                taken@,
            ),
            Err(error) => key_of(path@, private_key_view(key)) == Err::<
                PrivateKeyView,
                CertErrorView,
            >(error@),
        },
{
    match key {
        Err(cause) => Err(CertError::KeyNotParsed(path.clone(), cause)),
        Ok(None) => Err(CertError::NoKey(path.clone())),
        Ok(Some(key)) => Ok(key),
    }
}

/// The chain and key of two PEM files, or the first thing that is wrong with them, the certificate
/// file before the key file.
pub open spec fn custom_cert(
    files: TlsCertConfig,
    cert: PemFile,
    key: PemFile,
) -> Result<(Seq<Seq<u8>>, PrivateKeyView), CertErrorView> {
    let chain = match cert {
        PemFile::NotOpened(cause) => Err(CertErrorView::CertNotOpened(files.cert@, cause@)),
        PemFile::NotRead(cause) => Err(CertErrorView::CertNotParsed(files.cert@, cause@)),
        PemFile::Holds(pem) => chain_of(files.cert@, pem_certificates(pem@)),
    };
    let private = match key {
        PemFile::NotOpened(cause) => Err(CertErrorView::KeyNotOpened(files.key@, cause@)),
        PemFile::NotRead(cause) => Err(CertErrorView::KeyNotParsed(files.key@, cause@)),
        PemFile::Holds(pem) => key_of(files.key@, pem_private_key(pem@)),
    };
    match (chain, private) {
        (Err(error), _) => Err(error),
        (Ok(_), Err(error)) => Err(error),
        (Ok(chain), Ok(private)) => Ok((chain, private)),
    }
}

/// Takes the certificate chain and the private key from what the two PEM files hold.
pub fn load_custom_cert(files: &TlsCertConfig, cert: &PemFile, key: &PemFile) -> (r: Result<
    (Vec<Vec<u8>>, PrivateKey),
    CertError,
>)
    ensures
        match r {
            Ok(loaded) => custom_cert(*files, *cert, *key) == Ok::<
                (Seq<Seq<u8>>, PrivateKeyView),
                CertErrorView,
            >((byte_lists(loaded.0@), loaded.1@)),
            Err(error) => custom_cert(*files, *cert, *key) == Err::<
                (Seq<Seq<u8>>, PrivateKeyView),
                CertErrorView,
            >(error@),
        },
{
    let chain = match cert {
        PemFile::NotOpened(cause) => Err(
            CertError::CertNotOpened(files.cert.clone(), cause.clone()),
        ),
        PemFile::NotRead(cause) => Err(CertError::CertNotParsed(files.cert.clone(), cause.clone())),
        PemFile::Holds(pem) => take_chain(&files.cert, parse_certificates(pem.as_slice())),
    };
    let chain = match chain {
        Ok(chain) => chain,
        Err(error) => {
            return Err(error);
        },
    };
    let private = match key {
        PemFile::NotOpened(cause) => Err(CertError::KeyNotOpened(files.key.clone(), cause.clone())),
        PemFile::NotRead(cause) => Err(CertError::KeyNotParsed(files.key.clone(), cause.clone())),
        PemFile::Holds(pem) => take_key(&files.key, parse_private_key(pem.as_slice())),
    };
    match private {
        Ok(private) => Ok((chain, private)),
        Err(error) => Err(error),
    }
}

}
