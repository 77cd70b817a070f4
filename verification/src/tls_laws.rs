//! Where certificates come from and what PEM files give, stated over the configuration and the files.

use vstd::prelude::*;
use vstd::string::*;

use crate::config::{AcmeConfig, Config, TlsCertConfig};
use crate::tls::{
    AcmePlan, CertError, CertErrorView, CertSource, CertSourceView, PemFile, PrivateKey,
    PrivateKeyView, TlsError,
};

verus! {

/// The files of `[tls]` are used where there are any. Otherwise Let's Encrypt is asked for every domain
/// as it stands, in the production environment exactly if `staging` is off, with the configured mail
/// address and cache. Without either, and without domains, there is an error.
pub proof fn law_source_of_certificates(
    config: Config,
    domains: Seq<Seq<char>>,
    files: TlsCertConfig,
    acme: AcmeConfig,
)
    ensures
        config.tls == Some(files) ==> crate::tls::cert_source(config, domains) == Ok::<
            CertSourceView,
            TlsError,
        >(CertSourceView::Custom { cert: files.cert@, key: files.key@ }),
        config.tls is None && config.acme is None ==> crate::tls::cert_source(config, domains) == Err::<
            CertSourceView,
            TlsError,
        >(TlsError::NoCertSource),
        config.tls is None && config.acme == Some(acme) ==> crate::tls::cert_source(config, domains)
            == crate::tls::acme_source(domains, acme),
        domains.len() == 0 ==> crate::tls::acme_source(domains, acme) == Err::<
            CertSourceView,
            TlsError,
        >(TlsError::NoDomains),
        domains.len() > 0 ==> (match crate::tls::acme_source(domains, acme) {
            Ok(CertSourceView::Acme { domains: asked, contact, cache_dir, production }) => {
                &&& asked == domains
                &&& contact == "mailto:"@ + acme.email@
                &&& cache_dir == acme.cache_dir@
                &&& production <==> !acme.staging
            },
            _ => false,
        }),
{
}

/// HTTP/2 is offered first, then HTTP/1.1, and nothing else.
pub proof fn law_protocols_on_offer()
    ensures
        crate::tls::offered_protocols().len() == 2,
        crate::tls::offered_protocols()[0] == vstd::utf8::encode_utf8("h2"@),
        crate::tls::offered_protocols()[1] == vstd::utf8::encode_utf8("http/1.1"@),
{
}

/// Whether a PEM file gives a certificate chain: it was read, and its text holds a certificate.
pub open spec fn gives_chain(cert: PemFile, chain: Seq<Seq<u8>>) -> bool {
    cert matches PemFile::Holds(pem) && crate::tls::pem_certificates(pem@) == Ok::<
        Seq<Seq<u8>>,
        Seq<char>,
    >(chain) && chain.len() > 0
}

/// Whether a PEM file gives a private key.
pub open spec fn gives_key(key: PemFile, private: PrivateKeyView) -> bool {
    key matches PemFile::Holds(pem) && crate::tls::pem_private_key(pem@) == Ok::<
        Option<PrivateKeyView>,
        Seq<char>,
    >(Some(private))
}

/// Two PEM files are taken exactly if the one holds a certificate and the other a key, and they give
/// all the certificates, in order, and that key.
pub proof fn law_pem_files_are_taken_as_they_are(
    files: TlsCertConfig,
    cert: PemFile,
    key: PemFile,
    chain: Seq<Seq<u8>>,
    private: PrivateKeyView,
)
    ensures
        crate::tls::custom_cert(files, cert, key) == Ok::<
            (Seq<Seq<u8>>, PrivateKeyView),
            CertErrorView,
        >((chain, private)) <==> gives_chain(cert, chain) && gives_key(key, private),
{
}

/// What is wrong with the certificate file is told first, whatever the key file is: it cannot be
/// opened, or not be parsed, each with the reason, or it holds no certificate.
pub proof fn law_wrong_certificate_file(
    files: TlsCertConfig,
    cause: String,
    pem: Vec<u8>,
    key: PemFile,
)
    ensures
        crate::tls::custom_cert(files, PemFile::NotOpened(cause), key) == Err::<
            (Seq<Seq<u8>>, PrivateKeyView),
            CertErrorView,
        >(CertErrorView::CertNotOpened(files.cert@, cause@)),
        crate::tls::custom_cert(files, PemFile::NotRead(cause), key) == Err::<
            (Seq<Seq<u8>>, PrivateKeyView),
            CertErrorView,
        >(CertErrorView::CertNotParsed(files.cert@, cause@)),
        crate::tls::pem_certificates(pem@) is Err ==> crate::tls::custom_cert(
            files,
            PemFile::Holds(pem),
            key,
        ) == Err::<(Seq<Seq<u8>>, PrivateKeyView), CertErrorView>(
            CertErrorView::CertNotParsed(files.cert@, crate::tls::pem_certificates(pem@)->Err_0),
        ),
        crate::tls::pem_certificates(pem@) == Ok::<Seq<Seq<u8>>, Seq<char>>(Seq::empty())
            ==> crate::tls::custom_cert(files, PemFile::Holds(pem), key) == Err::<
            (Seq<Seq<u8>>, PrivateKeyView),
            CertErrorView,
        >(CertErrorView::NoCertificate(files.cert@)),
{
}

/// With a certificate file that is right, what is wrong with the key file is told: it cannot be opened,
/// or not be parsed, each with the reason, or it holds no key.
pub proof fn law_wrong_key_file(
    files: TlsCertConfig,
    cert: PemFile,
    chain: Seq<Seq<u8>>,
    cause: String,
    pem: Vec<u8>,
)
    requires
        gives_chain(cert, chain),
    ensures
        crate::tls::custom_cert(files, cert, PemFile::NotOpened(cause)) == Err::<
            (Seq<Seq<u8>>, PrivateKeyView),
            CertErrorView,
        >(CertErrorView::KeyNotOpened(files.key@, cause@)),
        crate::tls::custom_cert(files, cert, PemFile::NotRead(cause)) == Err::<
            (Seq<Seq<u8>>, PrivateKeyView),
            CertErrorView,
        >(CertErrorView::KeyNotParsed(files.key@, cause@)),
        crate::tls::pem_private_key(pem@) is Err ==> crate::tls::custom_cert(
            files,
            cert,
            PemFile::Holds(pem),
        ) == Err::<(Seq<Seq<u8>>, PrivateKeyView), CertErrorView>(
            CertErrorView::KeyNotParsed(files.key@, crate::tls::pem_private_key(pem@)->Err_0),
        ),
        crate::tls::pem_private_key(pem@) == Ok::<Option<PrivateKeyView>, Seq<char>>(None)
            ==> crate::tls::custom_cert(files, cert, PemFile::Holds(pem)) == Err::<
            (Seq<Seq<u8>>, PrivateKeyView),
            CertErrorView,
        >(CertErrorView::NoKey(files.key@)),
{
}

/// A parsed chain is taken whole unless it is empty, and a parsed key as it is; a text that cannot be
/// parsed is reported with the reason.
pub proof fn law_parsed_pem_is_taken_whole(
    path: Seq<char>,
    certs: Seq<Seq<u8>>,
    key: PrivateKeyView,
    cause: Seq<char>,
)
    ensures
        certs.len() > 0 ==> crate::tls::chain_of(path, Ok(certs)) == Ok::<
            Seq<Seq<u8>>,
            CertErrorView,
        >(certs),
        certs.len() == 0 ==> crate::tls::chain_of(path, Ok(certs)) == Err::<
            Seq<Seq<u8>>,
            CertErrorView,
        >(CertErrorView::NoCertificate(path)),
        crate::tls::chain_of(path, Err(cause)) == Err::<Seq<Seq<u8>>, CertErrorView>(
            CertErrorView::CertNotParsed(path, cause),
        ),
        crate::tls::key_of(path, Ok(Some(key))) == Ok::<PrivateKeyView, CertErrorView>(key),
        crate::tls::key_of(path, Ok(None)) == Err::<PrivateKeyView, CertErrorView>(
            CertErrorView::NoKey(path),
        ),
        crate::tls::key_of(path, Err(cause)) == Err::<PrivateKeyView, CertErrorView>(
            CertErrorView::KeyNotParsed(path, cause),
        ),
{
}

/// What the user is told of a certificate that cannot be used.
pub proof fn law_certificate_errors_are_told(path: Seq<char>, cause: Seq<char>)
    ensures
        CertErrorView::CertNotOpened(path, cause).message() == "打开证书文件失败: "@ + path + ": "@ + cause,
        CertErrorView::CertNotParsed(path, cause).message() == "解析证书 PEM 失败: "@ + path + ": "@ + cause,
        CertErrorView::NoCertificate(path).message() == "证书文件里没有任何证书: "@ + path,
        CertErrorView::KeyNotOpened(path, cause).message() == "打开私钥文件失败: "@ + path + ": "@ + cause,
        CertErrorView::KeyNotParsed(path, cause).message() == "解析私钥 PEM 失败: "@ + path + ": "@ + cause,
        CertErrorView::NoKey(path).message() == "私钥文件里没有找到私钥: "@ + path,
{
}

/// The views of sources, keys and errors hide nothing: each shows the fields as they are.
pub proof fn law_views_of_certificates(
    files: TlsCertConfig,
    plan: AcmePlan,
    der: Vec<u8>,
    list: Seq<Vec<u8>>,
    path: String,
    cause: String,
)
    ensures
        CertSource::Custom(files)@ == (CertSourceView::Custom { cert: files.cert@, key: files.key@ }),
        CertSource::Acme(plan)@ matches CertSourceView::Acme {
            domains,
            contact,
            cache_dir,
            production,
        } && domains.len() == plan.domains@.len() && (forall|i: int|
            0 <= i < domains.len() ==> #[trigger] domains[i] == plan.domains@[i]@) && contact
            == plan.contact@ && cache_dir == plan.cache_dir@ && production == plan.production,
        PrivateKey::Pkcs1(der)@ == PrivateKeyView::Pkcs1(der@),
        PrivateKey::Sec1(der)@ == PrivateKeyView::Sec1(der@),
        PrivateKey::Pkcs8(der)@ == PrivateKeyView::Pkcs8(der@),
        crate::tls::byte_lists(list).len() == list.len(),
        forall|i: int|
            0 <= i < list.len() ==> #[trigger] crate::tls::byte_lists(list)[i] == list[i]@,
        CertError::CertNotOpened(path, cause)@ == CertErrorView::CertNotOpened(path@, cause@),
        CertError::CertNotParsed(path, cause)@ == CertErrorView::CertNotParsed(path@, cause@),
        CertError::NoCertificate(path)@ == CertErrorView::NoCertificate(path@),
        CertError::KeyNotOpened(path, cause)@ == CertErrorView::KeyNotOpened(path@, cause@),
        CertError::KeyNotParsed(path, cause)@ == CertErrorView::KeyNotParsed(path@, cause@),
        CertError::NoKey(path)@ == CertErrorView::NoKey(path@),
{
}

/// What parsing gave is seen as it is: the bytes of each certificate or of the key, or the reason.
pub proof fn law_views_of_parsed_pem(certs: Vec<Vec<u8>>, key: PrivateKey, cause: String)
    ensures
        crate::tls::certificates_view(Ok(certs)) == Ok::<Seq<Seq<u8>>, Seq<char>>(
            crate::tls::byte_lists(certs@),
        ),
        crate::tls::certificates_view(Err(cause)) == Err::<Seq<Seq<u8>>, Seq<char>>(cause@),
        crate::tls::private_key_view(Ok(Some(key))) == Ok::<Option<PrivateKeyView>, Seq<char>>(
            Some(key@),
        ),
        crate::tls::private_key_view(Ok(None)) == Ok::<Option<PrivateKeyView>, Seq<char>>(None),
        crate::tls::private_key_view(Err(cause)) == Err::<Option<PrivateKeyView>, Seq<char>>(cause@),
{
}

}
