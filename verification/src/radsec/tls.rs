//! Building the mutual-TLS 1.3 client configuration for `RadSec` from PEM inputs,
//! under the locked policy of [`crate::radsec::fips`].

use super::error::RadSecError;
use super::fips::{
    answered, ask_fips, check_fips, fips_verdict, locked, offered_groups, offered_suites, provider,
};
use rustls::crypto::CryptoProvider;
use rustls::pki_types::{CertificateDer, PrivateKeyDer, ServerName};
use rustls::{ClientConfig, RootCertStore};
use std::sync::Arc;
use vstd::prelude::*;

verus! {

/// `rustls::ClientConfig`, opaque.
#[verifier::external_type_specification]
#[verifier::external_body]
pub struct ExClientConfig(rustls::ClientConfig);

/// `rustls::RootCertStore`, opaque: a growing list of trust anchors.
#[verifier::external_type_specification]
#[verifier::external_body]
pub struct ExRootCertStore(rustls::RootCertStore);

/// `rustls::pki_types::ServerName`, opaque.
#[verifier::external_type_specification]
#[verifier::external_body]
pub struct ExServerName<'a>(rustls::pki_types::ServerName<'a>);

/// A private key in DER, by the structure that it is in.
#[derive(Debug)]
pub enum KeyDer {
    /// PKCS#1 (RSA).
    Pkcs1(Vec<u8>),
    /// SEC1 (EC).
    Sec1(Vec<u8>),
    /// PKCS#8.
    Pkcs8(Vec<u8>),
}

/// What a private key holds.
#[verifier::ext_equal]
pub enum KeyView {
    Pkcs1(Seq<u8>),
    Sec1(Seq<u8>),
    Pkcs8(Seq<u8>),
}

impl View for KeyDer {
    type V = KeyView;

    open spec fn view(&self) -> KeyView {
        match *self {
            KeyDer::Pkcs1(der) => KeyView::Pkcs1(der@),
            KeyDer::Sec1(der) => KeyView::Sec1(der@),
            KeyDer::Pkcs8(der) => KeyView::Pkcs8(der@),
        }
    }
}

/// The DER of each item in a list.
pub open spec fn ders(items: Seq<Vec<u8>>) -> Seq<Seq<u8>> {
    Seq::new(items.len(), |i: int| items[i]@)
}

/// The certificates that `rustls_pemfile::certs` finds in a PEM text, or `None`
/// where it cannot read the text.
pub uninterp spec fn pem_certs(pem: Seq<u8>) -> Option<Seq<Seq<u8>>>;

/// The first private key that `rustls_pemfile::private_key` finds in a PEM text, if
/// any, or `None` where it cannot read the text.
pub uninterp spec fn pem_key(pem: Seq<u8>) -> Option<Option<KeyView>>;

/// The trust anchor that `RootCertStore::add` takes out of a certificate, or `None`
/// where it refuses the certificate.
pub uninterp spec fn anchor_of(der: Seq<u8>) -> Option<Seq<u8>>;

/// The trust anchors in a store, in order.
pub uninterp spec fn anchors(store: RootCertStore) -> Seq<Seq<u8>>;

/// The number of TLS 1.3.
pub const TLS_1_3: u16 = 0x0304;

/// What a client configuration is made of: the protocol versions, groups and suites
/// it offers, the anchors it trusts, and the chain and key it presents.
#[verifier::ext_equal]
pub struct Settings {
    pub versions: Seq<u16>,
    pub groups: Seq<u16>,
    pub suites: Seq<u16>,
    pub trusted: Seq<Seq<u8>>,
    pub chain: Seq<Seq<u8>>,
    pub key: KeyView,
}

/// What is in a client configuration.
pub uninterp spec fn settings(config: ClientConfig) -> Settings;

/// Whether rustls accepts a chain and a key as the credential of a TLS 1.3 client
/// under a provider.
pub uninterp spec fn credential_accepted(
    provider: CryptoProvider,
    chain: Seq<Seq<u8>>,
    key: KeyView,
) -> bool;

/// The DNS name or IP address that `ServerName::try_from` reads from a text, or
/// `None` where it is neither.
pub uninterp spec fn server_name_of(name: Seq<char>) -> Option<ServerName<'static>>;

/// `rustls_pemfile::certs`, collected: the DER of every certificate in the text,
/// or the error in it.
#[verifier::external_body]
fn load_certs(pem: &[u8]) -> (r: Result<Vec<Vec<u8>>, std::io::Error>)
    ensures
        r is Ok <==> pem_certs(pem@) is Some,
        r matches Ok(certs) ==> pem_certs(pem@) == Some(ders(certs@)),
{
    let mut reader = pem;
    rustls_pemfile::certs(&mut reader).map(|c| c.map(|der| der.as_ref().to_vec())).collect()
}

/// `rustls_pemfile::private_key`: the DER of the first private key in the text, if
/// it holds one, or the error in it. The three structures are all that it reads.
#[verifier::external_body]
fn load_key(pem: &[u8]) -> (r: Result<Option<KeyDer>, std::io::Error>)
    ensures
        r is Ok <==> pem_key(pem@) is Some,
        r matches Ok(key) ==> pem_key(pem@) == Some(match key {
            Some(k) => Some(k@),
            None => None,
        }),
{
    let mut reader = pem;
    Ok(match rustls_pemfile::private_key(&mut reader)? {
        Some(PrivateKeyDer::Pkcs1(k)) => Some(KeyDer::Pkcs1(k.secret_pkcs1_der().to_vec())),
        Some(PrivateKeyDer::Sec1(k)) => Some(KeyDer::Sec1(k.secret_sec1_der().to_vec())),
        Some(PrivateKeyDer::Pkcs8(k)) => Some(KeyDer::Pkcs8(k.secret_pkcs8_der().to_vec())),
        _ => None,
    })
}

/// `RootCertStore::empty`: a store without trust anchors.
#[verifier::external_body]
fn empty_roots() -> (r: RootCertStore)
    ensures
        anchors(r) == Seq::<Seq<u8>>::empty(),
{
    RootCertStore::empty()
}

/// `RootCertStore::add`: one more trust anchor, taken out of a certificate; a
/// certificate that is refused leaves the store as it was.
#[verifier::external_body]
fn add_root(store: &mut RootCertStore, der: Vec<u8>) -> (r: Result<(), rustls::Error>)
    ensures
        r is Ok <==> anchor_of(der@) is Some,
        r is Ok ==> anchors(*final(store)) == anchors(*old(store)).push(anchor_of(der@)->0),
        r is Err ==> anchors(*final(store)) == anchors(*old(store)),
{
    store.add(CertificateDer::from(der))
}

/// `ClientConfig::builder_with_provider`, `with_protocol_versions` for TLS 1.3
/// alone, `with_root_certificates` and `with_client_auth_cert`: the configuration
/// made of just these values, or the reason why rustls refuses the credential.
#[verifier::external_body]
fn build_config(
    provider: CryptoProvider,
    roots: RootCertStore,
    chain: Vec<Vec<u8>>,
    key: KeyDer,
) -> (r: Result<ClientConfig, rustls::Error>)
    ensures
        r is Ok <==> credential_accepted(provider, ders(chain@), key@),
        r matches Ok(config) ==> settings(config) == (Settings {
            versions: seq![TLS_1_3],
            groups: offered_groups(provider),
            suites: offered_suites(provider),
            trusted: anchors(roots),
            chain: ders(chain@),
            key: key@,
        }),
{
    let key = match key {
        KeyDer::Pkcs1(der) => PrivateKeyDer::Pkcs1(der.into()),
        KeyDer::Sec1(der) => PrivateKeyDer::Sec1(der.into()),
        KeyDer::Pkcs8(der) => PrivateKeyDer::Pkcs8(der.into()),
    };
    ClientConfig::builder_with_provider(Arc::new(provider))
        .with_protocol_versions(&[&rustls::version::TLS13])?
        .with_root_certificates(roots)
        .with_client_auth_cert(chain.into_iter().map(CertificateDer::from).collect(), key)
}

/// `ServerName::try_from` on an owned text.
#[verifier::external_body]
fn parse_server_name(name: String) -> (r: Option<ServerName<'static>>)
    ensures
        r == server_name_of(name@),
{
    ServerName::try_from(name).ok()
}

/// The trust anchors in a list of certificates, or `None` where one of them is
/// refused.
pub open spec fn anchors_of(certs: Seq<Seq<u8>>) -> Option<Seq<Seq<u8>>>
    decreases certs.len(),
{
    if certs.len() == 0 {
        Some(Seq::empty())
    } else {
        match (anchors_of(certs.drop_last()), anchor_of(certs.last())) {
            (Some(before), Some(a)) => Some(before.push(a)),
            _ => None,
        }
    }
}

/// Whether `r` is what building a configuration comes to under the given provider,
/// once the provider has passed.
pub open spec fn config_outcome(
    provider: CryptoProvider,
    trust_anchors_pem: Seq<u8>,
    client_cert_pem: Seq<u8>,
    client_key_pem: Seq<u8>,
    r: Result<ClientConfig, RadSecError>,
) -> bool {
    match pem_certs(trust_anchors_pem) {
        None => r matches Err(RadSecError::Io(_)),
        Some(roots) => match anchors_of(roots) {
            None => r matches Err(RadSecError::Tls(_)),
            Some(trusted) => if trusted.len() == 0 {
                r matches Err(RadSecError::NoCredential)
            } else {
                match pem_certs(client_cert_pem) {
                    None => r matches Err(RadSecError::Io(_)),
                    Some(chain) => if chain.len() == 0 {
                        r matches Err(RadSecError::NoCredential)
                    } else {
                        match pem_key(client_key_pem) {
                            None => r matches Err(RadSecError::Io(_)),
                            Some(None) => r matches Err(RadSecError::NoCredential),
                            Some(Some(key)) => if credential_accepted(provider, chain, key) {
                                r matches Ok(config) && settings(config) == (Settings {
                                    versions: seq![TLS_1_3],
                                    groups: offered_groups(provider),
                                    suites: offered_suites(provider),
                                    trusted,
                                    chain,
                                    key,
                                })
                            } else {
                                r matches Err(RadSecError::Tls(_))
                            },
                        }
                    },
                }
            },
        },
    }
}

/// A provider of the locked policy.
pub open spec fn is_locked(provider: CryptoProvider) -> bool {
    locked(offered_groups(provider), offered_suites(provider))
}

/// Build the configuration under a provider that has passed its checks.
fn config_under(
    provider: CryptoProvider,
    trust_anchors_pem: &[u8],
    client_cert_pem: &[u8],
    client_key_pem: &[u8],
) -> (r: Result<ClientConfig, RadSecError>)
    ensures
        config_outcome(provider, trust_anchors_pem@, client_cert_pem@, client_key_pem@, r),
{
    let certs = match load_certs(trust_anchors_pem) {
        Ok(certs) => certs,
        Err(e) => return Err(RadSecError::Io(e)),
    };
    let mut roots = empty_roots();
    let ghost all = ders(certs@);
    let mut i: usize = 0;
    assert(anchors_of(all.take(0)) == Some(anchors(roots)));
    while i < certs.len()
        invariant
            i <= certs.len(),
            all == ders(certs@),
            pem_certs(trust_anchors_pem@) == Some(all),
            anchors_of(all.take(i as int)) == Some(anchors(roots)),
            anchors(roots).len() == i,
        decreases certs.len() - i,
    {
        proof {
            assert(all.take(i + 1).drop_last() =~= all.take(i as int));
            assert(all.take(i + 1).last() == certs@[i as int]@);
        }
        match add_root(&mut roots, crate::bytes::copy_octets(&certs[i])) {
            Ok(()) => {},
            Err(e) => {
                proof {
                    lemma_anchors_prefix(all, i + 1);
                }
                return Err(RadSecError::Tls(e));
            },
        }
        i += 1;
    }
    assert(all.take(i as int) =~= all);
    if certs.len() == 0 {
        return Err(RadSecError::NoCredential);
    }
    let chain = match load_certs(client_cert_pem) {
        Ok(chain) => chain,
        Err(e) => return Err(RadSecError::Io(e)),
    };
    if chain.len() == 0 {
        return Err(RadSecError::NoCredential);
    }
    let key = match load_key(client_key_pem) {
        Ok(Some(key)) => key,
        Ok(None) => return Err(RadSecError::NoCredential),
        Err(e) => return Err(RadSecError::Io(e)),
    };
    match build_config(provider, roots, chain, key) {
        Ok(config) => Ok(config),
        Err(e) => Err(RadSecError::Tls(e)),
    }
}

proof fn lemma_anchors_prefix(certs: Seq<Seq<u8>>, n: int)
    requires
        0 <= n <= certs.len(),
        anchors_of(certs.take(n)) is None,
    ensures
        anchors_of(certs) is None,
    decreases certs.len() - n,
{
    if n == certs.len() {
        assert(certs.take(n) =~= certs);
    } else {
        assert(certs.take(n + 1).drop_last() =~= certs.take(n));
        lemma_anchors_prefix(certs, n + 1);
    }
}

/// Whether `r` is what building a configuration under a provider comes to, given
/// whether the provider is FIPS-validated: off the FIPS boundary, or under another
/// policy, nothing is built, nor is any PEM read.
pub open spec fn config_verdict(
    provider: CryptoProvider,
    validated: bool,
    trust_anchors_pem: Seq<u8>,
    client_cert_pem: Seq<u8>,
    client_key_pem: Seq<u8>,
    r: Result<ClientConfig, RadSecError>,
) -> bool {
    match fips_verdict(validated, offered_groups(provider), offered_suites(provider)) {
        Err(e) => r == Err::<ClientConfig, RadSecError>(e),
        Ok(()) => config_outcome(
            provider,
            trust_anchors_pem,
            client_cert_pem,
            client_key_pem,
            r,
        ),
    }
}

/// Build a mutual-TLS `RadSec` configuration under a provider of which it is known
/// whether it is FIPS-validated.
pub fn client_config_when(
    provider: CryptoProvider,
    validated: bool,
    trust_anchors_pem: &[u8],
    client_cert_pem: &[u8],
    client_key_pem: &[u8],
) -> (r: Result<ClientConfig, RadSecError>)
    ensures
        config_verdict(
            provider,
            validated,
            trust_anchors_pem@,
            client_cert_pem@,
            client_key_pem@,
            r,
        ),
        r matches Ok(config) ==> settings(config).versions == seq![TLS_1_3] && locked(
            settings(config).groups,
            settings(config).suites,
        ),
{
    match check_fips(validated, &provider) {
        Ok(()) => config_under(provider, trust_anchors_pem, client_cert_pem, client_key_pem),
        Err(e) => Err(e),
    }
}

/// Build a mutual-TLS `RadSec` [`ClientConfig`] from PEM inputs:
/// - `trust_anchors_pem`: the CA(s) that validate the server's certificate;
/// - `client_cert_pem`: the NAS client certificate chain;
/// - `client_key_pem`: the NAS private key.
///
/// TLS 1.3 only. The module's FIPS status and the crypto policy are checked before
/// any PEM is parsed, by the answer that the provider itself gives, so whatever that is
/// a configuration that comes out is one under the locked policy.
pub fn client_config(
    trust_anchors_pem: &[u8],
    client_cert_pem: &[u8],
    client_key_pem: &[u8],
) -> (r: Result<ClientConfig, RadSecError>)
    ensures
        exists|p: CryptoProvider, validated: bool|
            is_locked(p) && answered(p, validated) && #[trigger] config_verdict(
                p,
                validated,
                trust_anchors_pem@,
                client_cert_pem@,
                client_key_pem@,
                r,
            ),
        r matches Ok(config) ==> settings(config).versions == seq![TLS_1_3] && locked(
            settings(config).groups,
            settings(config).suites,
        ),
{
    let p = provider();
    let validated = ask_fips(&p);
    client_config_when(p, validated, trust_anchors_pem, client_cert_pem, client_key_pem)
}

/// The name to validate the server certificate against.
pub fn server_name(name: &str) -> (r: Result<ServerName<'static>, RadSecError>)
    ensures
        r == (match server_name_of(name@) {
            Some(parsed) => Ok(parsed),
            None => Err(RadSecError::BadServerName),
        }),
{
    match parse_server_name(name.to_owned()) {
        Some(parsed) => Ok(parsed),
        None => Err(RadSecError::BadServerName),
    }
}

/// The anchors of a list of certificates are those of each of them, in order, and there
/// are none where one of them has none.
pub proof fn law_every_certificate_is_an_anchor(certs: Seq<Seq<u8>>)
    ensures
        match anchors_of(certs) {
            Some(trusted) => trusted.len() == certs.len() && forall|i: int|
                0 <= i < certs.len() ==> anchor_of(#[trigger] certs[i]) == Some(trusted[i]),
            None => exists|i: int| 0 <= i < certs.len() && anchor_of(#[trigger] certs[i]) is None,
        },
    decreases certs.len(),
{
    if certs.len() > 0 {
        let front = certs.drop_last();
        law_every_certificate_is_an_anchor(front);
        assert(certs[certs.len() - 1] == certs.last());
        assert forall|i: int| 0 <= i < front.len() implies #[trigger] front[i] == certs[i] by {}
        if let Some(trusted) = anchors_of(certs) {
            let before = anchors_of(front)->0;
            assert forall|i: int| 0 <= i < certs.len() implies anchor_of(#[trigger] certs[i]) == Some(
                trusted[i],
            ) by {
                if i < front.len() {
                    assert(anchor_of(front[i]) == Some(before[i]));
                }
            }
        } else if anchors_of(front) is None {
            let i = choose|i: int| 0 <= i < front.len() && anchor_of(#[trigger] front[i]) is None;
            assert(anchor_of(certs[i]) is None);
        }
    }
}

/// A configuration that comes out speaks TLS 1.3 (0x0304) alone under a validated provider
/// of the locked policy, trusts just the given authorities and at least one, and presents
/// the given certificates, at least one, with the given key.
pub proof fn law_configuration_is_mutual(
    provider: CryptoProvider,
    validated: bool,
    trust_anchors_pem: Seq<u8>,
    client_cert_pem: Seq<u8>,
    client_key_pem: Seq<u8>,
    config: ClientConfig,
)
    requires
        config_verdict(
            provider,
            validated,
            trust_anchors_pem,
            client_cert_pem,
            client_key_pem,
            Ok(config),
        ),
    ensures
        validated,
        settings(config).versions == seq![0x0304u16],
        settings(config).groups == seq![0x0202u16],
        settings(config).suites == seq![0x1302u16],
        settings(config).trusted.len() > 0,
        pem_certs(trust_anchors_pem) is Some,
        Some(settings(config).trusted) == anchors_of(pem_certs(trust_anchors_pem)->0),
        settings(config).chain.len() > 0,
        Some(settings(config).chain) == pem_certs(client_cert_pem),
        Some(Some(settings(config).key)) == pem_key(client_key_pem),
        credential_accepted(provider, settings(config).chain, settings(config).key),
{
}

/// Nothing but what is missing keeps a configuration from coming out: under a validated
/// provider of the locked policy, with at least one authority, all of which are anchors,
/// with at least one certificate and a key that rustls accepts together, there is one.
pub proof fn law_configuration_is_owed(
    provider: CryptoProvider,
    trust_anchors_pem: Seq<u8>,
    client_cert_pem: Seq<u8>,
    client_key_pem: Seq<u8>,
    r: Result<ClientConfig, RadSecError>,
)
    requires
        config_verdict(provider, true, trust_anchors_pem, client_cert_pem, client_key_pem, r),
        is_locked(provider),
        pem_certs(trust_anchors_pem) is Some,
        (pem_certs(trust_anchors_pem)->0).len() > 0,
        anchors_of(pem_certs(trust_anchors_pem)->0) is Some,
        pem_certs(client_cert_pem) is Some,
        (pem_certs(client_cert_pem)->0).len() > 0,
        pem_key(client_key_pem) is Some,
        pem_key(client_key_pem)->0 is Some,
        credential_accepted(
            provider,
            pem_certs(client_cert_pem)->0,
            (pem_key(client_key_pem)->0)->0,
        ),
    ensures
        r is Ok,
{
    law_every_certificate_is_an_anchor(pem_certs(trust_anchors_pem)->0);
}

} // verus!
