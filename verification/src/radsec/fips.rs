//! The locked crypto policy: ML-KEM-1024 key exchange and the single
//! `TLS_AES_256_GCM_SHA384` suite, with fail-closed checks that a provider offers
//! just that.

use super::error::RadSecError;
use rustls::crypto::CryptoProvider;
use vstd::prelude::*;

verus! {

/// `rustls::crypto::CryptoProvider`, opaque: what it offers is read through
/// [`group_ids`] and [`suite_ids`].
#[verifier::external_type_specification]
#[verifier::external_body]
pub struct ExCryptoProvider(rustls::crypto::CryptoProvider);

/// The IANA number of the ML-KEM-1024 group.
pub const MLKEM1024: u16 = 0x0202;

/// The IANA number of `TLS_AES_256_GCM_SHA384`.
pub const AES_256_GCM_SHA384: u16 = 0x1302;

/// The numbers of the key-exchange groups in a provider, in order.
pub uninterp spec fn offered_groups(provider: CryptoProvider) -> Seq<u16>;

/// The numbers of the cipher suites in a provider, in order.
pub uninterp spec fn offered_suites(provider: CryptoProvider) -> Seq<u16>;

/// `SupportedKxGroup::name` of each of the provider's groups, as its number.
#[verifier::external_body]
fn group_ids(provider: &CryptoProvider) -> (r: Vec<u16>)
    ensures
        r@ == offered_groups(*provider),
{
    provider.kx_groups.iter().map(|g| u16::from(g.name())).collect()
}

/// `SupportedCipherSuite::suite` of each of the provider's suites, as its number.
#[verifier::external_body]
fn suite_ids(provider: &CryptoProvider) -> (r: Vec<u16>)
    ensures
        r@ == offered_suites(*provider),
{
    provider.cipher_suites.iter().map(|s| u16::from(s.suite())).collect()
}

/// `rustls::crypto::aws_lc_rs::default_provider`. What it offers by default is
/// left open.
#[verifier::external_body]
fn default_provider() -> CryptoProvider {
    rustls::crypto::aws_lc_rs::default_provider()
}

/// The provider with `aws_lc_rs::kx_group::MLKEM1024` as its only group, and
/// otherwise as it was.
#[verifier::external_body]
fn with_mlkem1024_only(provider: CryptoProvider) -> (r: CryptoProvider)
    ensures
        offered_groups(r) == seq![MLKEM1024],
        offered_suites(r) == offered_suites(provider),
{
    CryptoProvider { kx_groups: vec![rustls::crypto::aws_lc_rs::kx_group::MLKEM1024], ..provider }
}

/// The provider with `aws_lc_rs::cipher_suite::TLS13_AES_256_GCM_SHA384` as its
/// only suite, and otherwise as it was.
#[verifier::external_body]
fn with_aes256_only(provider: CryptoProvider) -> (r: CryptoProvider)
    ensures
        offered_suites(r) == seq![AES_256_GCM_SHA384],
        offered_groups(r) == offered_groups(provider),
{
    CryptoProvider {
        cipher_suites: vec![rustls::crypto::aws_lc_rs::cipher_suite::TLS13_AES_256_GCM_SHA384],
        ..provider
    }
}

/// `CryptoProvider::fips`: whether every part of the provider is FIPS-validated.
/// That depends on how the module was built and on its self-test, so nothing is
/// said of the answer.
#[verifier::external_body]
fn is_fips(provider: &CryptoProvider) -> bool {
    provider.fips()
}

/// Whether an answer is one that `CryptoProvider::fips` gives of this provider.
pub closed spec fn answered(provider: CryptoProvider, validated: bool) -> bool {
    call_ensures(is_fips, (&provider,), validated)
}

/// Ask the provider itself whether it is FIPS-validated.
pub fn ask_fips(provider: &CryptoProvider) -> (r: bool)
    ensures
        answered(*provider, r),
{
    is_fips(provider)
}

/// Whether these groups and suites are the locked policy.
pub open spec fn locked(groups: Seq<u16>, suites: Seq<u16>) -> bool {
    groups == seq![MLKEM1024] && suites == seq![AES_256_GCM_SHA384]
}

/// Build the authenticator's crypto provider: aws-lc-rs with the key-exchange
/// group and cipher suite pinned to the locked policy. No classical or hybrid
/// group is offered, nor AES-128.
pub fn provider() -> (r: CryptoProvider)
    ensures
        locked(offered_groups(r), offered_suites(r)),
{
    with_aes256_only(with_mlkem1024_only(default_provider()))
}

/// Accept exactly the locked policy.
pub fn check_policy(groups: &[u16], suites: &[u16]) -> (r: Result<(), RadSecError>)
    ensures
        r == (if locked(groups@, suites@) {
            Ok(())
        } else {
            Err(RadSecError::CryptoPolicyViolation)
        }),
{
    let kx_ok = groups.len() == 1 && groups[0] == MLKEM1024;
    let suite_ok = suites.len() == 1 && suites[0] == AES_256_GCM_SHA384;
    proof {
        assert(kx_ok <==> groups@ =~= seq![MLKEM1024]);
        assert(suite_ok <==> suites@ =~= seq![AES_256_GCM_SHA384]);
    }
    if kx_ok && suite_ok {
        Ok(())
    } else {
        Err(RadSecError::CryptoPolicyViolation)
    }
}

/// Assert the provider exposes exactly the locked crypto policy, so a drift in the
/// provider can never widen what is offered.
pub fn assert_policy(provider: &CryptoProvider) -> (r: Result<(), RadSecError>)
    ensures
        r == (if locked(offered_groups(*provider), offered_suites(*provider)) {
            Ok(())
        } else {
            Err(RadSecError::CryptoPolicyViolation)
        }),
{
    let groups = group_ids(provider);
    let suites = suite_ids(provider);
    check_policy(groups.as_slice(), suites.as_slice())
}

/// The verdict on a provider of which it is known whether it is FIPS-validated.
pub open spec fn fips_verdict(validated: bool, groups: Seq<u16>, suites: Seq<u16>) -> Result<
    (),
    RadSecError,
> {
    if !validated {
        Err(RadSecError::NotFips)
    } else if !locked(groups, suites) {
        Err(RadSecError::CryptoPolicyViolation)
    } else {
        Ok(())
    }
}

/// Fail-closed check of a provider whose validation status is given: it has to be
/// validated and to offer the locked policy.
pub fn check_fips(validated: bool, provider: &CryptoProvider) -> (r: Result<(), RadSecError>)
    ensures
        r == fips_verdict(validated, offered_groups(*provider), offered_suites(*provider)),
{
    if !validated {
        return Err(RadSecError::NotFips);
    }
    assert_policy(provider)
}

/// Fail-closed FIPS self-check: the locked policy and a FIPS-validated module.
/// The verdict goes by the provider's own answer; whatever that is, only a provider of
/// the locked policy passes.
pub fn assert_fips(provider: &CryptoProvider) -> (r: Result<(), RadSecError>)
    ensures
        exists|validated: bool| #[trigger]
            answered(*provider, validated) && r == fips_verdict(
                validated,
                offered_groups(*provider),
                offered_suites(*provider),
            ),
        r is Ok ==> locked(offered_groups(*provider), offered_suites(*provider)),
        r matches Err(e) ==> e is NotFips || e is CryptoPolicyViolation,
{
    let validated = ask_fips(provider);
    check_fips(validated, provider)
}

/// A provider passes exactly if it is validated, ML-KEM-1024 (0x0202) is the one group it
/// offers, and TLS_AES_256_GCM_SHA384 (0x1302) the one suite. One that is not validated is
/// told so whatever it offers.
pub proof fn law_only_the_locked_policy_passes(validated: bool, groups: Seq<u16>, suites: Seq<u16>)
    ensures
        fips_verdict(validated, groups, suites) is Ok <==> validated && groups.len() == 1 && groups[0]
            == 0x0202 && suites.len() == 1 && suites[0] == 0x1302,
        !validated ==> fips_verdict(validated, groups, suites) == Err::<(), RadSecError>(
            RadSecError::NotFips,
        ),
        validated && fips_verdict(validated, groups, suites) is Err ==> fips_verdict(
            validated,
            groups,
            suites,
        ) == Err::<(), RadSecError>(RadSecError::CryptoPolicyViolation),
{
    assert(groups.len() == 1 && groups[0] == 0x0202 <==> groups =~= seq![0x0202u16]);
    assert(suites.len() == 1 && suites[0] == 0x1302 <==> suites =~= seq![0x1302u16]);
}

} // verus!
