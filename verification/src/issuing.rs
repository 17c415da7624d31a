//! Issuing the local certificate hierarchy with rcgen: ES256 keys, the
//! certificate parameters of a request, and the self-signed root and the
//! signer it issues. Keys and signatures are random; what is stated is what
//! each certificate is issued with and how each failure is reported.
use vstd::prelude::*;

use crate::config::Identity;
use crate::error::AppError;
use crate::pki::{
    certificate_request, format_time, root_plan, signer_plan, spec_format_time, CertificateRequest, ExtendedUsage,
    KeyUsage,
};
use crate::text::{concat2, starts_with};

verus! {

#[verifier::external_type_specification]
#[verifier::external_body]
pub struct ExKeyPair(rcgen::KeyPair);

#[verifier::external_type_specification]
#[verifier::external_body]
pub struct ExCertificateParams(rcgen::CertificateParams);

/// Generates a fresh key pair with `rcgen::KeyPair::generate` (ECDSA P-256,
/// SHA-256), or the error's text. The key is random.
#[verifier::external_body]
fn key_generate() -> (r: Result<rcgen::KeyPair, String>) {
    rcgen::KeyPair::generate().map_err(|e| e.to_string())
}

/// Decodes a PKCS#8 PEM key with `rcgen::KeyPair::from_pem`, or the error's
/// text.
#[verifier::external_body]
fn key_from_pem(pem: &str) -> (r: Result<rcgen::KeyPair, String>) {
    rcgen::KeyPair::from_pem(pem).map_err(|e| e.to_string())
}

/// The PKCS#8 PEM text of a key pair (`KeyPair::serialize_pem`).
#[verifier::external_body]
fn key_pem(key: &rcgen::KeyPair) -> (r: String) {
    key.serialize_pem()
}

/// Certificate parameters valid between two instants (Unix nanoseconds),
/// from `CertificateParams::default` and
/// `time::OffsetDateTime::from_unix_timestamp_nanos`, or the time library's
/// error text.
#[verifier::external_body]
fn params_new(not_before_nanos: i128, not_after_nanos: i128) -> (r: Result<rcgen::CertificateParams, String>) {
    let mut params = rcgen::CertificateParams::default();
    params.not_before = time::OffsetDateTime::from_unix_timestamp_nanos(not_before_nanos).map_err(|e| e.to_string())?;
    params.not_after = time::OffsetDateTime::from_unix_timestamp_nanos(not_after_nanos).map_err(|e| e.to_string())?;
    Ok(params)
}

/// Sets the subject: its common name and organization (`DistinguishedName::push`).
#[verifier::external_body]
fn params_set_subject(params: &mut rcgen::CertificateParams, common_name: String, organization: String) {
    let mut name = rcgen::DistinguishedName::new();
    name.push(rcgen::DnType::CommonName, common_name);
    name.push(rcgen::DnType::OrganizationName, organization);
    params.distinguished_name = name;
}

/// Marks a CA that may sign leaf certificates only
/// (`IsCa::Ca(BasicConstraints::Constrained(0))`), or a leaf (`IsCa::NoCa`).
#[verifier::external_body]
fn params_set_ca(params: &mut rcgen::CertificateParams, is_ca: bool) {
    params.is_ca = if is_ca { rcgen::IsCa::Ca(rcgen::BasicConstraints::Constrained(0)) } else { rcgen::IsCa::NoCa };
}

/// Adds a key usage (`KeyUsagePurpose`).
#[verifier::external_body]
fn params_add_key_usage(params: &mut rcgen::CertificateParams, usage: KeyUsage) {
    params.key_usages.push(match usage {
        KeyUsage::KeyCertSign => rcgen::KeyUsagePurpose::KeyCertSign,
        KeyUsage::CrlSign => rcgen::KeyUsagePurpose::CrlSign,
        KeyUsage::DigitalSignature => rcgen::KeyUsagePurpose::DigitalSignature,
    });
}

/// Adds an extended key usage (`ExtendedKeyUsagePurpose`).
#[verifier::external_body]
fn params_add_extended_usage(params: &mut rcgen::CertificateParams, usage: ExtendedUsage) {
    params.extended_key_usages.push(match usage {
        ExtendedUsage::Other(oid) => rcgen::ExtendedKeyUsagePurpose::Other(oid),
        ExtendedUsage::EmailProtection => rcgen::ExtendedKeyUsagePurpose::EmailProtection,
    });
}

/// Adds a DNS subject alternative name (`Ia5String::try_from`,
/// `SanType::DnsName`), or the IA5 error's text.
#[verifier::external_body]
fn params_add_dns_name(params: &mut rcgen::CertificateParams, name: String) -> (r: Result<(), String>) {
    let name = rcgen::string::Ia5String::try_from(name).map_err(|e| e.to_string())?;
    params.subject_alt_names.push(rcgen::SanType::DnsName(name));
    Ok(())
}

/// Adds a URI subject alternative name (`Ia5String::try_from`,
/// `SanType::URI`), or the IA5 error's text.
#[verifier::external_body]
fn params_add_uri(params: &mut rcgen::CertificateParams, uri: String) -> (r: Result<(), String>) {
    let uri = rcgen::string::Ia5String::try_from(uri).map_err(|e| e.to_string())?;
    params.subject_alt_names.push(rcgen::SanType::URI(uri));
    Ok(())
}

/// Sets whether the authority key identifier extension is written.
#[verifier::external_body]
fn params_set_authority_key_identifier(params: &mut rcgen::CertificateParams, on: bool) {
    params.use_authority_key_identifier_extension = on;
}

/// Signs certificate parameters with their own key
/// (`CertificateParams::self_signed`) and returns the certificate's PEM, or
/// the error's text. The signature is random.
#[verifier::external_body]
fn certificate_self_signed(params: &rcgen::CertificateParams, key: &rcgen::KeyPair) -> (r: Result<String, String>) {
    params.self_signed(key).map(|c| c.pem()).map_err(|e| e.to_string())
}

/// Signs certificate parameters with an issuer made of the issuer's
/// parameters and key (`Issuer::from_params`, `CertificateParams::signed_by`)
/// and returns the certificate's PEM, or the error's text.
#[verifier::external_body]
fn certificate_signed_by(
    params: &rcgen::CertificateParams,
    key: &rcgen::KeyPair,
    issuer_params: &rcgen::CertificateParams,
    issuer_key: &rcgen::KeyPair,
) -> (r: Result<String, String>) {
    let issuer = rcgen::Issuer::from_params(issuer_params, issuer_key);
    params.signed_by(key, &issuer).map(|c| c.pem()).map_err(|e| e.to_string())
}

/// The failure to build the parameters of a request: a validity outside the
/// time library's range, or a subject alternative name that is not IA5.
pub open spec fn params_failure(e: AppError) -> bool {
    e.exit_code == 1 && (starts_with(e.message@, "certificate validity is out of range: "@)
        || starts_with(e.message@, "identity.domain cannot be encoded as a DNS SAN: "@)
        || starts_with(e.message@, "identity.uri cannot be encoded as a URI SAN: "@))
}

fn runtime_error(prefix: &str, detail: String) -> (e: AppError)
    ensures
        e.exit_code == 1,
        starts_with(e.message@, prefix@),
{
    let m = concat2(prefix, detail.as_str());
    assert(m@.subrange(0, prefix@.len() as int) =~= prefix@);
    AppError::runtime(m)
}

/// The rcgen parameters of a certificate request, field for field: the
/// validity window, the subject, the CA constraint, each key usage and
/// extended key usage in order, the DNS and URI names, and the authority key
/// identifier extension.
fn certificate_params(request: CertificateRequest) -> (r: Result<rcgen::CertificateParams, AppError>)
    ensures
        r matches Err(e) ==> params_failure(e),
{
    let CertificateRequest {
        common_name,
        organization,
        not_before_nanos,
        not_after_nanos,
        is_ca,
        key_usages,
        extended_key_usages,
        dns_name,
        uri,
        authority_key_identifier,
    } = request;
    let mut params = match params_new(not_before_nanos, not_after_nanos) {
        Ok(p) => p,
        Err(e) => return Err(runtime_error("certificate validity is out of range: ", e)),
    };
    params_set_subject(&mut params, common_name, organization);
    if let Some(name) = dns_name {
        if let Err(e) = params_add_dns_name(&mut params, name) {
            return Err(runtime_error("identity.domain cannot be encoded as a DNS SAN: ", e));
        }
    }
    if let Some(u) = uri {
        if let Err(e) = params_add_uri(&mut params, u) {
            return Err(runtime_error("identity.uri cannot be encoded as a URI SAN: ", e));
        }
    }
    params_set_ca(&mut params, is_ca);
    let mut k: usize = 0;
    while k < key_usages.len()
        invariant
            k <= key_usages@.len(),
        decreases key_usages@.len() - k,
    {
        params_add_key_usage(&mut params, key_usages[k]);
        k = k + 1;
    }
    let mut rest = extended_key_usages;
    while rest.len() > 0
        decreases rest@.len(),
    {
        let usage = rest.remove(0);
        params_add_extended_usage(&mut params, usage);
    }
    params_set_authority_key_identifier(&mut params, authority_key_identifier);
    Ok(params)
}

/// A newly issued signer: its certificate and key (PEM), and the end of its
/// validity as reported.
#[derive(Debug)]
pub struct IssuedSigner {
    pub certificate_pem: String,
    pub key_pem: Vec<u8>,
    pub not_after: String,
}

/// A new hierarchy: the root's certificate and key (PEM) and its signer.
#[derive(Debug)]
pub struct IssuedHierarchy {
    pub root_certificate_pem: String,
    pub root_key_pem: Vec<u8>,
    pub signer: IssuedSigner,
}

/// The failures of issuing a signer.
pub open spec fn signer_failure(e: AppError) -> bool {
    ||| e.exit_code == 1 && starts_with(e.message@, "cannot generate the signer ES256 key: "@)
    ||| e.exit_code == 1 && starts_with(e.message@, "cannot issue the signer certificate: "@)
    ||| params_failure(e)
}

/// The end of validity of a certificate issued at `now_nanos` for `days`, as
/// reported: RFC 3339 in UTC, else whole Unix seconds.
pub open spec fn spec_not_after_text(now_nanos: i128, days: u32) -> Seq<char> {
    let end = now_nanos + days * 86_400_000_000_000;
    spec_format_time((end as i128, 0i32, (end / 1_000_000_000) as i64))
}

/// The whole seconds of an instant in nanoseconds, rounded down.
fn whole_seconds(nanos: i128) -> (s: i64)
    requires
        -0x400_0000_0000_0000_0000_0000 < nanos < 0x400_0000_0000_0000_0000_0000,
    ensures
        s == nanos / 1_000_000_000,
{
    if nanos >= 0 {
        assert(nanos / 1_000_000_000 < 0x4000_0000_0000_0000) by (nonlinear_arith)
            requires
                0 <= nanos < 0x400_0000_0000_0000_0000_0000;
        (nanos / 1_000_000_000) as i64
    } else {
        let up: i128 = (-nanos + 999_999_999) / 1_000_000_000;
        assert(-up == nanos / 1_000_000_000 && up < 0x4000_0000_0000_0000) by (nonlinear_arith)
            requires
                -0x400_0000_0000_0000_0000_0000 < nanos < 0,
                up == (-nanos + 999_999_999) / 1_000_000_000;
        (-up) as i64
    }
}

/// Issues a signer for an identity with an issuer's parameters and key, at
/// `now_nanos`: a fresh key, the signer plan's certificate request, and the
/// certificate signed by the issuer. The plan refuses an identity whose
/// domain or URI is not ASCII, before any key is made.
fn issue_signer_with(
    identity: &Identity,
    issuer_params: &rcgen::CertificateParams,
    issuer_key: &rcgen::KeyPair,
    now_nanos: i128,
) -> (r: Result<IssuedSigner, AppError>)
    requires
        -0x100_0000_0000_0000_0000_0000 < now_nanos < 0x100_0000_0000_0000_0000_0000,
    ensures
        r matches Err(e) ==> signer_failure(e) || signer_plan_error(e),
        r matches Ok(s) ==> s.not_after@ == spec_not_after_text(now_nanos, 397),
{
    let plan = match signer_plan(identity) {
        Ok(p) => p,
        Err(e) => {
            proof {
                let d = "identity.domain cannot be encoded as a DNS SAN: "@;
                let u = "identity.uri cannot be encoded as a URI SAN: "@;
                if crate::pki::non_ascii(identity.domain) {
                    assert(e.message@.subrange(0, d.len() as int) =~= d);
                } else {
                    assert(e.message@.subrange(0, u.len() as int) =~= u);
                }
            }
            return Err(e);
        },
    };
    let key = match key_generate() {
        Ok(k) => k,
        Err(e) => return Err(runtime_error("cannot generate the signer ES256 key: ", e)),
    };
    let request = certificate_request(&plan, now_nanos);
    let end = request.not_after_nanos;
    let not_after = format_time((end, 0, whole_seconds(end)));
    let params = certificate_params(request)?;
    let certificate_pem = match certificate_signed_by(&params, &key, issuer_params, issuer_key) {
        Ok(c) => c,
        Err(e) => return Err(runtime_error("cannot issue the signer certificate: ", e)),
    };
    Ok(IssuedSigner { certificate_pem, key_pem: vstd::slice::slice_to_vec(key_pem(&key).as_str().as_bytes()), not_after })
}

/// A refusal of the signer plan: a domain or URI that is not ASCII.
pub open spec fn signer_plan_error(e: AppError) -> bool {
    e.exit_code == 1 && (starts_with(e.message@, "identity.domain cannot be encoded as a DNS SAN: "@)
        || starts_with(e.message@, "identity.uri cannot be encoded as a URI SAN: "@))
}

/// The failures of issuing a hierarchy.
pub open spec fn hierarchy_failure(e: AppError) -> bool {
    ||| e.exit_code == 1 && starts_with(e.message@, "cannot generate the root ES256 key: "@)
    ||| e.exit_code == 1 && starts_with(e.message@, "cannot create the root certificate: "@)
    ||| signer_failure(e)
    ||| signer_plan_error(e)
}

/// Issues a new hierarchy for an identity at `now_nanos`: a root key, the
/// root plan's self-signed certificate, and a signer issued by that root.
pub fn issue_hierarchy(identity: &Identity, now_nanos: i128) -> (r: Result<IssuedHierarchy, AppError>)
    requires
        -0x100_0000_0000_0000_0000_0000 < now_nanos < 0x100_0000_0000_0000_0000_0000,
    ensures
        r matches Err(e) ==> hierarchy_failure(e),
        r matches Ok(h) ==> h.signer.not_after@ == spec_not_after_text(now_nanos, 397),
{
    let root_key = match key_generate() {
        Ok(k) => k,
        Err(e) => return Err(runtime_error("cannot generate the root ES256 key: ", e)),
    };
    let params = certificate_params(certificate_request(&root_plan(identity), now_nanos))?;
    let root_certificate_pem = match certificate_self_signed(&params, &root_key) {
        Ok(c) => c,
        Err(e) => return Err(runtime_error("cannot create the root certificate: ", e)),
    };
    let signer = issue_signer_with(identity, &params, &root_key, now_nanos)?;
    Ok(IssuedHierarchy { root_certificate_pem, root_key_pem: vstd::slice::slice_to_vec(key_pem(&root_key).as_str().as_bytes()), signer })
}

/// The failures of issuing a signer from a stored root key.
pub open spec fn rotation_failure(e: AppError) -> bool {
    ||| e.exit_code == 1 && starts_with(e.message@, "cannot decode the root PKCS#8 key: "@)
    ||| signer_failure(e)
    ||| signer_plan_error(e)
}

/// Issues a new signer from the stored root key (PEM) at `now_nanos`. The
/// issuer is the root plan of the identity, which names the root's subject,
/// with the stored root key.
pub fn issue_signer(identity: &Identity, root_key_pem: &str, now_nanos: i128) -> (r: Result<IssuedSigner, AppError>)
    requires
        -0x100_0000_0000_0000_0000_0000 < now_nanos < 0x100_0000_0000_0000_0000_0000,
    ensures
        r matches Err(e) ==> rotation_failure(e),
        r matches Ok(s) ==> s.not_after@ == spec_not_after_text(now_nanos, 397),
{
    let root_key = match key_from_pem(root_key_pem) {
        Ok(k) => k,
        Err(e) => return Err(runtime_error("cannot decode the root PKCS#8 key: ", e)),
    };
    let params = certificate_params(certificate_request(&root_plan(identity), now_nanos))?;
    issue_signer_with(identity, &params, &root_key, now_nanos)
}

} // verus!
