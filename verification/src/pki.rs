//! The local certificate hierarchy: fingerprints, names derived from them,
//! and the decisions taken when an identity is initialized.
use vstd::prelude::*;

use crate::digest::{fingerprint_der, pem_contents, pem_first_block, spec_fingerprint_der};
use crate::config::{Identity, Profile, SignerRecord};
use crate::error::AppError;
use crate::text::{
    char_lower, chars_of, clone_opt, concat2, concat3, decimal, decimal_string, lower_char, owned, push_decimal,
    push_str, starts_with, string_of,
};

verus! {

/// The message prefix of an unreadable certificate PEM.
pub open spec fn msg_bad_pem() -> Seq<char> {
    "cannot parse certificate PEM: "@
}

/// The fingerprint of the first certificate of a PEM text, when it has one.
pub open spec fn pem_fingerprint(pem: Seq<u8>) -> Option<Seq<char>> {
    match pem_first_block(pem) {
        Some(der) => Some(spec_fingerprint_der(der)),
        None => None,
    }
}

/// The SHA-256 fingerprint of the first certificate in a PEM text.
pub fn certificate_fingerprint(pem_bytes: &[u8]) -> (r: Result<String, AppError>)
    ensures
        match pem_first_block(pem_bytes@) {
            Some(der) => r matches Ok(s) && s@ == spec_fingerprint_der(der),
            None => r matches Err(e) && e.exit_code == 1 && starts_with(e.message@, msg_bad_pem()),
        },
{
    match pem_contents(pem_bytes) {
        Ok(der) => Ok(fingerprint_der(der.as_slice())),
        Err(detail) => {
            let m = concat2("cannot parse certificate PEM: ", detail.as_str());
            proof {
                reveal_strlit("cannot parse certificate PEM: ");
                assert(m@.subrange(0, msg_bad_pem().len() as int) =~= msg_bad_pem());
            }
            Err(AppError::runtime(m))
        },
    }
}

/// The report of `init`.
#[derive(Debug)]
pub struct InitReport {
    pub status: &'static str,
    pub profile: String,
    pub root_created: bool,
    pub signer_created: bool,
    pub signer_rotated: bool,
    pub signer_fingerprint_sha256: String,
    pub key_storage: &'static str,
    pub user_presence: &'static str,
    pub trust_mode: &'static str,
    pub public_c2pa_trust: &'static str,
}

/// The report of `identity`.
#[derive(Debug)]
pub struct IdentityReport {
    pub status: &'static str,
    pub signer_name: String,
    pub organization: Option<String>,
    pub domain: Option<String>,
    pub uri: Option<String>,
    pub vendor: Option<String>,
    pub signer_subject: String,
    pub signer_issuer: String,
    pub signer_fingerprint_sha256: String,
    pub signer_not_before: String,
    pub signer_not_after: String,
    pub algorithm: String,
    pub key_storage: &'static str,
    pub trust_mode: &'static str,
    pub public_c2pa_trust: &'static str,
}

/// The organization written into certificates: the identity's, or else the
/// signer name (the C2PA library requires one).
pub fn certificate_organization(identity: &Identity) -> (r: String)
    ensures
        match identity.organization {
            Some(o) => r@ == o@,
            None => r@ == identity.signer_name@,
        },
{
    match &identity.organization {
        Some(o) => o.clone(),
        None => identity.signer_name.clone(),
    }
}

/// The common name of the local root certificate.
pub fn root_common_name(identity: &Identity) -> (r: String)
    ensures
        r@ == identity.signer_name@ + " Local C2PA Root"@,
{
    concat2(identity.signer_name.as_str(), " Local C2PA Root")
}

/// An optional value as shown in a report.
pub fn display_optional(value: &Option<String>) -> (r: &str)
    ensures
        match value {
            Some(s) => r@ == s@,
            None => r@ == "not configured"@,
        },
{
    match value {
        Some(s) => s.as_str(),
        None => "not configured",
    }
}

/// The first refusal of an `init` request before anything is written: a new
/// profile needs an identity.
pub fn init_requires_identity(profile_exists: bool, new_identity: &Option<Identity>) -> (r: Result<(), AppError>)
    ensures
        (!profile_exists && new_identity.is_none()) <==> r is Err,
        r matches Err(e) ==> e.exit_code == 2
            && e.message@ == "a signer identity is required when creating a new profile"@,
{
    if !profile_exists && new_identity.is_none() {
        return Err(AppError::usage(owned("a signer identity is required when creating a new profile")));
    }
    Ok(())
}

/// The profile that `init` works on: the loaded one (or the default), with
/// the new identity when one is given for a new profile. An existing
/// profile's identity is never replaced, and user presence must stay
/// required.
pub open spec fn spec_init_profile(profile: Profile, profile_exists: bool, new_identity: Option<Identity>, r: Result<Profile, AppError>) -> bool {
    if new_identity.is_some() && profile_exists {
        r matches Err(e) && e.exit_code == 2 && e.message@ == "refusing to replace the identity in an existing profile"@
    } else if !profile.security.require_user_presence {
        r matches Err(e) && e.exit_code == 1
            && e.message@ == "security.require_user_presence must remain true for the macOS version 1 signer"@
    } else {
        r matches Ok(p) && {
            &&& p.identity == (match new_identity { Some(i) => i, None => profile.identity })
            &&& p.credential == profile.credential
            &&& p.manifest == profile.manifest
            &&& p.timestamp == profile.timestamp
            &&& p.security == profile.security
            &&& p.signers == profile.signers
        }
    }
}

/// Prepares the profile that `init` works on.
pub fn init_profile(profile: Profile, profile_exists: bool, new_identity: Option<Identity>) -> (r: Result<Profile, AppError>)
    ensures
        spec_init_profile(profile, profile_exists, new_identity, r),
{
    let mut profile = profile;
    if let Some(identity) = new_identity {
        if profile_exists {
            return Err(AppError::usage(owned("refusing to replace the identity in an existing profile")));
        }
        profile.identity = identity;
    }
    if !profile.security.require_user_presence {
        return Err(AppError::runtime(owned("security.require_user_presence must remain true for the macOS version 1 signer")));
    }
    Ok(profile)
}

/// Whether the profile lacks a usable active signer: no key account, no
/// certificate, or a certificate file that does not exist.
pub open spec fn spec_signer_missing(p: Profile, signer_certificate_exists: bool) -> bool {
    p.credential.active_signer_key_account.is_none() || p.credential.active_signer_certificate.is_none()
        || !signer_certificate_exists
}

/// What `init` creates: the root when its certificate is missing, and a new
/// signer when the root is new, the signer is missing, or a rotation was
/// asked for. The result is (root created, signer issued).
pub open spec fn spec_init_plan(profile: Profile, root_exists: bool, signer_certificate_exists: bool, rotate_signer: bool) -> (bool, bool) {
    (!root_exists, !root_exists || spec_signer_missing(profile, signer_certificate_exists) || rotate_signer)
}

/// Decides what `init` creates.
pub fn init_plan(profile: &Profile, root_exists: bool, signer_certificate_exists: bool, rotate_signer: bool) -> (r: (bool, bool))
    ensures
        r == spec_init_plan(*profile, root_exists, signer_certificate_exists, rotate_signer),
{
    let root_created = !root_exists;
    let missing = profile.credential.active_signer_key_account.is_none()
        || profile.credential.active_signer_certificate.is_none() || !signer_certificate_exists;
    (root_created, root_created || missing || rotate_signer)
}

/// Running `init` again is idempotent: on a profile that an earlier `init`
/// completed (user presence required, an active signer whose certificate
/// exists, the root certificate present), with no identity options and no
/// rotation, nothing is created and the profile comes back unchanged.
pub proof fn law_init_again_changes_nothing(profile: Profile, r: Result<Profile, AppError>)
    requires
        profile.security.require_user_presence,
        !spec_signer_missing(profile, true),
        spec_init_profile(profile, true, None, r),
    ensures
        r matches Ok(p) && p == profile,
        spec_init_plan(profile, true, true, false) == (false, false),
{
}

/// A fingerprint without colons, in ASCII lowercase.
pub open spec fn compact_fingerprint(fp: Seq<char>) -> Seq<char>
    decreases fp.len(),
{
    if fp.len() == 0 {
        seq![]
    } else if fp.last() == ':' {
        compact_fingerprint(fp.drop_last())
    } else {
        compact_fingerprint(fp.drop_last()).push(lower_char(fp.last()))
    }
}

/// Whether every character of a text is ASCII.
pub open spec fn all_ascii(s: Seq<char>) -> bool {
    forall|i: int| 0 <= i < s.len() ==> (#[trigger] s[i]) as u32 <= 127
}

fn compact(fp: &str) -> (r: Vec<char>)
    ensures
        r@ == compact_fingerprint(fp@),
{
    let cs = chars_of(fp);
    let mut out: Vec<char> = Vec::new();
    let mut i: usize = 0;
    while i < cs.len()
        invariant
            i <= cs@.len(),
            cs@ == fp@,
            out@ == compact_fingerprint(cs@.subrange(0, i as int)),
        decreases cs@.len() - i,
    {
        let ghost pre = cs@.subrange(0, i + 1);
        proof {
            assert(pre.drop_last() =~= cs@.subrange(0, i as int));
        }
        if cs[i] != ':' {
            out.push(char_lower(cs[i]));
        }
        i = i + 1;
    }
    assert(cs@.subrange(0, cs@.len() as int) =~= cs@);
    out
}

/// The Keychain account and archived certificate path of a signer: from the
/// first 20 and 16 characters of its compact fingerprint.
pub fn signer_names(fingerprint: &str) -> (r: (String, String))
    requires
        compact_fingerprint(fingerprint@).len() >= 20,
        all_ascii(fingerprint@),
    ensures
        r.0@ == "signer-"@ + compact_fingerprint(fingerprint@).subrange(0, 20),
        r.1@ == "certs/signer-"@ + compact_fingerprint(fingerprint@).subrange(0, 16) + ".pem"@,
{
    let c = compact(fingerprint);
    let k = string_of(vstd::slice::slice_subrange(c.as_slice(), 0, 20));
    let a = string_of(vstd::slice::slice_subrange(c.as_slice(), 0, 16));
    (concat2("signer-", k.as_str()), concat3("certs/signer-", a.as_str(), ".pem"))
}

/// Makes a newly issued signer the active one and records it in the
/// profile's signer history.
pub fn install_signer_record(
    profile: &mut Profile,
    fingerprint: String,
    key_account: String,
    archive_relative: String,
    issued_at: String,
    not_after: String,
)
    ensures
        final(profile).identity == old(profile).identity,
        final(profile).manifest == old(profile).manifest,
        final(profile).timestamp == old(profile).timestamp,
        final(profile).security == old(profile).security,
        final(profile).credential.mode == old(profile).credential.mode,
        final(profile).credential.algorithm == old(profile).credential.algorithm,
        final(profile).credential.keychain_backend == old(profile).credential.keychain_backend,
        final(profile).credential.keychain_service == old(profile).credential.keychain_service,
        final(profile).credential.root_key_account == old(profile).credential.root_key_account,
        final(profile).credential.root_certificate == old(profile).credential.root_certificate,
        final(profile).credential.active_signer_key_account matches Some(k) && k@ == key_account@,
        final(profile).credential.active_signer_certificate matches Some(c) && c@ == "certs/signer-chain.pem"@,
        final(profile).signers@.len() == old(profile).signers@.len() + 1,
        forall|k: int| 0 <= k < old(profile).signers@.len() ==> final(profile).signers@[k] == old(profile).signers@[k],
        final(profile).signers@.last() == (SignerRecord {
            fingerprint_sha256: fingerprint,
            certificate: archive_relative,
            keychain_account: key_account,
            issued_at,
            not_after,
        }),
{
    profile.credential.active_signer_key_account = Some(key_account.clone());
    profile.credential.active_signer_certificate = Some(owned("certs/signer-chain.pem"));
    profile.signers.push(SignerRecord {
        fingerprint_sha256: fingerprint,
        certificate: archive_relative,
        keychain_account: key_account,
        issued_at,
        not_after,
    });
}

/// The report of a completed `init`.
pub fn init_report(
    profile_file: String,
    profile: &Profile,
    root_created: bool,
    signer_issued: bool,
    rotate_signer: bool,
    signer_fingerprint: String,
) -> (r: InitReport)
    ensures
        r.status@ == "ok"@,
        r.profile == profile_file,
        r.root_created == root_created,
        r.signer_created == signer_issued,
        r.signer_rotated == (rotate_signer && !root_created),
        r.signer_fingerprint_sha256 == signer_fingerprint,
        r.key_storage@ == "macOS login Keychain (local; no private key files)"@,
        r.user_presence@ == "macOS user authentication immediately before retrieval; Touch ID is offered when available, with login-password fallback"@,
        r.trust_mode@ == "local-private"@,
        r.public_c2pa_trust@ == "not-established"@,
{
    InitReport {
        status: "ok",
        profile: profile_file,
        root_created,
        signer_created: signer_issued,
        signer_rotated: rotate_signer && !root_created,
        signer_fingerprint_sha256: signer_fingerprint,
        key_storage: profile.credential.keychain_backend.storage_description(),
        user_presence: profile.credential.keychain_backend.authentication_description(),
        trust_mode: "local-private",
        public_c2pa_trust: "not-established",
    }
}

/// The subject, issuer, and validity bounds of a DER certificate, as the
/// X.509 parser reads them, when it parses. Each bound is its instant in
/// Unix nanoseconds, its UTC offset in seconds, and its whole Unix seconds.
pub uninterp spec fn x509_fields(der: Seq<u8>) -> Option<(Seq<char>, Seq<char>, (i128, i32, i64), (i128, i32, i64))>;

/// The RFC 3339 text of an instant (Unix nanoseconds) at a UTC offset (in
/// seconds), when the time library can represent and format it.
pub uninterp spec fn rfc3339_of(nanos: i128, offset: i32) -> Option<Seq<char>>;

/// Parses a DER certificate with `x509_parser::parse_x509_certificate` and
/// reads its subject and issuer (as displayed) and its validity bounds
/// (`ASN1Time::to_datetime`: instant, offset, whole seconds). Trusted: the
/// result is the one named by `x509_fields`; the parser's error text is not
/// stated.
#[verifier::external_body]
fn certificate_fields(der: &[u8]) -> (r: Result<(String, String, (i128, i32, i64), (i128, i32, i64)), String>)
    ensures
        match r {
            Ok((s, i, a, b)) => x509_fields(der@) == Some((s@, i@, a, b)),
            Err(_) => x509_fields(der@).is_none(),
        },
{
    match x509_parser::parse_x509_certificate(der) {
        Ok((_, cert)) => {
            let a = cert.validity().not_before.to_datetime();
            let b = cert.validity().not_after.to_datetime();
            Ok((
                cert.subject().to_string(),
                cert.issuer().to_string(),
                (a.unix_timestamp_nanos(), a.offset().whole_seconds(), a.unix_timestamp()),
                (b.unix_timestamp_nanos(), b.offset().whole_seconds(), b.unix_timestamp()),
            ))
        },
        Err(error) => Err(format!("{error}")),
    }
}

/// Formats an instant at a UTC offset as RFC 3339 with `time`
/// (`OffsetDateTime::from_unix_timestamp_nanos`, `UtcOffset::from_whole_seconds`,
/// `to_offset`, then `format(&Rfc3339)`). Trusted: the result is the one
/// named by `rfc3339_of`.
#[verifier::external_body]
fn rfc3339(nanos: i128, offset: i32) -> (r: Option<String>)
    ensures
        match r {
            Some(s) => rfc3339_of(nanos, offset) == Some(s@),
            None => rfc3339_of(nanos, offset).is_none(),
        },
{
    let at = time::UtcOffset::from_whole_seconds(offset).ok()?;
    let t = time::OffsetDateTime::from_unix_timestamp_nanos(nanos).ok()?.to_offset(at);
    t.format(&time::format_description::well_known::Rfc3339).ok()
}

/// The decimal text of a signed integer.
pub open spec fn signed_decimal(n: int) -> Seq<char> {
    if n < 0 { "-"@ + decimal((-n) as nat) } else { decimal(n as nat) }
}

/// A time as reported: RFC 3339 at its own offset, or else its whole Unix
/// seconds in decimal.
pub open spec fn spec_format_time(t: (i128, i32, i64)) -> Seq<char> {
    match rfc3339_of(t.0, t.1) {
        Some(s) => s,
        None => signed_decimal(t.2 as int),
    }
}

/// Formats a certificate time for reports.
pub fn format_time(t: (i128, i32, i64)) -> (r: String)
    ensures
        r@ == spec_format_time(t),
{
    let (nanos, offset, unix) = t;
    match rfc3339(nanos, offset) {
        Some(s) => s,
        None => {
            if unix < 0 {
                let mut r = owned("-");
                let m: u64 = if unix == i64::MIN { 9223372036854775808u64 } else { (-unix) as u64 };
                push_decimal(&mut r, m);
                r
            } else {
                decimal_string(unix as u64)
            }
        },
    }
}

/// What a certificate says of itself, for reports.
#[derive(Debug)]
pub struct CertificateSummary {
    pub subject: String,
    pub issuer: String,
    pub fingerprint_sha256: String,
    pub not_before: String,
    pub not_after: String,
}

/// The summary of the first certificate of a PEM text.
pub fn certificate_summary(pem_bytes: &[u8]) -> (r: Result<CertificateSummary, AppError>)
    ensures
        match pem_first_block(pem_bytes@) {
            None => r matches Err(e) && e.exit_code == 1
                && starts_with(e.message@, "cannot parse signer certificate PEM: "@),
            Some(der) => match x509_fields(der) {
                None => r matches Err(e) && e.exit_code == 1
                    && starts_with(e.message@, "cannot parse signer certificate DER: "@),
                Some((subject, issuer, a, b)) => r matches Ok(c) && c.subject@ == subject && c.issuer@ == issuer
                    && c.fingerprint_sha256@ == spec_fingerprint_der(der) && c.not_before@ == spec_format_time(a)
                    && c.not_after@ == spec_format_time(b),
            },
        },
{
    let der = match pem_contents(pem_bytes) {
        Ok(d) => d,
        Err(detail) => {
            let m = concat2("cannot parse signer certificate PEM: ", detail.as_str());
            proof {
                reveal_strlit("cannot parse signer certificate PEM: ");
                assert(m@.subrange(0, "cannot parse signer certificate PEM: "@.len() as int) =~= "cannot parse signer certificate PEM: "@);
            }
            return Err(AppError::runtime(m));
        },
    };
    let (subject, issuer, a, b) = match certificate_fields(der.as_slice()) {
        Ok(f) => f,
        Err(detail) => {
            let m = concat2("cannot parse signer certificate DER: ", detail.as_str());
            proof {
                reveal_strlit("cannot parse signer certificate DER: ");
                assert(m@.subrange(0, "cannot parse signer certificate DER: "@.len() as int) =~= "cannot parse signer certificate DER: "@);
            }
            return Err(AppError::runtime(m));
        },
    };
    Ok(CertificateSummary {
        subject,
        issuer,
        fingerprint_sha256: fingerprint_der(der.as_slice()),
        not_before: format_time(a),
        not_after: format_time(b),
    })
}

/// The report of `identity`: the profile's identity and the active signer
/// certificate's summary, with the private/local trust statement.
pub fn identity_report(profile: &Profile, info: CertificateSummary) -> (r: IdentityReport)
    ensures
        r.status@ == "ok"@,
        r.signer_name@ == profile.identity.signer_name@,
        r.organization == profile.identity.organization,
        r.domain == profile.identity.domain,
        r.uri == profile.identity.uri,
        r.vendor == profile.identity.vendor,
        r.signer_subject == info.subject,
        r.signer_issuer == info.issuer,
        r.signer_fingerprint_sha256 == info.fingerprint_sha256,
        r.signer_not_before == info.not_before,
        r.signer_not_after == info.not_after,
        r.algorithm@ == "ES256 (ECDSA P-256 with SHA-256)"@,
        r.key_storage@ == "macOS login Keychain (local; no private key files)"@,
        r.trust_mode@ == "local-private"@,
        r.public_c2pa_trust@ == "not established"@,
{
    IdentityReport {
        status: "ok",
        signer_name: profile.identity.signer_name.clone(),
        organization: clone_opt(&profile.identity.organization),
        domain: clone_opt(&profile.identity.domain),
        uri: clone_opt(&profile.identity.uri),
        vendor: clone_opt(&profile.identity.vendor),
        signer_subject: info.subject,
        signer_issuer: info.issuer,
        signer_fingerprint_sha256: info.fingerprint_sha256,
        signer_not_before: info.not_before,
        signer_not_after: info.not_after,
        algorithm: owned("ES256 (ECDSA P-256 with SHA-256)"),
        key_storage: profile.credential.keychain_backend.storage_description(),
        trust_mode: "local-private",
        public_c2pa_trust: "not established",
    }
}

/// Checks that a text can be an IA5String with
/// `rcgen::string::Ia5String::try_from`. Trusted: as its source shows, it
/// accepts exactly the ASCII texts, and its error reads
/// `Invalid IA5String: '<text>'`.
#[verifier::external_body]
fn ia5_check(s: &str) -> (r: Result<(), String>)
    ensures
        r is Ok <==> all_ascii(s@),
        r matches Err(m) ==> m@ == "Invalid IA5String: '"@ + s@ + "'"@,
{
    match rcgen::string::Ia5String::try_from(s) {
        Ok(_) => Ok(()),
        Err(error) => Err(format!("{error}")),
    }
}

/// The subject and extensions of a certificate to issue.
#[derive(Debug)]
pub struct CertificatePlan {
    pub common_name: String,
    pub organization: String,
    /// How long the certificate is valid, from five minutes before issue.
    pub validity_days: u32,
    /// A CA that may sign leaf certificates only, or a leaf signer.
    pub is_ca: bool,
    pub dns_name: Option<String>,
    pub uri: Option<String>,
}

/// The local root: `<signer name> Local C2PA Root`, valid ten years, a CA
/// that signs leaves only.
pub fn root_plan(identity: &Identity) -> (p: CertificatePlan)
    ensures
        p.common_name@ == identity.signer_name@ + " Local C2PA Root"@,
        match identity.organization {
            Some(o) => p.organization@ == o@,
            None => p.organization@ == identity.signer_name@,
        },
        p.validity_days == 3652,
        p.is_ca,
        p.dns_name.is_none(),
        p.uri.is_none(),
{
    CertificatePlan {
        common_name: root_common_name(identity),
        organization: certificate_organization(identity),
        validity_days: 3652,
        is_ca: true,
        dns_name: None,
        uri: None,
    }
}

/// An optional text that is present and not ASCII.
pub open spec fn non_ascii(v: Option<String>) -> bool {
    match v {
        Some(s) => !all_ascii(s@),
        None => false,
    }
}

/// The leaf signer: the signer name, valid 397 days, with the identity's
/// domain and URI as subject alternative names; each must be ASCII.
pub fn signer_plan(identity: &Identity) -> (r: Result<CertificatePlan, AppError>)
    ensures
        non_ascii(identity.domain) ==> (r matches Err(e) && e.exit_code == 1
            && e.message@ == "identity.domain cannot be encoded as a DNS SAN: "@ + "Invalid IA5String: '"@
                + identity.domain.unwrap()@ + "'"@),
        !non_ascii(identity.domain) && non_ascii(identity.uri) ==> (r matches Err(e) && e.exit_code == 1
            && e.message@ == "identity.uri cannot be encoded as a URI SAN: "@ + "Invalid IA5String: '"@
                + identity.uri.unwrap()@ + "'"@),
        !non_ascii(identity.domain) && !non_ascii(identity.uri) ==> (r matches Ok(p)
            && p.common_name@ == identity.signer_name@
            && (match identity.organization { Some(o) => p.organization@ == o@, None => p.organization@ == identity.signer_name@ })
            && p.validity_days == 397 && !p.is_ca && p.dns_name == identity.domain && p.uri == identity.uri),
{
    if let Some(d) = &identity.domain {
        if let Err(detail) = ia5_check(d.as_str()) {
            return Err(AppError::runtime(concat2("identity.domain cannot be encoded as a DNS SAN: ", detail.as_str())));
        }
    }
    if let Some(u) = &identity.uri {
        if let Err(detail) = ia5_check(u.as_str()) {
            return Err(AppError::runtime(concat2("identity.uri cannot be encoded as a URI SAN: ", detail.as_str())));
        }
    }
    Ok(CertificatePlan {
        common_name: identity.signer_name.clone(),
        organization: certificate_organization(identity),
        validity_days: 397,
        is_ca: false,
        dns_name: clone_opt(&identity.domain),
        uri: clone_opt(&identity.uri),
    })
}

/// The OID arcs of the C2PA claim-signing extended key usage.
pub fn c2pa_claim_signing_eku() -> (r: Vec<u64>)
    ensures
        r@ == seq![1u64, 3, 6, 1, 4, 1, 62558, 2, 1],
{
    let r: Vec<u64> = vec![1, 3, 6, 1, 4, 1, 62558, 2, 1];
    r
}

/// A key usage of an issued certificate.
#[derive(Clone, Copy, PartialEq, Eq, Structural, Debug)]
pub enum KeyUsage {
    KeyCertSign,
    CrlSign,
    DigitalSignature,
}

/// An extended key usage of an issued certificate.
#[derive(Debug)]
pub enum ExtendedUsage {
    /// The purpose with the given OID arcs.
    Other(Vec<u64>),
    EmailProtection,
}

/// Everything a certificate is issued with, as plain values: the subject,
/// the validity window in Unix nanoseconds, the CA constraint (a CA may sign
/// leaves only), the key usages, the extended key usages, the subject
/// alternative names, and the authority key identifier extension.
#[derive(Debug)]
pub struct CertificateRequest {
    pub common_name: String,
    pub organization: String,
    pub not_before_nanos: i128,
    pub not_after_nanos: i128,
    pub is_ca: bool,
    pub key_usages: Vec<KeyUsage>,
    pub extended_key_usages: Vec<ExtendedUsage>,
    pub dns_name: Option<String>,
    pub uri: Option<String>,
    pub authority_key_identifier: bool,
}

/// How far before the moment of issue a certificate becomes valid, in
/// nanoseconds (five minutes).
pub open spec fn backdate_nanos() -> int { 300_000_000_000 }

/// One day in nanoseconds.
pub open spec fn day_nanos() -> int { 86_400_000_000_000 }

/// The request a plan is issued with at a moment: valid from five minutes
/// before it for the plan's days; a CA signs certificates and revocation
/// lists, a leaf signs claims for the C2PA claim-signing purpose (and, for
/// older validators, e-mail protection).
pub open spec fn spec_certificate_request(plan: CertificatePlan, now_nanos: i128, r: CertificateRequest) -> bool {
    &&& r.common_name@ == plan.common_name@
    &&& r.organization@ == plan.organization@
    &&& r.not_before_nanos == now_nanos - backdate_nanos()
    &&& r.not_after_nanos == now_nanos + plan.validity_days * day_nanos()
    &&& r.is_ca == plan.is_ca
    &&& r.dns_name == plan.dns_name
    &&& r.uri == plan.uri
    &&& r.authority_key_identifier
    &&& if plan.is_ca {
        &&& r.key_usages@ == seq![KeyUsage::KeyCertSign, KeyUsage::CrlSign]
        &&& r.extended_key_usages@.len() == 0
    } else {
        &&& r.key_usages@ == seq![KeyUsage::DigitalSignature]
        &&& r.extended_key_usages@.len() == 2
        &&& r.extended_key_usages@[0] matches ExtendedUsage::Other(oid) && oid@ == seq![1u64, 3, 6, 1, 4, 1, 62558, 2, 1]
        &&& r.extended_key_usages@[1] is EmailProtection
    }
}

/// The request a certificate plan is issued with at `now_nanos` (Unix
/// nanoseconds).
pub fn certificate_request(plan: &CertificatePlan, now_nanos: i128) -> (r: CertificateRequest)
    requires
        -0x1000_0000_0000_0000_0000_0000_0000 < now_nanos < 0x1000_0000_0000_0000_0000_0000_0000,
    ensures
        spec_certificate_request(*plan, now_nanos, r),
{
    let days: i128 = plan.validity_days as i128;
    assert(days * 86_400_000_000_000 <= 0x1_0000_0000 * 86_400_000_000_000) by (nonlinear_arith)
        requires days <= 0xffff_ffff;
    let mut key_usages: Vec<KeyUsage> = Vec::new();
    let mut extended_key_usages: Vec<ExtendedUsage> = Vec::new();
    if plan.is_ca {
        key_usages.push(KeyUsage::KeyCertSign);
        key_usages.push(KeyUsage::CrlSign);
        assert(key_usages@ =~= seq![KeyUsage::KeyCertSign, KeyUsage::CrlSign]);
    } else {
        key_usages.push(KeyUsage::DigitalSignature);
        extended_key_usages.push(ExtendedUsage::Other(c2pa_claim_signing_eku()));
        extended_key_usages.push(ExtendedUsage::EmailProtection);
        assert(key_usages@ =~= seq![KeyUsage::DigitalSignature]);
    }
    CertificateRequest {
        common_name: plan.common_name.clone(),
        organization: plan.organization.clone(),
        not_before_nanos: now_nanos - 300_000_000_000,
        not_after_nanos: now_nanos + days * 86_400_000_000_000,
        is_ca: plan.is_ca,
        key_usages,
        extended_key_usages,
        dns_name: clone_opt(&plan.dns_name),
        uri: clone_opt(&plan.uri),
        authority_key_identifier: true,
    }
}

/// The human-readable text of an identity report.
pub open spec fn spec_identity_text(r: IdentityReport) -> Seq<char> {
    "Signer name\n  "@ + r.signer_name@ + "\n"@
        + "\nOrganization\n  "@ + crate::signing::shown_or_not_configured(r.organization) + "\n"@
        + "\nDomain\n  "@ + crate::signing::shown_or_not_configured(r.domain) + "\n"@
        + "\nURI\n  "@ + crate::signing::shown_or_not_configured(r.uri) + "\n"@
        + "\nManifest vendor\n  "@ + crate::signing::shown_or_not_configured(r.vendor) + "\n"@
        + "\nSigner subject\n  "@ + r.signer_subject@ + "\n"@
        + "\nSigner issuer\n  "@ + r.signer_issuer@ + "\n"@
        + "\nSigner SHA-256\n  "@ + r.signer_fingerprint_sha256@ + "\n"@
        + "\nSigner validity\n  "@ + r.signer_not_before@ + " to "@ + r.signer_not_after@ + "\n"@
        + "\nPrivate key\n  "@ + r.key_storage@ + "\n"@
        + "\nTrust mode\n  "@ + r.trust_mode@ + "\n"@
        + "\nPublic C2PA trust\n  "@ + r.public_c2pa_trust@
}

impl IdentityReport {
    /// The human-readable text of this report.
    pub fn render(&self) -> (t: String)
        ensures
            t@ == spec_identity_text(*self),
    {
        let mut t = owned("Signer name\n  ");
        push_str(&mut t, self.signer_name.as_str());
        push_str(&mut t, "\n");
        push_str(&mut t, "\nOrganization\n  ");
        push_str(&mut t, display_optional(&self.organization));
        push_str(&mut t, "\n");
        push_str(&mut t, "\nDomain\n  ");
        push_str(&mut t, display_optional(&self.domain));
        push_str(&mut t, "\n");
        push_str(&mut t, "\nURI\n  ");
        push_str(&mut t, display_optional(&self.uri));
        push_str(&mut t, "\n");
        push_str(&mut t, "\nManifest vendor\n  ");
        push_str(&mut t, display_optional(&self.vendor));
        push_str(&mut t, "\n");
        push_str(&mut t, "\nSigner subject\n  ");
        push_str(&mut t, self.signer_subject.as_str());
        push_str(&mut t, "\n");
        push_str(&mut t, "\nSigner issuer\n  ");
        push_str(&mut t, self.signer_issuer.as_str());
        push_str(&mut t, "\n");
        push_str(&mut t, "\nSigner SHA-256\n  ");
        push_str(&mut t, self.signer_fingerprint_sha256.as_str());
        push_str(&mut t, "\n");
        push_str(&mut t, "\nSigner validity\n  ");
        push_str(&mut t, self.signer_not_before.as_str());
        push_str(&mut t, " to ");
        push_str(&mut t, self.signer_not_after.as_str());
        push_str(&mut t, "\n");
        push_str(&mut t, "\nPrivate key\n  ");
        push_str(&mut t, self.key_storage);
        push_str(&mut t, "\n");
        push_str(&mut t, "\nTrust mode\n  ");
        push_str(&mut t, self.trust_mode);
        push_str(&mut t, "\n");
        push_str(&mut t, "\nPublic C2PA trust\n  ");
        push_str(&mut t, self.public_c2pa_trust);
        assert(t@ =~= spec_identity_text(*self));
        t
    }
}

/// The human-readable text of an `init` report.
pub open spec fn spec_init_text(r: InitReport) -> Seq<char> {
    "Local identity ready\n"@ + "\n"@
        + "Profile\n  "@ + r.profile@ + "\n"@ + "\n"@
        + "Signer SHA-256\n  "@ + r.signer_fingerprint_sha256@ + "\n"@ + "\n"@
        + "Private keys\n  "@ + r.key_storage@ + "\n"@ + "\n"@
        + "Authentication\n  "@ + r.user_presence@ + "\n"@ + "\n"@
        + "Trust\n  private/local\n"@
        + "\nPublic C2PA trust\n  not established (a local root is not a public trust credential)"@
}

impl InitReport {
    /// The human-readable text of this report.
    pub fn render(&self) -> (t: String)
        ensures
            t@ == spec_init_text(*self),
    {
        let mut t = owned("Local identity ready\n");
        push_str(&mut t, "\n");
        push_str(&mut t, "Profile\n  ");
        push_str(&mut t, self.profile.as_str());
        push_str(&mut t, "\n");
        push_str(&mut t, "\n");
        push_str(&mut t, "Signer SHA-256\n  ");
        push_str(&mut t, self.signer_fingerprint_sha256.as_str());
        push_str(&mut t, "\n");
        push_str(&mut t, "\n");
        push_str(&mut t, "Private keys\n  ");
        push_str(&mut t, self.key_storage);
        push_str(&mut t, "\n");
        push_str(&mut t, "\n");
        push_str(&mut t, "Authentication\n  ");
        push_str(&mut t, self.user_presence);
        push_str(&mut t, "\n");
        push_str(&mut t, "\n");
        push_str(&mut t, "Trust\n  private/local\n");
        push_str(&mut t, "\nPublic C2PA trust\n  not established (a local root is not a public trust credential)");
        assert(t@ =~= spec_init_text(*self));
        t
    }
}

} // verus!
