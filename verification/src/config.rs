//! The configuration directory layout and the signing profile, with its
//! defaults and the rules every loaded or saved profile must satisfy.
use vstd::prelude::*;

use crate::error::AppError;
use crate::paths::{join, spec_join};
use crate::text::{chars_of, concat3, eq_ignore_ascii_case, lower, owned, text_is, trim, trim_str};

verus! {

/// The environment variable that overrides the configuration directory.
pub fn config_env() -> (r: &'static str)
    ensures
        r@ == "BANKSY_C2PA_CONFIG_DIR"@,
{
    "BANKSY_C2PA_CONFIG_DIR"
}

/// The claim description used when attesting an original.
pub fn default_attest_description() -> (r: &'static str)
    ensures
        r@ == "Editorial / publication attestation"@,
{
    "Editorial / publication attestation"
}

/// The claim description used for a derivative work.
pub fn default_derivative_description() -> (r: &'static str)
    ensures
        r@ == "Derivative / editorial work"@,
{
    "Derivative / editorial work"
}

/// The files of the configuration directory.
#[derive(Debug)]
pub struct AppPaths {
    pub config_dir: String,
    pub certs_dir: String,
    pub profile_file: String,
}

impl AppPaths {
    /// The layout under a configuration directory: `certs/` and `profile.toml`.
    pub fn from_config_dir(config_dir: String) -> (p: AppPaths)
        ensures
            p.config_dir == config_dir,
            p.certs_dir@ == spec_join(config_dir@, "certs"@),
            p.profile_file@ == spec_join(config_dir@, "profile.toml"@),
    {
        let certs_dir = join(config_dir.as_str(), "certs");
        let profile_file = join(config_dir.as_str(), "profile.toml");
        AppPaths { certs_dir, profile_file, config_dir }
    }

    /// The configuration directory chosen from the override variable, or else
    /// `.config/banksy-c2pa` under the home directory; without either, an
    /// error.
    pub fn from_environment(override_dir: Option<String>, home: Option<String>) -> (r: Result<AppPaths, AppError>)
        ensures
            match (override_dir, home) {
                (Some(o), _) => r matches Ok(p) && p.config_dir == o,
                (None, Some(h)) => r matches Ok(p)
                    && p.config_dir@ == spec_join(spec_join(h@, ".config"@), "banksy-c2pa"@),
                (None, None) => r matches Err(e) && e.exit_code == 1
                    && e.message@ == "cannot determine the home directory"@,
            },
            r matches Ok(p) ==> p.certs_dir@ == spec_join(p.config_dir@, "certs"@)
                && p.profile_file@ == spec_join(p.config_dir@, "profile.toml"@),
    {
        match override_dir {
            Some(o) => Ok(AppPaths::from_config_dir(o)),
            None => match home {
                Some(h) => {
                    let c = join(h.as_str(), ".config");
                    Ok(AppPaths::from_config_dir(join(c.as_str(), "banksy-c2pa")))
                },
                None => Err(AppError::runtime(owned("cannot determine the home directory"))),
            },
        }
    }

    /// The local root certificate named by the profile.
    pub fn root_certificate(&self, profile: &Profile) -> (r: String)
        ensures
            r@ == spec_join(self.config_dir@, profile.credential.root_certificate@),
    {
        join(self.config_dir.as_str(), profile.credential.root_certificate.as_str())
    }

    /// The active signer certificate named by the profile; an error when no
    /// signer is configured.
    pub fn signer_certificate(&self, profile: &Profile) -> (r: Result<String, AppError>)
        ensures
            match profile.credential.active_signer_certificate {
                Some(rel) => r matches Ok(p) && p@ == spec_join(self.config_dir@, rel@),
                None => r matches Err(e) && e.exit_code == 1
                    && e.message@ == "no active signer is configured; run `banksy-c2pa init`"@,
            },
    {
        match &profile.credential.active_signer_certificate {
            Some(rel) => Ok(join(self.config_dir.as_str(), rel.as_str())),
            None => Err(AppError::runtime(owned("no active signer is configured; run `banksy-c2pa init`"))),
        }
    }
}

/// Who signs: the certificate subject and the optional manifest details.
#[derive(Debug)]
pub struct Identity {
    pub signer_name: String,
    pub organization: Option<String>,
    pub domain: Option<String>,
    pub uri: Option<String>,
    pub vendor: Option<String>,
}

impl Default for Identity {
    fn default() -> (d: Identity)
        ensures
            d.signer_name@ == "banksy-c2pa local signer"@,
            d.organization.is_none(),
            d.domain.is_none(),
            d.uri.is_none(),
            d.vendor.is_none(),
    {
        Identity {
            signer_name: owned("banksy-c2pa local signer"),
            organization: None,
            domain: None,
            uri: None,
            vendor: None,
        }
    }
}

/// Where private keys live. Version 1 knows one store: the login Keychain,
/// unlocked by a user-authentication check before every read.
#[derive(Clone, Copy, PartialEq, Eq, Structural, Debug)]
pub enum KeychainBackend {
    LoginKeychainLocalAuthentication,
}

impl Default for KeychainBackend {
    fn default() -> (d: KeychainBackend)
        ensures
            d == KeychainBackend::LoginKeychainLocalAuthentication,
    {
        KeychainBackend::LoginKeychainLocalAuthentication
    }
}

impl KeychainBackend {
    /// Where the private keys are stored, for reports.
    pub fn storage_description(self) -> (r: &'static str)
        ensures
            r@ == "macOS login Keychain (local; no private key files)"@,
    {
        match self {
            KeychainBackend::LoginKeychainLocalAuthentication => "macOS login Keychain (local; no private key files)",
        }
    }

    /// How key use is authorized, for reports.
    pub fn authentication_description(self) -> (r: &'static str)
        ensures
            r@ == "macOS user authentication immediately before retrieval; Touch ID is offered when available, with login-password fallback"@,
    {
        match self {
            KeychainBackend::LoginKeychainLocalAuthentication => "macOS user authentication immediately before retrieval; Touch ID is offered when available, with login-password fallback",
        }
    }
}

/// The signing credential: mode, algorithm, key store, and certificate files.
#[derive(Debug)]
pub struct Credential {
    pub mode: String,
    pub algorithm: String,
    pub keychain_backend: KeychainBackend,
    pub keychain_service: String,
    pub root_key_account: String,
    pub root_certificate: String,
    pub active_signer_key_account: Option<String>,
    pub active_signer_certificate: Option<String>,
}

impl Default for Credential {
    fn default() -> (d: Credential)
        ensures
            d.mode@ == "local-private"@,
            d.algorithm@ == "es256"@,
            d.keychain_backend == KeychainBackend::LoginKeychainLocalAuthentication,
            d.keychain_service@ == "com.roblemumin.banksy-c2pa"@,
            d.root_key_account@ == "root-ca-v1"@,
            d.root_certificate@ == "certs/root-ca.pem"@,
            d.active_signer_key_account.is_none(),
            d.active_signer_certificate.is_none(),
    {
        Credential {
            mode: owned("local-private"),
            algorithm: owned("es256"),
            keychain_backend: KeychainBackend::LoginKeychainLocalAuthentication,
            keychain_service: owned("com.roblemumin.banksy-c2pa"),
            root_key_account: owned("root-ca-v1"),
            root_certificate: owned("certs/root-ca.pem"),
            active_signer_key_account: None,
            active_signer_certificate: None,
        }
    }
}

/// Manifest defaults. A publication claim is never made unless asked for.
#[derive(Debug)]
pub struct ManifestSettings {
    pub attest_description: String,
    pub default_description: String,
    pub publisher_action: bool,
}

impl Default for ManifestSettings {
    fn default() -> (d: ManifestSettings)
        ensures
            d.attest_description@ == "Editorial / publication attestation"@,
            d.default_description@ == "Derivative / editorial work"@,
            !d.publisher_action,
    {
        ManifestSettings {
            attest_description: owned(default_attest_description()),
            default_description: owned(default_derivative_description()),
            publisher_action: false,
        }
    }
}

/// RFC 3161 timestamping settings (not supported in version 1).
#[derive(Debug)]
pub struct TimestampSettings {
    pub enabled: bool,
    pub tsa_url: String,
}

impl Default for TimestampSettings {
    fn default() -> (d: TimestampSettings)
        ensures
            !d.enabled,
            d.tsa_url@ == Seq::<char>::empty(),
    {
        TimestampSettings { enabled: false, tsa_url: String::new() }
    }
}

/// Security policy: user presence is required and sources are never overwritten.
#[derive(Debug)]
pub struct SecuritySettings {
    pub require_user_presence: bool,
    pub allow_source_overwrite: bool,
}

impl Default for SecuritySettings {
    fn default() -> (d: SecuritySettings)
        ensures
            d.require_user_presence,
            !d.allow_source_overwrite,
    {
        SecuritySettings { require_user_presence: true, allow_source_overwrite: false }
    }
}

/// One issued signer certificate, kept in the profile's history.
#[derive(Debug)]
pub struct SignerRecord {
    pub fingerprint_sha256: String,
    pub certificate: String,
    pub keychain_account: String,
    pub issued_at: String,
    pub not_after: String,
}

/// The signing profile.
#[derive(Debug)]
pub struct Profile {
    pub identity: Identity,
    pub credential: Credential,
    pub manifest: ManifestSettings,
    pub timestamp: TimestampSettings,
    pub security: SecuritySettings,
    pub signers: Vec<SignerRecord>,
}

/// The profile made of every section's default and no signer history.
pub open spec fn is_default_profile(p: Profile) -> bool {
    &&& p.identity.signer_name@ == "banksy-c2pa local signer"@
    &&& p.identity.organization.is_none()
    &&& p.identity.domain.is_none()
    &&& p.identity.uri.is_none()
    &&& p.identity.vendor.is_none()
    &&& p.credential.mode@ == "local-private"@
    &&& p.credential.algorithm@ == "es256"@
    &&& p.credential.keychain_backend == KeychainBackend::LoginKeychainLocalAuthentication
    &&& p.credential.keychain_service@ == "com.roblemumin.banksy-c2pa"@
    &&& p.credential.root_key_account@ == "root-ca-v1"@
    &&& p.credential.root_certificate@ == "certs/root-ca.pem"@
    &&& p.credential.active_signer_key_account.is_none()
    &&& p.credential.active_signer_certificate.is_none()
    &&& p.manifest.attest_description@ == "Editorial / publication attestation"@
    &&& p.manifest.default_description@ == "Derivative / editorial work"@
    &&& !p.manifest.publisher_action
    &&& !p.timestamp.enabled
    &&& p.timestamp.tsa_url@ == Seq::<char>::empty()
    &&& p.security.require_user_presence
    &&& !p.security.allow_source_overwrite
    &&& p.signers@.len() == 0
}

impl Default for Profile {
    fn default() -> (d: Profile)
        ensures
            is_default_profile(d),
    {
        Profile {
            identity: Identity::default(),
            credential: Credential::default(),
            manifest: ManifestSettings::default(),
            timestamp: TimestampSettings::default(),
            security: SecuritySettings::default(),
            signers: Vec::new(),
        }
    }
}

/// An optional identity field that is present but blank.
pub open spec fn blank_field(v: Option<String>) -> bool {
    match v {
        Some(s) => trim(s@).len() == 0,
        None => false,
    }
}

/// The first rule a profile breaks, as the message reported for it; `None`
/// when it keeps them all.
pub open spec fn profile_error(p: Profile) -> Option<Seq<char>> {
    if trim(p.identity.signer_name@).len() == 0 {
        Some("identity signer_name must not be empty"@)
    } else if blank_field(p.identity.organization) {
        Some("identity organization must be omitted rather than empty"@)
    } else if blank_field(p.identity.domain) {
        Some("identity domain must be omitted rather than empty"@)
    } else if blank_field(p.identity.uri) {
        Some("identity uri must be omitted rather than empty"@)
    } else if blank_field(p.identity.vendor) {
        Some("identity vendor must be omitted rather than empty"@)
    } else if p.credential.mode@ != "local-private"@ {
        Some("unsupported credential mode `"@ + p.credential.mode@ + "`; version 1 supports only `local-private`"@)
    } else if lower(p.credential.algorithm@) != "es256"@ {
        Some("unsupported signing algorithm `"@ + p.credential.algorithm@ + "`; version 1 supports only `es256`"@)
    } else if p.timestamp.enabled {
        Some("RFC 3161 timestamps are not implemented in version 1; set timestamp.enabled=false"@)
    } else if !p.security.require_user_presence {
        Some("security.require_user_presence must be true in version 1"@)
    } else if p.security.allow_source_overwrite {
        Some("security.allow_source_overwrite is not supported in version 1"@)
    } else {
        None
    }
}

fn is_blank(v: &Option<String>) -> (b: bool)
    ensures
        b == blank_field(*v),
{
    match v {
        Some(s) => {
            let t = trim_str(s.as_str());
            let cs = chars_of(t.as_str());
            cs.len() == 0
        },
        None => false,
    }
}

impl Profile {
    /// A profile as read from `profile.toml` (or the error reading or parsing
    /// it), accepted only when it keeps the rules of version 1.
    pub fn load(parsed: Result<Profile, AppError>) -> (r: Result<Profile, AppError>)
        ensures
            match parsed {
                Err(e) => r == Err::<Profile, AppError>(e),
                Ok(p) => match profile_error(p) {
                    None => r == Ok::<Profile, AppError>(p),
                    Some(m) => r matches Err(e) && e.exit_code == 1 && e.message@ == m,
                },
            },
    {
        let p = parsed?;
        p.validate()?;
        Ok(p)
    }

    /// The profile `init` starts from: the existing one when there is a
    /// profile file (`existing` is what reading it gave), else the default.
    pub fn load_or_default(existing: Option<Result<Profile, AppError>>) -> (r: Result<Profile, AppError>)
        ensures
            match existing {
                None => r matches Ok(p) && is_default_profile(p),
                Some(Err(e)) => r == Err::<Profile, AppError>(e),
                Some(Ok(p)) => match profile_error(p) {
                    None => r == Ok::<Profile, AppError>(p),
                    Some(m) => r matches Err(e) && e.exit_code == 1 && e.message@ == m,
                },
            },
    {
        match existing {
            None => Ok(Profile::default()),
            Some(parsed) => Profile::load(parsed),
        }
    }

    /// The Keychain account of the active signer key; an error when no signer
    /// is configured.
    pub fn active_signer_account(&self) -> (r: Result<String, AppError>)
        ensures
            match self.credential.active_signer_key_account {
                Some(a) => r matches Ok(s) && s@ == a@,
                None => r matches Err(e) && e.exit_code == 1
                    && e.message@ == "no active signer key; run `banksy-c2pa init`"@,
            },
    {
        match &self.credential.active_signer_key_account {
            Some(a) => Ok(a.clone()),
            None => Err(AppError::runtime(owned("no active signer key; run `banksy-c2pa init`"))),
        }
    }

    /// Checks the rules of version 1: a signer name, no blank optional
    /// identity field, the private/local mode, ES256, no timestamps, user
    /// presence required, and no source overwrite.
    pub fn validate(&self) -> (r: Result<(), AppError>)
        ensures
            match profile_error(*self) {
                None => r is Ok,
                Some(m) => r matches Err(e) && e.exit_code == 1 && e.message@ == m,
            },
    {
        let name = trim_str(self.identity.signer_name.as_str());
        let ncs = chars_of(name.as_str());
        if ncs.len() == 0 {
            return Err(AppError::runtime(owned("identity signer_name must not be empty")));
        }
        if is_blank(&self.identity.organization) {
            return Err(AppError::runtime(owned("identity organization must be omitted rather than empty")));
        }
        if is_blank(&self.identity.domain) {
            return Err(AppError::runtime(owned("identity domain must be omitted rather than empty")));
        }
        if is_blank(&self.identity.uri) {
            return Err(AppError::runtime(owned("identity uri must be omitted rather than empty")));
        }
        if is_blank(&self.identity.vendor) {
            return Err(AppError::runtime(owned("identity vendor must be omitted rather than empty")));
        }
        if !text_is(self.credential.mode.as_str(), "local-private") {
            return Err(AppError::runtime(concat3(
                "unsupported credential mode `",
                self.credential.mode.as_str(),
                "`; version 1 supports only `local-private`",
            )));
        }
        if !eq_ignore_ascii_case(self.credential.algorithm.as_str(), "es256") {
            proof {
                reveal_strlit("es256");
                assert(lower("es256"@) =~= "es256"@);
            }
            return Err(AppError::runtime(concat3(
                "unsupported signing algorithm `",
                self.credential.algorithm.as_str(),
                "`; version 1 supports only `es256`",
            )));
        }
        proof {
            reveal_strlit("es256");
            assert(lower("es256"@) =~= "es256"@);
        }
        if self.timestamp.enabled {
            return Err(AppError::runtime(owned("RFC 3161 timestamps are not implemented in version 1; set timestamp.enabled=false")));
        }
        if !self.security.require_user_presence {
            return Err(AppError::runtime(owned("security.require_user_presence must be true in version 1")));
        }
        if self.security.allow_source_overwrite {
            return Err(AppError::runtime(owned("security.allow_source_overwrite is not supported in version 1")));
        }
        Ok(())
    }
}

/// The default profile keeps every rule of version 1, so a new profile can
/// always be saved and loaded again.
pub proof fn law_default_profile_valid(p: Profile)
    requires
        is_default_profile(p),
    ensures
        profile_error(p).is_none(),
{
    reveal_strlit("banksy-c2pa local signer");
    reveal_strlit("es256");
    reveal_strlit("local-private");
    let name = p.identity.signer_name@;
    assert(!crate::text::is_space(name[0]));
    assert(!crate::text::is_space(name.last()));
    assert(crate::text::trim_start(name) == name);
    assert(crate::text::trim_end(name) == name);
    assert(lower("es256"@) =~= "es256"@);
}

} // verus!
