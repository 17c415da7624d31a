//! The identity given when a profile is first created: from command-line
//! options, or from answers at a terminal.
use vstd::prelude::*;

use crate::config::Identity;
use crate::error::AppError;
use crate::text::{chars_of, concat2, owned, trim, trim_str};

verus! {

/// Identity values given on the command line.
#[derive(Debug)]
pub struct IdentityOptions {
    pub name: Option<String>,
    pub organization: Option<String>,
    pub domain: Option<String>,
    pub uri: Option<String>,
    pub vendor: Option<String>,
}

impl Default for IdentityOptions {
    fn default() -> (d: IdentityOptions)
        ensures
            d.name.is_none(),
            d.organization.is_none(),
            d.domain.is_none(),
            d.uri.is_none(),
            d.vendor.is_none(),
    {
        IdentityOptions { name: None, organization: None, domain: None, uri: None, vendor: None }
    }
}

/// Whether any identity option was given.
pub open spec fn spec_has_any(o: IdentityOptions) -> bool {
    o.name.is_some() || o.organization.is_some() || o.domain.is_some() || o.uri.is_some() || o.vendor.is_some()
}

impl IdentityOptions {
    /// Whether any identity option was given.
    pub fn has_any(&self) -> (b: bool)
        ensures
            b == spec_has_any(*self),
    {
        self.name.is_some() || self.organization.is_some() || self.domain.is_some() || self.uri.is_some()
            || self.vendor.is_some()
    }
}

/// How the identity of `init` is obtained.
#[derive(Debug)]
pub enum IdentityPlan {
    /// A profile exists; its identity is kept as it is.
    Existing,
    /// Ask at the terminal, with the options given as answers already made.
    Prompt(IdentityOptions),
    /// The identity built from the options.
    Ready(Identity),
}

/// The first refusal of an `init` request, by the options given, whether a
/// signer rotation was asked for, and whether a profile exists.
pub open spec fn init_refusal(has_any: bool, rotate_signer: bool, profile_exists: bool) -> Option<Seq<char>> {
    if rotate_signer && has_any {
        Some("identity options cannot be combined with --rotate-signer"@)
    } else if profile_exists && has_any {
        Some("identity options are only accepted when creating a new profile; existing identities are never rewritten automatically"@)
    } else if !profile_exists && rotate_signer {
        Some("cannot rotate a signer before an identity exists; run `banksy-c2pa init --name <NAME>` first"@)
    } else {
        None
    }
}

/// Decides how `init` obtains its identity. An existing profile keeps its
/// identity and accepts no identity option; a rotation needs an existing
/// profile and takes no identity option. A new profile's identity comes from
/// the terminal when it is interactive, and otherwise from the options.
pub fn identity_for_init(
    options: IdentityOptions,
    rotate_signer: bool,
    profile_exists: bool,
    interactive: bool,
) -> (r: Result<IdentityPlan, AppError>)
    ensures
        match init_refusal(spec_has_any(options), rotate_signer, profile_exists) {
            Some(m) => r matches Err(e) && e.exit_code == 2 && e.message@ == m,
            None => if profile_exists {
                r matches Ok(IdentityPlan::Existing)
            } else if interactive {
                r matches Ok(IdentityPlan::Prompt(o)) && o == options
            } else {
                match spec_identity_from_options(options) {
                    Ok(i) => r matches Ok(IdentityPlan::Ready(id)) && identity_is(id, i),
                    Err(m) => r matches Err(e) && e.exit_code == 2 && e.message@ == m,
                }
            },
        },
{
    let any = options.has_any();
    if rotate_signer && any {
        return Err(AppError::usage(owned("identity options cannot be combined with --rotate-signer")));
    }
    if profile_exists {
        if any {
            return Err(AppError::usage(owned(
                "identity options are only accepted when creating a new profile; existing identities are never rewritten automatically",
            )));
        }
        return Ok(IdentityPlan::Existing);
    }
    if rotate_signer {
        return Err(AppError::usage(owned(
            "cannot rotate a signer before an identity exists; run `banksy-c2pa init --name <NAME>` first",
        )));
    }
    if interactive {
        Ok(IdentityPlan::Prompt(options))
    } else {
        match identity_from_options(options) {
            Ok(id) => Ok(IdentityPlan::Ready(id)),
            Err(e) => Err(e),
        }
    }
}

/// A required identity value: given, and not blank once trimmed.
pub open spec fn spec_required(flag: Seq<char>, value: Option<String>) -> Result<Seq<char>, Seq<char>> {
    match value {
        None => Err(flag + " is required when creating an identity without an interactive terminal"@),
        Some(v) => if trim(v@).len() == 0 {
            Err(flag + " must not be empty"@)
        } else {
            Ok(trim(v@))
        },
    }
}

/// An optional identity value: absent, or not blank once trimmed.
pub open spec fn spec_optional(flag: Seq<char>, value: Option<String>) -> Result<Option<Seq<char>>, Seq<char>> {
    match value {
        None => Ok(None),
        Some(v) => if trim(v@).len() == 0 {
            Err(flag + " must not be empty; omit the option instead"@)
        } else {
            Ok(Some(trim(v@)))
        },
    }
}

/// The text of an optional string.
pub open spec fn opt_view(v: Option<String>) -> Option<Seq<char>> {
    match v {
        Some(s) => Some(s@),
        None => None,
    }
}

/// The identity from the options, as texts: the name is required, the other
/// fields optional; each is trimmed. The first bad option gives the error.
pub open spec fn spec_identity_from_options(o: IdentityOptions) -> Result<
    (Seq<char>, Option<Seq<char>>, Option<Seq<char>>, Option<Seq<char>>, Option<Seq<char>>),
    Seq<char>,
> {
    match spec_required("--name"@, o.name) {
        Err(m) => Err(m),
        Ok(name) => match spec_optional("--organization"@, o.organization) {
            Err(m) => Err(m),
            Ok(org) => match spec_optional("--domain"@, o.domain) {
                Err(m) => Err(m),
                Ok(domain) => match spec_optional("--uri"@, o.uri) {
                    Err(m) => Err(m),
                    Ok(uri) => match spec_optional("--vendor"@, o.vendor) {
                        Err(m) => Err(m),
                        Ok(vendor) => Ok((name, org, domain, uri, vendor)),
                    },
                },
            },
        },
    }
}

/// An identity holds the given texts.
pub open spec fn identity_is(
    id: Identity,
    t: (Seq<char>, Option<Seq<char>>, Option<Seq<char>>, Option<Seq<char>>, Option<Seq<char>>),
) -> bool {
    &&& id.signer_name@ == t.0
    &&& opt_view(id.organization) == t.1
    &&& opt_view(id.domain) == t.2
    &&& opt_view(id.uri) == t.3
    &&& opt_view(id.vendor) == t.4
}

/// Reads a required identity value given by `flag`.
pub fn required(flag: &str, value: Option<String>) -> (r: Result<String, AppError>)
    ensures
        match spec_required(flag@, value) {
            Ok(t) => r matches Ok(s) && s@ == t,
            Err(m) => r matches Err(e) && e.exit_code == 2 && e.message@ == m,
        },
{
    match value {
        None => Err(AppError::usage(concat2(flag, " is required when creating an identity without an interactive terminal"))),
        Some(v) => {
            let t = trim_str(v.as_str());
            let cs = chars_of(t.as_str());
            if cs.len() == 0 {
                return Err(AppError::usage(concat2(flag, " must not be empty")));
            }
            Ok(t)
        },
    }
}

/// Reads an optional identity value given by `flag`.
pub fn optional(flag: &str, value: Option<String>) -> (r: Result<Option<String>, AppError>)
    ensures
        match spec_optional(flag@, value) {
            Ok(t) => r matches Ok(o) && opt_view(o) == t,
            Err(m) => r matches Err(e) && e.exit_code == 2 && e.message@ == m,
        },
{
    match value {
        None => Ok(None),
        Some(v) => {
            let t = trim_str(v.as_str());
            let cs = chars_of(t.as_str());
            if cs.len() == 0 {
                return Err(AppError::usage(concat2(flag, " must not be empty; omit the option instead")));
            }
            Ok(Some(t))
        },
    }
}

/// A typed answer, trimmed; a blank answer means the field is left out.
pub fn trimmed(value: String) -> (r: Option<String>)
    ensures
        trim(value@).len() == 0 ==> r.is_none(),
        trim(value@).len() != 0 ==> (r matches Some(s) && s@ == trim(value@)),
{
    let t = trim_str(value.as_str());
    let cs = chars_of(t.as_str());
    if cs.len() == 0 {
        None
    } else {
        Some(t)
    }
}

/// An optional value as shown in a summary.
pub fn shown(value: &Option<String>) -> (r: &str)
    ensures
        match value {
            Some(s) => r@ == s@,
            None => r@ == "not configured"@,
        },
{
    match value {
        Some(s) => s.as_str(),
        None => "not configured",
    }
}

/// The identity from command-line options alone.
pub fn identity_from_options(options: IdentityOptions) -> (r: Result<Identity, AppError>)
    ensures
        match spec_identity_from_options(options) {
            Ok(t) => r matches Ok(id) && identity_is(id, t),
            Err(m) => r matches Err(e) && e.exit_code == 2 && e.message@ == m,
        },
{
    let signer_name = required("--name", options.name)?;
    let organization = optional("--organization", options.organization)?;
    let domain = optional("--domain", options.domain)?;
    let uri = optional("--uri", options.uri)?;
    let vendor = optional("--vendor", options.vendor)?;
    Ok(Identity { signer_name, organization, domain, uri, vendor })
}

} // verus!
