//! Signing an asset held in memory with the C2PA builder: the settings and
//! the manifest definition it is given, the claim generator, the actions, the
//! intent, the parent ingredient, and the ES256 signature.
use vstd::prelude::*;

use crate::error::AppError;
use crate::reader::{json_escaped, push_json_string};
use crate::signing::ManifestPlan;
use crate::text::{concat2, concat3, owned, push_str};

verus! {

#[verifier::external_type_specification]
#[verifier::external_body]
pub struct ExBuilder(c2pa::Builder);

/// The builder's settings, as JSON: no network host is allowed, the signed
/// result is not verified by the builder itself (the caller checks it), and
/// trust is verified.
pub open spec fn spec_signing_settings() -> Seq<char> {
    "{\"core\":{\"allowed_network_hosts\":[]},\"verify\":{\"verify_after_sign\":false,\"verify_trust\":true}}"@
}

/// A JSON string literal of a text.
pub open spec fn json_text(s: Seq<char>) -> Seq<char> {
    seq!['"'] + json_escaped(s) + seq!['"']
}

/// The manifest definition, as JSON: claim version 2, the title and format,
/// SHA-256 hashing, and the vendor when there is one.
pub open spec fn spec_definition(plan: ManifestPlan) -> Seq<char> {
    "{\"claim_version\":2,\"title\":"@ + json_text(plan.title@) + ",\"format\":"@ + json_text(plan.format@)
        + ",\"hash_alg\":\"sha256\""@
        + match plan.vendor {
            Some(v) => ",\"vendor\":"@ + json_text(v@),
            None => Seq::<char>::empty(),
        }
        + "}"@
}

/// The parent ingredient, as JSON: its title and the `parentOf` relationship.
pub open spec fn spec_parent_ingredient(title: Seq<char>) -> Seq<char> {
    "{\"title\":"@ + json_text(title) + ",\"relationship\":\"parentOf\"}"@
}

/// The claim generator's extra fields: the specification version, then the
/// identity's domain and URI when it names them.
pub open spec fn spec_generator_fields(plan: ManifestPlan) -> Seq<(Seq<char>, Seq<char>)> {
    seq![("specVersion"@, plan.spec_version@)]
        + match plan.domain {
            Some(d) => seq![("com.roblemumin.banksy-c2pa.domain"@, d@)],
            None => Seq::empty(),
        }
        + match plan.uri {
            Some(u) => seq![("com.roblemumin.banksy-c2pa.uri"@, u@)],
            None => Seq::empty(),
        }
}

/// The actions of the claim: the plan's primary action with its
/// description, then `c2pa.published` when the plan publishes.
pub open spec fn spec_actions(plan: ManifestPlan) -> Seq<(Seq<char>, Option<Seq<char>>)> {
    seq![(plan.primary_action@, Some(plan.description@))]
        + if plan.published { seq![("c2pa.published"@, None::<Seq<char>>)] } else { Seq::empty() }
}

/// Builds the builder's manifest definition.
pub fn definition_json(plan: &ManifestPlan) -> (r: String)
    ensures
        r@ == spec_definition(*plan),
{
    let mut r = owned("{\"claim_version\":2,\"title\":");
    push_json_string(&mut r, plan.title.as_str());
    push_str(&mut r, ",\"format\":");
    push_json_string(&mut r, plan.format.as_str());
    push_str(&mut r, ",\"hash_alg\":\"sha256\"");
    if let Some(v) = &plan.vendor {
        push_str(&mut r, ",\"vendor\":");
        push_json_string(&mut r, v.as_str());
    }
    push_str(&mut r, "}");
    r
}

/// Builds the parent ingredient's definition.
pub fn parent_ingredient_json(title: &str) -> (r: String)
    ensures
        r@ == spec_parent_ingredient(title@),
{
    let mut r = owned("{\"title\":");
    push_json_string(&mut r, title);
    push_str(&mut r, ",\"relationship\":\"parentOf\"}");
    r
}

/// The claim generator's extra fields.
pub fn generator_fields(plan: &ManifestPlan) -> (r: Vec<(String, String)>)
    ensures
        r@.map_values(|f: (String, String)| (f.0@, f.1@)) == spec_generator_fields(*plan),
{
    let mut r: Vec<(String, String)> = Vec::new();
    r.push((owned("specVersion"), owned(plan.spec_version)));
    if let Some(d) = &plan.domain {
        r.push((owned("com.roblemumin.banksy-c2pa.domain"), d.clone()));
    }
    if let Some(u) = &plan.uri {
        r.push((owned("com.roblemumin.banksy-c2pa.uri"), u.clone()));
    }
    assert(r@.map_values(|f: (String, String)| (f.0@, f.1@)) =~= spec_generator_fields(*plan));
    r
}

/// The actions of the claim.
pub fn claim_actions(plan: &ManifestPlan) -> (r: Vec<(String, Option<String>)>)
    ensures
        r@.map_values(|a: (String, Option<String>)| (a.0@, match a.1 { Some(d) => Some(d@), None => None }))
            == spec_actions(*plan),
{
    let mut r: Vec<(String, Option<String>)> = Vec::new();
    r.push((owned(plan.primary_action), Some(plan.description.clone())));
    if plan.published {
        r.push((owned("c2pa.published"), None));
    }
    assert(r@.map_values(|a: (String, Option<String>)| (a.0@, match a.1 { Some(d) => Some(d@), None => None }))
        =~= spec_actions(*plan));
    r
}

/// The signature algorithms the signer supports.
#[derive(Clone, Copy, PartialEq, Eq, Structural, Debug)]
pub enum SigningAlgorithm {
    /// ECDSA with P-256 and SHA-256.
    Es256,
}

/// The signing algorithm a profile's credential names (in any letter case):
/// ES256 is the only one.
pub open spec fn spec_profile_algorithm(algorithm: Seq<char>) -> Option<SigningAlgorithm> {
    if crate::text::lower(algorithm) == crate::text::lower("es256"@) { Some(SigningAlgorithm::Es256) } else { None }
}

/// The signing algorithm of a profile's credential.
pub fn profile_algorithm(algorithm: &str) -> (r: Option<SigningAlgorithm>)
    ensures
        r == spec_profile_algorithm(algorithm@),
{
    if crate::text::eq_ignore_ascii_case(algorithm, "es256") { Some(SigningAlgorithm::Es256) } else { None }
}

/// A builder from JSON settings and a JSON manifest definition, with
/// `c2pa::Context::with_settings`, `Builder::from_context` and
/// `Builder::with_definition`. Either step may fail with its error text
/// (outer: the settings; inner: the definition); nothing more is stated.
#[verifier::external_body]
fn builder_new(settings: &str, definition: &str) -> (r: Result<Result<c2pa::Builder, String>, String>) {
    let context = match c2pa::Context::new().with_settings(settings) {
        Ok(c) => c,
        Err(e) => return Err(e.to_string()),
    };
    Ok(c2pa::Builder::from_context(context).with_definition(definition).map_err(|e| e.to_string()))
}

/// Sets the claim generator (`ClaimGeneratorInfo::new`, `set_version`,
/// `operating_system`, `insert` of each extra field, then
/// `Builder::set_claim_generator_info`).
#[verifier::external_body]
fn builder_set_generator(b: &mut c2pa::Builder, name: &str, version: &str, os: String, fields: Vec<(String, String)>) {
    let mut generator = c2pa::ClaimGeneratorInfo::new(name);
    generator.set_version(version);
    generator.operating_system = Some(os);
    for (key, value) in fields {
        generator.insert(key, value);
    }
    b.set_claim_generator_info(generator);
}

/// Adds the actions assertion (`Action::new`, `set_when`, `set_description`,
/// `Actions::add_action`, the `all_actions_included` flag given, then
/// `Builder::add_assertion` under `Actions::LABEL_VERSIONED`), or its error
/// text.
#[verifier::external_body]
fn builder_add_actions(
    b: &mut c2pa::Builder,
    actions: Vec<(String, Option<String>)>,
    when: &str,
    all_actions_included: bool,
) -> (r: Result<(), String>) {
    let mut list = c2pa::assertions::Actions::new();
    for (name, description) in actions {
        let action = c2pa::assertions::Action::new(&name).set_when(when);
        list = list.add_action(match description { Some(d) => action.set_description(d), None => action });
    }
    list.all_actions_included = Some(all_actions_included);
    b.add_assertion(c2pa::assertions::Actions::LABEL_VERSIONED, &list).map(|_| ()).map_err(|e| e.to_string())
}

/// Sets the builder's intent (`Builder::set_intent`): an update of the
/// source's manifest, or an edit.
#[verifier::external_body]
fn builder_set_intent(b: &mut c2pa::Builder, update: bool) {
    b.set_intent(if update { c2pa::BuilderIntent::Update } else { c2pa::BuilderIntent::Edit });
}

/// Adds the parent ingredient from its bytes (`Builder::add_ingredient_from_stream`),
/// or its error text.
#[verifier::external_body]
fn builder_add_parent(b: &mut c2pa::Builder, ingredient: &str, format: &str, parent: &[u8]) -> (r: Result<(), String>) {
    let mut stream = std::io::Cursor::new(parent);
    b.add_ingredient_from_stream(ingredient, format, &mut stream).map(|_| ()).map_err(|e| e.to_string())
}

/// Signs a source held in memory with a certificate chain and key
/// (`create_signer::from_keys` with the algorithm and timestamp authority
/// given, then
/// `Builder::sign` between in-memory streams). The outer error is the
/// signer's, the inner the signature's; a signed result depends on the time
/// and on the signature's randomness and is not stated.
#[verifier::external_body]
fn builder_sign(
    b: &mut c2pa::Builder,
    certificate_pem: &str,
    key_pem: &[u8],
    algorithm: SigningAlgorithm,
    timestamp_authority: Option<String>,
    format: &str,
    source: &[u8],
) -> (r: Result<Result<Vec<u8>, String>, String>)
{
    let alg = match algorithm {
        SigningAlgorithm::Es256 => c2pa::SigningAlg::Es256,
    };
    let signer = match c2pa::create_signer::from_keys(certificate_pem.as_bytes(), key_pem, alg, timestamp_authority) {
        Ok(s) => s,
        Err(e) => return Err(e.to_string()),
    };
    let mut dest = std::io::Cursor::new(Vec::new());
    Ok(b.sign(signer.as_ref(), format, &mut std::io::Cursor::new(source), &mut dest).map(|_| dest.into_inner()).map_err(|e| e.to_string()))
}

/// Whether an error is one of the signing steps' failures: a runtime failure
/// (exit code 1), or, for the parent ingredient, a verification failure
/// (exit code 3), each message starting with the step's text.
pub open spec fn signing_failure(e: AppError, parent: Option<Seq<char>>) -> bool {
    ||| e.exit_code == 1 && (crate::text::starts_with(e.message@, "cannot configure C2PA signing: "@)
        || crate::text::starts_with(e.message@, "cannot create C2PA manifest definition: "@)
        || crate::text::starts_with(e.message@, "cannot add C2PA actions: "@)
        || crate::text::starts_with(e.message@, "cannot initialize the ES256 C2PA signer: "@)
        || crate::text::starts_with(e.message@, "C2PA signing failed: "@))
    ||| e.exit_code == 3 && (parent matches Some(p)
        && crate::text::starts_with(e.message@, "cannot preserve parent provenance from "@ + p + ": "@))
}

fn step_error(prefix: &str, detail: String, code: u8) -> (e: AppError)
    requires
        code == 1 || code == 3,
    ensures
        e.exit_code == code,
        crate::text::starts_with(e.message@, prefix@),
{
    let m = concat2(prefix, detail.as_str());
    assert(m@.subrange(0, prefix@.len() as int) =~= prefix@);
    if code == 1 { AppError::runtime(m) } else { AppError::verification(m) }
}

/// Signs a source held in memory as the plan describes, at the action time
/// `when`, with the claim generator's `version` and operating system `os`:
/// the builder is given `spec_signing_settings`, `spec_definition(plan)`,
/// the generator fields `spec_generator_fields(plan)`, the actions
/// `spec_actions(plan)`, the plan's intent, and, for a derivative, the
/// parent's bytes as its `parentOf` ingredient; the claim does not declare
/// that every action is listed, and the signature uses the given algorithm
/// without a timestamp authority (the profile allows none). The signed bytes depend on the
/// time and on the signature's randomness; the caller checks them. Each
/// failing step is reported with its own message.
pub fn c2pa_sign(
    plan: &ManifestPlan,
    version: &str,
    os: String,
    when: &str,
    source: &[u8],
    parent: Option<(&str, &str, &[u8])>,
    certificate_pem: &str,
    key_pem: &[u8],
    algorithm: SigningAlgorithm,
) -> (r: Result<Vec<u8>, AppError>)
    ensures
        r matches Err(e) ==> signing_failure(e, match parent { Some((p, _, _)) => Some(p@), None => None }),
{
    let settings = owned("{\"core\":{\"allowed_network_hosts\":[]},\"verify\":{\"verify_after_sign\":false,\"verify_trust\":true}}");
    let definition = definition_json(plan);
    let mut builder = match builder_new(settings.as_str(), definition.as_str()) {
        Err(e) => return Err(step_error("cannot configure C2PA signing: ", e, 1)),
        Ok(Err(e)) => return Err(step_error("cannot create C2PA manifest definition: ", e, 1)),
        Ok(Ok(b)) => b,
    };
    builder_set_generator(&mut builder, plan.generator, version, os, generator_fields(plan));
    if let Err(e) = builder_add_actions(&mut builder, claim_actions(plan), when, false) {
        return Err(step_error("cannot add C2PA actions: ", e, 1));
    }
    builder_set_intent(&mut builder, plan.update_intent);
    if let (Some((path, format, bytes)), Some(title)) = (parent, &plan.parent_title) {
        let ingredient = parent_ingredient_json(title.as_str());
        if let Err(e) = builder_add_parent(&mut builder, ingredient.as_str(), format, bytes) {
            let prefix = concat3("cannot preserve parent provenance from ", path, ": ");
            return Err(step_error(prefix.as_str(), e, 3));
        }
    }
    match builder_sign(&mut builder, certificate_pem, key_pem, algorithm, None, plan.format.as_str(), source) {
        Err(e) => Err(step_error("cannot initialize the ES256 C2PA signer: ", e, 1)),
        Ok(Err(e)) => Err(step_error("C2PA signing failed: ", e, 1)),
        Ok(Ok(signed)) => Ok(signed),
    }
}

} // verus!
