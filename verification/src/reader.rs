//! Reading the C2PA manifest store of an asset held in memory, offline, with
//! the configured local root as the only user trust anchor, and collecting
//! what the reader shows into `C2paFacts`.
use vstd::prelude::*;

use crate::provenance::{
    C2paFacts, C2paReadError, GeneratorEntry, IngredientReport, ManifestFacts, StatusEntry, ValidationVerdict,
};
use crate::text::{chars_of, owned, push_char, push_str};

verus! {

#[verifier::external_type_specification]
#[verifier::external_body]
pub struct ExReader(c2pa::Reader);

/// A character as it stands inside a JSON string literal.
pub open spec fn json_escape(c: char) -> Seq<char> {
    if c == '"' {
        seq!['\\', '"']
    } else if c == '\\' {
        seq!['\\', '\\']
    } else if c == '\n' {
        seq!['\\', 'n']
    } else if c == '\r' {
        seq!['\\', 'r']
    } else if c == '\t' {
        seq!['\\', 't']
    } else if (c as u32) < 32 {
        seq!['\\', 'u', '0', '0', hex_digit((c as u32) / 16), hex_digit((c as u32) % 16)]
    } else {
        seq![c]
    }
}

/// A lowercase hexadecimal digit.
pub open spec fn hex_digit(d: u32) -> char {
    if d < 10 { ((d + 48) as u8) as char } else { ((d + 87) as u8) as char }
}

/// A text with every character escaped for a JSON string literal.
pub open spec fn json_escaped(s: Seq<char>) -> Seq<char>
    decreases s.len(),
{
    if s.len() == 0 {
        seq![]
    } else {
        json_escaped(s.drop_last()) + json_escape(s.last())
    }
}

fn hex_char(d: u32) -> (c: char)
    requires
        d < 16,
    ensures
        c == hex_digit(d),
{
    if d < 10 { ((d + 48) as u8) as char } else { ((d + 87) as u8) as char }
}

fn push_escaped(out: &mut String, c: char)
    ensures
        final(out)@ == old(out)@ + json_escape(c),
{
    if c == '"' {
        push_char(out, '\\');
        push_char(out, '"');
    } else if c == '\\' {
        push_char(out, '\\');
        push_char(out, '\\');
    } else if c == '\n' {
        push_char(out, '\\');
        push_char(out, 'n');
    } else if c == '\r' {
        push_char(out, '\\');
        push_char(out, 'r');
    } else if c == '\t' {
        push_char(out, '\\');
        push_char(out, 't');
    } else if (c as u32) < 32 {
        push_char(out, '\\');
        push_char(out, 'u');
        push_char(out, '0');
        push_char(out, '0');
        push_char(out, hex_char((c as u32) / 16));
        push_char(out, hex_char((c as u32) % 16));
    } else {
        push_char(out, c);
    }
    assert(final(out)@ =~= old(out)@ + json_escape(c));
}

/// Appends a text as a JSON string literal.
pub(crate) fn push_json_string(out: &mut String, s: &str)
    ensures
        final(out)@ == old(out)@ + seq!['"'] + json_escaped(s@) + seq!['"'],
{
    let ghost start = out@;
    push_char(out, '"');
    let cs = chars_of(s);
    let mut i: usize = 0;
    while i < cs.len()
        invariant
            i <= cs@.len(),
            cs@ == s@,
            out@ == start + seq!['"'] + json_escaped(cs@.subrange(0, i as int)),
        decreases cs@.len() - i,
    {
        let ghost pre = cs@.subrange(0, i + 1);
        proof {
            assert(pre.drop_last() =~= cs@.subrange(0, i as int));
        }
        push_escaped(out, cs[i]);
        assert(out@ =~= start + seq!['"'] + json_escaped(pre));
        i = i + 1;
    }
    assert(cs@.subrange(0, cs@.len() as int) =~= cs@);
    push_char(out, '"');
}

/// The reader's settings, as JSON: no network host is allowed, trust is
/// verified, and the configured local root (when given) is the only user
/// trust anchor.
pub open spec fn spec_reader_settings(local_root_pem: Option<Seq<char>>) -> Seq<char> {
    "{\"core\":{\"allowed_network_hosts\":[]},\"verify\":{\"verify_trust\":true}"@
        + match local_root_pem {
            Some(root) => ",\"trust\":{\"user_anchors\":"@ + seq!['"'] + json_escaped(root) + seq!['"'] + "}"@,
            None => Seq::<char>::empty(),
        }
        + "}"@
}

/// Builds the reader's settings.
pub fn reader_settings(local_root_pem: Option<&str>) -> (r: String)
    ensures
        r@ == spec_reader_settings(match local_root_pem { Some(p) => Some(p@), None => None }),
{
    let mut r = owned("{\"core\":{\"allowed_network_hosts\":[]},\"verify\":{\"verify_trust\":true}");
    if let Some(root) = local_root_pem {
        push_str(&mut r, ",\"trust\":{\"user_anchors\":");
        push_json_string(&mut r, root);
        push_str(&mut r, "}");
    }
    push_str(&mut r, "}");
    r
}

/// Opens the manifest store of an asset held in memory with
/// `c2pa::Context::with_settings` (the JSON settings given) and
/// `Reader::with_stream` (the format given as a hint). The outcome depends on
/// the current time (certificate validity) and is not stated: a settings
/// error, no manifest store (`JumbfNotFound`), another reader error by its
/// text, or the reader.
#[verifier::external_body]
fn open_reader(settings: &str, format: &str, bytes: &[u8]) -> (r: Result<Result<c2pa::Reader, C2paReadError>, String>) {
    let context = match c2pa::Context::new().with_settings(settings) {
        Ok(c) => c,
        Err(e) => return Err(e.to_string()),
    };
    match c2pa::Reader::from_context(context).with_stream(format, std::io::Cursor::new(bytes)) {
        Ok(reader) => Ok(Ok(reader)),
        Err(c2pa::Error::JumbfNotFound) => Ok(Err(C2paReadError::NotFound)),
        Err(e) => Ok(Err(C2paReadError::Other(e.to_string()))),
    }
}

/// Opens a manifest store kept apart from its asset (a sidecar `.c2pa` file)
/// with `c2pa::Context::with_settings` and
/// `Reader::with_manifest_data_and_stream`. The outcome depends on the
/// current time and is not stated: a settings error, or the reader's error by
/// its text, or the reader.
#[verifier::external_body]
fn open_reader_with_manifest(settings: &str, manifest: &[u8], format: &str, bytes: &[u8])
    -> (r: Result<Result<c2pa::Reader, C2paReadError>, String>)
{
    let context = match c2pa::Context::new().with_settings(settings) {
        Ok(c) => c,
        Err(e) => return Err(e.to_string()),
    };
    match c2pa::Reader::from_context(context).with_manifest_data_and_stream(manifest, format, std::io::Cursor::new(bytes)) {
        Ok(reader) => Ok(Ok(reader)),
        Err(e) => Ok(Err(C2paReadError::Other(e.to_string()))),
    }
}

/// The reader's validation state (`Reader::validation_state`).
#[verifier::external_body]
fn reader_verdict(r: &c2pa::Reader) -> (v: ValidationVerdict) {
    match r.validation_state() {
        c2pa::validation_results::ValidationState::Invalid => ValidationVerdict::Invalid,
        c2pa::validation_results::ValidationState::Valid => ValidationVerdict::Valid,
        c2pa::validation_results::ValidationState::Trusted => ValidationVerdict::Trusted,
    }
}

/// The label of the active manifest (`Reader::active_label`).
#[verifier::external_body]
fn reader_active_label(r: &c2pa::Reader) -> (v: Option<String>) {
    r.active_label().map(str::to_owned)
}

/// The number of manifests in the store (`Reader::manifests`, `len`).
#[verifier::external_body]
fn reader_manifest_count(r: &c2pa::Reader) -> (v: usize) {
    r.manifests().len()
}

/// The active manifest's success statuses (`Reader::validation_results`,
/// `active_manifest`, `success`), each by code, explanation and outcome.
#[verifier::external_body]
fn active_success(r: &c2pa::Reader) -> (v: Option<Vec<StatusEntry>>) {
    let list = r.validation_results()?.active_manifest()?.success();
    Some(list.iter().map(|s| StatusEntry { code: s.code().to_owned(), explanation: s.explanation().map(str::to_owned), passed: s.passed() }).collect())
}

/// The active manifest's informational statuses (`informational`).
#[verifier::external_body]
fn active_informational(r: &c2pa::Reader) -> (v: Option<Vec<StatusEntry>>) {
    let list = r.validation_results()?.active_manifest()?.informational();
    Some(list.iter().map(|s| StatusEntry { code: s.code().to_owned(), explanation: s.explanation().map(str::to_owned), passed: s.passed() }).collect())
}

/// The active manifest's failure statuses (`failure`).
#[verifier::external_body]
fn active_failure(r: &c2pa::Reader) -> (v: Option<Vec<StatusEntry>>) {
    let list = r.validation_results()?.active_manifest()?.failure();
    Some(list.iter().map(|s| StatusEntry { code: s.code().to_owned(), explanation: s.explanation().map(str::to_owned), passed: s.passed() }).collect())
}

/// The legacy validation status list (`Reader::validation_status`).
#[verifier::external_body]
fn reader_legacy_statuses(r: &c2pa::Reader) -> (v: Option<Vec<StatusEntry>>) {
    let list = r.validation_status()?;
    Some(list.iter().map(|s| StatusEntry { code: s.code().to_owned(), explanation: s.explanation().map(str::to_owned), passed: s.passed() }).collect())
}

/// Whether the store has an active manifest (`Reader::active_manifest`).
#[verifier::external_body]
fn reader_has_manifest(r: &c2pa::Reader) -> (v: bool) {
    r.active_manifest().is_some()
}

/// The active manifest's claim version, claim-generator entries and
/// claim-generator text (`Manifest::claim_version`, `claim_generator_info`,
/// `claim_generator`).
#[verifier::external_body]
fn manifest_generator(r: &c2pa::Reader) -> (v: (Option<u8>, Vec<GeneratorEntry>, Option<String>)) {
    let Some(m) = r.active_manifest() else { return (None, Vec::new(), None) };
    let entries = m.claim_generator_info.as_ref().map(|values| {
        values.iter().map(|i| GeneratorEntry { name: i.name.clone(), version: i.version.clone() }).collect()
    });
    (m.claim_version(), entries.unwrap_or_default(), m.claim_generator().map(str::to_owned))
}

/// The active manifest's actions assertion: its action names in order and
/// its `all_actions_included` flag (`Manifest::find_assertion::<Actions>`).
#[verifier::external_body]
fn manifest_actions(r: &c2pa::Reader) -> (v: Option<(Vec<String>, Option<bool>)>) {
    let m = r.active_manifest()?;
    let a = m.find_assertion::<c2pa::assertions::Actions>(c2pa::assertions::Actions::LABEL).ok()?;
    Some((a.actions().iter().map(|x| x.action().to_owned()).collect(), a.all_actions_included))
}

/// The active manifest's ingredients (`Manifest::ingredients`): title,
/// format, relationship and active manifest of each.
#[verifier::external_body]
fn manifest_ingredients(r: &c2pa::Reader) -> (v: Vec<IngredientReport>) {
    let Some(m) = r.active_manifest() else { return Vec::new() };
    m.ingredients().iter().map(|i| IngredientReport {
        title: i.title().map(str::to_owned),
        format: i.format().map(str::to_owned),
        relationship: i.relationship().as_str().to_owned(),
        active_manifest: i.active_manifest().map(str::to_owned),
    }).collect()
}

/// The active manifest's signer common name, issuer and signing time
/// (`Manifest::common_name`, `issuer`, `time`).
#[verifier::external_body]
fn manifest_signature(r: &c2pa::Reader) -> (v: (Option<String>, Option<String>, Option<String>)) {
    match r.active_manifest() {
        Some(m) => (m.common_name(), m.issuer(), m.time()),
        None => (None, None, None),
    }
}

/// The facts a reader shows of a manifest store.
fn reader_facts(r: &c2pa::Reader) -> (f: C2paFacts) {
    let manifest = if reader_has_manifest(r) {
        let (claim_version, generator_info, claim_generator) = manifest_generator(r);
        let (common_name, issuer, time) = manifest_signature(r);
        Some(ManifestFacts {
            claim_version,
            generator_info,
            claim_generator,
            actions: manifest_actions(r),
            ingredients: manifest_ingredients(r),
            common_name,
            issuer,
            time,
        })
    } else {
        None
    };
    let active_results = match (active_success(r), active_informational(r), active_failure(r)) {
        (Some(ok), Some(info), Some(fails)) => Some((ok, info, fails)),
        _ => None,
    };
    C2paFacts {
        verdict: reader_verdict(r),
        active_label: reader_active_label(r),
        manifest,
        manifest_count: reader_manifest_count(r),
        active_results,
        legacy_statuses: reader_legacy_statuses(r),
    }
}

/// Reads the manifest store of an asset held in memory, offline, with the
/// configured local root (when given) as the only user trust anchor. When the
/// asset embeds no store and a sidecar store is given (the bytes of the
/// asset's `.c2pa` file), that store is read against the asset instead. What
/// the reader finds depends on the current time and is not stated; the
/// settings it is given are `spec_reader_settings`. A settings error is
/// reported as its text.
pub fn c2pa_read(format: &str, bytes: &[u8], local_root_pem: Option<&str>, sidecar: Option<&[u8]>)
    -> (r: Result<Result<C2paFacts, C2paReadError>, String>)
{
    let settings = reader_settings(local_root_pem);
    let opened = match open_reader(settings.as_str(), format, bytes) {
        Ok(Err(C2paReadError::NotFound)) => match sidecar {
            Some(manifest) => open_reader_with_manifest(settings.as_str(), manifest, format, bytes),
            None => Ok(Err(C2paReadError::NotFound)),
        },
        other => other,
    };
    match opened {
        Err(e) => Err(e),
        Ok(Err(e)) => Ok(Err(e)),
        Ok(Ok(reader)) => Ok(Ok(reader_facts(&reader))),
    }
}

} // verus!
