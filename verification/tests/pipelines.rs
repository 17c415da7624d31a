use banksy_c2pa::archive::{archive_entries, audit_bundle_archive, bundle_archive, bundle_header, image_fetch, metadata_entry, ImageFetch};
use banksy_c2pa::batch::{finish_batch, needs_signing_key, BatchItem, BatchItemResult};
use banksy_c2pa::bundle::{bundle_manifest, BundleFileRecord};
use banksy_c2pa::collect::audit_selection;
use banksy_c2pa::config::Profile;
use banksy_c2pa::error::AppError;
use banksy_c2pa::image_info::inspect_image;
use banksy_c2pa::issuing::{issue_hierarchy, issue_signer};
use banksy_c2pa::pki::certificate_summary;
use banksy_c2pa::pki::{certificate_request, root_plan, signer_plan, ExtendedUsage, KeyUsage};
use banksy_c2pa::provenance::{inspect_asset, load_c2pa_report, C2paReadError, InspectionReport};
use banksy_c2pa::reader::{c2pa_read, reader_settings};
use banksy_c2pa::scan::{scan_inspected, AssetState, ScanRead};
use banksy_c2pa::signing::{attest, derivative, PreflightFacts};

fn record(path: &str) -> BundleFileRecord {
    BundleFileRecord {
        archive_path: path.to_string(),
        source_name: "a.png".to_string(),
        size: 3,
        sha256: "00".repeat(32),
        format: "image/png".to_string(),
        credential_location: "PNG caBX".to_string(),
        credential_bytes: 1,
        manifest_count: 1,
        active_manifest: None,
        signer_common_name: None,
        signer_issuer: None,
        published: false,
        upstream_manifest_count: 0,
        upstream_preserved: true,
    }
}

fn png() -> Vec<u8> {
    let image = image::ImageBuffer::from_pixel(2, 2, image::Rgba([1_u8, 2, 3, 255]));
    let mut bytes = Vec::new();
    image
        .write_to(&mut std::io::Cursor::new(&mut bytes), image::ImageFormat::Png)
        .unwrap();
    bytes
}

fn unsigned(path: &str) -> InspectionReport {
    let info = inspect_image(path, &png(), true).unwrap();
    inspect_asset(info, load_c2pa_report(path, Err(C2paReadError::NotFound)).unwrap())
}

fn facts(output_exists: bool) -> PreflightFacts {
    PreflightFacts {
        input_is_file: true,
        parent_is_file: true,
        output_is_input: false,
        output_is_parent: false,
        output_exists,
    }
}

fn waiting(input: &str, result: BatchItemResult, state: AssetState) -> BatchItem {
    BatchItem {
        input: input.to_string(),
        source_state: state,
        result,
        output: None,
        output_sha256: None,
        credential_location: None,
        credential_bytes: None,
        manifest_count: None,
        upstream_preserved: None,
        post_commit_verified: None,
        detail: "ready to sign".to_string(),
        error_exit_code: None,
    }
}

#[test]
fn evidence_archive_reads_back_its_entries() {
    let manifest = bundle_manifest("t".into(), "1.0", "fp".into(), vec![record("images/a.png")]);
    let archive = bundle_archive(b"{}".to_vec(), &manifest, "PEM", vec![vec![1, 2, 3]]).unwrap();
    let entries = archive_entries(&archive).unwrap();
    let names: Vec<&str> = entries.iter().map(|e| e.name.as_str()).collect();
    assert_eq!(
        names,
        vec!["evidence.json", "SHA256SUMS", "README.txt", "trust/root-ca.pem", "images/a.png"]
    );
    assert_eq!(entries[4].size, 3);
    assert_eq!(metadata_entry(&archive, "evidence.json").unwrap(), b"{}".to_vec());
    assert_eq!(metadata_entry(&archive, "trust/root-ca.pem").unwrap(), b"PEM".to_vec());
    let sums = String::from_utf8(metadata_entry(&archive, "SHA256SUMS").unwrap()).unwrap();
    assert_eq!(sums, format!("{}  images/a.png\n", "00".repeat(32)));
    let missing = metadata_entry(&archive, "nothing").unwrap_err();
    assert_eq!(missing.to_string(), "missing bundle entry: nothing");
    assert_eq!(missing.exit_code(), 3);
    assert!(matches!(image_fetch(&archive, "images/a.png"), ImageFetch::Extracted(v) if v == vec![1, 2, 3]));
    assert!(matches!(image_fetch(&archive, "images/b.png"), ImageFetch::Missing));
}

#[test]
fn unreadable_archive_is_a_verification_failure() {
    let error = archive_entries(b"not a zip").unwrap_err();
    assert_eq!(error.exit_code(), 3);
    assert!(error.to_string().starts_with("cannot read evidence ZIP: "));
}

#[test]
fn one_key_prompt_only_when_something_waits() {
    let items = vec![
        waiting("a.png", BatchItemResult::Skipped, AssetState::Unsigned),
        waiting("b.png", BatchItemResult::Skipped, AssetState::SignedLocal),
    ];
    assert!(needs_signing_key(&items));
    let report = finish_batch(false, items, vec![Err(AppError::runtime("boom".into()))]);
    assert_eq!(report.authentication_prompts, 1);
    assert_eq!(report.items[0].result, BatchItemResult::Failed);
    assert_eq!(report.items[0].error_exit_code, Some(1));
    assert_eq!(report.items[0].output.as_deref(), Some("a.banksy-signed.png"));
    assert_eq!(report.items[1].result, BatchItemResult::Skipped);
    assert_eq!(report.exit_code(), 1);

    let idle = vec![waiting("b.png", BatchItemResult::Skipped, AssetState::SignedLocal)];
    assert!(!needs_signing_key(&idle));
    let report = finish_batch(false, idle, Vec::new());
    assert_eq!(report.authentication_prompts, 0);
    assert_eq!(report.status, "ok");
}

#[test]
fn audit_selection_refuses_before_reading() {
    let none = audit_selection(&Vec::new(), &Vec::new(), None).unwrap_err();
    assert_eq!(none.to_string(), "no PNG, JPEG, or evidence ZIP files found");
    let two = vec!["b.png".to_string(), "a.png".to_string()];
    let ids = vec!["/x/b.png".to_string(), "/x/a.png".to_string()];
    let hash = "00".repeat(32);
    let many = audit_selection(&two, &ids, Some(&hash)).unwrap_err();
    assert_eq!(many.to_string(), "--expect-sha256 requires exactly one image or bundle");
    let (targets, expected) = audit_selection(&two, &ids, None).unwrap();
    assert_eq!(targets, vec!["a.png".to_string(), "b.png".to_string()]);
    assert!(expected.is_none());
    let same = vec!["./a.png".to_string(), "a.png".to_string()];
    let same_ids = vec!["/x/a.png".to_string(), "/x/a.png".to_string()];
    let (targets, expected) = audit_selection(&same, &same_ids, Some(&hash.to_uppercase())).unwrap();
    assert_eq!(targets.len(), 1);
    assert_eq!(expected, Some(hash));
}

#[test]
fn scan_classifies_what_was_read() {
    let inspected = vec![
        ("notes.txt".to_string(), ScanRead::Read(Err(AppError::runtime("cannot detect image format for notes.txt".into())))),
        ("gone.png".to_string(), ScanRead::Unreadable("symbolic links are not followed".into())),
        ("image.banksy-signed.png".to_string(), ScanRead::Read(Ok(unsigned("image.banksy-signed.png")))),
        ("plain.png".to_string(), ScanRead::Read(Ok(unsigned("plain.png")))),
    ];
    let report = scan_inspected(vec![".".into()], false, false, inspected, vec![None, None, None, None]);
    assert_eq!(report.items[0].state, AssetState::Unreadable);
    assert_eq!(report.items[1].state, AssetState::Unreadable);
    assert_eq!(report.items[1].detail, "symbolic links are not followed");
    assert_eq!(report.items[2].state, AssetState::Invalid);
    assert!(!report.items[2].needs_signing);
    assert!(report.items[2].detail.contains("stripped or replaced"));
    assert_eq!(report.items[3].state, AssetState::Unsigned);
    assert_eq!(report.summary.unreadable, 2);
    assert_eq!(report.summary.invalid, 1);
    assert_eq!(report.summary.needs_signing, 1);
}

#[test]
fn signing_requests_are_refused_before_the_key() {
    let profile = Profile::default();
    let refused = attest(
        &profile,
        "/tmp/d/a.png",
        "/tmp/d/a.banksy-signed.png",
        None,
        false,
        false,
        &facts(true),
        Ok(unsigned("/tmp/d/a.png")),
        Ok("image/png"),
        true,
    )
    .unwrap_err();
    assert_eq!(refused.exit_code(), 1);
    assert!(refused.to_string().starts_with("existing output file found"));
    let (_, plan) = attest(
        &profile,
        "/tmp/d/a.png",
        "/tmp/d/a.banksy-signed.png",
        None,
        true,
        false,
        &facts(false),
        Ok(unsigned("/tmp/d/a.png")),
        Ok("image/png"),
        true,
    )
    .unwrap();
    assert_eq!(plan.primary_action, "c2pa.edited.metadata");
    assert!(plan.published);

    let identical = derivative(
        &profile,
        "/tmp/d/parent.png",
        "/tmp/d/edit.png",
        "/tmp/d/out.png",
        None,
        false,
        false,
        &facts(false),
        Ok(unsigned("/tmp/d/parent.png")),
        Ok(unsigned("/tmp/d/edit.png")),
        Ok(true),
        Ok("image/png"),
    )
    .unwrap_err();
    assert_eq!(identical.exit_code(), 3);
    assert!(identical.to_string().contains("Use `attest` instead"));
    let (_, plan) = derivative(
        &profile,
        "/tmp/d/parent.png",
        "/tmp/d/edit.png",
        "/tmp/d/out.png",
        None,
        false,
        false,
        &facts(false),
        Ok(unsigned("/tmp/d/parent.png")),
        Ok(unsigned("/tmp/d/edit.png")),
        Ok(false),
        Ok("image/png"),
    )
    .unwrap();
    assert_eq!(plan.primary_action, "c2pa.edited");
}

#[test]
fn certificates_are_requested_with_their_usages() {
    let identity = Profile::default().identity;
    let now: i128 = 1_000_000_000_000_000_000;
    let root = certificate_request(&root_plan(&identity), now);
    assert!(root.is_ca);
    assert_eq!(root.key_usages, vec![KeyUsage::KeyCertSign, KeyUsage::CrlSign]);
    assert!(root.extended_key_usages.is_empty());
    assert_eq!(root.not_before_nanos, now - 300_000_000_000);
    assert_eq!(root.not_after_nanos, now + 3652 * 86_400_000_000_000);
    let leaf = certificate_request(&signer_plan(&identity).unwrap(), now);
    assert!(!leaf.is_ca);
    assert_eq!(leaf.key_usages, vec![KeyUsage::DigitalSignature]);
    assert!(matches!(&leaf.extended_key_usages[0], ExtendedUsage::Other(oid) if oid == &vec![1, 3, 6, 1, 4, 1, 62558, 2, 1]));
    assert!(matches!(leaf.extended_key_usages[1], ExtendedUsage::EmailProtection));
    assert_eq!(leaf.not_after_nanos, now + 397 * 86_400_000_000_000);
    assert!(leaf.authority_key_identifier);
}

#[test]
fn reader_settings_are_offline_json() {
    assert_eq!(
        reader_settings(None),
        "{\"core\":{\"allowed_network_hosts\":[]},\"verify\":{\"verify_trust\":true}}"
    );
    let with_root = reader_settings(Some("A\"B\n"));
    assert!(with_root.ends_with(",\"trust\":{\"user_anchors\":\"A\\\"B\\n\"}}"));
}

#[test]
fn plain_image_has_no_manifest_store() {
    let outcome = c2pa_read("png", &png(), None, None).unwrap();
    assert!(matches!(outcome, Err(C2paReadError::NotFound)));
    let report = load_c2pa_report("a.png", outcome).unwrap();
    assert!(!report.present);
}

#[test]
fn bundle_without_images_needs_readable_metadata() {
    let manifest = bundle_manifest("t".into(), "1.0", "fp".into(), Vec::new());
    let archive = bundle_archive(b"{}".to_vec(), &manifest, "not a certificate", Vec::new()).unwrap();
    let (scan, issues, json) = bundle_header(&archive).unwrap();
    assert_eq!(json, b"{}".to_vec());
    assert!(issues.is_empty());
    let error = audit_bundle_archive("b.zip", &archive, &scan, issues, manifest, None).unwrap_err();
    assert_eq!(error.exit_code(), 3);
    assert!(error.to_string().starts_with("invalid bundled root certificate: "));

    let broken = vec![1_u8, 2, 3];
    let error = bundle_header(&broken).unwrap_err();
    assert_eq!(error.exit_code(), 3);
    assert!(error.to_string().starts_with("cannot read evidence ZIP: "));
}

#[test]
fn a_new_hierarchy_issues_a_signer_under_its_root() {
    let identity = Profile::default().identity;
    let now = 1_700_000_000_000_000_000_i128;
    let hierarchy = issue_hierarchy(&identity, now).unwrap();
    let root = certificate_summary(hierarchy.root_certificate_pem.as_bytes()).unwrap();
    let signer = certificate_summary(hierarchy.signer.certificate_pem.as_bytes()).unwrap();
    assert!(root.subject.contains("Local C2PA Root"));
    assert_eq!(signer.issuer, root.subject);
    assert_eq!(hierarchy.signer.not_after, signer.not_after);
    assert_eq!(hierarchy.signer.not_after, "2024-12-15T22:13:20Z");
    let key = String::from_utf8(hierarchy.root_key_pem).unwrap();
    let rotated = issue_signer(&identity, &key, now).unwrap();
    let again = certificate_summary(rotated.certificate_pem.as_bytes()).unwrap();
    assert_eq!(again.issuer, root.subject);
    assert!(issue_signer(&identity, "not a key", now).unwrap_err().to_string().starts_with("cannot decode the root PKCS#8 key: "));
}
