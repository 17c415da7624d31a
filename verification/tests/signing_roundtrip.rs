use banksy_c2pa::archive::{audit_bundle_archive, bundle_archive, bundle_header};
use banksy_c2pa::audit::{audit_image, AuditState};
use banksy_c2pa::bundle::{bundle_manifest, package_record};
use banksy_c2pa::config::Profile;
use banksy_c2pa::pki::certificate_fingerprint;
use banksy_c2pa::image_info::inspect_image;
use banksy_c2pa::issuing::issue_hierarchy;
use banksy_c2pa::provenance::{inspect_asset, load_c2pa_report, C2paReadError};
use banksy_c2pa::reader::c2pa_read;
use banksy_c2pa::signature::{c2pa_sign, profile_algorithm};
use banksy_c2pa::signing::{attest, PreflightFacts};

#[test]
fn a_signed_image_reads_back_its_claim() {
    let profile = Profile::default();
    let now = time::OffsetDateTime::now_utc().unix_timestamp_nanos();
    let hierarchy = issue_hierarchy(&profile.identity, now).unwrap();
    let root_pem = hierarchy.root_certificate_pem.clone();
    let chain = format!("{}{}", hierarchy.signer.certificate_pem, root_pem);

    let image = image::ImageBuffer::from_pixel(3, 2, image::Rgba([9_u8, 8, 7, 255]));
    let mut source = Vec::new();
    image
        .write_to(&mut std::io::Cursor::new(&mut source), image::ImageFormat::Png)
        .unwrap();
    let info = inspect_image("/tmp/in.png", &source, true).unwrap();
    let report = inspect_asset(info, load_c2pa_report("/tmp/in.png", Err(C2paReadError::NotFound)).unwrap());
    let facts = PreflightFacts {
        input_is_file: true,
        parent_is_file: false,
        output_is_input: false,
        output_is_parent: false,
        output_exists: false,
    };
    let (_, plan) = attest(
        &profile,
        "/tmp/in.png",
        "/tmp/in.banksy-signed.png",
        None,
        false,
        false,
        &facts,
        Ok(report),
        Ok("image/png"),
        true,
    )
    .unwrap();
    let signed = c2pa_sign(
        &plan,
        "0.0.0",
        "macOS test".to_string(),
        "2026-01-01T00:00:00Z",
        &source,
        None,
        &chain,
        &hierarchy.signer.key_pem,
        profile_algorithm(&profile.credential.algorithm).unwrap(),
    )
    .unwrap();
    let read = c2pa_read("png", &signed, Some(&root_pem), None).unwrap();
    let c2pa = load_c2pa_report("/tmp/out.png", read).unwrap();
    assert!(c2pa.present);
    assert_eq!(c2pa.manifest_count, 1);
    assert!(c2pa.actions.iter().any(|a| a == "c2pa.edited.metadata"));
    assert!(!c2pa.actions.iter().any(|a| a == "c2pa.published"));
    assert_ne!(c2pa.validation_state, "invalid");

    // The signed image, packaged with its root, passes the bundle audit.
    let name = "/tmp/in.banksy-signed.png";
    let read = c2pa_read("png", &signed, Some(&root_pem), None).unwrap();
    let audit = audit_image(name, &signed, true, None, load_c2pa_report(name, read)).unwrap();
    assert_eq!(audit.state, AuditState::ValidLocal);
    let record = package_record(name, "images/in.banksy-signed.png".to_string(), audit).unwrap();
    let fingerprint = certificate_fingerprint(root_pem.as_bytes()).unwrap();
    let manifest = bundle_manifest("2026-01-01T00:00:00Z".into(), "0.0.0", fingerprint, vec![record]);
    let archive = bundle_archive(b"{}".to_vec(), &manifest, &root_pem, vec![signed.clone()]).unwrap();
    let (scan, issues, json) = bundle_header(&archive).unwrap();
    assert_eq!(json, b"{}".to_vec());
    let reread = bundle_manifest(
        manifest.created_at.clone(),
        "0.0.0",
        manifest.trust.root_fingerprint_sha256.clone(),
        manifest.files.iter().map(|r| package_record(
            name,
            r.archive_path.clone(),
            audit_image(name, &signed, true, None, load_c2pa_report(name, c2pa_read("png", &signed, Some(&root_pem), None).unwrap())).unwrap(),
        ).unwrap()).collect(),
    );
    let report = audit_bundle_archive("/tmp/b.zip", &archive, &scan, issues, reread, Some(&root_pem)).unwrap();
    assert!(report.issues.is_empty(), "{:?}", report.issues);
    assert!(report.passed);
    assert!(report.local_root_match);
    assert_eq!(report.trust_basis, "configured-local-root");
    assert_eq!(report.images.len(), 1);

    // A configured root that is not the bundled one fails the audit.
    let other_root = issue_hierarchy(&profile.identity, now).unwrap().root_certificate_pem;
    let again = |sha: Option<String>| {
        let mut record = package_record(
            name,
            "images/in.banksy-signed.png".to_string(),
            audit_image(name, &signed, true, None, load_c2pa_report(name, c2pa_read("png", &signed, Some(&root_pem), None).unwrap())).unwrap(),
        )
        .unwrap();
        if let Some(sha) = sha {
            record.sha256 = sha;
        }
        bundle_manifest("2026-01-01T00:00:00Z".into(), "0.0.0", certificate_fingerprint(root_pem.as_bytes()).unwrap(), vec![record])
    };
    let (scan, issues, _) = bundle_header(&archive).unwrap();
    let mismatch = audit_bundle_archive("/tmp/b.zip", &archive, &scan, issues, again(None), Some(&other_root)).unwrap();
    assert!(!mismatch.passed);
    assert!(!mismatch.local_root_match);
    assert_eq!(mismatch.trust_basis, "configured-local-root-mismatch");

    // Tampered evidence (a record hash that is not the image's) fails it.
    let tampered_manifest = again(Some("ab".repeat(32)));
    let tampered = bundle_archive(b"{}".to_vec(), &tampered_manifest, &root_pem, vec![signed.clone()]).unwrap();
    let (scan, issues, _) = bundle_header(&tampered).unwrap();
    let report = audit_bundle_archive("/tmp/t.zip", &tampered, &scan, issues, again(Some("ab".repeat(32))), None).unwrap();
    assert!(!report.passed);
    assert_eq!(report.trust_basis, "bundled-self-declared-root");
}
