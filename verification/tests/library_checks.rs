use banksy_c2pa::audit::{is_supported_image, is_zip, normalize_sha256, AuditState};
use banksy_c2pa::batch::{batch_entry, batch_report, BatchEntry, BatchItem, BatchItemResult};
use banksy_c2pa::bundle::{checksums_text, parse_checksums, safe_archive_path, BundleFileRecord};
use banksy_c2pa::config::Profile;
use banksy_c2pa::container::{inspect_container, inspect_png};
use banksy_c2pa::digest::{file_sha256, fingerprint_der};
use banksy_c2pa::error::AppError;
use banksy_c2pa::image_info::{canonical_pixel_sha256, inspect_image};
use banksy_c2pa::menu::{menu_path, MainAction, MAIN_ACTIONS};
use banksy_c2pa::paths::{extension, file_stem, is_absolute, join, split_name};
use banksy_c2pa::pki::{certificate_fingerprint, certificate_summary, format_time, init_plan, init_profile, signer_plan};
use banksy_c2pa::provenance::{inspect_asset, load_c2pa_report, C2paReadError};
use banksy_c2pa::scan::{classify_image, is_managed_output, may_be_covered, summarize, AssetState};
use banksy_c2pa::setup::{identity_from_options, IdentityOptions};
use banksy_c2pa::signing::{default_output_path, output_directory, preflight_output, PreflightFacts};
use banksy_c2pa::collect::{
    audit_entry, audit_root, drop_repeated_files, image_entry, is_hidden_name, order_candidates, path_order,
    root_entry, roots_or_current, Candidate, EntryAction, PathKind, RootEntry,
};
use banksy_c2pa::bundle::{
    bundle_directory, check_bundle_destination, check_entry_count, check_metadata_entry, default_bundle_path,
};
use banksy_c2pa::menu::{path_choices, pending_outputs};
use banksy_c2pa::scan::scan_paths;
use banksy_c2pa::signing::check_written_pixels;

const PNG_SIGNATURE: [u8; 8] = [0x89, b'P', b'N', b'G', 0x0d, 0x0a, 0x1a, 0x0a];

fn chunk(kind: &[u8; 4], data: &[u8]) -> Vec<u8> {
    let mut out = (data.len() as u32).to_be_bytes().to_vec();
    out.extend_from_slice(kind);
    out.extend_from_slice(data);
    let mut hasher = crc32fast::Hasher::new();
    hasher.update(kind);
    hasher.update(data);
    out.extend_from_slice(&hasher.finalize().to_be_bytes());
    out
}

fn encoded(image: &image::RgbaImage, format: image::ImageFormat) -> Vec<u8> {
    let mut bytes = Vec::new();
    image
        .write_to(&mut std::io::Cursor::new(&mut bytes), format)
        .unwrap();
    bytes
}

fn record(path: &str, hash: &str) -> BundleFileRecord {
    BundleFileRecord {
        archive_path: path.to_string(),
        source_name: "a.png".to_string(),
        size: 1,
        sha256: hash.to_string(),
        format: "image/png".to_string(),
        credential_location: "PNG caBX".to_string(),
        credential_bytes: 1,
        manifest_count: 1,
        active_manifest: None,
        signer_common_name: None,
        signer_issuer: None,
        published: false,
        upstream_manifest_count: 0,
        upstream_preserved: true,
    }
}

fn batch_item(result: BatchItemResult, code: Option<u8>) -> BatchItem {
    BatchItem {
        input: "a.png".to_string(),
        source_state: AssetState::Unsigned,
        result,
        output: None,
        output_sha256: None,
        credential_location: None,
        credential_bytes: None,
        manifest_count: None,
        upstream_preserved: None,
        post_commit_verified: None,
        detail: String::new(),
        error_exit_code: code,
    }
}

#[test]
fn error_kinds_carry_their_exit_codes() {
    assert_eq!(AppError::usage("u".to_string()).exit_code(), 2);
    assert_eq!(AppError::runtime("r".to_string()).exit_code(), 1);
    assert_eq!(AppError::verification("v".to_string()).exit_code(), 3);
    assert_eq!(AppError::runtime("message".to_string()).to_string(), "message");
}

#[test]
fn file_hash_is_lowercase_sha256() {
    assert_eq!(
        file_sha256(b"abc"),
        "ba7816bf8f01cfea414140de5dae2223b00361a396177a9cb410ff61f20015ad"
    );
    assert_eq!(
        fingerprint_der(b"abc"),
        "BA:78:16:BF:8F:01:CF:EA:41:41:40:DE:5D:AE:22:23:B0:03:61:A3:96:17:7A:9C:B4:10:FF:61:F2:00:15:AD"
    );
}

#[test]
fn normalized_hash_is_lowercase_and_stable() {
    let upper = "AB".repeat(32);
    let once = normalize_sha256(&upper).unwrap();
    assert_eq!(once, "ab".repeat(32));
    assert_eq!(normalize_sha256(&once).unwrap(), once);
    assert_eq!(normalize_sha256(&format!("  {upper}\n")).unwrap(), once);
    assert_eq!(normalize_sha256("abc").unwrap_err().exit_code(), 1);
}

#[test]
fn checksums_read_back_what_was_written() {
    let files = vec![
        record("images/a.png", &"1".repeat(64)),
        record("images/b.jpg", &"2".repeat(64)),
    ];
    let text = checksums_text(&files);
    assert_eq!(
        text,
        format!("{}  images/a.png\n{}  images/b.jpg\n", "1".repeat(64), "2".repeat(64))
    );
    let mut issues = Vec::new();
    let pairs = parse_checksums(&text, &mut issues);
    assert!(issues.is_empty());
    assert_eq!(
        pairs,
        vec![
            ("images/a.png".to_string(), "1".repeat(64)),
            ("images/b.jpg".to_string(), "2".repeat(64)),
        ]
    );
}

#[test]
fn archive_paths_must_be_plain_relative_names() {
    assert!(safe_archive_path("images/sub/a.png"));
    assert!(!safe_archive_path(""));
    assert!(!safe_archive_path("./a.png"));
    assert!(!safe_archive_path("images/../../a.png"));
}

#[test]
fn default_profile_validates() {
    assert!(Profile::default().validate().is_ok());
}

#[test]
fn every_main_menu_index_has_one_action() {
    let mut seen = Vec::new();
    for index in 0..MAIN_ACTIONS {
        let action = MainAction::from_index(index).unwrap();
        assert!(!seen.contains(&action));
        seen.push(action);
    }
    assert_eq!(MainAction::from_index(MAIN_ACTIONS + 5), None);
}

#[test]
fn two_credential_stores_are_not_a_generated_embedding() {
    let mut out = PNG_SIGNATURE.to_vec();
    out.extend(chunk(b"IHDR", &[0, 0, 0, 1, 0, 0, 0, 1, 8, 6, 0, 0, 0]));
    out.extend(chunk(b"caBX", b"one"));
    out.extend(chunk(b"caBX", b"two"));
    out.extend(chunk(b"IDAT", b"data"));
    out.extend(chunk(b"IEND", b""));
    let report = inspect_png(&out).unwrap();
    assert!(!report.structure_valid);
    assert!(!report.embedded);
    assert!(report.issues.contains(&"PNG contains 2 caBX chunks".to_string()));
    assert_eq!(report.store_count, 2);
    assert_eq!(report.store_bytes, 6);
    assert!(!report.valid_generated_embedding());
}

#[test]
fn png_without_end_chunk_is_not_structurally_valid() {
    let mut out = PNG_SIGNATURE.to_vec();
    out.extend(chunk(b"IHDR", &[0, 0, 0, 1, 0, 0, 0, 1, 8, 6, 0, 0, 0]));
    out.extend(chunk(b"IDAT", b"data"));
    let report = inspect_png(&out).unwrap();
    assert!(!report.structure_valid);
}

#[test]
fn jpeg_is_recognized_and_has_no_store() {
    let image = image::ImageBuffer::from_pixel(2, 2, image::Rgba([10_u8, 20, 30, 255]));
    let rgb = image::DynamicImage::ImageRgba8(image).to_rgb8();
    let mut bytes = Vec::new();
    rgb.write_to(&mut std::io::Cursor::new(&mut bytes), image::ImageFormat::Jpeg)
        .unwrap();
    let report = inspect_container("photo.jpg", &bytes).unwrap();
    assert_eq!(report.format, "image/jpeg");
    assert!(!report.embedded);
    let info = inspect_image("photo.jpg", &bytes, true).unwrap();
    assert_eq!(info.format, "image/jpeg");
    assert_eq!((info.width, info.height), (2, 2));
}

#[test]
fn image_format_comes_from_content_before_extension() {
    let image = image::ImageBuffer::from_pixel(3, 1, image::Rgba([1_u8, 2, 3, 255]));
    let bytes = encoded(&image, image::ImageFormat::Png);
    let info = inspect_image("misnamed.jpg", &bytes, true).unwrap();
    assert_eq!(info.format, "image/png");
    assert_eq!(info.dimensions(), "3 x 1");
    assert_eq!(info.file_sha256, file_sha256(&bytes));
}

#[test]
fn image_inspection_errors_are_runtime_failures() {
    let not_file = inspect_image("dir", b"", false).unwrap_err();
    assert_eq!(not_file.exit_code(), 1);
    assert!(not_file.to_string().contains("not a regular file"));
    let unknown = inspect_image("notes.txt", b"plain words", true).unwrap_err();
    assert_eq!(unknown.exit_code(), 1);
    let broken = inspect_image("broken.png", &PNG_SIGNATURE, true).unwrap_err();
    assert!(broken.to_string().starts_with("cannot decode broken.png: "));
}

#[test]
fn pixel_hash_depends_on_dimensions_and_samples() {
    let a = canonical_pixel_sha256(1, 2, &[1, 2, 3, 4, 5, 6, 7, 8]);
    let b = canonical_pixel_sha256(2, 1, &[1, 2, 3, 4, 5, 6, 7, 8]);
    let c = canonical_pixel_sha256(1, 2, &[1, 2, 3, 4, 5, 6, 7, 9]);
    assert_ne!(a, b);
    assert_ne!(a, c);
    assert_eq!(a.len(), 64);
}

#[test]
fn summary_counts_partition_the_items() {
    let bytes = encoded(
        &image::ImageBuffer::from_pixel(1, 1, image::Rgba([1_u8, 2, 3, 255])),
        image::ImageFormat::Png,
    );
    let mut items = Vec::new();
    for path in ["a.png", "b.banksy-signed.png", "c.png"] {
        let info = inspect_image(path, &bytes, true).unwrap();
        let c2pa = load_c2pa_report(path, Err(C2paReadError::NotFound)).unwrap();
        items.push(classify_image(path, Ok(inspect_asset(info, c2pa)), false).item);
    }
    items.push(classify_image("gone.png", Err(AppError::runtime("missing".into())), false).item);
    let s = summarize(&items);
    assert_eq!(s.total, 4);
    assert_eq!(s.unsigned, 2);
    assert_eq!(s.invalid, 1);
    assert_eq!(s.unreadable, 1);
    assert_eq!(s.needs_signing, 2);
    assert_eq!(
        s.unsigned + s.signed_external + s.signed_local + s.covered + s.invalid + s.unreadable,
        s.total
    );
}

#[test]
fn unreadable_c2pa_store_is_a_verification_failure() {
    let error = load_c2pa_report("x.png", Err(C2paReadError::Other("bad box".into()))).unwrap_err();
    assert_eq!(error.exit_code(), 3);
    assert_eq!(error.to_string(), "cannot read C2PA provenance from x.png: bad box");
}

#[test]
fn managed_outputs_are_recognized_by_name() {
    assert!(is_managed_output("dir/a.banksy-signed.png"));
    assert!(is_managed_output("b.banksy-signed.JPG"));
    assert!(!is_managed_output("A.BANKSY-SIGNED.JPG"));
    assert!(!is_managed_output("dir/a.png"));
}

#[test]
fn batch_counts_partition_and_decide_the_exit_code() {
    let report = batch_report(
        true,
        vec![
            batch_item(BatchItemResult::Signed, None),
            batch_item(BatchItemResult::Skipped, None),
            batch_item(BatchItemResult::Failed, Some(3)),
        ],
        true,
    );
    assert_eq!(report.summary.scanned, 3);
    assert_eq!(
        report.summary.signed + report.summary.skipped + report.summary.failed,
        report.summary.scanned
    );
    assert_eq!(report.status, "partial");
    assert_eq!(report.authentication_prompts, 1);
    assert_eq!(report.exit_code(), 3);

    let runtime = batch_report(false, vec![batch_item(BatchItemResult::Failed, Some(1))], false);
    assert_eq!(runtime.status, "failed");
    assert_eq!(runtime.authentication_prompts, 0);
    assert_eq!(runtime.exit_code(), 1);

    let clean = batch_report(false, vec![batch_item(BatchItemResult::Signed, None)], true);
    assert_eq!(clean.status, "ok");
    assert_eq!(clean.exit_code(), 0);
}

#[test]
fn audit_states_that_pass() {
    assert!(AuditState::ValidLocal.passed());
    assert!(AuditState::ValidExternal.passed());
    assert!(!AuditState::MissingCredential.passed());
    assert!(!AuditState::HashMismatch.passed());
}

#[test]
fn supported_names_by_extension() {
    assert!(is_supported_image("a.PNG"));
    assert!(is_supported_image("b.jpeg"));
    assert!(!is_supported_image("c.gif"));
    assert!(is_zip("e.ZIP"));
    assert!(!is_zip("e.zip.png"));
}

#[test]
fn path_helpers_split_and_join() {
    assert_eq!(join("/tmp", "a.png"), "/tmp/a.png");
    assert_eq!(join("", "a.png"), "a.png");
    assert_eq!(file_stem("dir/photo.tar.gz"), Some("photo.tar".to_string()));
    assert_eq!(extension("dir/photo.tar.gz"), Some("gz".to_string()));
    assert_eq!(split_name("archive"), ("archive".to_string(), None));
    assert!(is_absolute("/a"));
    assert!(!is_absolute("a/b"));
    assert_eq!(default_output_path("/x/y/photo.png"), "/x/y/photo.banksy-signed.png");
    assert_eq!(default_output_path("noext"), "noext.banksy-signed");
    assert_eq!(output_directory("out.png"), ".");
    assert_eq!(output_directory("/srv/out.png"), "/srv");
    assert_eq!(menu_path("/elsewhere/a.png", "/tmp/images"), "/elsewhere/a.png");
}

#[test]
fn identity_options_are_trimmed() {
    let identity = identity_from_options(IdentityOptions {
        name: Some("  Studio signer ".into()),
        domain: Some(" example.test ".into()),
        ..IdentityOptions::default()
    })
    .unwrap();
    assert_eq!(identity.signer_name, "Studio signer");
    assert_eq!(identity.domain, Some("example.test".to_string()));
}

#[test]
fn certificates_are_read_through_the_pem_and_x509_parsers() {
    let generated = rcgen::generate_simple_self_signed(vec!["example.test".to_string()]).unwrap();
    let pem = generated.cert.pem();
    let der = generated.cert.der().to_vec();
    let fingerprint = certificate_fingerprint(pem.as_bytes()).unwrap();
    assert_eq!(fingerprint, fingerprint_der(&der));
    let summary = certificate_summary(pem.as_bytes()).unwrap();
    assert_eq!(summary.fingerprint_sha256, fingerprint);
    assert!(summary.subject.contains("rcgen self signed cert"));
    assert_eq!(summary.subject, summary.issuer);

    let bad = certificate_fingerprint(b"no certificate here").unwrap_err();
    assert_eq!(bad.exit_code(), 1);
    assert!(bad.to_string().starts_with("cannot parse certificate PEM: "));
}

#[test]
fn times_are_formatted_as_rfc3339() {
    assert_eq!(format_time((0, 0, 0)), "1970-01-01T00:00:00Z");
    assert_eq!(format_time((86_400_000_000_000, 0, 86400)), "1970-01-02T00:00:00Z");
    assert_eq!(format_time((500_000_000, 0, 0)), "1970-01-01T00:00:00.5Z");
    assert_eq!(format_time((0, 3600, 0)), "1970-01-01T01:00:00+01:00");
}

#[test]
fn certificate_names_must_be_ascii() {
    let mut identity = identity_from_options(IdentityOptions {
        name: Some("Signer".into()),
        ..IdentityOptions::default()
    })
    .unwrap();
    let plan = signer_plan(&identity).unwrap();
    assert_eq!(plan.common_name, "Signer");
    assert_eq!(plan.organization, "Signer");
    assert_eq!(plan.validity_days, 397);
    identity.domain = Some("exämple.test".to_string());
    let error = signer_plan(&identity).unwrap_err();
    assert_eq!(error.exit_code(), 1);
    assert!(error.to_string().starts_with("identity.domain cannot be encoded as a DNS SAN: "));
}

#[test]
fn paths_sort_component_by_component() {
    let paths: Vec<String> = ["b.png", "a.b/x.png", "a/z.png", "./c.png", "a", "a/z.png"]
        .iter()
        .map(|s| s.to_string())
        .collect();
    let order = path_order(&paths);
    let sorted: Vec<&str> = order.iter().map(|&j| paths[j].as_str()).collect();
    assert_eq!(sorted, vec!["./c.png", "a", "a/z.png", "a/z.png", "a.b/x.png", "b.png"]);
    assert_eq!(order[2], 2);
    assert_eq!(order[3], 5);
}

#[test]
fn scan_candidates_keep_the_first_path_of_each_file() {
    let c = |path: &str, identity: &str| Candidate {
        path: path.to_string(),
        identity: identity.to_string(),
        error: None,
    };
    let cands = vec![
        c("z.png", "/w/z.png"),
        c("./x/../a.png", "/w/a.png"),
        c("./y.png", "/w/y.png"),
        c("a.png", "/w/a.png"),
    ];
    let kept = order_candidates(&cands);
    let paths: Vec<&str> = kept.iter().map(|&j| cands[j].path.as_str()).collect();
    assert_eq!(paths, vec!["./x/../a.png", "./y.png", "z.png"]);
}

#[test]
fn audit_targets_merge_only_neighbouring_repeats() {
    let paths: Vec<String> = ["d//a.png", "./x/../a.png", "a.png", "./y.png", "d/a.png"]
        .iter()
        .map(|s| s.to_string())
        .collect();
    let ids: Vec<String> = ["/w/d/a.png", "/w/a.png", "/w/a.png", "/w/y.png", "/w/d/a.png"]
        .iter()
        .map(|s| s.to_string())
        .collect();
    let order = path_order(&paths);
    let kept = drop_repeated_files(&order, &ids);
    let names: Vec<&str> = kept.iter().map(|&j| paths[j].as_str()).collect();
    assert_eq!(names, vec!["./x/../a.png", "./y.png", "a.png", "d//a.png"]);
}

#[test]
fn walk_decisions_follow_names_and_kinds() {
    assert!(matches!(image_entry(".hidden.png", "d/.hidden.png", true, false, true), EntryAction::Skip));
    assert!(matches!(image_entry("a.JPG", "d/a.JPG", true, false, false), EntryAction::Collect));
    assert!(matches!(image_entry("a.zip", "d/a.zip", true, false, false), EntryAction::Skip));
    assert!(matches!(image_entry("sub", "d/sub", false, true, false), EntryAction::Skip));
    assert!(matches!(image_entry("sub", "d/sub", false, true, true), EntryAction::Descend));
    assert!(matches!(audit_entry("a.zip", "d/a.zip", true, false, false), EntryAction::Collect));
    assert!(matches!(audit_entry("notes.txt", "d/notes.txt", true, false, true), EntryAction::Skip));
    assert!(is_hidden_name(".git"));
    assert!(!is_hidden_name("git"));
}

#[test]
fn scan_and_audit_inputs_are_classified() {
    assert!(matches!(root_entry("d", PathKind::Directory), RootEntry::Walk));
    assert!(matches!(root_entry("f.png", PathKind::File), RootEntry::Candidate(None)));
    match root_entry("l.png", PathKind::Symlink) {
        RootEntry::Candidate(Some(m)) => assert_eq!(m, "symbolic links are not followed"),
        _ => panic!("a link is a candidate that cannot be used"),
    }
    match root_entry("gone.png", PathKind::Unavailable("No such file".into())) {
        RootEntry::Candidate(Some(m)) => assert_eq!(m, "cannot inspect gone.png: No such file"),
        _ => panic!("an unavailable path is a candidate that cannot be used"),
    }
    assert_eq!(audit_root("a.png", true, false).unwrap(), false);
    assert_eq!(audit_root("d", false, true).unwrap(), true);
    let e = audit_root("notes.txt", true, false).unwrap_err();
    assert_eq!(e.to_string(), "unsupported audit target: notes.txt");
    let e = audit_root("missing", false, false).unwrap_err();
    assert_eq!(e.to_string(), "audit target does not exist: missing");
    assert_eq!(roots_or_current(vec![]), vec![".".to_string()]);
    assert_eq!(roots_or_current(vec!["x".into()]), vec!["x".to_string()]);
}

#[test]
fn bundle_destinations_and_metadata_limits() {
    assert_eq!(
        check_bundle_destination(0, "a.zip", false, false, true).unwrap_err().exit_code(),
        3
    );
    assert_eq!(
        check_bundle_destination(1, "out/a.zip", true, false, true).unwrap_err().to_string(),
        "existing bundle found: out/a.zip; use --force to replace it"
    );
    assert!(check_bundle_destination(1, "out/a.zip", true, true, true).is_ok());
    assert_eq!(
        check_bundle_destination(1, "out/a.zip", false, false, false).unwrap_err().to_string(),
        "bundle output directory does not exist: out"
    );
    assert_eq!(bundle_directory("a.zip"), "");
    assert_eq!(
        default_bundle_path(".", "20240102T030405Z"),
        "./banksy-c2pa-evidence-20240102T030405Z.zip"
    );
    assert!(check_metadata_entry("SHA256SUMS", Some(10)).is_ok());
    assert_eq!(
        check_metadata_entry("SHA256SUMS", None).unwrap_err().to_string(),
        "missing bundle entry: SHA256SUMS"
    );
    assert_eq!(
        check_metadata_entry("evidence.json", Some(2 * 1024 * 1024 + 1)).unwrap_err().exit_code(),
        3
    );
    assert!(check_entry_count(512).is_ok());
    assert_eq!(check_entry_count(513).unwrap_err().to_string(), "archive has more than 512 entries");
}

#[test]
fn menu_lists_pending_outputs_and_path_choices() {
    let bytes = encoded(
        &image::ImageBuffer::from_pixel(1, 1, image::Rgba([1_u8, 2, 3, 255])),
        image::ImageFormat::Png,
    );
    let mut cands = Vec::new();
    for path in ["/w/a.png", "/w/b.banksy-signed.png"] {
        let info = inspect_image(path, &bytes, true).unwrap();
        let c2pa = load_c2pa_report(path, Err(C2paReadError::NotFound)).unwrap();
        cands.push((path.to_string(), classify_image(path, Ok(inspect_asset(info, c2pa)), false)));
    }
    let report = scan_paths(vec!["/w".into()], false, false, cands, vec![None, None]);
    assert_eq!(pending_outputs(&report), vec!["/w/a.banksy-signed.png".to_string()]);
    let labels = path_choices(&vec!["/w/x/a.zip".to_string()], "/w");
    assert_eq!(labels, vec!["x/a.zip", "Enter another path", "Back"]);
}

#[test]
fn written_pixels_must_match() {
    assert!(check_written_pixels(true).is_ok());
    let e = check_written_pixels(false).unwrap_err();
    assert_eq!(e.exit_code(), 3);
    assert!(e.to_string().contains("changed decoded pixels"));
}

#[test]
fn signing_never_overwrites_sources_or_unforced_outputs() {
    let facts = |output_is_input: bool, output_is_parent: bool, output_exists: bool| PreflightFacts {
        input_is_file: true,
        parent_is_file: true,
        output_is_input,
        output_is_parent,
        output_exists,
    };
    let refusal = "refusing to overwrite an input or parent asset; choose a separate output path";
    let e = preflight_output("a.png", None, "a.png", true, &facts(true, false, true)).unwrap_err();
    assert_eq!(e.to_string(), refusal);
    let e = preflight_output("e.png", Some("p.png"), "p.png", true, &facts(false, true, true)).unwrap_err();
    assert_eq!(e.to_string(), refusal);
    let e = preflight_output("a.png", None, "o.png", false, &facts(false, false, true)).unwrap_err();
    assert_eq!(e.to_string(), "existing output file found: o.png. Use --force to replace it");
    assert!(preflight_output("a.png", None, "o.png", true, &facts(false, false, true)).is_ok());
    let missing = PreflightFacts { input_is_file: false, ..facts(false, false, false) };
    let e = preflight_output("a.png", None, "o.png", false, &missing).unwrap_err();
    assert_eq!(e.exit_code(), 1);
    assert_eq!(e.to_string(), "input is not a regular file: a.png");
}

fn app11(payload: &[u8]) -> Vec<u8> {
    let mut out = vec![0xff, 0xeb];
    out.extend_from_slice(&((payload.len() + 2) as u16).to_be_bytes());
    out.extend_from_slice(payload);
    out
}

fn jpeg_with_store(second_sequence: u32) -> Vec<u8> {
    let mut first = b"JP".to_vec();
    first.extend_from_slice(&[0, 1]);
    first.extend_from_slice(&1_u32.to_be_bytes());
    first.extend_from_slice(&[0; 16]);
    first.extend_from_slice(b"c2pa");
    first.extend_from_slice(&[1, 2, 3, 4]);
    let mut second = b"JP".to_vec();
    second.extend_from_slice(&[0, 1]);
    second.extend_from_slice(&second_sequence.to_be_bytes());
    second.extend_from_slice(&[0; 12]);
    let mut out = vec![0xff, 0xd8];
    out.extend(app11(&first));
    out.extend(app11(&second));
    out.extend_from_slice(&[0xff, 0xda, 0x00, 0x02, 0x11, 0x22, 0xff, 0xd9]);
    out
}

#[test]
fn jpeg_app11_store_is_found_and_measured() {
    let report = inspect_container("signed.jpg", &jpeg_with_store(2)).unwrap();
    assert_eq!(report.location, "JPEG APP11 JUMBF");
    assert!(report.embedded);
    assert_eq!(report.store_count, 1);
    assert_eq!(report.store_bytes, 24 + 4);
    assert!(report.structure_valid);
    assert_eq!(report.before_media_data, Some(true));
    assert_eq!(report.crc_valid, None);
    assert!(report.valid_generated_embedding());
}

#[test]
fn jpeg_store_sequence_must_be_continuous() {
    let report = inspect_container("signed.jpg", &jpeg_with_store(3)).unwrap();
    assert!(!report.structure_valid);
    assert!(report
        .issues
        .contains(&"C2PA JPEG XT sequence is discontinuous at segment 3".to_string()));
}

#[test]
fn only_pending_unmanaged_images_can_be_covered() {
    assert!(may_be_covered("a.png", AssetState::Unsigned));
    assert!(may_be_covered("a.png", AssetState::SignedExternal));
    assert!(!may_be_covered("a.png", AssetState::SignedLocal));
    assert!(!may_be_covered("a.banksy-signed.png", AssetState::Unsigned));
}

#[test]
fn signing_needs_an_active_signer() {
    let mut profile = Profile::default();
    let e = profile.active_signer_account().unwrap_err();
    assert_eq!(e.to_string(), "no active signer key; run `banksy-c2pa init`");
    profile.credential.active_signer_key_account = Some("signer-0123".into());
    assert_eq!(profile.active_signer_account().unwrap(), "signer-0123");
}

fn status_item(path: &str, state: AssetState, covered_by: Option<&str>) -> banksy_c2pa::scan::StatusItem {
    banksy_c2pa::scan::StatusItem {
        path: path.to_string(),
        state,
        needs_signing: state.needs_signing(),
        signature_present: state != AssetState::Unsigned,
        signature_valid: state == AssetState::SignedLocal,
        local_trust: state == AssetState::SignedLocal,
        covered_by: covered_by.map(|s| s.to_string()),
        detail: "detail".to_string(),
    }
}

#[test]
fn batch_entries_skip_signed_images_and_refuse_managed_names() {
    match batch_entry(&status_item("photos/a.png", AssetState::Unsigned, None)) {
        BatchEntry::Preflight(output) => assert_eq!(output, "photos/a.banksy-signed.png"),
        other => panic!("unexpected entry: {other:?}"),
    }
    match batch_entry(&status_item("photos/a.banksy-signed.png", AssetState::Unsigned, None)) {
        BatchEntry::Done(item) => {
            assert_eq!(item.result, BatchItemResult::Failed);
            assert_eq!(item.error_exit_code, Some(3));
        }
        other => panic!("unexpected entry: {other:?}"),
    }
    match batch_entry(&status_item("photos/b.png", AssetState::Covered, Some("photos/b.banksy-signed.png"))) {
        BatchEntry::Done(item) => {
            assert_eq!(item.result, BatchItemResult::Skipped);
            assert_eq!(item.output.as_deref(), Some("photos/b.banksy-signed.png"));
            assert_eq!(item.error_exit_code, None);
        }
        other => panic!("unexpected entry: {other:?}"),
    }
    match batch_entry(&status_item("photos/c.png", AssetState::Unreadable, None)) {
        BatchEntry::Done(item) => assert_eq!(item.error_exit_code, Some(1)),
        other => panic!("unexpected entry: {other:?}"),
    }
    let rerun = batch_report(false, Vec::new(), false);
    assert_eq!(rerun.authentication_prompts, 0);
    assert_eq!(rerun.status, "ok");
}

#[test]
fn keys_are_kept_only_in_the_macos_keychain() {
    let backend = banksy_c2pa::config::KeychainBackend::default();
    let e = banksy_c2pa::keychain::store_secret(backend, "service", "account", b"secret", "label").unwrap_err();
    assert_eq!(e.to_string(), "version 1 supports private-key storage only on macOS");
    assert_eq!(e.exit_code(), 1);
    let e = banksy_c2pa::keychain::retrieve_secret(backend, "service", "account").unwrap_err();
    assert_eq!(e.to_string(), "version 1 supports private-key retrieval only on macOS");
    assert_eq!(e.exit_code(), 1);
}

fn initialized_profile() -> Profile {
    let mut profile = Profile::default();
    profile.credential.active_signer_key_account = Some("signer-0123456789abcdef0123".into());
    profile.credential.active_signer_certificate = Some("certs/signer-chain.pem".into());
    profile
}

#[test]
fn running_init_again_creates_nothing() {
    let profile = initialized_profile();
    let again = init_profile(initialized_profile(), true, None).unwrap();
    assert_eq!(again.identity.signer_name, profile.identity.signer_name);
    assert_eq!(again.credential.active_signer_key_account, profile.credential.active_signer_key_account);
    assert_eq!(again.signers.len(), profile.signers.len());
    assert_eq!(init_plan(&profile, true, true, false), (false, false));
    assert_eq!(init_plan(&profile, true, true, true), (false, true));
    assert_eq!(init_plan(&profile, true, false, false), (false, true));
    assert_eq!(init_plan(&profile, false, true, false), (true, true));
}
