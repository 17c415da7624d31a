use banksy_c2pa::audit::{audit_image, normalize_sha256, AuditState};
use banksy_c2pa::bundle::{check_bundle_output, parse_checksums, safe_archive_path};
use banksy_c2pa::cli::Command;
use banksy_c2pa::collect::{root_entry, PathKind, RootEntry};
use banksy_c2pa::config::{KeychainBackend, Profile};
use banksy_c2pa::container::{inspect_container, inspect_png};
use banksy_c2pa::image_info::{inspect_image, pixels_equal};
use banksy_c2pa::menu::{
    menu_path, pending_sign_command, resolve_path, state_label, MainAction, MAIN_ACTIONS,
};
use banksy_c2pa::paths::is_absolute;
use banksy_c2pa::pki::init_requires_identity;
use banksy_c2pa::provenance::{inspect_asset, load_c2pa_report, C2paReadError};
use banksy_c2pa::scan::{classify_image, scan_paths, AssetState};
use banksy_c2pa::setup::{identity_from_options, IdentityOptions};
use banksy_c2pa::signing::{default_output_path, preflight_attest, preflight_derivative, PreflightFacts};

const PNG_SIGNATURE: [u8; 8] = [0x89, b'P', b'N', b'G', 0x0d, 0x0a, 0x1a, 0x0a];

fn chunk(kind: &[u8; 4], data: &[u8]) -> Vec<u8> {
    let mut out = (data.len() as u32).to_be_bytes().to_vec();
    out.extend_from_slice(kind);
    out.extend_from_slice(data);
    let mut hasher = crc32fast::Hasher::new();
    hasher.update(kind);
    hasher.update(data);
    out.extend_from_slice(&hasher.finalize().to_be_bytes());
    out
}

fn minimal_png(with_cabx: bool) -> Vec<u8> {
    let mut out = PNG_SIGNATURE.to_vec();
    out.extend(chunk(b"IHDR", &[0, 0, 0, 1, 0, 0, 0, 1, 8, 6, 0, 0, 0]));
    if with_cabx {
        out.extend(chunk(b"caBX", b"jumbf"));
    }
    out.extend(chunk(b"IDAT", b"data"));
    out.extend(chunk(b"IEND", b""));
    out
}

fn encoded_png(image: &image::RgbaImage) -> Vec<u8> {
    let mut bytes = Vec::new();
    image
        .write_to(&mut std::io::Cursor::new(&mut bytes), image::ImageFormat::Png)
        .unwrap();
    bytes
}

#[test]
fn sha256_validation_is_strict() {
    assert!(normalize_sha256(&"A".repeat(64)).is_ok());
    assert!(normalize_sha256("abc").is_err());
    assert!(normalize_sha256(&"g".repeat(64)).is_err());
}

#[test]
fn missing_credential_and_hash_mismatch_are_distinct_failures() {
    let path = "plain.banksy-signed.png";
    let bytes = encoded_png(&image::ImageBuffer::from_pixel(2, 2, image::Rgba([1_u8, 2, 3, 255])));

    let read = load_c2pa_report(path, Err(C2paReadError::NotFound));
    let missing = audit_image(path, &bytes, false, None, read).unwrap();
    assert_eq!(missing.state, AuditState::MissingCredential);
    assert!(!missing.container.embedded);
    assert!(missing.detail.contains("stripped or replaced"));

    let read = load_c2pa_report(path, Err(C2paReadError::NotFound));
    let expected = "0".repeat(64);
    let mismatch = audit_image(path, &bytes, false, Some(&expected), read).unwrap();
    assert_eq!(mismatch.state, AuditState::HashMismatch);
    assert_eq!(mismatch.hash_matches, Some(false));
}

#[test]
fn archive_paths_reject_traversal_and_backslashes() {
    assert!(safe_archive_path("images/a.png"));
    assert!(!safe_archive_path("../a.png"));
    assert!(!safe_archive_path("/a.png"));
    assert!(!safe_archive_path("images\\a.png"));
}

#[test]
fn checksum_parser_rejects_malformed_lines() {
    let mut issues = Vec::new();
    let parsed = parse_checksums("nope\n", &mut issues);
    assert!(parsed.is_empty());
    assert_eq!(issues.len(), 1);
}

#[test]
fn package_destination_requires_zip_extension_before_loading_identity() {
    let error = check_bundle_output("/tmp/somewhere/not-an-archive.png").unwrap_err();
    assert_eq!(error.exit_code(), 1);
    assert!(error.to_string().contains(".zip extension"));
}

#[test]
fn default_profile_has_safe_identity_and_no_automatic_publish_claim() {
    let p = Profile::default();
    assert_eq!(p.identity.signer_name, "banksy-c2pa local signer");
    assert_eq!(p.identity.organization, None);
    assert!(!p.manifest.publisher_action);
    assert!(p.security.require_user_presence);
    assert_eq!(
        p.credential.keychain_backend,
        KeychainBackend::LoginKeychainLocalAuthentication
    );
}

#[test]
fn detects_png_cabx_and_validates_crc() {
    let report = inspect_png(&minimal_png(true)).unwrap();
    assert!(report.valid_generated_embedding());
    assert_eq!(report.store_bytes, 5);
    assert_eq!(report.crc_valid, Some(true));
}

#[test]
fn missing_cabx_is_structurally_valid_but_not_embedded() {
    let report = inspect_png(&minimal_png(false)).unwrap();
    assert!(report.structure_valid);
    assert!(!report.embedded);
}

#[test]
fn detects_bad_crc_and_trailing_bytes() {
    let mut png = minimal_png(true);
    png[20] ^= 1;
    png.extend(b"trailing");
    let report = inspect_png(&png).unwrap();
    assert!(!report.structure_valid);
    assert!(!report.valid_generated_embedding());
    assert_eq!(report.trailing_bytes, 8);
}

#[test]
fn cabx_after_idat_is_not_accepted_for_generated_output() {
    let mut out = PNG_SIGNATURE.to_vec();
    out.extend(chunk(b"IHDR", &[0, 0, 0, 1, 0, 0, 0, 1, 8, 6, 0, 0, 0]));
    out.extend(chunk(b"IDAT", b"data"));
    out.extend(chunk(b"caBX", b"jumbf"));
    out.extend(chunk(b"IEND", b""));
    let report = inspect_png(&out).unwrap();
    assert!(report.structure_valid);
    assert_eq!(report.before_media_data, Some(false));
    assert!(!report.valid_generated_embedding());
}

#[test]
fn rejects_a_non_image_with_verification_exit_code() {
    let error = inspect_container("not-image.png", b"not a PNG").unwrap_err();
    assert_eq!(error.exit_code(), 3);
}

#[test]
fn semantic_pixel_hash_ignores_container_encoding() {
    let image = image::ImageBuffer::from_pixel(3, 2, image::Rgba([12_u8, 34, 56, 255]));
    let a = inspect_image("a.png", &encoded_png(&image), true).unwrap();
    let b = inspect_image("b.png", &encoded_png(&image), true).unwrap();
    assert!(pixels_equal(&a, &b));
}

#[test]
fn semantic_pixel_hash_detects_one_pixel_change() {
    let image = image::ImageBuffer::from_pixel(2, 2, image::Rgba([12_u8, 34, 56, 255]));
    let a = inspect_image("a.png", &encoded_png(&image), true).unwrap();
    let mut changed = image;
    changed.put_pixel(1, 1, image::Rgba([13_u8, 34, 56, 255]));
    let b = inspect_image("b.png", &encoded_png(&changed), true).unwrap();
    assert!(!pixels_equal(&a, &b));
}

#[test]
fn menu_indices_have_stable_meaning() {
    assert_eq!(MainAction::from_index(0), Some(MainAction::Status));
    assert_eq!(MainAction::from_index(1), Some(MainAction::Sign));
    assert_eq!(MainAction::from_index(MAIN_ACTIONS - 1), Some(MainAction::Quit));
    assert_eq!(MainAction::from_index(MAIN_ACTIONS), None);
}

#[test]
fn status_labels_distinguish_foreign_and_local_signatures() {
    assert_eq!(
        state_label(AssetState::SignedExternal),
        "Foreign signed — needs local signature"
    );
    assert_eq!(
        state_label(AssetState::SignedLocal),
        "Local signed — already signed locally"
    );
}

#[test]
fn simple_signing_is_recursive_published_and_never_forced() {
    let cli = pending_sign_command("/tmp/images");
    let Command::Sign {
        paths,
        recursive,
        published,
        description,
        force,
    } = cli.command
    else {
        panic!("expected sign command");
    };
    assert_eq!(paths, vec!["/tmp/images".to_string()]);
    assert!(recursive);
    assert!(published);
    assert_eq!(description, None);
    assert!(!force);
}

#[test]
fn relative_and_home_paths_resolve_from_the_working_folder() {
    let working = "/tmp/images";
    assert_eq!(
        resolve_path("nested/a.png", working, Some("/home/someone")),
        "/tmp/images/nested/a.png"
    );
    assert!(is_absolute(&resolve_path("~/a.png", working, Some("/home/someone"))));
}

#[test]
fn menu_path_removes_the_working_directory_prefix() {
    assert_eq!(
        menu_path("/tmp/images/nested/a.png", "/tmp/images"),
        "nested/a.png"
    );
}

#[test]
fn initialization_requires_an_explicit_new_identity() {
    let error = init_requires_identity(false, &None).unwrap_err();
    assert_eq!(error.exit_code(), 2);
}

#[test]
fn managed_name_without_a_credential_is_invalid_and_never_resigned() {
    let path = "/tmp/images/image.banksy-signed.png";
    let bytes = encoded_png(&image::ImageBuffer::from_pixel(1, 1, image::Rgba([1_u8, 2, 3, 255])));
    let info = inspect_image(path, &bytes, true).unwrap();
    let c2pa = load_c2pa_report(path, Err(C2paReadError::NotFound)).unwrap();
    let classified = classify_image(path, Ok(inspect_asset(info, c2pa)), false);

    let report = scan_paths(
        vec![path.to_string()],
        false,
        false,
        vec![(path.to_string(), classified)],
        vec![None],
    );
    assert_eq!(report.summary.invalid, 1);
    assert_eq!(report.summary.needs_signing, 0);
    assert!(!report.items[0].needs_signing);
    assert!(report.items[0].detail.contains("stripped or replaced"));
}

#[test]
fn noninteractive_setup_requires_a_name() {
    let error = identity_from_options(IdentityOptions::default()).unwrap_err();
    assert_eq!(error.exit_code(), 2);
    assert!(error.to_string().contains("--name is required"));
}

#[test]
fn optional_identity_fields_are_really_optional() {
    let identity = identity_from_options(IdentityOptions {
        name: Some("Example signer".into()),
        ..IdentityOptions::default()
    })
    .unwrap();
    assert_eq!(identity.signer_name, "Example signer");
    assert_eq!(identity.organization, None);
    assert_eq!(identity.domain, None);
    assert_eq!(identity.uri, None);
    assert_eq!(identity.vendor, None);
}

#[test]
fn explicit_empty_optional_value_is_a_usage_error() {
    let error = identity_from_options(IdentityOptions {
        name: Some("Example signer".into()),
        organization: Some("  ".into()),
        ..IdentityOptions::default()
    })
    .unwrap_err();
    assert_eq!(error.exit_code(), 2);
}

#[test]
fn default_name_preserves_extension() {
    assert_eq!(default_output_path("photo.jpeg"), "photo.banksy-signed.jpeg");
}

fn clear_destination() -> PreflightFacts {
    PreflightFacts {
        input_is_file: true,
        parent_is_file: true,
        output_is_input: false,
        output_is_parent: false,
        output_exists: false,
    }
}

fn unsigned_inspection(path: &str, bytes: &[u8]) -> banksy_c2pa::provenance::InspectionReport {
    let info = inspect_image(path, bytes, true).unwrap();
    let c2pa = load_c2pa_report(path, Err(C2paReadError::NotFound)).unwrap();
    inspect_asset(info, c2pa)
}

#[test]
fn preflight_rejects_bad_destination_before_key_access() {
    let bytes = encoded_png(&image::ImageBuffer::from_pixel(4, 3, image::Rgba([10_u8, 20, 30, 255])));
    let input = "/tmp/dir/input.png";

    let wrong_extension = "/tmp/dir/output.jpg";
    let error = preflight_attest(
        input,
        wrong_extension,
        false,
        &clear_destination(),
        Ok(unsigned_inspection(input, &bytes)),
        Ok("image/png"),
        true,
    )
    .unwrap_err();
    assert_eq!(error.exit_code(), 1);
    assert!(error.to_string().contains("extension must match"));

    let missing_directory = "/tmp/dir/missing/output.png";
    let error = preflight_attest(
        input,
        missing_directory,
        false,
        &clear_destination(),
        Ok(unsigned_inspection(input, &bytes)),
        Ok("image/png"),
        false,
    )
    .unwrap_err();
    assert_eq!(error.exit_code(), 1);
    assert!(error.to_string().contains("output directory does not exist"));
}

#[test]
fn refuses_identical_derivative_before_key_access() {
    let bytes = encoded_png(&image::ImageBuffer::from_pixel(4, 3, image::Rgba([10_u8, 20, 30, 255])));
    let parent = inspect_image("/tmp/dir/parent.png", &bytes, true).unwrap();
    let input = inspect_image("/tmp/dir/edited.png", &bytes, true).unwrap();
    assert!(pixels_equal(&parent, &input));
    let error = preflight_derivative(
        "/tmp/dir/edited.png",
        "/tmp/dir/parent.png",
        "/tmp/dir/signed.png",
        false,
        &clear_destination(),
        Ok(unsigned_inspection("/tmp/dir/parent.png", &bytes)),
        Ok(unsigned_inspection("/tmp/dir/edited.png", &bytes)),
        Ok(true),
    )
    .unwrap_err();
    assert_eq!(error.exit_code(), 3);
    assert_eq!(
        error.to_string(),
        "parent and derivative pixels are identical. Use `attest` instead"
    );
}

#[test]
fn explicit_unsupported_file_is_reported() {
    let path = "/tmp/dir/notes.txt";
    let RootEntry::Candidate(error) = root_entry(path, PathKind::File) else {
        panic!("a named file is a candidate");
    };
    assert!(error.is_none());
    let inspection = inspect_image(path, b"not an image", true).map(|info| {
        let c2pa = load_c2pa_report(path, Err(C2paReadError::NotFound)).unwrap();
        inspect_asset(info, c2pa)
    });
    let classified = classify_image(path, inspection, false);
    let report = scan_paths(
        vec![path.to_string()],
        false,
        false,
        vec![(path.to_string(), classified)],
        vec![None],
    );
    assert_eq!(report.summary.unreadable, 1);
}
