//! Tests of the on-disk formats: the metadata document against the
//! ecosystem's own serializers, the archive layout against the tar crate,
//! and the whole bundle round trip through real compression.

use chrono::TimeZone;
use rack_core::bundler::{
    archived_log_file_matches, build_bundle_tar, bundle_filename, create_bundle_archive,
    extract_bundle_metadata, bundle_matches_filter, metadata_same, parse_du_stdout,
    parse_zfs_quota_stdout, BundleFile,
};
use rack_core::hexid::{parse_uuid, render_uuid};
use rack_core::meta::{ZoneBundleCause, ZoneBundleId, ZoneBundleMetadata};
use rack_core::timespan::UtcTime;
use rack_core::toml_meta::{parse_metadata, render_metadata};

fn sample_metadata() -> ZoneBundleMetadata {
    ZoneBundleMetadata {
        id: ZoneBundleId {
            zone_name: b"oxz_whatever".to_vec(),
            bundle_id: 0x0011_2233_4455_6677_8899_aabb_ccdd_eeffu128,
        },
        time_created: UtcTime {
            year: 2023,
            month: 7,
            day: 1,
            hour: 12,
            minute: 34,
            second: 56,
            nanos: 0,
        },
        version: 0,
        cause: ZoneBundleCause::ExplicitRequest,
    }
}

#[test]
fn metadata_document_round_trip() {
    let md = sample_metadata();
    let doc = render_metadata(&md).unwrap();
    let back = parse_metadata(&doc).expect("a rendered document must parse");
    assert!(metadata_same(&md, &back));
}

#[test]
fn metadata_document_round_trip_with_fraction_and_escapes() {
    for nanos in [0u32, 123_000_000, 123_456_000, 123_456_789] {
        let mut md = sample_metadata();
        md.time_created.nanos = nanos;
        md.id.zone_name = b"oxz_a\"b\\c".to_vec();
        md.cause = ZoneBundleCause::UnexpectedZone;
        let doc = render_metadata(&md).unwrap();
        let back = parse_metadata(&doc).expect("a rendered document must parse");
        assert!(metadata_same(&md, &back));
    }
}

#[test]
fn metadata_rejects_control_bytes_in_name() {
    let mut md = sample_metadata();
    md.id.zone_name = b"bad\x01name".to_vec();
    assert!(render_metadata(&md).is_err());
}

#[test]
fn metadata_document_is_valid_toml() {
    let md = sample_metadata();
    let doc = String::from_utf8(render_metadata(&md).unwrap()).unwrap();
    let table: toml::Table = toml::from_str(&doc).expect("the document must be valid");
    assert_eq!(table["version"].as_integer(), Some(0));
    assert_eq!(table["cause"].as_str(), Some("explicit_request"));
    let expected_time = chrono::Utc
        .with_ymd_and_hms(2023, 7, 1, 12, 34, 56)
        .single()
        .unwrap()
        .to_rfc3339_opts(chrono::SecondsFormat::AutoSi, true);
    assert_eq!(table["time_created"].as_str(), Some(expected_time.as_str()));
    let id = table["id"].as_table().unwrap();
    assert_eq!(id["zone_name"].as_str(), Some("oxz_whatever"));
    let expected_uuid =
        uuid::Uuid::from_u128(md.id.bundle_id).hyphenated().to_string();
    assert_eq!(id["bundle_id"].as_str(), Some(expected_uuid.as_str()));
}

#[test]
fn metadata_time_rendering_matches_wall_clock_library() {
    for (nanos, _) in
        [(0u32, ""), (123_000_000, ".123"), (123_456_000, ".123456"), (123_456_789, ".123456789")]
    {
        let mut md = sample_metadata();
        md.time_created.nanos = nanos;
        let doc = String::from_utf8(render_metadata(&md).unwrap()).unwrap();
        let expected = chrono::Utc
            .with_ymd_and_hms(2023, 7, 1, 12, 34, 56)
            .single()
            .unwrap()
            .checked_add_signed(chrono::Duration::nanoseconds(nanos as i64))
            .unwrap()
            .to_rfc3339_opts(chrono::SecondsFormat::AutoSi, true);
        assert!(
            doc.contains(&format!("time_created = \"{expected}\"")),
            "document {doc:?} must carry {expected:?}"
        );
    }
}

#[test]
fn uuid_rendering_matches_uuid_library() {
    for v in [0u128, 1, 0xdead_beef, u128::MAX, 0x0011_2233_4455_6677_8899_aabb_ccdd_eeff] {
        let ours = render_uuid(v);
        let theirs = uuid::Uuid::from_u128(v).hyphenated().to_string();
        assert_eq!(ours, theirs.as_bytes());
        assert_eq!(parse_uuid(&ours), Some(v));
    }
    assert_eq!(parse_uuid(b"not-a-uuid"), None);
    assert_eq!(parse_uuid(b"00112233-4455-6677-8899-aabbccddeefg"), None);
}

#[test]
fn archive_layout_matches_tar_library() {
    // Lay one entry out as the original bundler does, with the tar
    // library, and compare byte for byte with the verified writer.
    let md = sample_metadata();
    let doc = render_metadata(&md).unwrap();
    let mtime: u64 = 1_700_000_000;

    let mut ours = Vec::new();
    rack_core::archive::append_tar_entry(&mut ours, b"metadata.toml", &doc, mtime).unwrap();
    rack_core::archive::append_tar_end(&mut ours);

    let mut theirs_builder = tar::Builder::new(Vec::new());
    let mut hdr = tar::Header::new_ustar();
    hdr.set_size(doc.len() as u64);
    hdr.set_mode(0o444);
    hdr.set_mtime(mtime);
    hdr.set_entry_type(tar::EntryType::Regular);
    theirs_builder
        .append_data(&mut hdr, "metadata.toml", std::io::Cursor::new(&doc))
        .unwrap();
    let theirs = theirs_builder.into_inner().unwrap();
    assert_eq!(ours, theirs);
}

#[test]
fn archive_entry_is_found_by_tar_library() {
    let md = sample_metadata();
    let extras = vec![BundleFile { name: b"ptree".to_vec(), contents: b"output\n".to_vec() }];
    let tarball = build_bundle_tar(&md, &extras, 1_700_000_000).unwrap();
    let mut archive = tar::Archive::new(std::io::Cursor::new(&tarball));
    let names: Vec<String> = archive
        .entries()
        .unwrap()
        .map(|e| e.unwrap().path().unwrap().display().to_string())
        .collect();
    assert_eq!(names, vec!["metadata.toml".to_string(), "ptree".to_string()]);
}

#[test]
fn bundle_round_trip_through_compression() {
    let md = sample_metadata();
    let extras = vec![
        BundleFile { name: b"ptree".to_vec(), contents: b"Command: ptree\n...\n".to_vec() },
        BundleFile { name: b"uptime".to_vec(), contents: b"Command: uptime\n...\n".to_vec() },
    ];
    let (gz, fname) = create_bundle_archive(&md, &extras, 1_700_000_000).unwrap();
    assert_eq!(fname, bundle_filename(md.id.bundle_id));
    let back = extract_bundle_metadata(&gz).expect("a stored bundle must list");
    assert!(metadata_same(&md, &back));
}

#[test]
fn bundle_written_by_ecosystem_tools_is_listed() {
    // Build the archive the way the original bundler does, with the tar
    // and compression libraries, and recover the metadata with the
    // verified reader.
    let md = sample_metadata();
    let doc = render_metadata(&md).unwrap();
    let gz_writer = flate2::GzBuilder::new()
        .filename("x.tar.gz")
        .write(Vec::new(), flate2::Compression::best());
    let mut builder = tar::Builder::new(gz_writer);
    let mut hdr = tar::Header::new_ustar();
    hdr.set_size(doc.len() as u64);
    hdr.set_mode(0o444);
    hdr.set_mtime(1_700_000_000);
    hdr.set_entry_type(tar::EntryType::Regular);
    builder.append_data(&mut hdr, "metadata.toml", std::io::Cursor::new(&doc)).unwrap();
    let gz = builder.into_inner().unwrap().finish().unwrap();
    let back = extract_bundle_metadata(&gz).expect("an ecosystem-written bundle must list");
    assert!(metadata_same(&md, &back));
}

#[test]
fn test_find_archived_log_files() {
    let should_match = [
        "oxide-foo:default.log",
        "oxide-foo:default.log.1000",
        "system-illumos-foo:default.log",
        "system-illumos-foo:default.log.100",
    ];
    let should_not_match = [
        "oxide-foo:default",
        "not-oxide-foo:default.log.1000",
        "system-illumos-foo",
        "not-system-illumos-foo:default.log.100",
    ];
    for name in should_match {
        assert!(
            archived_log_file_matches(name.as_bytes(), b"foo"),
            "{name} must be collected"
        );
    }
    for name in should_not_match {
        assert!(
            !archived_log_file_matches(name.as_bytes(), b"foo"),
            "{name} must not be collected"
        );
    }
    assert!(!archived_log_file_matches(b"oxide-foo:default.log", b"bar"));
}

#[test]
fn listing_filter_is_a_substring_match() {
    let md = sample_metadata();
    assert!(bundle_matches_filter(&md, None));
    assert!(bundle_matches_filter(&md, Some(&b"oxz_".to_vec())));
    assert!(bundle_matches_filter(&md, Some(&b"whatever".to_vec())));
    assert!(!bundle_matches_filter(&md, Some(&b"absent".to_vec())));
}

#[test]
fn du_output_parses() {
    assert_eq!(parse_du_stdout(b"461121\t/some/path\n", 1).unwrap(), 461121);
    assert_eq!(parse_du_stdout(b"  900 /x\n", 512).unwrap(), 900 * 512);
    assert_eq!(parse_du_stdout(b"18446744073709551615 x", 2).unwrap(), u64::MAX);
    assert!(parse_du_stdout(b"", 1).is_err());
    assert!(parse_du_stdout(b"none\t/x\n", 1).is_err());
}

#[test]
fn zfs_quota_output_parses() {
    assert_eq!(parse_zfs_quota_stdout(b"32768\t1000000\n").unwrap(), 32768);
    assert_eq!(parse_zfs_quota_stdout(b"-\t1000000\n").unwrap(), 1_000_000);
    assert_eq!(parse_zfs_quota_stdout(b"0\t1000000\n").unwrap(), 1_000_000);
    assert_eq!(parse_zfs_quota_stdout(b"junk\t1000000\n").unwrap(), 1_000_000);
    assert!(parse_zfs_quota_stdout(b"100\n").is_err());
    assert!(parse_zfs_quota_stdout(b"").is_err());
}

#[test]
fn corrupt_documents_are_rejected() {
    let md = sample_metadata();
    let doc = render_metadata(&md).unwrap();
    // Any altered byte must fail the re-render comparison or the parse.
    for idx in [0usize, 20, 40, doc.len() - 1] {
        let mut bad = doc.clone();
        bad[idx] ^= 1;
        if let Some(back) = parse_metadata(&bad) {
            assert_eq!(render_metadata(&back).unwrap(), bad);
        }
    }
    assert_eq!(parse_metadata(b"not a document"), None);
}

#[test]
fn garbage_archives_are_rejected() {
    assert_eq!(extract_bundle_metadata(b""), None);
    assert_eq!(extract_bundle_metadata(b"\x1f\x8b garbage"), None);
    let empty_gz = flate2::GzBuilder::new().write(Vec::new(), flate2::Compression::best());
    let bytes = empty_gz.finish().unwrap();
    assert_eq!(extract_bundle_metadata(&bytes), None);
}
