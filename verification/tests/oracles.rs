use std::io::Write;

use bintray::checksum::{hex_bytes, ContentChecksum};
use bintray::debian::{body_has_line, debian_check, debian_target_line};
use bintray::errors::BintrayError;
use bintray::poll::CheckOutcome;
use bintray::rpm::{find_primary_href, parse_primary, parse_repomd, rpm_catalog_check,
    rpm_catalog_check_decoded, rpm_manifest_check, rpm_package_filename, rpm_target_digest,
    PackageRecord, RpmManifestStep};

fn gzip(data: &[u8]) -> Vec<u8> {
    let mut encoder = libflate::gzip::Encoder::new(Vec::new()).unwrap();
    encoder.write_all(data).unwrap();
    encoder.finish().into_result().unwrap()
}

const REPOMD_WITH_PRIMARY: &[u8] = b"<?xml version=\"1.0\"?>\n\
    <repomd><revision>17</revision>\n\
    <data type=\"filelists\"><location href=\"repodata/aa-filelists.xml.gz\"/></data>\n\
    <data type=\"primary\"><location href=\"repodata/bb-primary.xml.gz\"/></data>\n\
    </repomd>\n";

const REPOMD_WITHOUT_PRIMARY: &[u8] = b"<?xml version=\"1.0\"?>\n\
    <repomd><revision>17</revision>\n\
    <data type=\"filelists\"><location href=\"repodata/aa-filelists.xml.gz\"/></data>\n\
    </repomd>\n";

const PRIMARY_XML: &[u8] = b"<?xml version=\"1.0\"?>\n\
    <metadata packages=\"2\">\n\
    <package type=\"rpm\"><name>other</name><arch>noarch</arch>\
    <version epoch=\"0\" ver=\"2.1\" rel=\"4\"/>\
    <checksum type=\"sha\" pkgid=\"YES\">0011223344556677889900112233445566778899</checksum>\
    </package>\n\
    <package type=\"rpm\"><name>foo</name><arch>amd64</arch>\
    <version epoch=\"0\" ver=\"1.0\" rel=\"1\"/>\
    <checksum type=\"sha\" pkgid=\"YES\">A9993E364706816ABA3E25717850C26C9CD0D89D</checksum>\
    </package>\n\
    </metadata>\n";

fn sha1_abc() -> Vec<u8> {
    // the SHA-1 digest whose lowercase hex is a9993e364706816aba3e25717850c26c9cd0d89d
    vec![
        0xa9, 0x99, 0x3e, 0x36, 0x47, 0x06, 0x81, 0x6a, 0xba, 0x3e, 0x25, 0x71, 0x78, 0x50, 0xc2,
        0x6c, 0x9c, 0xd0, 0xd8, 0x9d,
    ]
}

#[test]
fn debian_oracle_requires_a_checksum() {
    // no SHA-256 on record: the wait fails before any probe is issued
    let missing = ContentChecksum { sha1: Some(vec![0x01]), sha256: None };
    assert!(matches!(
        debian_target_line(&missing),
        Err(BintrayError::ContentChecksumRequired)
    ));
}

#[test]
fn debian_target_line_is_the_index_line() {
    let c = ContentChecksum { sha1: None, sha256: Some(vec![0xde, 0xad, 0xbe, 0xef]) };
    let line = debian_target_line(&c).unwrap();
    assert_eq!(line, b"SHA256: deadbeef".to_vec());
}

#[test]
fn debian_oracle_settles_on_the_probe_with_the_line() {
    let digest = vec![0xde, 0xad, 0xbe, 0xef];
    let c = ContentChecksum { sha1: None, sha256: Some(digest) };
    let line = debian_target_line(&c).unwrap();

    // a body that carries the exact line settles the poll
    let body = b"Package: foo\nSHA1: ffff\nSHA256: deadbeef\nSize: 12\n";
    assert!(matches!(debian_check(&line, 200, body), CheckOutcome::Settled(Ok(()))));

    // a prior probe whose body lacks the exact line only retries
    let stale = b"Package: foo\nSHA256: 00000000\n";
    assert!(matches!(debian_check(&line, 200, stale), CheckOutcome::Retry));

    // a prefix or superstring of the line does not count
    let almost = b"XSHA256: deadbeef\nSHA256: deadbeefaa\n";
    assert!(matches!(debian_check(&line, 200, almost), CheckOutcome::Retry));
}

#[test]
fn debian_oracle_statuses() {
    let line = b"SHA256: deadbeef".to_vec();
    // the index not being served yet means "not regenerated yet"
    assert!(matches!(debian_check(&line, 404, b""), CheckOutcome::Retry));
    assert!(matches!(debian_check(&line, 401, b""), CheckOutcome::Retry));
    match debian_check(&line, 503, b"oops") {
        CheckOutcome::Settled(Err(BintrayError::UnexpectedStatus { status, body })) => {
            assert_eq!(status, 503);
            assert_eq!(body, b"oops".to_vec());
        }
        other => panic!("expected a fatal status, got {:?}", other),
    }
}

#[test]
fn line_scan_handles_line_endings() {
    assert!(body_has_line(b"a\r\nSHA256: ab\r\nz", b"SHA256: ab"));
    assert!(body_has_line(b"SHA256: ab", b"SHA256: ab"));
    assert!(body_has_line(b"x\nSHA256: ab\n", b"SHA256: ab"));
    assert!(!body_has_line(b"SHA256: abc\n", b"SHA256: ab"));
    assert!(!body_has_line(b"", b"SHA256: ab"));
}

#[test]
fn manifest_parsing_lists_entries_in_order() {
    let entries = parse_repomd(REPOMD_WITH_PRIMARY);
    assert_eq!(entries.len(), 2);
    assert_eq!(entries[0].entry_type, b"filelists".to_vec());
    assert_eq!(entries[0].href, b"repodata/aa-filelists.xml.gz".to_vec());
    assert_eq!(entries[1].entry_type, b"primary".to_vec());
    let href = find_primary_href(&entries).unwrap();
    assert_eq!(href, b"repodata/bb-primary.xml.gz".to_vec());
}

#[test]
fn manifest_without_primary_retries() {
    // a manifest with no primary entry is a reindexing race, not fatal
    match rpm_manifest_check(200, REPOMD_WITHOUT_PRIMARY) {
        RpmManifestStep::Retry => {}
        other => panic!("expected a retry, got {:?}", other),
    }
    // an unreadable manifest is the same transient condition
    assert!(matches!(rpm_manifest_check(200, b"not xml at all"), RpmManifestStep::Retry));
}

#[test]
fn manifest_with_primary_fetches_it() {
    match rpm_manifest_check(200, REPOMD_WITH_PRIMARY) {
        RpmManifestStep::FetchPrimary(href) => {
            assert_eq!(href, b"repodata/bb-primary.xml.gz".to_vec());
        }
        other => panic!("expected the primary fetch, got {:?}", other),
    }
}

#[test]
fn manifest_statuses() {
    assert!(matches!(rpm_manifest_check(404, b""), RpmManifestStep::Retry));
    assert!(matches!(rpm_manifest_check(401, b""), RpmManifestStep::Retry));
    match rpm_manifest_check(500, b"boom") {
        RpmManifestStep::Fatal(BintrayError::UnexpectedStatus { status, body }) => {
            assert_eq!(status, 500);
            assert_eq!(body, b"boom".to_vec());
        }
        other => panic!("expected a fatal status, got {:?}", other),
    }
}

#[test]
fn filename_reconstruction() {
    let record = PackageRecord {
        name: b"foo".to_vec(),
        arch: b"amd64".to_vec(),
        ver: b"1.0".to_vec(),
        rel: b"1".to_vec(),
        epoch: b"0".to_vec(),
        checksum_type: b"sha".to_vec(),
        checksum_value: Vec::new(),
    };
    assert_eq!(rpm_package_filename(&record), b"foo-1.0-1.amd64.rpm".to_vec());
    let with_epoch = PackageRecord { epoch: b"1".to_vec(), ..record };
    assert_eq!(rpm_package_filename(&with_epoch), b"1:foo-1.0-1.amd64.rpm".to_vec());
}

#[test]
fn rpm_oracle_requires_a_checksum() {
    let missing = ContentChecksum { sha1: None, sha256: Some(vec![0x02]) };
    assert!(matches!(
        rpm_target_digest(&missing),
        Err(BintrayError::ContentChecksumRequired)
    ));
    let present = ContentChecksum { sha1: Some(vec![0x0a, 0x0b]), sha256: None };
    assert_eq!(rpm_target_digest(&present).unwrap(), vec![0x0a, 0x0b]);
}

#[test]
fn catalog_parsing_reads_records() {
    let records = parse_primary(PRIMARY_XML);
    assert_eq!(records.len(), 2);
    assert_eq!(records[1].name, b"foo".to_vec());
    assert_eq!(records[1].arch, b"amd64".to_vec());
    assert_eq!(records[1].ver, b"1.0".to_vec());
    assert_eq!(records[1].rel, b"1".to_vec());
    assert_eq!(records[1].epoch, b"0".to_vec());
    assert_eq!(records[1].checksum_type, b"sha".to_vec());
}

#[test]
fn catalog_settles_on_matching_checksum() {
    // the advertised hex is uppercase; the comparison is case-insensitive
    let r = rpm_catalog_check_decoded(PRIMARY_XML, b"foo-1.0-1.amd64.rpm", &sha1_abc());
    assert!(matches!(r, CheckOutcome::Settled(Ok(()))));
}

#[test]
fn catalog_retries_on_missing_or_stale_entries() {
    // not listed yet
    let r = rpm_catalog_check_decoded(PRIMARY_XML, b"bar-3.0-1.amd64.rpm", &sha1_abc());
    assert!(matches!(r, CheckOutcome::Retry));
    // listed with a stale checksum
    let other = vec![0x00; 20];
    let r = rpm_catalog_check_decoded(PRIMARY_XML, b"foo-1.0-1.amd64.rpm", &other);
    assert!(matches!(r, CheckOutcome::Retry));
}

#[test]
fn catalog_rejects_unsupported_checksum_algorithms() {
    let doc = b"<metadata><package type=\"rpm\"><name>foo</name><arch>amd64</arch>\
        <version epoch=\"0\" ver=\"1.0\" rel=\"1\"/>\
        <checksum type=\"sha256\" pkgid=\"YES\">aa</checksum></package></metadata>";
    let r = rpm_catalog_check_decoded(doc, b"foo-1.0-1.amd64.rpm", &sha1_abc());
    assert!(matches!(
        r,
        CheckOutcome::Settled(Err(BintrayError::RpmRepoChecksumUnsupported))
    ));
}

#[test]
fn catalog_check_decompresses_the_fetched_document() {
    let compressed = gzip(PRIMARY_XML);
    let r = rpm_catalog_check(&compressed, b"foo-1.0-1.amd64.rpm", &sha1_abc());
    assert!(matches!(r, CheckOutcome::Settled(Ok(()))));
    // a stream that does not decode is a transient race: try again
    let r = rpm_catalog_check(b"definitely not gzip", b"foo-1.0-1.amd64.rpm", &sha1_abc());
    assert!(matches!(r, CheckOutcome::Retry));
}

#[test]
fn digest_hex_round_trip_through_the_index_line() {
    // the catalog carries hex text; hex_bytes is what the oracle compares it to
    assert_eq!(
        hex_bytes(&sha1_abc()),
        b"a9993e364706816aba3e25717850c26c9cd0d89d".to_vec()
    );
}
