use bintray::checksum::{checksum_of_bytes, checksum_to_string, hex_bytes, hex_decode,
    ContentChecksum};
use bintray::content::{absorb_availability_outcome, availability_check, bool_to_int,
    exists_check, Content};
use bintray::dispatch::{consume_budget, route_indexation, IndexationRoute};
use bintray::errors::BintrayError;
use bintray::package::PackageMaturity;
use bintray::path::{clean_path, take_components};
use bintray::poll::{is_not_yet_status, is_success_status, poll_step, CheckOutcome, PollEvent,
    PollState};
use bintray::repository::RepositoryType;

#[test]
fn poll_settles_on_first_terminal_event() {
    // a retrying probe keeps the poll running
    let st: PollState<u32> = PollState::Running;
    let st = poll_step(st, PollEvent::Probe(CheckOutcome::Retry));
    assert!(matches!(st, PollState::Running));
    // the first settled probe decides the poll
    let st = poll_step(st, PollEvent::Probe(CheckOutcome::Settled(Ok(7))));
    assert!(matches!(st, PollState::Done(Ok(7))));
    // whatever arrives after settlement is a no-op: never a second outcome
    let st = poll_step(st, PollEvent::Deadline);
    assert!(matches!(st, PollState::Done(Ok(7))));
    let st = poll_step(st, PollEvent::Probe(CheckOutcome::Settled(Ok(9))));
    assert!(matches!(st, PollState::Done(Ok(7))));
}

#[test]
fn poll_times_out_without_settlement() {
    let st: PollState<u32> = PollState::Running;
    let st = poll_step(st, PollEvent::Probe(CheckOutcome::Retry));
    let st = poll_step(st, PollEvent::Probe(CheckOutcome::Retry));
    let st = poll_step(st, PollEvent::Deadline);
    match st {
        PollState::Done(Err(BintrayError::ContentNotAvailable { transport_error })) => {
            assert!(transport_error.is_none());
        }
        other => panic!("expected a timeout outcome, got {:?}", other),
    }
}

#[test]
fn poll_transport_failure_is_fatal() {
    let st: PollState<u32> = PollState::Running;
    let st = poll_step(st, PollEvent::TransportFailure { message: b"refused".to_vec() });
    match st {
        PollState::Done(Err(BintrayError::ContentNotAvailable { transport_error })) => {
            assert_eq!(transport_error, Some(b"refused".to_vec()));
        }
        other => panic!("expected a transport failure outcome, got {:?}", other),
    }
}

#[test]
fn status_classification() {
    assert!(is_success_status(200));
    assert!(is_success_status(299));
    assert!(!is_success_status(300));
    assert!(!is_success_status(199));
    assert!(is_not_yet_status(401));
    assert!(is_not_yet_status(404));
    assert!(!is_not_yet_status(403));
}

#[test]
fn digests_of_known_input() {
    // SHA-1("abc") and SHA-256("abc") are fixed by the algorithms
    let c = checksum_of_bytes(b"abc");
    let sha1 = c.sha1.clone().unwrap();
    let sha256 = c.sha256.clone().unwrap();
    assert_eq!(hex_bytes(&sha1), b"a9993e364706816aba3e25717850c26c9cd0d89d".to_vec());
    assert_eq!(
        hex_bytes(&sha256),
        b"ba7816bf8f01cfea414140de5dae2223b00361a396177a9cb410ff61f20015ad".to_vec()
    );
}

#[test]
fn hex_presentation() {
    assert_eq!(checksum_to_string(&vec![0xab, 0x01, 0x5f]), "ab015f");
    assert_eq!(checksum_to_string(&Vec::<u8>::new()), "");
    assert_eq!(hex_bytes(&[0xde, 0xad]), b"dead".to_vec());
}

#[test]
fn hex_parsing() {
    assert_eq!(hex_decode(b"ab015f"), Some(vec![0xab, 0x01, 0x5f]));
    assert_eq!(hex_decode(b"AB015F"), Some(vec![0xab, 0x01, 0x5f]));
    // a trailing unpaired digit is ignored, as the header parser did
    assert_eq!(hex_decode(b"ab0"), Some(vec![0xab]));
    // a non-digit within the pairs rejects the value
    assert_eq!(hex_decode(b"zz"), None);
    assert_eq!(hex_decode(b""), Some(Vec::new()));
}

#[test]
fn hex_round_trip() {
    // decoding inverts the lowercase hex presentation
    let digest: Vec<u8> = (0u8..=255).collect();
    assert_eq!(hex_decode(&hex_bytes(&digest)), Some(digest));
}

#[test]
fn paths_are_reduced_to_relative_form() {
    assert_eq!(clean_path(b"/pool/main/x.deb"), b"pool/main/x.deb".to_vec());
    assert_eq!(clean_path(b"../../etc/passwd"), b"etc/passwd".to_vec());
    assert_eq!(clean_path(b"./a//b/./c"), b"a/b/c".to_vec());
    assert_eq!(clean_path(b"a/../b"), b"a/../b".to_vec());
    assert_eq!(clean_path(b""), b"".to_vec());
    assert_eq!(clean_path(b"/"), b"".to_vec());
}

#[test]
fn identity_path_is_normalized_before_any_url() {
    let c = Content::new(
        b"subject",
        b"repo",
        b"pkg",
        b"1.0",
        b"/../pool/./main//x.deb",
        RepositoryType::Generic,
    );
    assert_eq!(c.path, b"pool/main/x.deb".to_vec());
    assert_eq!(c.subject, b"subject".to_vec());
    assert!(c.checksum.sha1.is_none() && c.checksum.sha256.is_none());
}

#[test]
fn metadata_root_components() {
    assert_eq!(take_components(b"a/b/c", 2), b"a/b".to_vec());
    assert_eq!(take_components(b"a/b/c", 0), b"".to_vec());
    assert_eq!(take_components(b"a/b/c", 9), b"a/b/c".to_vec());
}

#[test]
fn availability_settles_on_matching_checksum() {
    let expected = Some(vec![0xde, 0xad]);
    let r = availability_check(&expected, 200, Some(vec![0xde, 0xad]));
    assert!(matches!(r, CheckOutcome::Settled(Ok(Some(_)))));
    // a different checksum means the mirror still serves another version
    let r = availability_check(&expected, 200, Some(vec![0x01, 0x02]));
    assert!(matches!(r, CheckOutcome::Retry));
    // a missing checksum counts as a mismatch while one is expected
    let r = availability_check(&expected, 200, None);
    assert!(matches!(r, CheckOutcome::Retry));
}

#[test]
fn availability_accepts_any_checksum_without_expectation() {
    let r = availability_check(&None, 200, Some(vec![0x0a]));
    assert!(matches!(r, CheckOutcome::Settled(Ok(Some(_)))));
    let r = availability_check(&None, 200, None);
    assert!(matches!(r, CheckOutcome::Settled(Ok(None))));
}

#[test]
fn availability_absorbs_not_yet_statuses() {
    assert!(matches!(availability_check(&None, 404, None), CheckOutcome::Retry));
    assert!(matches!(availability_check(&None, 401, None), CheckOutcome::Retry));
    match availability_check(&None, 500, None) {
        CheckOutcome::Settled(Err(BintrayError::UnexpectedStatus { status, .. })) => {
            assert_eq!(status, 500);
        }
        other => panic!("expected a fatal status, got {:?}", other),
    }
}

#[test]
fn availability_outcome_records_checksum() {
    let mut c = ContentChecksum { sha1: None, sha256: None };
    let r = absorb_availability_outcome(&mut c, Ok(Some(vec![0xaa])));
    assert!(r.is_ok());
    assert_eq!(c.sha256, Some(vec![0xaa]));
    // a settled probe without a checksum is the missing-checksum error
    let mut c = ContentChecksum { sha1: None, sha256: None };
    let r = absorb_availability_outcome(&mut c, Ok(None));
    assert!(matches!(r, Err(BintrayError::ContentChecksumNotReturned)));
    assert!(c.sha256.is_none());
    // a failed poll leaves no derived checksum cached
    let mut c = ContentChecksum { sha1: None, sha256: None };
    let r = absorb_availability_outcome(
        &mut c,
        Err(BintrayError::ContentNotAvailable { transport_error: None }),
    );
    assert!(matches!(r, Err(BintrayError::ContentNotAvailable { .. })));
    assert!(c.sha256.is_none());
}

#[test]
fn exists_compares_or_records() {
    let mut c = ContentChecksum { sha1: None, sha256: Some(vec![0xde]) };
    assert_eq!(exists_check(&mut c, 200, Some(vec![0xde])).unwrap(), true);
    assert_eq!(exists_check(&mut c, 200, Some(vec![0x01])).unwrap(), false);
    assert_eq!(exists_check(&mut c, 404, None).unwrap(), false);
    let mut c = ContentChecksum { sha1: None, sha256: None };
    assert_eq!(exists_check(&mut c, 200, Some(vec![0xbb])).unwrap(), true);
    assert_eq!(c.sha256, Some(vec![0xbb]));
}

#[test]
fn repository_kinds() {
    assert!(RepositoryType::Debian.is_indexed());
    assert!(RepositoryType::Rpm.is_indexed());
    assert!(!RepositoryType::Generic.is_indexed());
    assert!(!RepositoryType::Maven.is_indexed());
    assert_eq!(RepositoryType::Deb.fixup(), RepositoryType::Debian);
    assert_eq!(RepositoryType::Npm.fixup(), RepositoryType::Npm);
    assert_eq!(PackageMaturity::Unset, PackageMaturity::Unset);
    assert_ne!(PackageMaturity::Stable, PackageMaturity::Official);
}

#[test]
fn dispatcher_rejects_unindexed_kinds_synchronously() {
    let c = Content::new(b"s", b"r", b"p", b"1", b"x.bin", RepositoryType::Generic);
    assert!(matches!(route_indexation(&c), Err(BintrayError::OnlyForIndexedPackages)));
    let c = Content::new(b"s", b"r", b"p", b"1", b"x.box", RepositoryType::Vagrant);
    assert!(matches!(route_indexation(&c), Err(BintrayError::OnlyForIndexedPackages)));
}

#[test]
fn dispatcher_iterates_all_debian_combinations() {
    let c = Content::new(b"s", b"r", b"p", b"1", b"x.deb", RepositoryType::Debian)
        .debian_distributions(vec![b"stretch".to_vec(), b"buster".to_vec()])
        .debian_components(vec![b"main".to_vec()])
        .debian_architectures(vec![b"amd64".to_vec(), b"i386".to_vec()]);
    match route_indexation(&c).unwrap() {
        IndexationRoute::Debian(ts) => {
            // the declared lists are kept sorted, so buster comes first
            let expected: Vec<(Vec<u8>, Vec<u8>, Vec<u8>)> = vec![
                (b"buster".to_vec(), b"main".to_vec(), b"amd64".to_vec()),
                (b"buster".to_vec(), b"main".to_vec(), b"i386".to_vec()),
                (b"stretch".to_vec(), b"main".to_vec(), b"amd64".to_vec()),
                (b"stretch".to_vec(), b"main".to_vec(), b"i386".to_vec()),
            ];
            assert_eq!(ts, expected);
        }
        other => panic!("expected the Debian route, got {:?}", other),
    }
}

#[test]
fn dispatcher_routes_rpm() {
    let c = Content::new(b"s", b"r", b"p", b"1", b"x.rpm", RepositoryType::Rpm);
    assert!(matches!(route_indexation(&c), Ok(IndexationRoute::Rpm)));
}

#[test]
fn budget_is_consumed_cumulatively() {
    assert_eq!(consume_budget(60_000, 14_000), 46_000);
    assert_eq!(consume_budget(10_000, 10_000), 0);
    // an overrun clamps at zero instead of wrapping
    assert_eq!(consume_budget(10_000, 25_000), 0);
}

#[test]
fn declared_lists_are_sorted() {
    let c = Content::new(b"s", b"r", b"p", b"1", b"x.deb", RepositoryType::Debian)
        .debian_architectures(vec![b"i386".to_vec(), b"amd64".to_vec(), b"armel".to_vec()]);
    assert_eq!(
        c.debian_architecture,
        vec![b"amd64".to_vec(), b"armel".to_vec(), b"i386".to_vec()]
    );
}

#[test]
fn upload_flags_on_the_wire() {
    assert_eq!(bool_to_int(true), 1);
    assert_eq!(bool_to_int(false), 0);
    let c = Content::new(b"s", b"r", b"p", b"1", b"x", RepositoryType::Generic)
        .publish_flag(true)
        .override_flag(false);
    assert_eq!(c.publish, Some(true));
    assert_eq!(c.override_, Some(false));
    assert_eq!(c.explode, None);
}
