//! One piece of uploaded content and the availability oracle.
//!
//! A `Content` value is the identity of one uploaded file — subject,
//! repository, package, version and a normalized relative path — together
//! with the upload flags, the known checksums, and the repository type
//! that decides which indexation oracle applies. The availability check
//! here is the per-probe decision of the availability oracle: it reads a
//! probe's status and checksum header and decides whether the download
//! mirrors have caught up with the upload.

use vstd::prelude::*;

use crate::bytes::{lex_sorted, seg_views, sort_byte_strings};
use crate::checksum::ContentChecksum;
use crate::errors::BintrayError;
use crate::path::{clean_path, spec_clean_path};
use crate::poll::{spec_not_yet_status, spec_success_status, is_not_yet_status, is_success_status,
    CheckOutcome};
use crate::repository::RepositoryType;

verus! {

/// The identity and polling configuration of one uploaded file.
#[derive(Debug)]
pub struct Content {
    pub subject: Vec<u8>,
    pub repository: Vec<u8>,
    pub package: Vec<u8>,
    pub version: Vec<u8>,
    /// Relative path inside the repository, always normalized.
    pub path: Vec<u8>,
    /// Whether the upload asks the service to publish at once.
    pub publish: Option<bool>,
    /// Whether the upload may overwrite an existing file.
    pub override_: Option<bool>,
    /// Whether the service should explode an uploaded archive.
    pub explode: Option<bool>,
    /// The digests known for this content.
    pub checksum: ContentChecksum,
    /// The repository's type, resolved once and fixed for every poll.
    pub repository_type: RepositoryType,
    /// Debian distributions the upload was attached to.
    pub debian_distribution: Vec<Vec<u8>>,
    /// Debian components the upload was attached to.
    pub debian_component: Vec<Vec<u8>>,
    /// Debian architectures the upload was attached to.
    pub debian_architecture: Vec<Vec<u8>>,
}

impl Content {
    /// A fresh content identity. The path is normalized here, before any
    /// URL is ever built from it; everything else starts unset.
    pub fn new(
        subject: &[u8],
        repository: &[u8],
        package: &[u8],
        version: &[u8],
        path: &[u8],
        repo_type: RepositoryType,
    ) -> (c: Content)
        ensures
            c.subject@ == subject@,
            c.repository@ == repository@,
            c.package@ == package@,
            c.version@ == version@,
            c.path@ == spec_clean_path(path@),
            c.publish is None,
            c.override_ is None,
            c.explode is None,
            c.checksum.sha1 is None,
            c.checksum.sha256 is None,
            c.repository_type == repo_type,
            c.debian_distribution@.len() == 0,
            c.debian_component@.len() == 0,
            c.debian_architecture@.len() == 0,
    {
        Content {
            subject: crate::bytes::copy_bytes(subject),
            repository: crate::bytes::copy_bytes(repository),
            package: crate::bytes::copy_bytes(package),
            version: crate::bytes::copy_bytes(version),
            path: clean_path(path),
            publish: None,
            override_: None,
            explode: None,
            checksum: ContentChecksum { sha1: None, sha256: None },
            repository_type: repo_type,
            debian_distribution: Vec::new(),
            debian_component: Vec::new(),
            debian_architecture: Vec::new(),
        }
    }

    pub fn publish_flag(self, publish: bool) -> (c: Content)
        ensures
            c == (Content { publish: Some(publish), ..self }),
    {
        let mut c = self;
        c.set_publish_flag(publish);
        c
    }

    pub fn set_publish_flag(&mut self, publish: bool)
        ensures
            *final(self) == (Content { publish: Some(publish), ..*old(self) }),
    {
        self.publish = Some(publish);
    }

    pub fn override_flag(self, override_: bool) -> (c: Content)
        ensures
            c == (Content { override_: Some(override_), ..self }),
    {
        let mut c = self;
        c.set_override_flag(override_);
        c
    }

    pub fn set_override_flag(&mut self, override_: bool)
        ensures
            *final(self) == (Content { override_: Some(override_), ..*old(self) }),
    {
        self.override_ = Some(override_);
    }

    pub fn explode_flag(self, explode: bool) -> (c: Content)
        ensures
            c == (Content { explode: Some(explode), ..self }),
    {
        let mut c = self;
        c.set_explode_flag(explode);
        c
    }

    pub fn set_explode_flag(&mut self, explode: bool)
        ensures
            *final(self) == (Content { explode: Some(explode), ..*old(self) }),
    {
        self.explode = Some(explode);
    }

    pub fn checksum_sha1(self, checksum: &[u8]) -> (c: Content)
        ensures
            c.checksum.sha1 matches Some(v) && v@ == checksum@,
            c.checksum.sha256 == self.checksum.sha256,
            c == (Content { checksum: c.checksum, ..self }),
    {
        let mut c = self;
        c.set_checksum_sha1(checksum);
        c
    }

    pub fn set_checksum_sha1(&mut self, checksum: &[u8])
        ensures
            final(self).checksum.sha1 matches Some(v) && v@ == checksum@,
            final(self).checksum.sha256 == old(self).checksum.sha256,
            *final(self) == (Content { checksum: final(self).checksum, ..*old(self) }),
    {
        self.checksum.sha1 = Some(crate::bytes::copy_bytes(checksum));
    }

    pub fn checksum_sha256(self, checksum: &[u8]) -> (c: Content)
        ensures
            c.checksum.sha256 matches Some(v) && v@ == checksum@,
            c.checksum.sha1 == self.checksum.sha1,
            c == (Content { checksum: c.checksum, ..self }),
    {
        let mut c = self;
        c.set_checksum_sha256(checksum);
        c
    }

    pub fn set_checksum_sha256(&mut self, checksum: &[u8])
        ensures
            final(self).checksum.sha256 matches Some(v) && v@ == checksum@,
            final(self).checksum.sha1 == old(self).checksum.sha1,
            *final(self) == (Content { checksum: final(self).checksum, ..*old(self) }),
    {
        self.checksum.sha256 = Some(crate::bytes::copy_bytes(checksum));
    }

    pub fn debian_distributions(self, distributions: Vec<Vec<u8>>) -> (c: Content)
        ensures
            lex_sorted(seg_views(c.debian_distribution@)),
            seg_views(c.debian_distribution@).to_multiset() == seg_views(distributions@).to_multiset(),
            c == (Content { debian_distribution: c.debian_distribution, ..self }),
    {
        let mut c = self;
        c.set_debian_distributions(distributions);
        c
    }

    /// The list is kept in lexicographic order, the canonical form the
    /// upload headers and the dispatcher's visiting order rest on.
    pub fn set_debian_distributions(&mut self, distributions: Vec<Vec<u8>>)
        ensures
            lex_sorted(seg_views(final(self).debian_distribution@)),
            seg_views(final(self).debian_distribution@).to_multiset() == seg_views(distributions@).to_multiset(),
            *final(self) == (Content { debian_distribution: final(self).debian_distribution, ..*old(self) }),
    {
        self.debian_distribution = sort_byte_strings(distributions);
    }

    pub fn debian_components(self, components: Vec<Vec<u8>>) -> (c: Content)
        ensures
            lex_sorted(seg_views(c.debian_component@)),
            seg_views(c.debian_component@).to_multiset() == seg_views(components@).to_multiset(),
            c == (Content { debian_component: c.debian_component, ..self }),
    {
        let mut c = self;
        c.set_debian_components(components);
        c
    }

    /// The list is kept in lexicographic order, the canonical form the
    /// upload headers and the dispatcher's visiting order rest on.
    pub fn set_debian_components(&mut self, components: Vec<Vec<u8>>)
        ensures
            lex_sorted(seg_views(final(self).debian_component@)),
            seg_views(final(self).debian_component@).to_multiset() == seg_views(components@).to_multiset(),
            *final(self) == (Content { debian_component: final(self).debian_component, ..*old(self) }),
    {
        self.debian_component = sort_byte_strings(components);
    }

    pub fn debian_architectures(self, architectures: Vec<Vec<u8>>) -> (c: Content)
        ensures
            lex_sorted(seg_views(c.debian_architecture@)),
            seg_views(c.debian_architecture@).to_multiset() == seg_views(architectures@).to_multiset(),
            c == (Content { debian_architecture: c.debian_architecture, ..self }),
    {
        let mut c = self;
        c.set_debian_architectures(architectures);
        c
    }

    /// The list is kept in lexicographic order, the canonical form the
    /// upload headers and the dispatcher's visiting order rest on.
    pub fn set_debian_architectures(&mut self, architectures: Vec<Vec<u8>>)
        ensures
            lex_sorted(seg_views(final(self).debian_architecture@)),
            seg_views(final(self).debian_architecture@).to_multiset() == seg_views(architectures@).to_multiset(),
            *final(self) == (Content { debian_architecture: final(self).debian_architecture, ..*old(self) }),
    {
        self.debian_architecture = sort_byte_strings(architectures);
    }
}

/// One probe of the availability oracle, decided from the probe's status
/// and the checksum header it reported.
///
/// With an expected checksum, the probe settles only when the mirror
/// reports exactly that checksum; a missing or different one means the
/// mirror still serves another version — try again. With no expectation,
/// any success settles and whatever checksum was reported (possibly none)
/// is the result. Not-found and unauthenticated count as "not propagated
/// yet"; every other status is fatal.
pub open spec fn spec_checksum_matches(expected: Seq<u8>, header: Option<Vec<u8>>) -> bool {
    match header {
        Some(h) => h@ == expected,
        None => false,
    }
}

pub fn availability_check(
    expected: &Option<Vec<u8>>,
    status: u16,
    header_checksum: Option<Vec<u8>>,
) -> (r: CheckOutcome<Option<Vec<u8>>>)
    ensures
        spec_success_status(status) && expected is Some && spec_checksum_matches(
            expected->0@,
            header_checksum,
        ) ==> (r matches CheckOutcome::Settled(res) && (res matches Ok(v) && (v matches Some(d)
            && d@ == expected->0@))),
        spec_success_status(status) && expected is Some && !spec_checksum_matches(
            expected->0@,
            header_checksum,
        ) ==> r is Retry,
        spec_success_status(status) && expected is None ==> (r matches CheckOutcome::Settled(res)
            && (res matches Ok(v) && v == header_checksum)),
        !spec_success_status(status) && spec_not_yet_status(status) ==> r is Retry,
        !spec_success_status(status) && !spec_not_yet_status(status) ==> (r matches
            CheckOutcome::Settled(res) && (res matches Err(e) && (e matches
            BintrayError::UnexpectedStatus { status: st, body: b } && st == status && b@.len()
            == 0))),
{
    if is_success_status(status) {
        match expected {
            Some(e) => {
                match header_checksum {
                    Some(h) => {
                        if crate::bytes::bytes_eq(h.as_slice(), e.as_slice()) {
                            CheckOutcome::Settled(Ok(Some(h)))
                        } else {
                            CheckOutcome::Retry
                        }
                    },
                    None => CheckOutcome::Retry,
                }
            },
            None => CheckOutcome::Settled(Ok(header_checksum)),
        }
    } else if is_not_yet_status(status) {
        CheckOutcome::Retry
    } else {
        CheckOutcome::Settled(
            Err(BintrayError::UnexpectedStatus { status, body: Vec::new() }),
        )
    }
}

/// Folds a finished availability poll back into the known checksums: a
/// settled probe that reported a checksum records it, one that reported
/// none is the missing-checksum error, and a failed poll changes nothing
/// — a timed-out poll leaves no derived checksum cached.
pub fn absorb_availability_outcome(
    checksum: &mut ContentChecksum,
    outcome: Result<Option<Vec<u8>>, BintrayError>,
) -> (r: Result<(), BintrayError>)
    ensures
        outcome matches Ok(Some(d)) ==> (r is Ok && (final(checksum).sha256 matches Some(v) && v
            == d) && final(checksum).sha1 == old(checksum).sha1),
        outcome matches Ok(None) ==> ((r matches Err(e) && e is ContentChecksumNotReturned)
            && *final(checksum) == *old(checksum)),
        outcome matches Err(e) ==> ((r matches Err(e2) && e2 == e) && *final(checksum) == *old(
            checksum,
        )),
{
    match outcome {
        Ok(Some(digest)) => {
            checksum.sha256 = Some(digest);
            Ok(())
        },
        Ok(None) => Err(BintrayError::ContentChecksumNotReturned),
        Err(error) => Err(error),
    }
}

/// One single-shot conditional existence probe, outside any poll: on
/// success with a known SHA-256 the answer compares the mirror's checksum
/// against it; with none known the reported checksum (if any) is recorded
/// and the content counts as present. Not-found and unauthenticated mean
/// "not there"; anything else is fatal.
pub fn exists_check(
    checksum: &mut ContentChecksum,
    status: u16,
    header_checksum: Option<Vec<u8>>,
) -> (r: Result<bool, BintrayError>)
    ensures
        spec_success_status(status) && old(checksum).sha256 is Some ==> (*final(checksum) == *old(
            checksum,
        ) && (r matches Ok(b) && b == spec_checksum_matches(
            old(checksum).sha256->0@,
            header_checksum,
        ))),
        spec_success_status(status) && old(checksum).sha256 is None ==> ((r matches Ok(b) && b)
            && final(checksum).sha256 == header_checksum && final(checksum).sha1 == old(
            checksum,
        ).sha1),
        !spec_success_status(status) && spec_not_yet_status(status) ==> ((r matches Ok(b) && !b)
            && *final(checksum) == *old(checksum)),
        !spec_success_status(status) && !spec_not_yet_status(status) ==> ((r matches Err(e) && (
        e matches BintrayError::UnexpectedStatus { status: st, body: b } && st == status
            && b@.len() == 0)) && *final(checksum) == *old(checksum)),
{
    if is_success_status(status) {
        match &checksum.sha256 {
            Some(e) => {
                match header_checksum {
                    Some(h) => Ok(crate::bytes::bytes_eq(h.as_slice(), e.as_slice())),
                    None => Ok(false),
                }
            },
            None => {
                checksum.sha256 = header_checksum;
                Ok(true)
            },
        }
    } else if is_not_yet_status(status) {
        Ok(false)
    } else {
        Err(BintrayError::UnexpectedStatus { status, body: Vec::new() })
    }
}

/// The numeric form the upload flags take on the wire.
pub fn bool_to_int(flag: bool) -> (r: u8)
    ensures
        r == (if flag { 1u8 } else { 0u8 }),
{
    match flag {
        true => 1,
        false => 0,
    }
}

} // verus!
