//! The RPM indexation oracle.
//!
//! An RPM repository is converged for an upload once its package catalog
//! lists a record whose reconstructed filename is the upload's base name
//! and whose SHA-1 checksum equals the local one. Each probe runs in two
//! stages: fetch the metadata manifest (`repodata/repomd.xml`) at the
//! metadata root and locate the `primary` entry, then fetch the gzipped
//! package catalog it points at and look the upload up in it. Both
//! documents are scanned directly on their bytes, by the fixed markers
//! the repository service emits; a document in which a marker is missing
//! simply yields fewer entries, which the probe absorbs as "not
//! regenerated yet" — try again.

use vstd::prelude::*;

use crate::bytes::{ascii_lower, bytes_eq, copy_bytes, bytes_range, find_sub,
    lemma_spec_find_is_first, spec_ascii_lower, spec_find};
use crate::checksum::{hex_bytes, hex_of, ContentChecksum};
use crate::errors::BintrayError;
use crate::poll::{spec_not_yet_status, spec_success_status, is_not_yet_status, is_success_status,
    CheckOutcome};

verus! {

/// One `<data>` entry of the metadata manifest: its `type` attribute and
/// the `href` of its location element.
#[derive(Debug)]
pub struct RepomdEntry {
    pub entry_type: Vec<u8>,
    pub href: Vec<u8>,
}

/// The mathematical image of a manifest entry.
pub struct RepomdEntryModel {
    pub entry_type: Seq<u8>,
    pub href: Seq<u8>,
}

impl View for RepomdEntry {
    type V = RepomdEntryModel;

    open spec fn view(&self) -> RepomdEntryModel {
        RepomdEntryModel { entry_type: self.entry_type@, href: self.href@ }
    }
}

/// The views of a list of manifest entries.
pub open spec fn entry_views(v: Seq<RepomdEntry>) -> Seq<RepomdEntryModel> {
    Seq::new(v.len(), |k: int| v[k]@)
}

/// One package record of the catalog: name, architecture, the version
/// triple, and the checksum the index advertises for the package.
#[derive(Debug)]
pub struct PackageRecord {
    pub name: Vec<u8>,
    pub arch: Vec<u8>,
    pub ver: Vec<u8>,
    pub rel: Vec<u8>,
    pub epoch: Vec<u8>,
    pub checksum_type: Vec<u8>,
    pub checksum_value: Vec<u8>,
}

/// The mathematical image of a package record.
pub struct PackageRecordModel {
    pub name: Seq<u8>,
    pub arch: Seq<u8>,
    pub ver: Seq<u8>,
    pub rel: Seq<u8>,
    pub epoch: Seq<u8>,
    pub checksum_type: Seq<u8>,
    pub checksum_value: Seq<u8>,
}

impl View for PackageRecord {
    type V = PackageRecordModel;

    open spec fn view(&self) -> PackageRecordModel {
        PackageRecordModel {
            name: self.name@,
            arch: self.arch@,
            ver: self.ver@,
            rel: self.rel@,
            epoch: self.epoch@,
            checksum_type: self.checksum_type@,
            checksum_value: self.checksum_value@,
        }
    }
}

/// The views of a list of package records.
pub open spec fn record_views(v: Seq<PackageRecord>) -> Seq<PackageRecordModel> {
    Seq::new(v.len(), |k: int| v[k]@)
}

// The markers the two documents are scanned by, as byte strings.
/// `<data `
pub open spec fn data_open_tag() -> Seq<u8> {
    seq![0x3cu8, 0x64u8, 0x61u8, 0x74u8, 0x61u8, 0x20u8]
}

/// `</data>`
pub open spec fn data_close_tag() -> Seq<u8> {
    seq![0x3cu8, 0x2fu8, 0x64u8, 0x61u8, 0x74u8, 0x61u8, 0x3eu8]
}

/// `type="`
pub open spec fn type_attr_mark() -> Seq<u8> {
    seq![0x74u8, 0x79u8, 0x70u8, 0x65u8, 0x3du8, 0x22u8]
}

/// `"`
pub open spec fn quote_mark() -> Seq<u8> {
    seq![0x22u8]
}

/// `<location href="`
pub open spec fn location_href_mark() -> Seq<u8> {
    seq![0x3cu8, 0x6cu8, 0x6fu8, 0x63u8, 0x61u8, 0x74u8, 0x69u8, 0x6fu8, 0x6eu8, 0x20u8, 0x68u8,
        0x72u8, 0x65u8, 0x66u8, 0x3du8, 0x22u8]
}

/// `<package `
pub open spec fn package_open_tag() -> Seq<u8> {
    seq![0x3cu8, 0x70u8, 0x61u8, 0x63u8, 0x6bu8, 0x61u8, 0x67u8, 0x65u8, 0x20u8]
}

/// `</package>`
pub open spec fn package_close_tag() -> Seq<u8> {
    seq![0x3cu8, 0x2fu8, 0x70u8, 0x61u8, 0x63u8, 0x6bu8, 0x61u8, 0x67u8, 0x65u8, 0x3eu8]
}

/// `<name>`
pub open spec fn name_open_tag() -> Seq<u8> {
    seq![0x3cu8, 0x6eu8, 0x61u8, 0x6du8, 0x65u8, 0x3eu8]
}

/// `</name>`
pub open spec fn name_close_tag() -> Seq<u8> {
    seq![0x3cu8, 0x2fu8, 0x6eu8, 0x61u8, 0x6du8, 0x65u8, 0x3eu8]
}

/// `<arch>`
pub open spec fn arch_open_tag() -> Seq<u8> {
    seq![0x3cu8, 0x61u8, 0x72u8, 0x63u8, 0x68u8, 0x3eu8]
}

/// `</arch>`
pub open spec fn arch_close_tag() -> Seq<u8> {
    seq![0x3cu8, 0x2fu8, 0x61u8, 0x72u8, 0x63u8, 0x68u8, 0x3eu8]
}

/// `<version `
pub open spec fn version_open_tag() -> Seq<u8> {
    seq![0x3cu8, 0x76u8, 0x65u8, 0x72u8, 0x73u8, 0x69u8, 0x6fu8, 0x6eu8, 0x20u8]
}

/// `epoch="`
pub open spec fn epoch_attr_mark() -> Seq<u8> {
    seq![0x65u8, 0x70u8, 0x6fu8, 0x63u8, 0x68u8, 0x3du8, 0x22u8]
}

/// `ver="`
pub open spec fn ver_attr_mark() -> Seq<u8> {
    seq![0x76u8, 0x65u8, 0x72u8, 0x3du8, 0x22u8]
}

/// `rel="`
pub open spec fn rel_attr_mark() -> Seq<u8> {
    seq![0x72u8, 0x65u8, 0x6cu8, 0x3du8, 0x22u8]
}

/// `<checksum `
pub open spec fn checksum_open_tag() -> Seq<u8> {
    seq![0x3cu8, 0x63u8, 0x68u8, 0x65u8, 0x63u8, 0x6bu8, 0x73u8, 0x75u8, 0x6du8, 0x20u8]
}

/// `</checksum>`
pub open spec fn checksum_close_tag() -> Seq<u8> {
    seq![0x3cu8, 0x2fu8, 0x63u8, 0x68u8, 0x65u8, 0x63u8, 0x6bu8, 0x73u8, 0x75u8, 0x6du8, 0x3eu8]
}

/// `>`
pub open spec fn gt_mark() -> Seq<u8> {
    seq![0x3eu8]
}

/// `primary`
pub open spec fn primary_tag() -> Seq<u8> {
    seq![0x70u8, 0x72u8, 0x69u8, 0x6du8, 0x61u8, 0x72u8, 0x79u8]
}

/// `sha`
pub open spec fn sha_tag() -> Seq<u8> {
    seq![0x73u8, 0x68u8, 0x61u8]
}

/// The text between the first occurrence of `open` at or after `lo` and
/// the next occurrence of `close`, provided both fall inside `hi`.
pub open spec fn spec_field_in(
    s: Seq<u8>,
    open: Seq<u8>,
    close: Seq<u8>,
    lo: int,
    hi: int,
) -> Option<Seq<u8>> {
    match spec_find(s, open, lo) {
        None => None,
        Some(p) => {
            if p + open.len() > hi {
                None
            } else {
                match spec_find(s, close, p + open.len()) {
                    None => None,
                    Some(q) => {
                        if q + close.len() <= hi {
                            Some(s.subrange(p + open.len(), q))
                        } else {
                            None
                        }
                    },
                }
            }
        },
    }
}

/// Extracts one marker-delimited field inside the block `[lo, hi)`.
fn field_in(s: &[u8], open: &[u8], close: &[u8], lo: usize, hi: usize) -> (r: Option<Vec<u8>>)
    requires
        hi <= s@.len(),
    ensures
        r is Some <==> spec_field_in(s@, open@, close@, lo as int, hi as int) is Some,
        r matches Some(v) ==> spec_field_in(s@, open@, close@, lo as int, hi as int) == Some(v@),
{
    proof {
        assert(s.len() <= usize::MAX);
    }
    match find_sub(s, open, lo) {
        None => None,
        Some(p) => {
            proof {
                lemma_spec_find_is_first(s@, open@, lo as int);
                assert(p + open@.len() <= s@.len());
            }
            let start = p + open.len();
            if start > hi {
                return None;
            }
            match find_sub(s, close, start) {
                None => None,
                Some(q) => {
                    proof {
                        lemma_spec_find_is_first(s@, close@, start as int);
                        assert(q + close@.len() <= s@.len());
                    }
                    if q + close.len() <= hi {
                        Some(bytes_range(s, start, q))
                    } else {
                        None
                    }
                },
            }
        },
    }
}

/// The manifest entries readable from `s` at or after `from`: for every
/// well-formed `<data ...>...</data>` block, its `type` attribute and the
/// `href` of its location element. A block missing either is skipped.
pub open spec fn spec_repomd_entries(s: Seq<u8>, from: int) -> Seq<RepomdEntryModel>
    decreases s.len() - from + 1
        via spec_repomd_entries_decreases
{
    if from < 0 {
        Seq::empty()
    } else {
        match spec_find(s, data_open_tag(), from) {
            None => Seq::empty(),
            Some(d) => {
                match spec_find(s, data_close_tag(), d) {
                    None => Seq::empty(),
                    Some(c) => {
                        let rest = spec_repomd_entries(s, c + 7);
                        match (
                            spec_field_in(s, type_attr_mark(), quote_mark(), d, c),
                            spec_field_in(s, location_href_mark(), quote_mark(), d, c),
                        ) {
                            (Some(t), Some(h)) => seq![
                                RepomdEntryModel { entry_type: t, href: h },
                            ] + rest,
                            _ => rest,
                        }
                    },
                }
            },
        }
    }
}

#[via_fn]
proof fn spec_repomd_entries_decreases(s: Seq<u8>, from: int) {
    if from >= 0 {
        match spec_find(s, data_open_tag(), from) {
            Some(d) => {
                lemma_spec_find_is_first(s, data_open_tag(), from);
                match spec_find(s, data_close_tag(), d) {
                    Some(c) => {
                        lemma_spec_find_is_first(s, data_close_tag(), d);
                    },
                    None => {},
                }
            },
            None => {},
        }
    }
}

/// Reads the metadata manifest: every `<data>` entry with its type and
/// location href, in document order.
#[verifier::loop_isolation(false)]
pub fn parse_repomd(body: &[u8]) -> (r: Vec<RepomdEntry>)
    ensures
        entry_views(r@) == spec_repomd_entries(body@, 0),
{
    let data_open: Vec<u8> = vec![0x3cu8, 0x64, 0x61, 0x74, 0x61, 0x20];
    let data_close: Vec<u8> = vec![0x3cu8, 0x2f, 0x64, 0x61, 0x74, 0x61, 0x3e];
    let type_attr: Vec<u8> = vec![0x74u8, 0x79, 0x70, 0x65, 0x3d, 0x22];
    let quote: Vec<u8> = vec![0x22u8];
    let loc_href: Vec<u8> = vec![0x3cu8, 0x6c, 0x6f, 0x63, 0x61, 0x74, 0x69, 0x6f, 0x6e, 0x20,
        0x68, 0x72, 0x65, 0x66, 0x3d, 0x22];
    proof {
        assert(data_open@ =~= data_open_tag());
        assert(data_close@ =~= data_close_tag());
        assert(type_attr@ =~= type_attr_mark());
        assert(quote@ =~= quote_mark());
        assert(loc_href@ =~= location_href_mark());
    }
    let mut out: Vec<RepomdEntry> = Vec::new();
    let mut from: usize = 0;
    proof {
        assert(body.len() <= usize::MAX);
        assert(entry_views(out@) + spec_repomd_entries(body@, 0) =~= spec_repomd_entries(
            body@,
            0,
        ));
    }
    loop
        invariant
            spec_repomd_entries(body@, 0) == entry_views(out@) + spec_repomd_entries(
                body@,
                from as int,
            ),
        decreases body@.len() + 1 - from,
    {
        let d = match find_sub(body, data_open.as_slice(), from) {
            Some(d) => d,
            None => {
                proof {
                    assert(entry_views(out@) + spec_repomd_entries(body@, from as int)
                        =~= entry_views(out@));
                }
                return out;
            },
        };
        proof {
            lemma_spec_find_is_first(body@, data_open_tag(), from as int);
        }
        let c = match find_sub(body, data_close.as_slice(), d) {
            Some(c) => c,
            None => {
                proof {
                    assert(entry_views(out@) + spec_repomd_entries(body@, from as int)
                        =~= entry_views(out@));
                }
                return out;
            },
        };
        proof {
            lemma_spec_find_is_first(body@, data_close_tag(), d as int);
            assert(c + data_close_tag().len() <= body@.len());
        }
        let t = field_in(body, type_attr.as_slice(), quote.as_slice(), d, c);
        let h = field_in(body, loc_href.as_slice(), quote.as_slice(), d, c);
        let ghost prev = entry_views(out@);
        match (t, h) {
            (Some(tv), Some(hv)) => {
                let ghost m = RepomdEntryModel { entry_type: tv@, href: hv@ };
                out.push(RepomdEntry { entry_type: tv, href: hv });
                proof {
                    assert(entry_views(out@) =~= prev + seq![m]);
                    assert(spec_repomd_entries(body@, from as int) =~= seq![m]
                        + spec_repomd_entries(body@, c as int + 7));
                    assert(entry_views(out@) + spec_repomd_entries(body@, c as int + 7)
                        =~= prev + spec_repomd_entries(body@, from as int));
                }
            },
            _ => {
                proof {
                    assert(spec_repomd_entries(body@, from as int) =~= spec_repomd_entries(
                        body@,
                        c as int + 7,
                    ));
                }
            },
        }
        from = c + 7;
    }
}

/// The position of the first manifest entry whose type is `primary`, at
/// or after `i`.
pub open spec fn spec_first_primary_from(entries: Seq<RepomdEntryModel>, i: int) -> Option<int>
    decreases entries.len() - i + 1
{
    if i < 0 || i >= entries.len() {
        None
    } else if entries[i].entry_type == primary_tag() {
        Some(i)
    } else {
        spec_first_primary_from(entries, i + 1)
    }
}

/// The `href` of the first `primary` entry of the manifest, if the
/// manifest has one.
#[verifier::loop_isolation(false)]
pub fn find_primary_href(entries: &Vec<RepomdEntry>) -> (r: Option<Vec<u8>>)
    ensures
        r is Some <==> spec_first_primary_from(entry_views(entries@), 0) is Some,
        r matches Some(h) ==> (spec_first_primary_from(entry_views(entries@), 0) matches Some(k)
            && h@ == entry_views(entries@)[k].href),
{
    let primary: Vec<u8> = vec![0x70u8, 0x72, 0x69, 0x6d, 0x61, 0x72, 0x79];
    proof {
        assert(primary@ =~= primary_tag());
    }
    let ghost evs = entry_views(entries@);
    let mut i: usize = 0;
    while i < entries.len()
        invariant
            0 <= i <= entries@.len(),
            spec_first_primary_from(evs, 0) == spec_first_primary_from(evs, i as int),
        decreases entries@.len() - i,
    {
        if bytes_eq(entries[i].entry_type.as_slice(), primary.as_slice()) {
            proof {
                assert(evs[i as int].entry_type == primary_tag());
            }
            return Some(copy_bytes(entries[i].href.as_slice()));
        }
        proof {
            assert(evs[i as int].entry_type != primary_tag());
        }
        i += 1;
    }
    None
}

/// What stage one of an RPM probe decided.
#[derive(Debug)]
pub enum RpmManifestStep {
    /// The manifest names a primary catalog: fetch it at this href,
    /// resolved against the metadata root.
    FetchPrimary(Vec<u8>),
    /// The manifest is not served yet, cannot be read, or has no primary
    /// entry: the index is being regenerated — try again.
    Retry,
    /// The manifest probe answered with a status that is neither success
    /// nor "not yet": fatal.
    Fatal(BintrayError),
}

/// Stage one of an RPM probe: reads the fetched metadata manifest and
/// decides whether to fetch the primary catalog, to retry, or to fail.
pub fn rpm_manifest_check(status: u16, body: &[u8]) -> (r: RpmManifestStep)
    ensures
        spec_success_status(status) ==> (spec_first_primary_from(
            spec_repomd_entries(body@, 0),
            0,
        ) matches Some(k) ==> (r matches RpmManifestStep::FetchPrimary(h) && h@
            == spec_repomd_entries(body@, 0)[k].href)),
        spec_success_status(status) ==> (spec_first_primary_from(spec_repomd_entries(body@, 0), 0)
            is None ==> r is Retry),
        !spec_success_status(status) && spec_not_yet_status(status) ==> r is Retry,
        !spec_success_status(status) && !spec_not_yet_status(status) ==> (r matches
            RpmManifestStep::Fatal(e) && (e matches BintrayError::UnexpectedStatus {
                status: st,
                body: b,
            } && st == status && b@ == body@)),
{
    if is_success_status(status) {
        let entries = parse_repomd(body);
        match find_primary_href(&entries) {
            Some(href) => RpmManifestStep::FetchPrimary(href),
            None => RpmManifestStep::Retry,
        }
    } else if is_not_yet_status(status) {
        RpmManifestStep::Retry
    } else {
        RpmManifestStep::Fatal(
            BintrayError::UnexpectedStatus { status, body: copy_bytes(body) },
        )
    }
}

/// The canonical filename of a catalog record: `name-ver-rel.arch.rpm`,
/// prefixed with `epoch:` when the epoch is not `0`.
pub open spec fn spec_rpm_filename(m: PackageRecordModel) -> Seq<u8> {
    let base = m.name + seq![0x2du8] + m.ver + seq![0x2du8] + m.rel + seq![0x2eu8] + m.arch
        + seq![0x2eu8, 0x72u8, 0x70u8, 0x6du8];
    if m.epoch == seq![0x30u8] {
        base
    } else {
        m.epoch + seq![0x3au8] + base
    }
}

/// Reconstructs the canonical filename a record is indexed under.
pub fn rpm_package_filename(record: &PackageRecord) -> (r: Vec<u8>)
    ensures
        r@ == spec_rpm_filename(record@),
{
    let mut r: Vec<u8> = Vec::new();
    if !(record.epoch.len() == 1 && record.epoch[0] == 0x30) {
        proof {
            assert(record.epoch@ != seq![0x30u8]);
        }
        r.append(&mut copy_bytes(record.epoch.as_slice()));
        r.push(0x3a);
    } else {
        proof {
            assert(record.epoch@ =~= seq![0x30u8]);
        }
    }
    r.append(&mut copy_bytes(record.name.as_slice()));
    r.push(0x2d);
    r.append(&mut copy_bytes(record.ver.as_slice()));
    r.push(0x2d);
    r.append(&mut copy_bytes(record.rel.as_slice()));
    r.push(0x2e);
    r.append(&mut copy_bytes(record.arch.as_slice()));
    r.push(0x2e);
    r.push(0x72);
    r.push(0x70);
    r.push(0x6d);
    proof {
        assert(r@ =~= spec_rpm_filename(record@));
    }
    r
}

/// The package record readable from the block `[lo, hi)` of the catalog:
/// name and architecture elements, the version attributes, and the
/// checksum's type attribute and text. A block missing any of them yields
/// no record.
pub open spec fn spec_record_in(s: Seq<u8>, lo: int, hi: int) -> Option<PackageRecordModel> {
    let name = spec_field_in(s, name_open_tag(), name_close_tag(), lo, hi);
    let arch = spec_field_in(s, arch_open_tag(), arch_close_tag(), lo, hi);
    if name is None || arch is None {
        None
    } else {
        match spec_find(s, version_open_tag(), lo) {
            None => None,
            Some(v) => {
                if v >= hi {
                    None
                } else {
                    let epoch = spec_field_in(s, epoch_attr_mark(), quote_mark(), v, hi);
                    let ver = spec_field_in(s, ver_attr_mark(), quote_mark(), v, hi);
                    let rel = spec_field_in(s, rel_attr_mark(), quote_mark(), v, hi);
                    match spec_find(s, checksum_open_tag(), lo) {
                        None => None,
                        Some(c0) => {
                            if c0 >= hi {
                                None
                            } else {
                                let ctype = spec_field_in(
                                    s,
                                    type_attr_mark(),
                                    quote_mark(),
                                    c0,
                                    hi,
                                );
                                let cval = spec_field_in(s, gt_mark(), checksum_close_tag(), c0, hi);
                                if epoch is Some && ver is Some && rel is Some && ctype is Some
                                    && cval is Some {
                                    Some(
                                        PackageRecordModel {
                                            name: name->0,
                                            arch: arch->0,
                                            ver: ver->0,
                                            rel: rel->0,
                                            epoch: epoch->0,
                                            checksum_type: ctype->0,
                                            checksum_value: cval->0,
                                        },
                                    )
                                } else {
                                    None
                                }
                            }
                        },
                    }
                }
            },
        }
    }
}

/// Extracts the package record of one catalog block.
fn record_in(s: &[u8], lo: usize, hi: usize) -> (r: Option<PackageRecord>)
    requires
        hi <= s@.len(),
    ensures
        r is Some <==> spec_record_in(s@, lo as int, hi as int) is Some,
        r matches Some(rec) ==> spec_record_in(s@, lo as int, hi as int) == Some(rec@),
{
    let name_open: Vec<u8> = vec![0x3cu8, 0x6e, 0x61, 0x6d, 0x65, 0x3e];
    let name_close: Vec<u8> = vec![0x3cu8, 0x2f, 0x6e, 0x61, 0x6d, 0x65, 0x3e];
    let arch_open: Vec<u8> = vec![0x3cu8, 0x61, 0x72, 0x63, 0x68, 0x3e];
    let arch_close: Vec<u8> = vec![0x3cu8, 0x2f, 0x61, 0x72, 0x63, 0x68, 0x3e];
    let version_open: Vec<u8> = vec![0x3cu8, 0x76, 0x65, 0x72, 0x73, 0x69, 0x6f, 0x6e, 0x20];
    let epoch_attr: Vec<u8> = vec![0x65u8, 0x70, 0x6f, 0x63, 0x68, 0x3d, 0x22];
    let ver_attr: Vec<u8> = vec![0x76u8, 0x65, 0x72, 0x3d, 0x22];
    let rel_attr: Vec<u8> = vec![0x72u8, 0x65, 0x6c, 0x3d, 0x22];
    let checksum_open: Vec<u8> = vec![0x3cu8, 0x63, 0x68, 0x65, 0x63, 0x6b, 0x73, 0x75, 0x6d,
        0x20];
    let checksum_close: Vec<u8> = vec![0x3cu8, 0x2f, 0x63, 0x68, 0x65, 0x63, 0x6b, 0x73, 0x75,
        0x6d, 0x3e];
    let type_attr: Vec<u8> = vec![0x74u8, 0x79, 0x70, 0x65, 0x3d, 0x22];
    let quote: Vec<u8> = vec![0x22u8];
    let gt: Vec<u8> = vec![0x3eu8];
    proof {
        assert(name_open@ =~= name_open_tag());
        assert(name_close@ =~= name_close_tag());
        assert(arch_open@ =~= arch_open_tag());
        assert(arch_close@ =~= arch_close_tag());
        assert(version_open@ =~= version_open_tag());
        assert(epoch_attr@ =~= epoch_attr_mark());
        assert(ver_attr@ =~= ver_attr_mark());
        assert(rel_attr@ =~= rel_attr_mark());
        assert(checksum_open@ =~= checksum_open_tag());
        assert(checksum_close@ =~= checksum_close_tag());
        assert(type_attr@ =~= type_attr_mark());
        assert(quote@ =~= quote_mark());
        assert(gt@ =~= gt_mark());
    }
    let name = match field_in(s, name_open.as_slice(), name_close.as_slice(), lo, hi) {
        Some(v) => v,
        None => {
            return None;
        },
    };
    let arch = match field_in(s, arch_open.as_slice(), arch_close.as_slice(), lo, hi) {
        Some(v) => v,
        None => {
            return None;
        },
    };
    let v = match find_sub(s, version_open.as_slice(), lo) {
        Some(v) => v,
        None => {
            return None;
        },
    };
    if v >= hi {
        return None;
    }
    let epoch = match field_in(s, epoch_attr.as_slice(), quote.as_slice(), v, hi) {
        Some(x) => x,
        None => {
            return None;
        },
    };
    let ver = match field_in(s, ver_attr.as_slice(), quote.as_slice(), v, hi) {
        Some(x) => x,
        None => {
            return None;
        },
    };
    let rel = match field_in(s, rel_attr.as_slice(), quote.as_slice(), v, hi) {
        Some(x) => x,
        None => {
            return None;
        },
    };
    let c0 = match find_sub(s, checksum_open.as_slice(), lo) {
        Some(x) => x,
        None => {
            return None;
        },
    };
    if c0 >= hi {
        return None;
    }
    let ctype = match field_in(s, type_attr.as_slice(), quote.as_slice(), c0, hi) {
        Some(x) => x,
        None => {
            return None;
        },
    };
    let cval = match field_in(s, gt.as_slice(), checksum_close.as_slice(), c0, hi) {
        Some(x) => x,
        None => {
            return None;
        },
    };
    Some(
        PackageRecord {
            name,
            arch,
            ver,
            rel,
            epoch,
            checksum_type: ctype,
            checksum_value: cval,
        },
    )
}

/// The package records readable from `s` at or after `from`: one for
/// every well-formed `<package ...>...</package>` block, in document
/// order; a malformed block is skipped.
pub open spec fn spec_package_records(s: Seq<u8>, from: int) -> Seq<PackageRecordModel>
    decreases s.len() - from + 1
        via spec_package_records_decreases
{
    if from < 0 {
        Seq::empty()
    } else {
        match spec_find(s, package_open_tag(), from) {
            None => Seq::empty(),
            Some(p) => {
                match spec_find(s, package_close_tag(), p) {
                    None => Seq::empty(),
                    Some(c) => {
                        let rest = spec_package_records(s, c + 10);
                        match spec_record_in(s, p, c) {
                            Some(m) => seq![m] + rest,
                            None => rest,
                        }
                    },
                }
            },
        }
    }
}

#[via_fn]
proof fn spec_package_records_decreases(s: Seq<u8>, from: int) {
    if from >= 0 {
        match spec_find(s, package_open_tag(), from) {
            Some(p) => {
                lemma_spec_find_is_first(s, package_open_tag(), from);
                match spec_find(s, package_close_tag(), p) {
                    Some(c) => {
                        lemma_spec_find_is_first(s, package_close_tag(), p);
                    },
                    None => {},
                }
            },
            None => {},
        }
    }
}

/// Reads the package catalog: one record per package block, in document
/// order.
#[verifier::loop_isolation(false)]
pub fn parse_primary(body: &[u8]) -> (r: Vec<PackageRecord>)
    ensures
        record_views(r@) == spec_package_records(body@, 0),
{
    let package_open: Vec<u8> = vec![0x3cu8, 0x70, 0x61, 0x63, 0x6b, 0x61, 0x67, 0x65, 0x20];
    let package_close: Vec<u8> = vec![0x3cu8, 0x2f, 0x70, 0x61, 0x63, 0x6b, 0x61, 0x67, 0x65,
        0x3e];
    proof {
        assert(package_open@ =~= package_open_tag());
        assert(package_close@ =~= package_close_tag());
    }
    let mut out: Vec<PackageRecord> = Vec::new();
    let mut from: usize = 0;
    proof {
        assert(body.len() <= usize::MAX);
        assert(record_views(out@) + spec_package_records(body@, 0) =~= spec_package_records(
            body@,
            0,
        ));
    }
    loop
        invariant
            spec_package_records(body@, 0) == record_views(out@) + spec_package_records(
                body@,
                from as int,
            ),
        decreases body@.len() + 1 - from,
    {
        let p = match find_sub(body, package_open.as_slice(), from) {
            Some(p) => p,
            None => {
                proof {
                    assert(record_views(out@) + spec_package_records(body@, from as int)
                        =~= record_views(out@));
                }
                return out;
            },
        };
        proof {
            lemma_spec_find_is_first(body@, package_open_tag(), from as int);
        }
        let c = match find_sub(body, package_close.as_slice(), p) {
            Some(c) => c,
            None => {
                proof {
                    assert(record_views(out@) + spec_package_records(body@, from as int)
                        =~= record_views(out@));
                }
                return out;
            },
        };
        proof {
            lemma_spec_find_is_first(body@, package_close_tag(), p as int);
            assert(c + package_close_tag().len() <= body@.len());
        }
        let ghost prev = record_views(out@);
        match record_in(body, p, c) {
            Some(rec) => {
                let ghost m = rec@;
                out.push(rec);
                proof {
                    assert(record_views(out@) =~= prev + seq![m]);
                    assert(spec_package_records(body@, from as int) =~= seq![m]
                        + spec_package_records(body@, c as int + 10));
                    assert(record_views(out@) + spec_package_records(body@, c as int + 10)
                        =~= prev + spec_package_records(body@, from as int));
                }
            },
            None => {
                proof {
                    assert(spec_package_records(body@, from as int) =~= spec_package_records(
                        body@,
                        c as int + 10,
                    ));
                }
            },
        }
        from = c + 10;
    }
}

/// The position of the first record whose reconstructed filename is
/// `filename`, at or after `i`.
pub open spec fn spec_first_filename_match(
    records: Seq<PackageRecordModel>,
    filename: Seq<u8>,
    i: int,
) -> Option<int>
    decreases records.len() - i + 1
{
    if i < 0 || i >= records.len() {
        None
    } else if spec_rpm_filename(records[i]) == filename {
        Some(i)
    } else {
        spec_first_filename_match(records, filename, i + 1)
    }
}

/// What stage two of an RPM probe must conclude from a catalog `doc` for
/// the upload `filename` with local SHA-1 digest `sha1_digest`: no record
/// under that filename means the index has not caught up (retry); a
/// record with a checksum algorithm other than `sha` is fatal; a record
/// whose checksum equals the local digest, compared as case-insensitive
/// hex, settles the poll; a stale checksum means retry.
pub open spec fn spec_catalog_outcome(
    doc: Seq<u8>,
    filename: Seq<u8>,
    sha1_digest: Seq<u8>,
    r: CheckOutcome<()>,
) -> bool {
    let recs = spec_package_records(doc, 0);
    let m = spec_first_filename_match(recs, filename, 0);
    &&& (m is None ==> r is Retry)
    &&& (m matches Some(k) ==> {
        let rec = recs[k];
        &&& rec.checksum_type != sha_tag() ==> (r matches CheckOutcome::Settled(res) && (
        res matches Err(e) && e is RpmRepoChecksumUnsupported))
        &&& rec.checksum_type == sha_tag() && spec_ascii_lower(rec.checksum_value) == hex_of(
            sha1_digest,
        ) ==> (r matches CheckOutcome::Settled(res) && res is Ok)
        &&& rec.checksum_type == sha_tag() && spec_ascii_lower(rec.checksum_value) != hex_of(
            sha1_digest,
        ) ==> r is Retry
    })
}

/// Stage two of an RPM probe on an already-decompressed catalog: looks
/// the upload up by filename and compares checksums.
#[verifier::loop_isolation(false)]
pub fn rpm_catalog_check_decoded(doc: &[u8], filename: &[u8], sha1_digest: &[u8]) -> (r:
    CheckOutcome<()>)
    ensures
        spec_catalog_outcome(doc@, filename@, sha1_digest@, r),
{
    let sha: Vec<u8> = vec![0x73u8, 0x68, 0x61];
    proof {
        assert(sha@ =~= sha_tag());
    }
    let records = parse_primary(doc);
    let ghost recs = record_views(records@);
    let mut i: usize = 0;
    while i < records.len()
        invariant
            0 <= i <= records@.len(),
            recs == record_views(records@),
            spec_first_filename_match(recs, filename@, 0) == spec_first_filename_match(
                recs,
                filename@,
                i as int,
            ),
        decreases records@.len() - i,
    {
        let candidate = rpm_package_filename(&records[i]);
        if bytes_eq(candidate.as_slice(), filename) {
            proof {
                assert(spec_rpm_filename(recs[i as int]) == filename@);
            }
            if !bytes_eq(records[i].checksum_type.as_slice(), sha.as_slice()) {
                return CheckOutcome::Settled(Err(BintrayError::RpmRepoChecksumUnsupported));
            }
            let lowered = ascii_lower(records[i].checksum_value.as_slice());
            let wanted = hex_bytes(sha1_digest);
            if bytes_eq(lowered.as_slice(), wanted.as_slice()) {
                return CheckOutcome::Settled(Ok(()));
            } else {
                return CheckOutcome::Retry;
            }
        }
        proof {
            assert(spec_rpm_filename(recs[i as int]) != filename@);
        }
        i += 1;
    }
    CheckOutcome::Retry
}

/// What a gzip stream decompresses to, when it decodes at all: a function
/// of the compressed bytes alone.
pub uninterp spec fn gunzip_of(data: Seq<u8>) -> Option<Seq<u8>>;

/// Relies on libflate::gzip::Decoder: reads a whole gzip stream, yielding
/// its decompressed bytes, or nothing when the stream is not well-formed
/// gzip. Whether and to what a stream decodes depends on its bytes alone.
#[verifier::external_body]
fn gunzip(data: &[u8]) -> (r: Option<Vec<u8>>)
    ensures
        r is Some <==> gunzip_of(data@) is Some,
        r matches Some(v) ==> gunzip_of(data@) == Some(v@),
{
    let mut decoder = match libflate::gzip::Decoder::new(data) {
        Ok(d) => d,
        Err(_) => return None,
    };
    let mut out = Vec::new();
    match std::io::Read::read_to_end(&mut decoder, &mut out) {
        Ok(_) => Some(out),
        Err(_) => None,
    }
}

/// Stage two of an RPM probe: decompresses the fetched catalog and looks
/// the upload up in it. A stream that does not decode counts as a
/// transient race with the server's reindexing — try again.
pub fn rpm_catalog_check(compressed: &[u8], filename: &[u8], sha1_digest: &[u8]) -> (r:
    CheckOutcome<()>)
    ensures
        gunzip_of(compressed@) is None ==> r is Retry,
        gunzip_of(compressed@) matches Some(doc) ==> spec_catalog_outcome(
            doc,
            filename@,
            sha1_digest@,
            r,
        ),
{
    match gunzip(compressed) {
        None => CheckOutcome::Retry,
        Some(doc) => rpm_catalog_check_decoded(doc.as_slice(), filename, sha1_digest),
    }
}

/// The local SHA-1 digest an RPM indexation wait verifies against, or the
/// missing-checksum configuration error. Requiring the digest up front
/// keeps a misconfigured wait from polling at all.
pub fn rpm_target_digest(checksum: &ContentChecksum) -> (r: Result<Vec<u8>, BintrayError>)
    ensures
        checksum.sha1 is None ==> (r matches Err(e) && e is ContentChecksumRequired),
        checksum.sha1 matches Some(d) ==> (r matches Ok(v) && v@ == d@),
{
    match &checksum.sha1 {
        None => Err(BintrayError::ContentChecksumRequired),
        Some(digest) => Ok(copy_bytes(digest.as_slice())),
    }
}

} // verus!
