//! The indexation dispatcher.
//!
//! An indexation wait applies only to repository types that carry derived
//! index metadata. For a Debian repository the wait runs the Debian
//! oracle once per (distribution, component, architecture) combination
//! the caller declared, in order, sharing one overall time budget: each
//! combination's elapsed wall time is subtracted from the remaining
//! budget before the next starts, and the first failure aborts the rest.
//! For an RPM repository it runs the RPM oracle once. Anything else is
//! rejected synchronously, before any probe is issued.

use vstd::prelude::*;

use crate::bytes::{copy_bytes, seg_views};
use crate::content::Content;
use crate::errors::BintrayError;
use crate::repository::RepositoryType;

verus! {

/// How long a poll sleeps between availability probes.
pub const AVAILABILITY_POLL_INTERVAL_MS: u64 = 1000;

/// How long a poll sleeps between indexation probes. Convergence latency
/// is dominated by server-side batch jobs, so the interval is a fixed
/// constant, not a backoff.
pub const INDEXATION_POLL_INTERVAL_MS: u64 = 30000;

/// Which oracle an indexation wait must run.
#[derive(Debug)]
pub enum IndexationRoute {
    /// Run the Debian oracle once per listed (distribution, component,
    /// architecture) triple, in this order.
    Debian(Vec<(Vec<u8>, Vec<u8>, Vec<u8>)>),
    /// Run the RPM oracle once.
    Rpm,
}

/// The views of a list of triples.
pub open spec fn triple_views(v: Seq<(Vec<u8>, Vec<u8>, Vec<u8>)>) -> Seq<
    (Seq<u8>, Seq<u8>, Seq<u8>),
> {
    Seq::new(v.len(), |k: int| (v[k].0@, v[k].1@, v[k].2@))
}

/// One distribution and component crossed with every architecture.
pub open spec fn spec_arch_triples(d: Seq<u8>, c: Seq<u8>, archs: Seq<Seq<u8>>) -> Seq<
    (Seq<u8>, Seq<u8>, Seq<u8>),
>
    decreases archs.len(),
{
    if archs.len() == 0 {
        Seq::empty()
    } else {
        seq![(d, c, archs[0])] + spec_arch_triples(d, c, archs.skip(1))
    }
}

/// One distribution crossed with every component and architecture.
pub open spec fn spec_component_triples(
    d: Seq<u8>,
    comps: Seq<Seq<u8>>,
    archs: Seq<Seq<u8>>,
) -> Seq<(Seq<u8>, Seq<u8>, Seq<u8>)>
    decreases comps.len(),
{
    if comps.len() == 0 {
        Seq::empty()
    } else {
        spec_arch_triples(d, comps[0], archs) + spec_component_triples(d, comps.skip(1), archs)
    }
}

/// Every (distribution, component, architecture) combination, in
/// distribution-major order — the order the dispatcher visits them in.
pub open spec fn spec_triples(
    dists: Seq<Seq<u8>>,
    comps: Seq<Seq<u8>>,
    archs: Seq<Seq<u8>>,
) -> Seq<(Seq<u8>, Seq<u8>, Seq<u8>)>
    decreases dists.len(),
{
    if dists.len() == 0 {
        Seq::empty()
    } else {
        spec_component_triples(dists[0], comps, archs) + spec_triples(dists.skip(1), comps, archs)
    }
}

fn arch_triples(d: &Vec<u8>, c: &Vec<u8>, archs: &Vec<Vec<u8>>, i: usize) -> (r: Vec<
    (Vec<u8>, Vec<u8>, Vec<u8>),
>)
    requires
        i <= archs@.len(),
    ensures
        triple_views(r@) == spec_arch_triples(d@, c@, seg_views(archs@).skip(i as int)),
    decreases archs@.len() - i,
{
    if i == archs.len() {
        let r: Vec<(Vec<u8>, Vec<u8>, Vec<u8>)> = Vec::new();
        proof {
            assert(seg_views(archs@).skip(i as int) =~= Seq::<Seq<u8>>::empty());
            assert(triple_views(r@) =~= spec_arch_triples(
                d@,
                c@,
                seg_views(archs@).skip(i as int),
            ));
        }
        r
    } else {
        let mut r = arch_triples(d, c, archs, i + 1);
        let ghost rv = triple_views(r@);
        r.insert(
            0,
            (copy_bytes(d.as_slice()), copy_bytes(c.as_slice()), copy_bytes(
                archs[i].as_slice(),
            )),
        );
        proof {
            assert(seg_views(archs@).skip(i as int).skip(1) =~= seg_views(archs@).skip(
                i as int + 1,
            ));
            assert(seg_views(archs@).skip(i as int)[0] == archs@[i as int]@);
            assert(triple_views(r@) =~= seq![(d@, c@, archs@[i as int]@)] + rv);
            assert(triple_views(r@) =~= spec_arch_triples(
                d@,
                c@,
                seg_views(archs@).skip(i as int),
            ));
        }
        r
    }
}

fn component_triples(d: &Vec<u8>, comps: &Vec<Vec<u8>>, archs: &Vec<Vec<u8>>, i: usize) -> (r: Vec<
    (Vec<u8>, Vec<u8>, Vec<u8>),
>)
    requires
        i <= comps@.len(),
    ensures
        triple_views(r@) == spec_component_triples(
            d@,
            seg_views(comps@).skip(i as int),
            seg_views(archs@),
        ),
    decreases comps@.len() - i,
{
    if i == comps.len() {
        let r: Vec<(Vec<u8>, Vec<u8>, Vec<u8>)> = Vec::new();
        proof {
            assert(seg_views(comps@).skip(i as int) =~= Seq::<Seq<u8>>::empty());
            assert(triple_views(r@) =~= spec_component_triples(
                d@,
                seg_views(comps@).skip(i as int),
                seg_views(archs@),
            ));
        }
        r
    } else {
        let mut head = arch_triples(d, &comps[i], archs, 0);
        let ghost hv = triple_views(head@);
        let mut rest = component_triples(d, comps, archs, i + 1);
        let ghost restv = triple_views(rest@);
        head.append(&mut rest);
        proof {
            assert(seg_views(archs@).skip(0) =~= seg_views(archs@));
            assert(seg_views(comps@).skip(i as int).skip(1) =~= seg_views(comps@).skip(
                i as int + 1,
            ));
            assert(seg_views(comps@).skip(i as int)[0] == comps@[i as int]@);
            assert(triple_views(head@) =~= hv + restv);
            assert(triple_views(head@) =~= spec_component_triples(
                d@,
                seg_views(comps@).skip(i as int),
                seg_views(archs@),
            ));
        }
        head
    }
}

/// Every (distribution, component, architecture) combination declared on
/// the content, in the order the Debian oracle visits them.
pub fn debian_triples(
    dists: &Vec<Vec<u8>>,
    comps: &Vec<Vec<u8>>,
    archs: &Vec<Vec<u8>>,
) -> (r: Vec<(Vec<u8>, Vec<u8>, Vec<u8>)>)
    ensures
        triple_views(r@) == spec_triples(seg_views(dists@), seg_views(comps@), seg_views(archs@)),
{
    let r = dist_triples(dists, comps, archs, 0);
    proof {
        assert(seg_views(dists@).skip(0) =~= seg_views(dists@));
    }
    r
}

fn dist_triples(dists: &Vec<Vec<u8>>, comps: &Vec<Vec<u8>>, archs: &Vec<Vec<u8>>, i: usize) -> (r:
    Vec<(Vec<u8>, Vec<u8>, Vec<u8>)>)
    requires
        i <= dists@.len(),
    ensures
        triple_views(r@) == spec_triples(
            seg_views(dists@).skip(i as int),
            seg_views(comps@),
            seg_views(archs@),
        ),
    decreases dists@.len() - i,
{
    if i == dists.len() {
        let r: Vec<(Vec<u8>, Vec<u8>, Vec<u8>)> = Vec::new();
        proof {
            assert(seg_views(dists@).skip(i as int) =~= Seq::<Seq<u8>>::empty());
            assert(triple_views(r@) =~= spec_triples(
                seg_views(dists@).skip(i as int),
                seg_views(comps@),
                seg_views(archs@),
            ));
        }
        r
    } else {
        let mut head = component_triples(&dists[i], comps, archs, 0);
        let ghost hv = triple_views(head@);
        let mut rest = dist_triples(dists, comps, archs, i + 1);
        let ghost restv = triple_views(rest@);
        head.append(&mut rest);
        proof {
            assert(seg_views(comps@).skip(0) =~= seg_views(comps@));
            assert(seg_views(dists@).skip(i as int).skip(1) =~= seg_views(dists@).skip(
                i as int + 1,
            ));
            assert(seg_views(dists@).skip(i as int)[0] == dists@[i as int]@);
            assert(triple_views(head@) =~= hv + restv);
            assert(triple_views(head@) =~= spec_triples(
                seg_views(dists@).skip(i as int),
                seg_views(comps@),
                seg_views(archs@),
            ));
        }
        head
    }
}

/// Decides which oracle an indexation wait runs, before any probe is
/// issued: a repository type without index metadata is rejected at once,
/// a Debian repository yields its combinations in visiting order, an RPM
/// repository routes to the RPM oracle.
pub fn route_indexation(content: &Content) -> (r: Result<IndexationRoute, BintrayError>)
    ensures
        !(content.repository_type is Debian || content.repository_type is Rpm) ==> (r matches
            Err(e) && e is OnlyForIndexedPackages),
        content.repository_type is Debian ==> (r matches Ok(route) && (route matches
            IndexationRoute::Debian(ts) && triple_views(ts@) == spec_triples(
            seg_views(content.debian_distribution@),
            seg_views(content.debian_component@),
            seg_views(content.debian_architecture@),
        ))),
        content.repository_type is Rpm ==> (r matches Ok(route) && route is Rpm),
{
    match &content.repository_type {
        RepositoryType::Debian => Ok(
            IndexationRoute::Debian(
                debian_triples(
                    &content.debian_distribution,
                    &content.debian_component,
                    &content.debian_architecture,
                ),
            ),
        ),
        RepositoryType::Rpm => Ok(IndexationRoute::Rpm),
        _ => Err(BintrayError::OnlyForIndexedPackages),
    }
}

/// The budget left for the next combination after one oracle run took
/// `elapsed_ms`: subtraction clamped at zero, so an overrun leaves no
/// budget rather than wrapping.
pub fn consume_budget(remaining_ms: u64, elapsed_ms: u64) -> (r: u64)
    ensures
        elapsed_ms <= remaining_ms ==> r == remaining_ms - elapsed_ms,
        elapsed_ms > remaining_ms ==> r == 0,
{
    if elapsed_ms <= remaining_ms {
        remaining_ms - elapsed_ms
    } else {
        0
    }
}

} // verus!
