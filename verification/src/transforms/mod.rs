//! Transform pipeline: ordered filesystem mutations that convert a
//! dnf --installroot rootfs into a bootc-compatible layout.

use vstd::prelude::*;

use crate::rootfs::{FsOp, FsOpV, PathV, ProbeV, RelPath, Snapshot};

pub mod boot_relocate;
pub mod chroot_ops;
pub mod cleanup;
pub mod dnf_config;
pub mod dracut_config;
pub mod config_effects;
pub mod effects;
pub mod ostree_config;
pub mod passwd;
pub mod pipeline;
pub mod rpmdb;
pub mod symlinks;
pub mod systemd_config;
pub mod var_tmpfiles;

verus! {

/// Phase in the transform pipeline. Transforms within a phase run in
/// dependency order; phases run sequentially.
#[derive(Debug, Clone, Copy, PartialEq, Eq, Structural, PartialOrd, Ord)]
pub enum Phase {
    /// Filesystem layout changes before any chroot operations
    PreChroot,
    /// Operations that require chroot/nsenter into the rootfs
    Chroot,
    /// Cleanup after chroot operations complete
    PostChroot,
}

impl Phase {
    /// The position of the phase in the pipeline.
    pub open spec fn rank(self) -> int {
        match self {
            Phase::PreChroot => 0,
            Phase::Chroot => 1,
            Phase::PostChroot => 2,
        }
    }
}

/// The value of a check's outcome.
pub open spec fn check_view(r: Result<bool, String>) -> Result<bool, Seq<char>> {
    match r {
        Ok(b) => Ok(b),
        Err(e) => Err(e@),
    }
}

/// A single rootfs transform. Each transform knows how to check whether it
/// has already been applied and how to apply itself. Both decisions are made
/// on a [`Snapshot`] of the paths the transform asks for with `probes`.
pub trait Transform {
    spec fn spec_name(&self) -> Seq<char>;

    spec fn spec_phase(&self) -> Phase;

    /// The paths to observe, given what has been observed so far.
    spec fn spec_probes(&self, snap: Seq<ProbeV>) -> Seq<PathV>;

    /// `Ok(true)` when the rootfs already satisfies the transform.
    spec fn spec_check(&self, snap: Seq<ProbeV>) -> Result<bool, Seq<char>>;

    /// The operations that apply the transform to the rootfs at `rootfs`.
    spec fn spec_plan(&self, rootfs: Seq<char>, snap: Seq<ProbeV>) -> Seq<FsOpV>;

    fn name(&self) -> (r: String)
        ensures
            r@ == self.spec_name(),
    ;

    fn phase(&self) -> (r: Phase)
        ensures
            r == self.spec_phase(),
    ;

    fn probes(&self, snap: &Snapshot) -> (r: Vec<RelPath>)
        ensures
            r.deep_view() == self.spec_probes(snap@),
    ;

    /// Check whether this transform is needed. Returns Ok(true) if the rootfs
    /// already satisfies this transform, Ok(false) if it needs to be applied.
    fn check(&self, snap: &Snapshot) -> (r: Result<bool, String>)
        ensures
            check_view(r) == self.spec_check(snap@),
    ;

    /// The operations that apply the transform to the rootfs. Only run when
    /// check() returns false.
    fn apply(&self, rootfs: &str, snap: &Snapshot) -> (r: Vec<FsOp>)
        ensures
            r.deep_view() == self.spec_plan(rootfs@, snap@),
    ;
}

} // verus!

verus! {

/// Result of a single transform's check or apply.
#[derive(Debug)]
pub enum TransformResult {
    Applied,
    AlreadyCorrect,
    CheckFailed(String),
    Skipped(String),
}

pub enum TransformResultV {
    Applied,
    AlreadyCorrect,
    CheckFailed(Seq<char>),
    Skipped(Seq<char>),
}

impl DeepView for TransformResult {
    type V = TransformResultV;

    open spec fn deep_view(&self) -> TransformResultV {
        match self {
            TransformResult::Applied => TransformResultV::Applied,
            TransformResult::AlreadyCorrect => TransformResultV::AlreadyCorrect,
            TransformResult::CheckFailed(r) => TransformResultV::CheckFailed(r@),
            TransformResult::Skipped(r) => TransformResultV::Skipped(r@),
        }
    }
}

/// How a result reads in the log.
pub open spec fn result_text(r: TransformResultV) -> Seq<char> {
    match r {
        TransformResultV::Applied => "applied"@,
        TransformResultV::AlreadyCorrect => "already correct"@,
        TransformResultV::CheckFailed(reason) => "check failed: "@ + reason,
        TransformResultV::Skipped(reason) => "skipped: "@ + reason,
    }
}

impl TransformResult {
    /// How the result reads in the log.
    pub fn to_display_string(&self) -> (r: String)
        ensures
            r@ == result_text(self.deep_view()),
    {
        match self {
            TransformResult::Applied => crate::rootfs::owned("applied"),
            TransformResult::AlreadyCorrect => crate::rootfs::owned("already correct"),
            TransformResult::CheckFailed(reason) => crate::rootfs::concat(
                "check failed: ",
                reason.as_str(),
            ),
            TransformResult::Skipped(reason) => crate::rootfs::concat("skipped: ", reason.as_str()),
        }
    }
}

/// Whether a result counts as passing: applied, already correct, or skipped.
pub open spec fn is_pass(r: TransformResultV) -> bool {
    r is Applied || r is AlreadyCorrect || r is Skipped
}

/// The number of passing results.
pub open spec fn count_pass(rs: Seq<(Seq<char>, TransformResultV)>) -> nat
    decreases rs.len(),
{
    if rs.len() == 0 {
        0
    } else {
        count_pass(rs.drop_last()) + if is_pass(rs.last().1) {
            1nat
        } else {
            0nat
        }
    }
}

/// The number of failed checks.
pub open spec fn count_fail(rs: Seq<(Seq<char>, TransformResultV)>) -> nat
    decreases rs.len(),
{
    if rs.len() == 0 {
        0
    } else {
        count_fail(rs.drop_last()) + if rs.last().1 is CheckFailed {
            1nat
        } else {
            0nat
        }
    }
}

/// Execution context shared across all transforms.
#[derive(Debug)]
pub struct Context {
    /// Path to the rootfs (for operations that need real paths).
    pub rootfs_path: String,
    pub manifest: crate::manifest::ImageManifest,
    pub check_only: bool,
    /// The results recorded so far, in the order the transforms ran.
    pub results: Vec<(String, TransformResult)>,
}

impl Context {
    /// The results recorded so far, in order.
    pub open spec fn records(&self) -> Seq<(Seq<char>, TransformResultV)> {
        self.results.deep_view()
    }

    pub fn new(rootfs: String, manifest: crate::manifest::ImageManifest, check_only: bool) -> (r: Self)
        ensures
            r.rootfs_path == rootfs,
            r.manifest == manifest,
            r.check_only == check_only,
            r.records().len() == 0,
    {
        Context { rootfs_path: rootfs, manifest, check_only, results: Vec::new() }
    }

    /// Resolve a path relative to the rootfs (for operations that need
    /// real paths): leading `/` of `relative` are dropped and the rest is
    /// adjoined to the rootfs path.
    pub fn path(&self, relative: &str) -> (r: String)
        ensures
            r@ == crate::pathtext::join_text(
                self.rootfs_path@,
                crate::pathtext::trim_leading_slashes(relative@),
            ),
    {
        let rel = crate::pathtext::trim_start_slashes(relative);
        crate::pathtext::join(self.rootfs_path.as_str(), rel)
    }

    pub fn record(&mut self, name: String, result: TransformResult)
        ensures
            final(self).records() == old(self).records().push((name@, result.deep_view())),
            final(self).rootfs_path == old(self).rootfs_path,
            final(self).manifest == old(self).manifest,
            final(self).check_only == old(self).check_only,
    {
        let ghost before = self.results.deep_view();
        let ghost item = (name@, result.deep_view());
        self.results.push((name, result));
        assert(self.results.deep_view() =~= before.push(item));
    }

    /// The numbers of passing (applied, already correct, skipped) and
    /// failed results.
    pub fn results(&self) -> (r: (usize, usize))
        ensures
            r.0 == count_pass(self.records()),
            r.1 == count_fail(self.records()),
    {
        let ghost rs = self.records();
        let mut pass: usize = 0;
        let mut fail: usize = 0;
        assert(rs.take(0) =~= Seq::<(Seq<char>, TransformResultV)>::empty());
        for i in 0..self.results.len()
            invariant
                rs == self.results.deep_view(),
                pass == count_pass(rs.take(i as int)),
                fail == count_fail(rs.take(i as int)),
                pass + fail <= i,
        {
            assert(rs.take(i + 1).drop_last() =~= rs.take(i as int));
            assert(rs.take(i + 1).last() == rs[i as int]);
            match &self.results[i].1 {
                TransformResult::CheckFailed(_) => {
                    fail = fail + 1;
                },
                _ => {
                    pass = pass + 1;
                },
            }
        }
        assert(rs.take(self.results.len() as int) =~= rs);
        (pass, fail)
    }
}

/// Run all transforms in phase order: starts the pipeline on `ctx` and
/// returns it with its first request. The caller observes and checks,
/// or applies, each transform the pipeline asks for and reports back with
/// [`pipeline::Runner::checked`] and [`pipeline::Runner::applied`], until
/// the pipeline finishes or fails.
pub fn run_all(ctx: &mut Context) -> (r: (pipeline::Runner, pipeline::Step))
    ensures
        r.0.wf(),
        r.0.order() == pipeline::pipeline_order(pipeline::registered()),
        pipeline::moved_on(
            r.0.order(),
            old(ctx).manifest@.skip,
            0,
            old(ctx).records(),
            r.0.position(),
            r.0.stage(),
            final(ctx).records(),
            r.1,
        ),
        old(ctx).records().len() == 0 ==> pipeline::records_follow(
            final(ctx).records(),
            r.0.order(),
            r.0.position(),
        ),
        final(ctx).rootfs_path == old(ctx).rootfs_path,
        final(ctx).manifest == old(ctx).manifest,
        final(ctx).check_only == old(ctx).check_only,
{
    let mut runner = pipeline::Runner::new();
    let step = runner.next(ctx);
    (runner, step)
}

/// Every result is either passing or a failed check: the two counts of
/// `results` add up to the number of transforms recorded.
pub proof fn law_results_partition(rs: Seq<(Seq<char>, TransformResultV)>)
    ensures
        count_pass(rs) + count_fail(rs) == rs.len(),
    decreases rs.len(),
{
    if rs.len() > 0 {
        law_results_partition(rs.drop_last());
    }
}

} // verus!
