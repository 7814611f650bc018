//! The pipeline: which transforms run, in which order, and what becomes of
//! each one's check and apply.

use vstd::prelude::*;

use super::boot_relocate::BootRelocate;
use super::chroot_ops::ChrootOps;
use super::cleanup::PostCleanup;
use super::dnf_config::DnfConfig;
use super::dracut_config::{dracut_check, dracut_plan, dracut_probes, DracutConfig};
use super::ostree_config::OstreeConfig;
use super::passwd::PasswdGenerate;
use super::rpmdb::RpmdbRelocate;
use super::symlinks::ToplevelSymlinks;
use super::systemd_config::{systemd_check, systemd_plan, systemd_probes, SystemdConfig};
use super::var_tmpfiles::VarTmpfiles;
use super::{
    check_view, Context, Phase, Transform, TransformResult, TransformResultV,
};
use crate::manifest::{ImageManifest, ManifestView};
use crate::rootfs::{concat, owned, FsOp, FsOpV, PathV, ProbeV, RelPath, Snapshot};
use crate::treefile::clone_strings;

verus! {

/// The transforms of the pipeline.
#[derive(Debug, Clone, Copy, PartialEq, Eq, Structural)]
pub enum TransformId {
    ToplevelSymlinks,
    VarTmpfiles,
    RpmdbRelocate,
    PasswdGenerate,
    OstreeConfig,
    DracutConfig,
    DnfConfig,
    SystemdConfig,
    ChrootOps,
    BootRelocate,
    PostCleanup,
}

/// The dracut transform with no options: its probes and check do not
/// depend on them.
fn plain_dracut() -> (r: DracutConfig)
    ensures
        r.extra_modules@.len() == 0,
{
    DracutConfig { extra_modules: Vec::new() }
}

/// The systemd transform with no options: its probes and check do not
/// depend on them.
fn plain_systemd() -> (r: SystemdConfig)
    ensures
        r.enable_units@.len() == 0,
        r.disable_timers@.len() == 0,
{
    SystemdConfig { enable_units: Vec::new(), disable_timers: Vec::new() }
}

impl TransformId {
    pub open spec fn spec_name(self) -> Seq<char> {
        match self {
            TransformId::ToplevelSymlinks => ToplevelSymlinks.spec_name(),
            TransformId::VarTmpfiles => VarTmpfiles.spec_name(),
            TransformId::RpmdbRelocate => RpmdbRelocate.spec_name(),
            TransformId::PasswdGenerate => PasswdGenerate.spec_name(),
            TransformId::OstreeConfig => OstreeConfig.spec_name(),
            TransformId::DracutConfig => "dracut_config"@,
            TransformId::DnfConfig => DnfConfig.spec_name(),
            TransformId::SystemdConfig => "systemd_config"@,
            TransformId::ChrootOps => ChrootOps.spec_name(),
            TransformId::BootRelocate => BootRelocate.spec_name(),
            TransformId::PostCleanup => PostCleanup.spec_name(),
        }
    }

    pub open spec fn spec_phase(self) -> Phase {
        match self {
            TransformId::ToplevelSymlinks => ToplevelSymlinks.spec_phase(),
            TransformId::VarTmpfiles => VarTmpfiles.spec_phase(),
            TransformId::RpmdbRelocate => RpmdbRelocate.spec_phase(),
            TransformId::PasswdGenerate => PasswdGenerate.spec_phase(),
            TransformId::OstreeConfig => OstreeConfig.spec_phase(),
            TransformId::DracutConfig => Phase::PreChroot,
            TransformId::DnfConfig => DnfConfig.spec_phase(),
            TransformId::SystemdConfig => Phase::PreChroot,
            TransformId::ChrootOps => ChrootOps.spec_phase(),
            TransformId::BootRelocate => BootRelocate.spec_phase(),
            TransformId::PostCleanup => PostCleanup.spec_phase(),
        }
    }

    pub open spec fn spec_probes(self, snap: Seq<ProbeV>) -> Seq<PathV> {
        match self {
            TransformId::ToplevelSymlinks => ToplevelSymlinks.spec_probes(snap),
            TransformId::VarTmpfiles => VarTmpfiles.spec_probes(snap),
            TransformId::RpmdbRelocate => RpmdbRelocate.spec_probes(snap),
            TransformId::PasswdGenerate => PasswdGenerate.spec_probes(snap),
            TransformId::OstreeConfig => OstreeConfig.spec_probes(snap),
            TransformId::DracutConfig => dracut_probes(),
            TransformId::DnfConfig => DnfConfig.spec_probes(snap),
            TransformId::SystemdConfig => systemd_probes(),
            TransformId::ChrootOps => ChrootOps.spec_probes(snap),
            TransformId::BootRelocate => BootRelocate.spec_probes(snap),
            TransformId::PostCleanup => PostCleanup.spec_probes(snap),
        }
    }

    pub open spec fn spec_check(self, snap: Seq<ProbeV>) -> Result<bool, Seq<char>> {
        match self {
            TransformId::ToplevelSymlinks => ToplevelSymlinks.spec_check(snap),
            TransformId::VarTmpfiles => VarTmpfiles.spec_check(snap),
            TransformId::RpmdbRelocate => RpmdbRelocate.spec_check(snap),
            TransformId::PasswdGenerate => PasswdGenerate.spec_check(snap),
            TransformId::OstreeConfig => OstreeConfig.spec_check(snap),
            TransformId::DracutConfig => dracut_check(snap),
            TransformId::DnfConfig => DnfConfig.spec_check(snap),
            TransformId::SystemdConfig => systemd_check(snap),
            TransformId::ChrootOps => ChrootOps.spec_check(snap),
            TransformId::BootRelocate => BootRelocate.spec_check(snap),
            TransformId::PostCleanup => PostCleanup.spec_check(snap),
        }
    }

    /// The operations that apply the transform, with the options of the
    /// manifest `mf`.
    pub open spec fn spec_plan(self, rootfs: Seq<char>, snap: Seq<ProbeV>, mf: ManifestView) -> Seq<FsOpV> {
        match self {
            TransformId::ToplevelSymlinks => ToplevelSymlinks.spec_plan(rootfs, snap),
            TransformId::VarTmpfiles => VarTmpfiles.spec_plan(rootfs, snap),
            TransformId::RpmdbRelocate => RpmdbRelocate.spec_plan(rootfs, snap),
            TransformId::PasswdGenerate => PasswdGenerate.spec_plan(rootfs, snap),
            TransformId::OstreeConfig => OstreeConfig.spec_plan(rootfs, snap),
            TransformId::DracutConfig => dracut_plan(snap, mf.dracut_extra_modules),
            TransformId::DnfConfig => DnfConfig.spec_plan(rootfs, snap),
            TransformId::SystemdConfig => systemd_plan(snap, mf.enable_units, mf.disable_timers),
            TransformId::ChrootOps => ChrootOps.spec_plan(rootfs, snap),
            TransformId::BootRelocate => BootRelocate.spec_plan(rootfs, snap),
            TransformId::PostCleanup => PostCleanup.spec_plan(rootfs, snap),
        }
    }

    pub fn name(&self) -> (r: String)
        ensures
            r@ == self.spec_name(),
    {
        match self {
            TransformId::ToplevelSymlinks => ToplevelSymlinks.name(),
            TransformId::VarTmpfiles => VarTmpfiles.name(),
            TransformId::RpmdbRelocate => RpmdbRelocate.name(),
            TransformId::PasswdGenerate => PasswdGenerate.name(),
            TransformId::OstreeConfig => OstreeConfig.name(),
            TransformId::DracutConfig => plain_dracut().name(),
            TransformId::DnfConfig => DnfConfig.name(),
            TransformId::SystemdConfig => plain_systemd().name(),
            TransformId::ChrootOps => ChrootOps.name(),
            TransformId::BootRelocate => BootRelocate.name(),
            TransformId::PostCleanup => PostCleanup.name(),
        }
    }

    pub fn phase(&self) -> (r: Phase)
        ensures
            r == self.spec_phase(),
    {
        match self {
            TransformId::ToplevelSymlinks => ToplevelSymlinks.phase(),
            TransformId::VarTmpfiles => VarTmpfiles.phase(),
            TransformId::RpmdbRelocate => RpmdbRelocate.phase(),
            TransformId::PasswdGenerate => PasswdGenerate.phase(),
            TransformId::OstreeConfig => OstreeConfig.phase(),
            TransformId::DracutConfig => plain_dracut().phase(),
            TransformId::DnfConfig => DnfConfig.phase(),
            TransformId::SystemdConfig => plain_systemd().phase(),
            TransformId::ChrootOps => ChrootOps.phase(),
            TransformId::BootRelocate => BootRelocate.phase(),
            TransformId::PostCleanup => PostCleanup.phase(),
        }
    }

    /// The paths the transform needs observed, given the snapshot so far.
    pub fn probes(&self, snap: &Snapshot) -> (r: Vec<RelPath>)
        ensures
            r.deep_view() == self.spec_probes(snap@),
    {
        match self {
            TransformId::ToplevelSymlinks => ToplevelSymlinks.probes(snap),
            TransformId::VarTmpfiles => VarTmpfiles.probes(snap),
            TransformId::RpmdbRelocate => RpmdbRelocate.probes(snap),
            TransformId::PasswdGenerate => PasswdGenerate.probes(snap),
            TransformId::OstreeConfig => OstreeConfig.probes(snap),
            TransformId::DracutConfig => plain_dracut().probes(snap),
            TransformId::DnfConfig => DnfConfig.probes(snap),
            TransformId::SystemdConfig => plain_systemd().probes(snap),
            TransformId::ChrootOps => ChrootOps.probes(snap),
            TransformId::BootRelocate => BootRelocate.probes(snap),
            TransformId::PostCleanup => PostCleanup.probes(snap),
        }
    }

    /// Whether the rootfs already satisfies the transform.
    pub fn check(&self, snap: &Snapshot) -> (r: Result<bool, String>)
        ensures
            check_view(r) == self.spec_check(snap@),
    {
        match self {
            TransformId::ToplevelSymlinks => ToplevelSymlinks.check(snap),
            TransformId::VarTmpfiles => VarTmpfiles.check(snap),
            TransformId::RpmdbRelocate => RpmdbRelocate.check(snap),
            TransformId::PasswdGenerate => PasswdGenerate.check(snap),
            TransformId::OstreeConfig => OstreeConfig.check(snap),
            TransformId::DracutConfig => plain_dracut().check(snap),
            TransformId::DnfConfig => DnfConfig.check(snap),
            TransformId::SystemdConfig => plain_systemd().check(snap),
            TransformId::ChrootOps => ChrootOps.check(snap),
            TransformId::BootRelocate => BootRelocate.check(snap),
            TransformId::PostCleanup => PostCleanup.check(snap),
        }
    }

    /// The operations that apply the transform, with the options of the
    /// manifest.
    pub fn apply(&self, rootfs: &str, snap: &Snapshot, manifest: &ImageManifest) -> (r: Vec<FsOp>)
        ensures
            r.deep_view() == self.spec_plan(rootfs@, snap@, manifest@),
    {
        match self {
            TransformId::ToplevelSymlinks => ToplevelSymlinks.apply(rootfs, snap),
            TransformId::VarTmpfiles => VarTmpfiles.apply(rootfs, snap),
            TransformId::RpmdbRelocate => RpmdbRelocate.apply(rootfs, snap),
            TransformId::PasswdGenerate => PasswdGenerate.apply(rootfs, snap),
            TransformId::OstreeConfig => OstreeConfig.apply(rootfs, snap),
            TransformId::DracutConfig => DracutConfig { extra_modules: clone_strings(&manifest.transforms.dracut.extra_modules) }.apply(rootfs, snap),
            TransformId::DnfConfig => DnfConfig.apply(rootfs, snap),
            TransformId::SystemdConfig => SystemdConfig { enable_units: clone_strings(&manifest.transforms.systemd.enable_units), disable_timers: clone_strings(&manifest.transforms.systemd.disable_timers) }.apply(rootfs, snap),
            TransformId::ChrootOps => ChrootOps.apply(rootfs, snap),
            TransformId::BootRelocate => BootRelocate.apply(rootfs, snap),
            TransformId::PostCleanup => PostCleanup.apply(rootfs, snap),
        }
    }
}

/// The transforms in the order they are registered.
pub open spec fn registered() -> Seq<TransformId> {
    seq![
        TransformId::ToplevelSymlinks,
        TransformId::VarTmpfiles,
        TransformId::RpmdbRelocate,
        TransformId::PasswdGenerate,
        TransformId::OstreeConfig,
        TransformId::DracutConfig,
        TransformId::DnfConfig,
        TransformId::SystemdConfig,
        TransformId::ChrootOps,
        TransformId::BootRelocate,
        TransformId::PostCleanup,
    ]
}

/// The transforms of one phase, in registration order.
pub open spec fn in_phase(ts: Seq<TransformId>, p: Phase) -> Seq<TransformId> {
    ts.filter(|t: TransformId| t.spec_phase() == p)
}

/// The order the pipeline runs in: the phases in turn, each in
/// registration order.
pub open spec fn pipeline_order(ts: Seq<TransformId>) -> Seq<TransformId> {
    in_phase(ts, Phase::PreChroot) + in_phase(ts, Phase::Chroot) + in_phase(ts, Phase::PostChroot)
}

proof fn lemma_in_phase_members(ts: Seq<TransformId>, p: Phase)
    ensures
        forall|i: int|
            0 <= i < in_phase(ts, p).len() ==> (#[trigger] in_phase(ts, p)[i]).spec_phase() == p,
{
    let keep = |t: TransformId| t.spec_phase() == p;
    assert forall|i: int| 0 <= i < in_phase(ts, p).len() implies (#[trigger] in_phase(
        ts,
        p,
    )[i]).spec_phase() == p by {
        ts.lemma_filter_pred(keep, i);
    }
}

proof fn lemma_in_phase_keeps(ts: Seq<TransformId>, p: Phase, t: TransformId)
    ensures
        in_phase(ts, p).contains(t) <==> (ts.contains(t) && t.spec_phase() == p),
{
    let keep = |t: TransformId| t.spec_phase() == p;
    if ts.contains(t) && t.spec_phase() == p {
        let i = choose|i: int| 0 <= i < ts.len() && ts[i] == t;
        ts.lemma_filter_contains(keep, i);
    }
    if in_phase(ts, p).contains(t) {
        ts.lemma_filter_contains_rev(keep, t);
        let i = choose|i: int| 0 <= i < in_phase(ts, p).len() && in_phase(ts, p)[i] == t;
        ts.lemma_filter_pred(keep, i);
    }
}

proof fn lemma_filter_all(s: Seq<TransformId>, keep: spec_fn(TransformId) -> bool, want: bool)
    requires
        forall|i: int| 0 <= i < s.len() ==> keep(#[trigger] s[i]) == want,
    ensures
        s.filter(keep) == (if want {
            s
        } else {
            Seq::<TransformId>::empty()
        }),
    decreases s.len(),
{
    reveal(Seq::filter);
    if s.len() > 0 {
        lemma_filter_all(s.drop_last(), keep, want);
        assert(keep(s[s.len() - 1]) == want);
        assert(s.drop_last().push(s.last()) =~= s);
    }
    assert(s.filter(keep) =~= (if want {
        s
    } else {
        Seq::<TransformId>::empty()
    }));
}

/// Within each phase, the transforms run in the order they are registered.
pub proof fn law_phase_keeps_registration_order(ts: Seq<TransformId>, p: Phase)
    ensures
        in_phase(pipeline_order(ts), p) == in_phase(ts, p),
{
    let keep = |t: TransformId| t.spec_phase() == p;
    let a = in_phase(ts, Phase::PreChroot);
    let b = in_phase(ts, Phase::Chroot);
    let c = in_phase(ts, Phase::PostChroot);
    lemma_in_phase_members(ts, Phase::PreChroot);
    lemma_in_phase_members(ts, Phase::Chroot);
    lemma_in_phase_members(ts, Phase::PostChroot);
    Seq::filter_distributes_over_add(a + b, c, keep);
    Seq::filter_distributes_over_add(a, b, keep);
    lemma_filter_all(a, keep, p == Phase::PreChroot);
    lemma_filter_all(b, keep, p == Phase::Chroot);
    lemma_filter_all(c, keep, p == Phase::PostChroot);
    assert(in_phase(pipeline_order(ts), p) =~= in_phase(ts, p));
}

/// Transforms run in three phases: in the pipeline's order a transform of
/// an earlier phase never comes after one of a later phase, every
/// registered transform runs, and no other.
pub proof fn law_pipeline_phase_order(ts: Seq<TransformId>)
    ensures
        forall|i: int, j: int|
            0 <= i < j < pipeline_order(ts).len() ==> (#[trigger] pipeline_order(ts)[i]).spec_phase().rank()
                <= (#[trigger] pipeline_order(ts)[j]).spec_phase().rank(),
        forall|t: TransformId| #[trigger] pipeline_order(ts).contains(t) <==> ts.contains(t),
{
    let a = in_phase(ts, Phase::PreChroot);
    let b = in_phase(ts, Phase::Chroot);
    let c = in_phase(ts, Phase::PostChroot);
    lemma_in_phase_members(ts, Phase::PreChroot);
    lemma_in_phase_members(ts, Phase::Chroot);
    lemma_in_phase_members(ts, Phase::PostChroot);
    let o = pipeline_order(ts);
    assert(o == a + b + c);
    assert forall|i: int| 0 <= i < o.len() implies #[trigger] o[i].spec_phase().rank() == (if i
        < a.len() {
        0int
    } else if i < a.len() + b.len() {
        1int
    } else {
        2int
    }) by {
        if i < a.len() {
            assert(o[i] == a[i]);
        } else if i < a.len() + b.len() {
            assert(o[i] == b[i - a.len()]);
        } else {
            assert(o[i] == c[i - a.len() - b.len()]);
        }
    }
    assert forall|t: TransformId| #[trigger] o.contains(t) <==> ts.contains(t) by {
        lemma_in_phase_keeps(ts, Phase::PreChroot, t);
        lemma_in_phase_keeps(ts, Phase::Chroot, t);
        lemma_in_phase_keeps(ts, Phase::PostChroot, t);
        if o.contains(t) {
            let i = choose|i: int| 0 <= i < o.len() && o[i] == t;
            if i < a.len() {
                assert(a[i] == t);
                assert(a.contains(t));
            } else if i < a.len() + b.len() {
                assert(b[i - a.len()] == t);
                assert(b.contains(t));
            } else {
                assert(c[i - a.len() - b.len()] == t);
                assert(c.contains(t));
            }
        }
        if ts.contains(t) {
            match t.spec_phase() {
                Phase::PreChroot => {
                    let k = choose|k: int| 0 <= k < a.len() && a[k] == t;
                    assert(o[k] == t);
                },
                Phase::Chroot => {
                    let k = choose|k: int| 0 <= k < b.len() && b[k] == t;
                    assert(o[a.len() + k] == t);
                },
                Phase::PostChroot => {
                    let k = choose|k: int| 0 <= k < c.len() && c[k] == t;
                    assert(o[a.len() + b.len() + k] == t);
                },
            }
        }
    }
}

/// The registered transforms.
pub fn all_transforms() -> (r: Vec<TransformId>)
    ensures
        r@ == registered(),
{
    let v = vec![
        TransformId::ToplevelSymlinks,
        TransformId::VarTmpfiles,
        TransformId::RpmdbRelocate,
        TransformId::PasswdGenerate,
        TransformId::OstreeConfig,
        TransformId::DracutConfig,
        TransformId::DnfConfig,
        TransformId::SystemdConfig,
        TransformId::ChrootOps,
        TransformId::BootRelocate,
        TransformId::PostCleanup,
    ];
    assert(v@ =~= registered());
    v
}

/// The transforms in the order the pipeline runs them.
pub fn ordered_transforms() -> (r: Vec<TransformId>)
    ensures
        r@ == pipeline_order(registered()),
{
    let all = all_transforms();
    let ghost ts = all@;
    let mut r: Vec<TransformId> = Vec::new();
    let phases = [Phase::PreChroot, Phase::Chroot, Phase::PostChroot];
    let ghost ps = seq![Phase::PreChroot, Phase::Chroot, Phase::PostChroot];
    assert(phases@ =~= ps);
    let ghost done: Seq<TransformId> = Seq::empty();
    for k in 0..3
        invariant
            ts == all@,
            phases@ == ps,
            ps == seq![Phase::PreChroot, Phase::Chroot, Phase::PostChroot],
            r@ == (if k == 0 {
                Seq::<TransformId>::empty()
            } else if k == 1 {
                in_phase(ts, Phase::PreChroot)
            } else if k == 2 {
                in_phase(ts, Phase::PreChroot) + in_phase(ts, Phase::Chroot)
            } else {
                pipeline_order(ts)
            }),
    {
        let phase = phases[k];
        let ghost start = r@;
        let ghost keep = |t: TransformId| t.spec_phase() == phase;
        assert(ts.take(0).filter(keep) =~= Seq::<TransformId>::empty()) by {
            reveal(Seq::filter);
        }
        for i in 0..all.len()
            invariant
                ts == all@,
                keep == (|t: TransformId| t.spec_phase() == phase),
                r@ == start + ts.take(i as int).filter(keep),
        {
            let t = all[i];
            if t.phase() == phase {
                r.push(t);
            }
            proof {
                reveal(Seq::filter);
                assert(ts.take(i + 1).drop_last() =~= ts.take(i as int));
                assert(ts.take(i + 1).last() == t);
            }
            assert(r@ =~= start + ts.take(i + 1).filter(keep));
        }
        assert(ts.take(all.len() as int) =~= ts);
        assert(r@ == start + in_phase(ts, phase));
    }
    r
}

/// What the pipeline asks for next.
#[derive(Debug)]
pub enum Step {
    /// Observe and check this transform, then report with `checked`.
    Check(TransformId),
    /// Apply this transform, then report with `applied`.
    Apply(TransformId),
    /// Every transform was dealt with.
    Finished,
    /// A transform failed to apply; the pipeline stops with this error.
    Failed(String),
}

/// Where the pipeline stands.
#[derive(Debug, Clone, Copy, PartialEq, Eq, Structural)]
pub enum Stage {
    /// Between transforms: `next` moves on.
    Between,
    /// Waiting for the check of the current transform.
    AwaitCheck,
    /// Waiting for the apply of the current transform.
    AwaitApply,
    /// Finished or failed.
    Done,
}

/// The pipeline: runs all transforms in phase order. For each, a skipped
/// one is recorded as such; otherwise it is checked, and only applied when
/// the check says it is needed and the run is not a dry run.
#[derive(Debug)]
pub struct Runner {
    order: Vec<TransformId>,
    pos: usize,
    stage: Stage,
}

/// The index of the first transform at or after `from` that the skip list
/// does not name (the length of `order` when there is none).
pub open spec fn first_unskipped(order: Seq<TransformId>, skip: Seq<Seq<char>>, from: int) -> int
    decreases order.len() - from,
{
    if from >= order.len() {
        order.len() as int
    } else if skip.contains(order[from].spec_name()) {
        first_unskipped(order, skip, from + 1)
    } else {
        from
    }
}

/// The records of the transforms skipped from `from` up to `to`.
pub open spec fn skipped_records(order: Seq<TransformId>, from: int, to: int) -> Seq<
    (Seq<char>, TransformResultV),
>
    decreases to - from,
{
    if from >= to {
        seq![]
    } else {
        seq![(order[from].spec_name(), TransformResultV::Skipped("skipped by manifest"@))]
            + skipped_records(order, from + 1, to)
    }
}

proof fn lemma_first_unskipped_range(order: Seq<TransformId>, skip: Seq<Seq<char>>, from: int)
    requires
        0 <= from <= order.len(),
    ensures
        from <= first_unskipped(order, skip, from) <= order.len(),
        first_unskipped(order, skip, from) < order.len() ==> !skip.contains(
            order[first_unskipped(order, skip, from)].spec_name(),
        ),
        forall|j: int|
            from <= j < first_unskipped(order, skip, from) ==> skip.contains(
                #[trigger] order[j].spec_name(),
            ),
    decreases order.len() - from,
{
    if from < order.len() && skip.contains(order[from].spec_name()) {
        lemma_first_unskipped_range(order, skip, from + 1);
    }
}

proof fn lemma_skipped_records_push(order: Seq<TransformId>, from: int, to: int)
    requires
        0 <= from <= to < order.len(),
    ensures
        skipped_records(order, from, to + 1) == skipped_records(order, from, to).push(
            (order[to].spec_name(), TransformResultV::Skipped("skipped by manifest"@)),
        ),
    decreases to - from,
{
    if from < to {
        lemma_skipped_records_push(order, from + 1, to);
        assert(skipped_records(order, from, to + 1) =~= skipped_records(order, from, to).push(
            (order[to].spec_name(), TransformResultV::Skipped("skipped by manifest"@)),
        ));
    } else {
        assert(skipped_records(order, from + 1, to + 1) =~= Seq::<
            (Seq<char>, TransformResultV),
        >::empty());
        assert(skipped_records(order, from, to + 1) =~= seq![
            (order[to].spec_name(), TransformResultV::Skipped("skipped by manifest"@)),
        ]);
    }
}

/// The pipeline moved on from position `from`, having recorded `recs`
/// before: the transforms the manifest skips are recorded as skipped, and
/// the check of the next one is asked for (`Finished` when none is left).
pub open spec fn moved_on(
    order: Seq<TransformId>,
    skip: Seq<Seq<char>>,
    from: int,
    recs: Seq<(Seq<char>, TransformResultV)>,
    pos: int,
    stage: Stage,
    final_recs: Seq<(Seq<char>, TransformResultV)>,
    r: Step,
) -> bool {
    let k = first_unskipped(order, skip, from);
    &&& pos == k
    &&& final_recs == recs + skipped_records(order, from, k)
    &&& if k < order.len() {
        &&& r matches Step::Check(t) && t == order[k]
        &&& stage == Stage::AwaitCheck
    } else {
        &&& r is Finished
        &&& stage == Stage::Done
    }
}

/// The results recorded are those of the transforms before position
/// `pos` of the order: one each, in that order.
pub open spec fn records_follow(
    recs: Seq<(Seq<char>, TransformResultV)>,
    order: Seq<TransformId>,
    pos: int,
) -> bool {
    &&& recs.len() == pos
    &&& forall|i: int| 0 <= i < pos ==> #[trigger] recs[i].0 == order[i].spec_name()
}

proof fn lemma_skipped_records_follow(
    order: Seq<TransformId>,
    recs: Seq<(Seq<char>, TransformResultV)>,
    from: int,
    to: int,
)
    requires
        0 <= from <= to <= order.len(),
        records_follow(recs, order, from),
    ensures
        records_follow(recs + skipped_records(order, from, to), order, to),
    decreases to - from,
{
    if from < to {
        let head = seq![(order[from].spec_name(), TransformResultV::Skipped("skipped by manifest"@))];
        let recs1 = recs + head;
        assert(records_follow(recs1, order, from + 1)) by {
            assert forall|i: int| 0 <= i < from + 1 implies #[trigger] recs1[i].0 == order[i].spec_name() by {
                if i < from {
                    assert(recs1[i] == recs[i]);
                }
            }
        }
        lemma_skipped_records_follow(order, recs1, from + 1, to);
        assert(recs + skipped_records(order, from, to) =~= recs1 + skipped_records(order, from + 1, to));
    } else {
        assert(skipped_records(order, from, to) =~= Seq::<(Seq<char>, TransformResultV)>::empty());
        assert(recs + skipped_records(order, from, to) =~= recs);
    }
}

/// Whether `name` is one of `names`.
pub fn contains_name(names: &Vec<String>, name: &String) -> (r: bool)
    ensures
        r == names.deep_view().contains(name@),
{
    for i in 0..names.len()
        invariant
            forall|j: int| 0 <= j < i ==> names.deep_view()[j] != name@,
    {
        if names[i] == *name {
            assert(names.deep_view()[i as int] == name@);
            return true;
        }
    }
    false
}

impl Runner {
    pub closed spec fn order(&self) -> Seq<TransformId> {
        self.order@
    }

    /// The position of the current transform in the order.
    pub closed spec fn position(&self) -> int {
        self.pos as int
    }

    pub closed spec fn stage(&self) -> Stage {
        self.stage
    }

    pub closed spec fn wf(&self) -> bool {
        &&& self.order@ == pipeline_order(registered())
        &&& self.pos <= self.order@.len()
        &&& (self.stage is AwaitCheck || self.stage is AwaitApply) ==> self.pos < self.order@.len()
    }

    /// The transform currently checked or applied.
    pub closed spec fn current(&self) -> TransformId {
        self.order@[self.pos as int]
    }

    pub fn new() -> (r: Runner)
        ensures
            r.wf(),
            r.order() == pipeline_order(registered()),
            r.position() == 0,
            r.stage() == Stage::Between,
    {
        Runner { order: ordered_transforms(), pos: 0, stage: Stage::Between }
    }

    /// Moves on from the current position: records every transform that
    /// the manifest skips, and asks for the check of the first that it does
    /// not skip; `Finished` when none is left.
    pub fn next(&mut self, ctx: &mut Context) -> (r: Step)
        requires
            old(self).wf(),
            old(self).stage() == Stage::Between,
        ensures
            final(self).wf(),
            final(self).order() == old(self).order(),
            moved_on(
                old(self).order(),
                old(ctx).manifest@.skip,
                old(self).position(),
                old(ctx).records(),
                final(self).position(),
                final(self).stage(),
                final(ctx).records(),
                r,
            ),
            r matches Step::Check(t) ==> !old(ctx).manifest@.skip.contains(t.spec_name()),
            records_follow(old(ctx).records(), old(self).order(), old(self).position())
                ==> records_follow(final(ctx).records(), final(self).order(), final(self).position()),
            r is Finished ==> final(self).position() == final(self).order().len(),
            final(ctx).rootfs_path == old(ctx).rootfs_path,
            final(ctx).manifest == old(ctx).manifest,
            final(ctx).check_only == old(ctx).check_only,
    {
        let ghost start = self.pos as int;
        let ghost recs0 = ctx.records();
        let ghost skip = ctx.manifest@.skip;
        let ghost order = self.order@;
        let ghost mf = ctx.manifest;
        proof {
            lemma_first_unskipped_range(order, skip, start);
        }
        assert(recs0 + skipped_records(order, start, start) =~= recs0);
        while self.pos < self.order.len()
            invariant
                self.wf(),
                self.order@ == order,
                order == old(self).order@,
                start == old(self).pos,
                start <= self.pos,
                first_unskipped(order, skip, start) == first_unskipped(order, skip, self.pos as int),
                ctx.records() == recs0 + skipped_records(order, start, self.pos as int),
                ctx.manifest == mf,
                mf == old(ctx).manifest,
                recs0 == old(ctx).records(),
                mf@.skip == skip,
                ctx.rootfs_path == old(ctx).rootfs_path,
                ctx.check_only == old(ctx).check_only,
                self.stage == Stage::Between,
            decreases self.order.len() - self.pos,
        {
            let t = self.order[self.pos];
            let name = t.name();
            if !contains_name(&ctx.manifest.transforms.skip, &name) {
                self.stage = Stage::AwaitCheck;
                proof {
                    if records_follow(recs0, order, start) {
                        lemma_skipped_records_follow(order, recs0, start, self.pos as int);
                    }
                }
                return Step::Check(t);
            }
            proof {
                lemma_skipped_records_push(order, start, self.pos as int);
            }
            ctx.record(name, TransformResult::Skipped(owned("skipped by manifest")));
            assert(ctx.records() =~= recs0 + skipped_records(order, start, self.pos + 1));
            self.pos = self.pos + 1;
        }
        self.stage = Stage::Done;
        proof {
            if records_follow(recs0, order, start) {
                lemma_skipped_records_follow(order, recs0, start, self.pos as int);
            }
        }
        Step::Finished
    }

    /// Takes the outcome of the current transform's check: already correct,
    /// or a failed check, is recorded and the pipeline moves on; a needed
    /// transform is recorded as a failed check in a dry run, and otherwise
    /// its apply is asked for.
    pub fn checked(&mut self, ctx: &mut Context, outcome: Result<bool, String>) -> (r: Step)
        requires
            old(self).wf(),
            old(self).stage() == Stage::AwaitCheck,
        ensures
            final(self).wf(),
            final(self).order() == old(self).order(),
            final(ctx).rootfs_path == old(ctx).rootfs_path,
            final(ctx).manifest == old(ctx).manifest,
            final(ctx).check_only == old(ctx).check_only,
            ({
                let t = old(self).current();
                let rec = match outcome {
                    Ok(true) => TransformResultV::AlreadyCorrect,
                    Ok(false) => TransformResultV::CheckFailed("needs apply"@),
                    Err(e) => TransformResultV::CheckFailed(e@),
                };
                if outcome == Ok::<bool, String>(false) && !old(ctx).check_only {
                    &&& r matches Step::Apply(a) && a == t
                    &&& final(self).stage() == Stage::AwaitApply
                    &&& final(self).position() == old(self).position()
                    &&& final(ctx).records() == old(ctx).records()
                } else {
                    moved_on(
                        old(self).order(),
                        old(ctx).manifest@.skip,
                        old(self).position() + 1,
                        old(ctx).records().push((t.spec_name(), rec)),
                        final(self).position(),
                        final(self).stage(),
                        final(ctx).records(),
                        r,
                    )
                }
            }),
            old(ctx).check_only ==> !(r is Apply),
            r matches Step::Check(t) ==> !old(ctx).manifest@.skip.contains(t.spec_name()),
            records_follow(old(ctx).records(), old(self).order(), old(self).position())
                ==> records_follow(final(ctx).records(), final(self).order(), final(self).position()),
            r is Finished ==> final(self).position() == final(self).order().len(),
    {
        let t = self.order[self.pos];
        let name = t.name();
        match outcome {
            Ok(true) => {
                ctx.record(name, TransformResult::AlreadyCorrect);
            },
            Ok(false) => {
                if ctx.check_only {
                    ctx.record(name, TransformResult::CheckFailed(owned("needs apply")));
                } else {
                    self.stage = Stage::AwaitApply;
                    return Step::Apply(t);
                }
            },
            Err(e) => {
                ctx.record(name, TransformResult::CheckFailed(e));
            },
        }
        self.pos = self.pos + 1;
        self.stage = Stage::Between;
        self.next(ctx)
    }

    /// Takes the outcome of the current transform's apply: success is
    /// recorded and the pipeline moves on; a failure stops the pipeline
    /// with "transform NAME failed: ERROR".
    pub fn applied(&mut self, ctx: &mut Context, outcome: Result<(), String>) -> (r: Step)
        requires
            old(self).wf(),
            old(self).stage() == Stage::AwaitApply,
        ensures
            final(self).wf(),
            final(self).order() == old(self).order(),
            final(ctx).rootfs_path == old(ctx).rootfs_path,
            final(ctx).manifest == old(ctx).manifest,
            final(ctx).check_only == old(ctx).check_only,
            ({
                let t = old(self).current();
                match outcome {
                    Ok(()) => moved_on(
                        old(self).order(),
                        old(ctx).manifest@.skip,
                        old(self).position() + 1,
                        old(ctx).records().push((t.spec_name(), TransformResultV::Applied)),
                        final(self).position(),
                        final(self).stage(),
                        final(ctx).records(),
                        r,
                    ),
                    Err(e) => {
                        &&& final(self).stage() == Stage::Done
                        &&& final(ctx).records() == old(ctx).records()
                        &&& r matches Step::Failed(m) && m@ == "transform "@ + t.spec_name()
                            + " failed: "@ + e@
                    },
                }
            }),
            r matches Step::Check(t) ==> !old(ctx).manifest@.skip.contains(t.spec_name()),
            records_follow(old(ctx).records(), old(self).order(), old(self).position())
                ==> records_follow(final(ctx).records(), final(self).order(), final(self).position()),
            r is Finished ==> final(self).position() == final(self).order().len(),
    {
        let t = self.order[self.pos];
        let name = t.name();
        match outcome {
            Ok(()) => {
                ctx.record(name, TransformResult::Applied);
                self.pos = self.pos + 1;
                self.stage = Stage::Between;
                self.next(ctx)
            },
            Err(e) => {
                self.stage = Stage::Done;
                let mut m = concat("transform ", name.as_str());
                m.append(" failed: ");
                m.append(e.as_str());
                Step::Failed(m)
            },
        }
    }
}

} // verus!
