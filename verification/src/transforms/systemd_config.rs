//! systemd configuration: tmp.mount, presets, and a machine-id left for
//! first boot.

use vstd::prelude::*;

use super::{Phase, Transform};
use crate::rootfs::{
    info, owned, push_component, push_op, push_path, rel2, rel4, FsOp, FsOpV, PathV, ProbeV,
    RelPath, Snapshot,
};
use crate::text::{
    has_line, lemma_wrapped_ends, lemma_wrapped_item, occurs_at, wrapped_all, wrapped_all_exec,
};

verus! {

/// Enable tmp.mount, write the presets the manifest asks for, and empty
/// /etc/machine-id so that it is generated on first boot.
#[derive(Debug)]
pub struct SystemdConfig {
    /// Units the presets enable.
    pub enable_units: Vec<String>,
    /// Timers the presets disable.
    pub disable_timers: Vec<String>,
}

pub open spec fn unit_dir() -> PathV {
    seq!["usr"@, "lib"@, "systemd"@, "system"@]
}

pub open spec fn tmp_mount_unit() -> PathV {
    unit_dir().push("tmp.mount"@)
}

pub open spec fn local_fs_wants() -> PathV {
    unit_dir().push("local-fs.target.wants"@)
}

pub open spec fn tmp_mount_link() -> PathV {
    local_fs_wants().push("tmp.mount"@)
}

pub open spec fn preset_dir() -> PathV {
    seq!["usr"@, "lib"@, "systemd"@, "system-preset"@]
}

pub open spec fn preset_file() -> PathV {
    preset_dir().push("40-bootc-base.preset"@)
}

pub open spec fn machine_id() -> PathV {
    seq!["etc"@, "machine-id"@]
}

/// The presets: an `enable` line per unit, then a `disable` line per timer.
pub open spec fn preset_text(enable: Seq<Seq<char>>, disable: Seq<Seq<char>>) -> Seq<char> {
    wrapped_all(enable, "enable "@, "\n"@) + wrapped_all(disable, "disable "@, "\n"@)
}

/// tmp.mount is shipped but not wanted by local-fs.target yet.
pub open spec fn tmp_mount_needed(snap: Seq<ProbeV>) -> bool {
    info(snap, tmp_mount_unit()).exists && info(snap, tmp_mount_link()).lstat is None
}

/// /etc/machine-id is there and not known to be empty.
pub open spec fn machine_id_needed(snap: Seq<ProbeV>) -> bool {
    info(snap, machine_id()).lstat is Some && info(snap, machine_id()).text != Some(Seq::<char>::empty())
}

pub open spec fn systemd_probes() -> Seq<PathV> {
    seq![tmp_mount_unit(), tmp_mount_link(), preset_file(), machine_id()]
}

pub open spec fn systemd_check(snap: Seq<ProbeV>) -> Result<bool, Seq<char>> {
    Ok(!tmp_mount_needed(snap) && info(snap, preset_file()).exists && !machine_id_needed(snap))
}

pub open spec fn systemd_plan(snap: Seq<ProbeV>, enable: Seq<Seq<char>>, disable: Seq<Seq<char>>) -> Seq<FsOpV> {
    (if tmp_mount_needed(snap) {
        seq![
            FsOpV::CreateDirAll(local_fs_wants(), "creating local-fs.target.wants"@),
            FsOpV::Symlink("../tmp.mount"@, tmp_mount_link(), "enabling tmp.mount"@),
        ]
    } else {
        seq![]
    }) + seq![
        FsOpV::CreateDirAll(preset_dir(), "creating usr/lib/systemd/system-preset"@),
        FsOpV::WriteFile(preset_file(), preset_text(enable, disable), "writing 40-bootc-base.preset"@),
    ] + (if info(snap, machine_id()).lstat is Some {
        seq![FsOpV::WriteFile(machine_id(), ""@, "emptying etc/machine-id"@)]
    } else {
        seq![]
    })
}

proof fn lemma_line_in_sum(a: Seq<char>, b: Seq<char>, line: Seq<char>, p: int, in_b: bool)
    requires
        in_b ==> occurs_at(b, line, p) && (p == 0 || b[p - 1] == '\n') && (a.len() == 0 || a.last()
            == '\n'),
        !in_b ==> occurs_at(a, line, p) && (p == 0 || a[p - 1] == '\n'),
    ensures
        has_line(a + b, line),
{
    let s = a + b;
    if in_b {
        let q = a.len() + p;
        assert(s.subrange(q, q + line.len()) =~= b.subrange(p, p + line.len()));
        if q > 0 {
            if p > 0 {
                assert(s[q - 1] == b[p - 1]);
            } else {
                assert(s[q - 1] == a.last());
            }
        }
        assert(occurs_at(s, line, q) && (q == 0 || s[q - 1] == '\n'));
    } else {
        assert(s.subrange(p, p + line.len()) =~= a.subrange(p, p + line.len()));
        if p > 0 {
            assert(s[p - 1] == a[p - 1]);
        }
        assert(occurs_at(s, line, p) && (p == 0 || s[p - 1] == '\n'));
    }
}

/// What `systemd_config` writes: the preset file has a line `enable U`
/// for each unit U the manifest enables and `disable T` for each timer T
/// it disables; an existing etc/machine-id is emptied; tmp.mount, when
/// shipped and not yet wanted, is linked into local-fs.target.wants.
pub proof fn law_systemd_config_writes(
    snap: Seq<ProbeV>,
    enable: Seq<Seq<char>>,
    disable: Seq<Seq<char>>,
)
    ensures
        exists|i: int|
            0 <= i < systemd_plan(snap, enable, disable).len() && #[trigger] systemd_plan(
                snap,
                enable,
                disable,
            )[i] is WriteFile && systemd_plan(snap, enable, disable)[i]->WriteFile_0 == seq![
                "usr"@,
                "lib"@,
                "systemd"@,
                "system-preset"@,
                "40-bootc-base.preset"@,
            ],
        forall|i: int|
            0 <= i < systemd_plan(snap, enable, disable).len() && #[trigger] systemd_plan(
                snap,
                enable,
                disable,
            )[i] is WriteFile && systemd_plan(snap, enable, disable)[i]->WriteFile_0 == seq![
                "usr"@,
                "lib"@,
                "systemd"@,
                "system-preset"@,
                "40-bootc-base.preset"@,
            ] ==> (forall|k: int|
                0 <= k < enable.len() ==> has_line(
                    systemd_plan(snap, enable, disable)[i]->WriteFile_1,
                    "enable "@ + #[trigger] enable[k] + "\n"@,
                )) && (forall|k: int|
                0 <= k < disable.len() ==> has_line(
                    systemd_plan(snap, enable, disable)[i]->WriteFile_1,
                    "disable "@ + #[trigger] disable[k] + "\n"@,
                )),
        info(snap, seq!["etc"@, "machine-id"@]).lstat is Some ==> {
            let last = systemd_plan(snap, enable, disable).last();
            &&& last is WriteFile
            &&& last->WriteFile_0 == seq!["etc"@, "machine-id"@]
            &&& last->WriteFile_1 == Seq::<char>::empty()
        },
        (info(snap, seq!["usr"@, "lib"@, "systemd"@, "system"@, "tmp.mount"@]).exists && info(
            snap,
            seq!["usr"@, "lib"@, "systemd"@, "system"@, "local-fs.target.wants"@, "tmp.mount"@],
        ).lstat is None) ==> systemd_plan(snap, enable, disable).contains(
            FsOpV::Symlink(
                "../tmp.mount"@,
                seq!["usr"@, "lib"@, "systemd"@, "system"@, "local-fs.target.wants"@, "tmp.mount"@],
                "enabling tmp.mount"@,
            ),
        ),
{
    reveal_strlit("\n");
    reveal_strlit("");
    reveal_strlit("etc");
    reveal_strlit("usr");
    reveal_strlit("machine-id");
    reveal_strlit("40-bootc-base.preset");
    assert("machine-id"@.len() != "40-bootc-base.preset"@.len());
    let plan = systemd_plan(snap, enable, disable);
    let a: Seq<FsOpV> = if tmp_mount_needed(snap) {
        seq![
            FsOpV::CreateDirAll(local_fs_wants(), "creating local-fs.target.wants"@),
            FsOpV::Symlink("../tmp.mount"@, tmp_mount_link(), "enabling tmp.mount"@),
        ]
    } else {
        seq![]
    };
    let text = preset_text(enable, disable);
    let b = seq![
        FsOpV::CreateDirAll(preset_dir(), "creating usr/lib/systemd/system-preset"@),
        FsOpV::WriteFile(preset_file(), text, "writing 40-bootc-base.preset"@),
    ];
    let c: Seq<FsOpV> = if info(snap, machine_id()).lstat is Some {
        seq![FsOpV::WriteFile(machine_id(), ""@, "emptying etc/machine-id"@)]
    } else {
        seq![]
    };
    assert(plan == a + b + c);
    let wi = a.len() + 1int;
    assert(plan[wi] == b[1]);
    assert(tmp_mount_link() =~= seq!["usr"@, "lib"@, "systemd"@, "system"@, "local-fs.target.wants"@, "tmp.mount"@]);
    assert(tmp_mount_unit() =~= seq!["usr"@, "lib"@, "systemd"@, "system"@, "tmp.mount"@]);
    if tmp_mount_needed(snap) {
        assert(plan[1] == a[1]);
        assert(plan.contains(a[1]));
    }
    let ea = wrapped_all(enable, "enable "@, "\n"@);
    let db = wrapped_all(disable, "disable "@, "\n"@);
    assert(text == ea + db);
    assert forall|k: int| 0 <= k < enable.len() implies has_line(text, "enable "@ + #[trigger] enable[k] + "\n"@) by {
        let p = lemma_wrapped_item(enable, "enable "@, "\n"@, k);
        lemma_line_in_sum(ea, db, "enable "@ + enable[k] + "\n"@, p, false);
    }
    assert forall|k: int| 0 <= k < disable.len() implies has_line(text, "disable "@ + #[trigger] disable[k] + "\n"@) by {
        let p = lemma_wrapped_item(disable, "disable "@, "\n"@, k);
        lemma_wrapped_ends(enable, "enable "@, "\n"@);
        lemma_line_in_sum(ea, db, "disable "@ + disable[k] + "\n"@, p, true);
    }
    assert forall|i: int| 0 <= i < plan.len() && #[trigger] plan[i] is WriteFile && plan[i]->WriteFile_0
        == preset_file() implies i == wi by {
        if i < a.len() {
            assert(plan[i] == a[i]);
        } else if i < a.len() + 2 {
            assert(plan[i] == b[i - a.len()]);
        } else {
            assert(plan[i] == c[i - a.len() - 2]);
            assert(c[i - a.len() - 2]->WriteFile_0 == machine_id());
            assert(machine_id().len() != preset_file().len());
        }
    }
    assert(preset_file() =~= seq!["usr"@, "lib"@, "systemd"@, "system-preset"@, "40-bootc-base.preset"@]);
    if info(snap, machine_id()).lstat is Some {
        assert(plan.last() == c[0]);
        assert(""@ =~= Seq::<char>::empty());
    }
}

fn unit_path(name: &str) -> (r: RelPath)
    ensures
        r.deep_view() == unit_dir().push(name@),
{
    let mut r = rel4("usr", "lib", "systemd", "system");
    push_component(&mut r, name);
    assert(r.deep_view() =~= unit_dir().push(name@));
    r
}

fn tmp_mount_link_exec() -> (r: RelPath)
    ensures
        r.deep_view() == tmp_mount_link(),
{
    let mut r = unit_path("local-fs.target.wants");
    push_component(&mut r, "tmp.mount");
    assert(r.deep_view() =~= tmp_mount_link());
    r
}

fn preset_file_exec() -> (r: RelPath)
    ensures
        r.deep_view() == preset_file(),
{
    let mut r = rel4("usr", "lib", "systemd", "system-preset");
    push_component(&mut r, "40-bootc-base.preset");
    assert(r.deep_view() =~= preset_file());
    r
}

fn tmp_mount_needed_exec(snap: &Snapshot) -> (r: bool)
    ensures
        r == tmp_mount_needed(snap@),
{
    snap.exists_at(&unit_path("tmp.mount")) && snap.lstat_at(&tmp_mount_link_exec()).is_none()
}

fn machine_id_needed_exec(snap: &Snapshot) -> (r: bool)
    ensures
        r == machine_id_needed(snap@),
{
    let p = rel2("etc", "machine-id");
    if snap.lstat_at(&p).is_none() {
        return false;
    }
    match snap.text_at(&p) {
        Some(t) => {
            let n = t.unicode_len();
            proof {
                if n == 0 {
                    assert(t@ =~= Seq::<char>::empty());
                }
            }
            n != 0
        },
        None => true,
    }
}

impl Transform for SystemdConfig {
    open spec fn spec_name(&self) -> Seq<char> {
        "systemd_config"@
    }

    open spec fn spec_phase(&self) -> Phase {
        Phase::PreChroot
    }

    open spec fn spec_probes(&self, snap: Seq<ProbeV>) -> Seq<PathV> {
        systemd_probes()
    }

    open spec fn spec_check(&self, snap: Seq<ProbeV>) -> Result<bool, Seq<char>> {
        systemd_check(snap)
    }

    open spec fn spec_plan(&self, rootfs: Seq<char>, snap: Seq<ProbeV>) -> Seq<FsOpV> {
        systemd_plan(snap, self.enable_units.deep_view(), self.disable_timers.deep_view())
    }

    fn name(&self) -> (r: String) {
        owned("systemd_config")
    }

    fn phase(&self) -> (r: Phase) {
        Phase::PreChroot
    }

    fn probes(&self, snap: &Snapshot) -> (r: Vec<RelPath>) {
        let mut r: Vec<RelPath> = Vec::new();
        push_path(&mut r, unit_path("tmp.mount"));
        push_path(&mut r, tmp_mount_link_exec());
        push_path(&mut r, preset_file_exec());
        push_path(&mut r, rel2("etc", "machine-id"));
        assert(r.deep_view() =~= self.spec_probes(snap@));
        r
    }

    fn check(&self, snap: &Snapshot) -> (r: Result<bool, String>) {
        Ok(!tmp_mount_needed_exec(snap) && snap.exists_at(&preset_file_exec())
            && !machine_id_needed_exec(snap))
    }

    fn apply(&self, rootfs: &str, snap: &Snapshot) -> (r: Vec<FsOp>) {
        let mut ops: Vec<FsOp> = Vec::new();
        if tmp_mount_needed_exec(snap) {
            push_op(
                &mut ops,
                FsOp::CreateDirAll(unit_path("local-fs.target.wants"), owned("creating local-fs.target.wants")),
            );
            push_op(
                &mut ops,
                FsOp::Symlink(owned("../tmp.mount"), tmp_mount_link_exec(), owned("enabling tmp.mount")),
            );
        }
        let mut text = wrapped_all_exec(&self.enable_units, "enable ", "\n");
        let disable = wrapped_all_exec(&self.disable_timers, "disable ", "\n");
        text.append(disable.as_str());
        push_op(
            &mut ops,
            FsOp::CreateDirAll(
                rel4("usr", "lib", "systemd", "system-preset"),
                owned("creating usr/lib/systemd/system-preset"),
            ),
        );
        push_op(
            &mut ops,
            FsOp::WriteFile(preset_file_exec(), text, owned("writing 40-bootc-base.preset")),
        );
        if snap.lstat_at(&rel2("etc", "machine-id")).is_some() {
            push_op(
                &mut ops,
                FsOp::WriteFile(rel2("etc", "machine-id"), owned(""), owned("emptying etc/machine-id")),
            );
        }
        assert(ops.deep_view() =~= self.spec_plan(rootfs@, snap@));
        ops
    }
}

} // verus!
