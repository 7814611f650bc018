//! What the configuration transforms' checks find once their operations
//! have been carried out, on the model of the rootfs.

use vstd::prelude::*;

use super::dnf_config::{
    dnf4_limited, dnf4_needed, dnf4_text, dnf5_bin, dnf5_dropin, dnf5_dropin_dir, dnf5_needed,
    dnf_conf, dnf_plan, limit_line, DnfConfig,
};
use super::dracut_config::{dracut_check, dracut_conf, dracut_plan, dracut_probes};
use super::effects::{
    agrees, lemma_not_prefix, lemma_run_append, lemma_run_frame, lemma_run_last, observes,
    run_ops, touches, ModelFs, ModelNode,
};
use super::systemd_config::{
    local_fs_wants, machine_id, machine_id_needed, preset_dir, preset_file, preset_text,
    systemd_check, systemd_plan, systemd_probes, tmp_mount_link, tmp_mount_needed,
    tmp_mount_unit,
};
use super::var_tmpfiles::{
    home_conf, law_provision_fix_idempotent, provision_conf, provision_fixed, provision_needed,
    tmpfiles_dir, var_conf, var_conf_text, var_tmpfiles_plan, VarTmpfiles,
};
use super::Transform;
use crate::rootfs::{info, FsOpV, ProbeV};
use crate::text::occurs_at;

verus! {

/// Once the operations of `dracut_config` have been carried out, its check
/// finds the configuration written.
pub proof fn law_dracut_config_done_after_apply(
    snap: Seq<ProbeV>,
    extra: Seq<Seq<char>>,
    m: ModelFs,
    m2: ModelFs,
    snap2: Seq<ProbeV>,
)
    requires
        run_ops(m, dracut_plan(snap, extra)) == Some(m2),
        observes(snap2, m2, dracut_probes()),
    ensures
        dracut_check(snap2) == Ok::<bool, Seq<char>>(true),
{
    let plan = dracut_plan(snap, extra);
    lemma_run_last(m, plan);
    assert(plan.drop_last() =~= seq![plan[0]]);
    reveal_with_fuel(run_ops, 2);
    assert(m2.contains_key(dracut_conf()));
    assert(agrees(info(snap2, dracut_probes()[0]), m2, dracut_conf()));
}


/// Once the operations of `systemd_config` have been carried out, its
/// check finds tmp.mount wanted, the presets written and the machine-id
/// empty, provided tmp.mount's unit is not a symlink (whose existence the
/// model does not follow).
pub proof fn law_systemd_config_done_after_apply(
    snap: Seq<ProbeV>,
    enable: Seq<Seq<char>>,
    disable: Seq<Seq<char>>,
    m: ModelFs,
    m2: ModelFs,
    snap2: Seq<ProbeV>,
)
    requires
        observes(snap, m, systemd_probes()),
        run_ops(m, systemd_plan(snap, enable, disable)) == Some(m2),
        observes(snap2, m2, systemd_probes()),
        !(m.contains_key(tmp_mount_unit()) && m[tmp_mount_unit()] is Link),
    ensures
        systemd_check(snap2) == Ok::<bool, Seq<char>>(true),
{
    reveal_strlit("usr");
    reveal_strlit("etc");
    reveal_strlit("system");
    reveal_strlit("system-preset");
    reveal_strlit("tmp.mount");
    reveal_strlit("local-fs.target.wants");
    reveal_strlit("40-bootc-base.preset");
    reveal_strlit("machine-id");
    let u = tmp_mount_unit();
    let l = tmp_mount_link();
    let pf = preset_file();
    let mid = machine_id();
    let w = local_fs_wants();
    let pd = preset_dir();
    let a: Seq<FsOpV> = if tmp_mount_needed(snap) {
        seq![
            FsOpV::CreateDirAll(local_fs_wants(), "creating local-fs.target.wants"@),
            FsOpV::Symlink("../tmp.mount"@, tmp_mount_link(), "enabling tmp.mount"@),
        ]
    } else {
        seq![]
    };
    let b = seq![
        FsOpV::CreateDirAll(preset_dir(), "creating usr/lib/systemd/system-preset"@),
        FsOpV::WriteFile(preset_file(), preset_text(enable, disable), "writing 40-bootc-base.preset"@),
    ];
    let c: Seq<FsOpV> = if info(snap, machine_id()).lstat is Some {
        seq![FsOpV::WriteFile(machine_id(), ""@, "emptying etc/machine-id"@)]
    } else {
        seq![]
    };
    let plan = systemd_plan(snap, enable, disable);
    assert(plan == a + b + c);
    lemma_run_append(m, a + b, c);
    lemma_run_append(m, a, b);
    let ma = run_ops(m, a)->0;
    let mb = run_ops(ma, b)->0;
    // The paths are apart from one another.
    assert("system"@.len() != "system-preset"@.len());
    assert("tmp.mount"@.len() != "local-fs.target.wants"@.len());
    assert("usr"@[0] != "etc"@[0]);
    lemma_not_prefix(u, w, 4);
    lemma_not_prefix(u, pd, 3);
    lemma_not_prefix(l, pd, 3);
    lemma_not_prefix(mid, w, 0);
    lemma_not_prefix(mid, pd, 0);
    assert(u != pf && l != pf && mid != pf && mid != l && u != l);
    assert(u[3] != pf[3]);
    assert forall|i: int| 0 <= i < b.len() implies !touches(#[trigger] b[i], u) && !touches(b[i], l)
        && !touches(b[i], mid) by {}
    assert forall|i: int| 0 <= i < c.len() implies !touches(#[trigger] c[i], u) && !touches(c[i], l)
        && !touches(c[i], pf) by {}
    assert forall|i: int| 0 <= i < a.len() implies !touches(#[trigger] a[i], u) && !touches(a[i], mid)
        by {}
    lemma_run_frame(ma, b, u);
    lemma_run_frame(ma, b, l);
    lemma_run_frame(ma, b, mid);
    lemma_run_frame(mb, c, u);
    lemma_run_frame(mb, c, l);
    lemma_run_frame(mb, c, pf);
    lemma_run_frame(m, a, u);
    lemma_run_frame(m, a, mid);
    let ps = systemd_probes();
    assert(agrees(info(snap, ps[0]), m, u));
    assert(agrees(info(snap, ps[1]), m, l));
    assert(agrees(info(snap, ps[3]), m, mid));
    assert(agrees(info(snap2, ps[0]), m2, u));
    assert(agrees(info(snap2, ps[1]), m2, l));
    assert(agrees(info(snap2, ps[2]), m2, pf));
    assert(agrees(info(snap2, ps[3]), m2, mid));
    // The presets.
    lemma_run_last(ma, b);
    assert(b.drop_last() =~= seq![b[0]]);
    reveal_with_fuel(run_ops, 2);
    assert(mb.contains_key(pf));
    // tmp.mount.
    if tmp_mount_needed(snap) {
        lemma_run_last(m, a);
        assert(a.drop_last() =~= seq![a[0]]);
        assert(ma.contains_key(l));
    }
    // The machine-id.
    if info(snap, machine_id()).lstat is Some {
        lemma_run_last(mb, c);
        assert(c.drop_last() =~= Seq::<FsOpV>::empty());
        assert(m2[mid] == ModelNode::File(""@));
        reveal_strlit("");
        assert(""@ =~= Seq::<char>::empty());
    }
    assert(!machine_id_needed(snap2));
    assert(!tmp_mount_needed(snap2));
}


/// dnf.conf with the limit appended holds the limit.
pub proof fn lemma_dnf4_text_limited(t: Seq<char>)
    ensures
        dnf4_limited(dnf4_text(t)),
{
    reveal_strlit("\n");
    reveal_strlit("");
    reveal_strlit("installonly_limit=1\n");
    let nl = "\n"@;
    let pat = nl + limit_line();
    let s = nl + dnf4_text(t);
    let k = pat.len() as int;
    if t.len() > 0 && t.last() != '\n' {
        assert(dnf4_text(t) == t + nl + limit_line());
        let i = 1 + t.len() as int;
        assert(s.subrange(i, i + k) =~= pat);
        assert(occurs_at(s, pat, i));
    } else if t.len() == 0 {
        assert(dnf4_text(t) =~= limit_line());
        assert(s.subrange(0, k) =~= pat);
        assert(occurs_at(s, pat, 0));
    } else {
        assert(dnf4_text(t) =~= t + limit_line());
        let i = t.len() as int;
        assert(s[i] == t[i - 1]);
        assert(s.subrange(i, i + k) =~= pat);
        assert(occurs_at(s, pat, i));
    }
}

/// Once the operations of `dnf_config` have been carried out, its check
/// finds the kernel limit set, provided the files it reads are not
/// symlinks (which the model does not follow).
pub proof fn law_dnf_config_done_after_apply(
    rootfs: Seq<char>,
    snap: Seq<ProbeV>,
    m: ModelFs,
    m2: ModelFs,
    snap2: Seq<ProbeV>,
)
    requires
        observes(snap, m, DnfConfig.spec_probes(snap)),
        run_ops(m, DnfConfig.spec_plan(rootfs, snap)) == Some(m2),
        observes(snap2, m2, DnfConfig.spec_probes(snap2)),
        forall|i: int|
            0 <= i < DnfConfig.spec_probes(snap).len() ==> !(m.contains_key(
                #[trigger] DnfConfig.spec_probes(snap)[i],
            ) && m[DnfConfig.spec_probes(snap)[i]] is Link),
    ensures
        DnfConfig.spec_check(snap2) == Ok::<bool, Seq<char>>(true),
{
    reveal_strlit("etc");
    reveal_strlit("usr");
    reveal_strlit("dnf.conf");
    reveal_strlit("libdnf5.conf.d");
    let conf = dnf_conf();
    let bin = dnf5_bin();
    let drop = dnf5_dropin();
    let dd = dnf5_dropin_dir();
    let ps = DnfConfig.spec_probes(snap);
    assert(!(m.contains_key(ps[0]) && m[ps[0]] is Link));
    assert(!(m.contains_key(ps[1]) && m[ps[1]] is Link));
    assert(!(m.contains_key(ps[2]) && m[ps[2]] is Link));
    assert(agrees(info(snap, ps[0]), m, conf));
    assert(agrees(info(snap, ps[1]), m, bin));
    assert(agrees(info(snap, ps[2]), m, drop));
    assert(agrees(info(snap2, ps[0]), m2, conf));
    assert(agrees(info(snap2, ps[1]), m2, bin));
    assert(agrees(info(snap2, ps[2]), m2, drop));
    let a: Seq<FsOpV> = match info(snap, dnf_conf()).text {
        Some(t) => if !dnf4_limited(t) {
            seq![FsOpV::WriteFile(dnf_conf(), dnf4_text(t), "writing etc/dnf/dnf.conf"@)]
        } else {
            seq![]
        },
        None => seq![],
    };
    let b: Seq<FsOpV> = if dnf5_needed(snap) {
        seq![
            FsOpV::CreateDirAll(dnf5_dropin_dir(), "creating etc/dnf/libdnf5.conf.d"@),
            FsOpV::WriteFile(
                dnf5_dropin(),
                "[main]\n"@ + limit_line(),
                "writing etc/dnf/libdnf5.conf.d/20-bootc-installonly.conf"@,
            ),
        ]
    } else {
        seq![]
    };
    assert(dnf_plan(snap) == a + b);
    lemma_run_append(m, a, b);
    let ma = run_ops(m, a)->0;
    assert("dnf.conf"@.len() != "libdnf5.conf.d"@.len());
    assert("etc"@[0] != "usr"@[0]);
    lemma_not_prefix(conf, dd, 2);
    lemma_not_prefix(bin, dd, 0);
    lemma_not_prefix(bin, conf, 0);
    lemma_not_prefix(drop, conf, 2);
    assert forall|i: int| 0 <= i < a.len() implies !touches(#[trigger] a[i], bin) && !touches(a[i], drop)
        by {}
    assert forall|i: int| 0 <= i < b.len() implies !touches(#[trigger] b[i], bin) && !touches(b[i], conf)
        by {}
    lemma_run_frame(m, a, bin);
    lemma_run_frame(m, a, drop);
    lemma_run_frame(ma, b, bin);
    lemma_run_frame(ma, b, conf);
    // dnf4.
    if info(snap, dnf_conf()).text is Some {
        let t = info(snap, dnf_conf()).text->0;
        if !dnf4_limited(t) {
            reveal_with_fuel(run_ops, 2);
            assert(ma == m.insert(conf, ModelNode::File(dnf4_text(t))));
            lemma_dnf4_text_limited(t);
        } else {
            assert(a.len() == 0);
        }
    } else {
        assert(a.len() == 0);
    }
    assert(!dnf4_needed(snap2));
    // dnf5.
    if dnf5_needed(snap) {
        lemma_run_last(ma, b);
        assert(b.drop_last() =~= seq![b[0]]);
        reveal_with_fuel(run_ops, 2);
        assert(m2.contains_key(drop));
    } else {
        assert(b.len() == 0);
    }
    assert(!dnf5_needed(snap2));
}


/// Once the operations of `var_tmpfiles` have been carried out, its check
/// finds bootc-base-var.conf in place, home.conf gone and provision.conf
/// fixed, provided provision.conf is not a symlink (whose text the model
/// does not follow).
pub proof fn law_var_tmpfiles_done_after_apply(
    rootfs: Seq<char>,
    snap: Seq<ProbeV>,
    m: ModelFs,
    m2: ModelFs,
    snap2: Seq<ProbeV>,
)
    requires
        observes(snap, m, VarTmpfiles.spec_probes(snap)),
        run_ops(m, VarTmpfiles.spec_plan(rootfs, snap)) == Some(m2),
        observes(snap2, m2, VarTmpfiles.spec_probes(snap2)),
        !(m.contains_key(provision_conf()) && m[provision_conf()] is Link),
    ensures
        VarTmpfiles.spec_check(snap2) == Ok::<bool, Seq<char>>(true),
{
    reveal_strlit("bootc-base-var.conf");
    reveal_strlit("home.conf");
    reveal_strlit("provision.conf");
    let vc = var_conf();
    let hc = home_conf();
    let pc = provision_conf();
    let ps = VarTmpfiles.spec_probes(snap);
    assert(agrees(info(snap, ps[2]), m, hc));
    assert(agrees(info(snap, ps[3]), m, pc));
    assert(agrees(info(snap2, ps[1]), m2, vc));
    assert(agrees(info(snap2, ps[2]), m2, hc));
    assert(agrees(info(snap2, ps[3]), m2, pc));
    assert("bootc-base-var.conf"@.len() != "home.conf"@.len());
    assert("provision.conf"@.len() != "home.conf"@.len());
    assert("provision.conf"@.len() != "bootc-base-var.conf"@.len());
    assert(vc[3] != hc[3] && vc[3] != pc[3] && hc[3] != pc[3]);
    let a = seq![
        FsOpV::CreateDirAll(tmpfiles_dir(), "creating usr/lib/tmpfiles.d"@),
        FsOpV::WriteFile(var_conf(), var_conf_text(snap), "writing bootc-base-var.conf"@),
    ];
    let h: Seq<FsOpV> = if info(snap, home_conf()).lstat is Some {
        seq![FsOpV::RemoveFile(home_conf(), "removing home.conf"@)]
    } else {
        seq![]
    };
    let p: Seq<FsOpV> = if provision_needed(snap) {
        seq![
            FsOpV::WriteFile(
                provision_conf(),
                provision_fixed(info(snap, provision_conf()).text->0),
                "writing provision.conf"@,
            ),
        ]
    } else {
        seq![]
    };
    assert(var_tmpfiles_plan(snap) == a + h + p);
    lemma_run_append(m, a + h, p);
    lemma_run_append(m, a, h);
    let ma = run_ops(m, a)->0;
    let mh = run_ops(ma, h)->0;
    assert(hc.len() > tmpfiles_dir().len() && pc.len() > tmpfiles_dir().len());
    assert forall|i: int| 0 <= i < a.len() implies !touches(#[trigger] a[i], hc) && !touches(a[i], pc)
        by {}
    assert forall|i: int| 0 <= i < h.len() implies !touches(#[trigger] h[i], vc) && !touches(h[i], pc)
        by {}
    assert forall|i: int| 0 <= i < p.len() implies !touches(#[trigger] p[i], vc) && !touches(p[i], hc)
        by {}
    lemma_run_frame(m, a, hc);
    lemma_run_frame(m, a, pc);
    lemma_run_frame(ma, h, vc);
    lemma_run_frame(ma, h, pc);
    lemma_run_frame(mh, p, vc);
    lemma_run_frame(mh, p, hc);
    // bootc-base-var.conf.
    lemma_run_last(m, a);
    assert(a.drop_last() =~= seq![a[0]]);
    reveal_with_fuel(run_ops, 2);
    assert(ma.contains_key(vc));
    // home.conf.
    if info(snap, home_conf()).lstat is Some {
        assert(h =~= seq![h[0]]);
        assert(!mh.contains_key(hc));
    }
    // provision.conf.
    if provision_needed(snap) {
        let t = info(snap, provision_conf()).text->0;
        assert(p =~= seq![p[0]]);
        assert(m2[pc] == ModelNode::File(provision_fixed(t)));
        law_provision_fix_idempotent(t);
    }
    assert(!provision_needed(snap2));
}

} // verus!
