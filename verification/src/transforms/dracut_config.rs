//! dracut configuration for generic, bootc-capable initramfs images.

use vstd::prelude::*;

use super::{Phase, Transform};
use crate::rootfs::{
    info, owned, push_component, push_op, push_path, rel4, FsOp, FsOpV, PathV, ProbeV, RelPath,
    Snapshot,
};
use crate::text::{wrapped_all, wrapped_all_exec};

verus! {

/// Write the dracut configuration: no host-only images, the ostree and
/// bootc modules (with TPM2 support when the rootfs ships its module, and
/// the manifest's extra modules), and the nss-altfiles databases installed
/// into the initramfs.
#[derive(Debug)]
pub struct DracutConfig {
    /// Further dracut modules the manifest asks for.
    pub extra_modules: Vec<String>,
}

pub open spec fn dracut_conf_dir() -> PathV {
    seq!["usr"@, "lib"@, "dracut"@, "dracut.conf.d"@]
}

pub open spec fn dracut_conf() -> PathV {
    dracut_conf_dir().push("10-bootc-base.conf"@)
}

/// The dracut module that brings TPM2 support.
pub open spec fn tpm2_module_dir() -> PathV {
    seq!["usr"@, "lib"@, "dracut"@, "modules.d"@, "91tpm2-tss"@]
}

/// The modules added to every initramfs: ostree, bootc, TPM2 when the
/// rootfs has its module, then the extra ones.
pub open spec fn dracut_modules(snap: Seq<ProbeV>, extra: Seq<Seq<char>>) -> Seq<char> {
    " ostree bootc"@ + (if info(snap, tpm2_module_dir()).is_dir {
        " tpm2-tss"@
    } else {
        Seq::empty()
    }) + wrapped_all(extra, " "@, ""@)
}

/// The configuration file's contents.
pub open spec fn dracut_text(snap: Seq<ProbeV>, extra: Seq<Seq<char>>) -> Seq<char> {
    "hostonly=\"no\"\nadd_dracutmodules+=\""@ + dracut_modules(snap, extra)
        + " \"\ninstall_items+=\" /usr/lib/passwd /usr/lib/group \"\n"@
}

pub open spec fn dracut_probes() -> Seq<PathV> {
    seq![dracut_conf(), tpm2_module_dir()]
}

pub open spec fn dracut_check(snap: Seq<ProbeV>) -> Result<bool, Seq<char>> {
    Ok(info(snap, dracut_conf()).exists)
}

pub open spec fn dracut_plan(snap: Seq<ProbeV>, extra: Seq<Seq<char>>) -> Seq<FsOpV> {
    seq![
        FsOpV::CreateDirAll(dracut_conf_dir(), "creating usr/lib/dracut/dracut.conf.d"@),
        FsOpV::WriteFile(
            dracut_conf(),
            dracut_text(snap, extra),
            "writing usr/lib/dracut/dracut.conf.d/10-bootc-base.conf"@,
        ),
    ]
}

proof fn lemma_wrapped_append(a: Seq<Seq<char>>, b: Seq<Seq<char>>, pre: Seq<char>, post: Seq<char>)
    ensures
        wrapped_all(a + b, pre, post) == wrapped_all(a, pre, post) + wrapped_all(b, pre, post),
    decreases b.len(),
{
    if b.len() == 0 {
        assert(a + b =~= a);
        assert(wrapped_all(a, pre, post) + Seq::<char>::empty() =~= wrapped_all(a, pre, post));
    } else {
        lemma_wrapped_append(a, b.drop_last(), pre, post);
        assert((a + b).drop_last() =~= a + b.drop_last());
        assert((a + b).last() == b.last());
        assert(wrapped_all(a + b, pre, post) =~= wrapped_all(a, pre, post) + wrapped_all(b, pre, post));
    }
}

/// The initramfs modules: the configuration asks dracut for a list of
/// words that starts with ostree and bootc, holds every extra module of
/// the manifest and nothing else but tpm2-tss, and holds tpm2-tss exactly
/// when the rootfs ships its dracut module (usr/lib/dracut/modules.d/
/// 91tpm2-tss is a directory) or the manifest asks for it.
pub proof fn law_dracut_modules(snap: Seq<ProbeV>, extra: Seq<Seq<char>>)
    requires
        forall|k: int| 0 <= k < extra.len() ==> #[trigger] extra[k].len() > 0 && !extra[k].contains(' '),
    ensures
        exists|ws: Seq<Seq<char>>|
            {
                &&& forall|k: int| 0 <= k < ws.len() ==> #[trigger] ws[k].len() > 0 && !ws[k].contains(' ')
                &&& dracut_plan(snap, extra)[1] is WriteFile
                &&& dracut_plan(snap, extra)[1]->WriteFile_0 == seq![
                    "usr"@,
                    "lib"@,
                    "dracut"@,
                    "dracut.conf.d"@,
                    "10-bootc-base.conf"@,
                ]
                &&& dracut_plan(snap, extra)[1]->WriteFile_1 == "hostonly=\"no\"\nadd_dracutmodules+=\""@
                    + #[trigger] wrapped_all(ws, " "@, ""@)
                    + " \"\ninstall_items+=\" /usr/lib/passwd /usr/lib/group \"\n"@
                &&& ws.len() >= 2 && ws[0] == "ostree"@ && ws[1] == "bootc"@
                &&& (ws.contains("tpm2-tss"@) <==> (info(
                    snap,
                    seq!["usr"@, "lib"@, "dracut"@, "modules.d"@, "91tpm2-tss"@],
                ).is_dir || extra.contains("tpm2-tss"@)))
                &&& forall|w: Seq<char>| extra.contains(w) ==> ws.contains(w)
                &&& forall|w: Seq<char>|
                    ws.contains(w) ==> w == "ostree"@ || w == "bootc"@ || w == "tpm2-tss"@
                        || extra.contains(w)
            },
{
    reveal_strlit("ostree");
    reveal_strlit("bootc");
    reveal_strlit("tpm2-tss");
    reveal_strlit(" ostree bootc");
    reveal_strlit(" tpm2-tss");
    reveal_strlit(" ");
    reveal_strlit("");
    let dir = info(snap, tpm2_module_dir()).is_dir;
    let base = seq!["ostree"@, "bootc"@];
    let tp: Seq<Seq<char>> = if dir {
        seq!["tpm2-tss"@]
    } else {
        seq![]
    };
    let ws = base + tp + extra;
    lemma_wrapped_append(base + tp, extra, " "@, ""@);
    lemma_wrapped_append(base, tp, " "@, ""@);
    assert(wrapped_all(base, " "@, ""@) =~= " ostree bootc"@) by {
        reveal_with_fuel(wrapped_all, 3);
        assert(base.drop_last() =~= seq!["ostree"@]);
        assert(base.drop_last().drop_last() =~= Seq::<Seq<char>>::empty());
    }
    assert(wrapped_all(tp, " "@, ""@) =~= (if dir {
        " tpm2-tss"@
    } else {
        Seq::<char>::empty()
    })) by {
        reveal_with_fuel(wrapped_all, 2);
        if dir {
            assert(tp.drop_last() =~= Seq::<Seq<char>>::empty());
        }
    }
    assert(dracut_modules(snap, extra) =~= wrapped_all(ws, " "@, ""@));
    assert("ostree"@.len() != "tpm2-tss"@.len() && "bootc"@.len() != "tpm2-tss"@.len());
    assert("ostree"@[0] != ' ' && "bootc"@[0] != ' ' && "tpm2-tss"@[0] != ' ');
    assert forall|k: int| 0 <= k < ws.len() implies #[trigger] ws[k].len() > 0 && !ws[k].contains(' ') by {
        if k >= base.len() + tp.len() {
            assert(ws[k] == extra[k - base.len() - tp.len()]);
        } else if k >= 2 {
            assert(ws[k] == "tpm2-tss"@);
            if "tpm2-tss"@.contains(' ') {
                let j = choose|j: int| 0 <= j < "tpm2-tss"@.len() && "tpm2-tss"@[j] == ' ';
            }
        } else if k == 0 {
            if "ostree"@.contains(' ') {
                let j = choose|j: int| 0 <= j < "ostree"@.len() && "ostree"@[j] == ' ';
            }
        } else {
            if "bootc"@.contains(' ') {
                let j = choose|j: int| 0 <= j < "bootc"@.len() && "bootc"@[j] == ' ';
            }
        }
    }
    assert forall|w: Seq<char>| extra.contains(w) implies ws.contains(w) by {
        let j = choose|j: int| 0 <= j < extra.len() && extra[j] == w;
        assert(ws[base.len() + tp.len() + j] == w);
    }
    assert forall|w: Seq<char>| ws.contains(w) implies w == "ostree"@ || w == "bootc"@ || w
        == "tpm2-tss"@ || extra.contains(w) by {
        let j = choose|j: int| 0 <= j < ws.len() && ws[j] == w;
        if j >= base.len() + tp.len() {
            assert(extra[j - base.len() - tp.len()] == w);
        }
    }
    if dir {
        assert(ws[2] == "tpm2-tss"@);
    }
    if extra.contains("tpm2-tss"@) {
        assert(ws.contains("tpm2-tss"@));
    }
    if ws.contains("tpm2-tss"@) {
        let j = choose|j: int| 0 <= j < ws.len() && ws[j] == "tpm2-tss"@;
        if j >= base.len() + tp.len() {
            assert(extra[j - base.len() - tp.len()] == "tpm2-tss"@);
        }
    }
    assert(wrapped_all(ws, " "@, ""@) == dracut_modules(snap, extra));
}

fn dracut_conf_exec() -> (r: RelPath)
    ensures
        r.deep_view() == dracut_conf(),
{
    let mut r = rel4("usr", "lib", "dracut", "dracut.conf.d");
    push_component(&mut r, "10-bootc-base.conf");
    assert(r.deep_view() =~= dracut_conf());
    r
}

fn tpm2_module_exec() -> (r: RelPath)
    ensures
        r.deep_view() == tpm2_module_dir(),
{
    let mut r = rel4("usr", "lib", "dracut", "modules.d");
    push_component(&mut r, "91tpm2-tss");
    assert(r.deep_view() =~= tpm2_module_dir());
    r
}

impl Transform for DracutConfig {
    open spec fn spec_name(&self) -> Seq<char> {
        "dracut_config"@
    }

    open spec fn spec_phase(&self) -> Phase {
        Phase::PreChroot
    }

    open spec fn spec_probes(&self, snap: Seq<ProbeV>) -> Seq<PathV> {
        dracut_probes()
    }

    open spec fn spec_check(&self, snap: Seq<ProbeV>) -> Result<bool, Seq<char>> {
        dracut_check(snap)
    }

    open spec fn spec_plan(&self, rootfs: Seq<char>, snap: Seq<ProbeV>) -> Seq<FsOpV> {
        dracut_plan(snap, self.extra_modules.deep_view())
    }

    fn name(&self) -> (r: String) {
        owned("dracut_config")
    }

    fn phase(&self) -> (r: Phase) {
        Phase::PreChroot
    }

    fn probes(&self, snap: &Snapshot) -> (r: Vec<RelPath>) {
        let mut r: Vec<RelPath> = Vec::new();
        push_path(&mut r, dracut_conf_exec());
        push_path(&mut r, tpm2_module_exec());
        assert(r.deep_view() =~= self.spec_probes(snap@));
        r
    }

    fn check(&self, snap: &Snapshot) -> (r: Result<bool, String>) {
        Ok(snap.exists_at(&dracut_conf_exec()))
    }

    fn apply(&self, rootfs: &str, snap: &Snapshot) -> (r: Vec<FsOp>) {
        let mut text = owned("hostonly=\"no\"\nadd_dracutmodules+=\"");
        text.append(" ostree bootc");
        if snap.is_dir_at(&tpm2_module_exec()) {
            text.append(" tpm2-tss");
        }
        let extra = wrapped_all_exec(&self.extra_modules, " ", "");
        text.append(extra.as_str());
        text.append(" \"\ninstall_items+=\" /usr/lib/passwd /usr/lib/group \"\n");
        assert(text@ =~= dracut_text(snap@, self.extra_modules.deep_view()));
        let mut ops: Vec<FsOp> = Vec::new();
        push_op(
            &mut ops,
            FsOp::CreateDirAll(
                rel4("usr", "lib", "dracut", "dracut.conf.d"),
                owned("creating usr/lib/dracut/dracut.conf.d"),
            ),
        );
        push_op(
            &mut ops,
            FsOp::WriteFile(
                dracut_conf_exec(),
                text,
                owned("writing usr/lib/dracut/dracut.conf.d/10-bootc-base.conf"),
            ),
        );
        assert(ops.deep_view() =~= self.spec_plan(rootfs@, snap@));
        ops
    }
}

} // verus!
