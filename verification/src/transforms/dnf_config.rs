//! Package manager configuration: keep a single kernel installed.

use vstd::prelude::*;

use super::{Phase, Transform};
use crate::rootfs::{
    concat, info, owned, push_component, push_op, push_path, rel3, FsOp, FsOpV, PathV, ProbeV,
    RelPath, Snapshot,
};
use crate::text::{contains_text, contains_text_exec, has_line, occurs_at};

verus! {

/// Configure dnf so that kernels do not accumulate (the image, not dnf,
/// updates the kernel): `installonly_limit=1`, in /etc/dnf/dnf.conf for
/// dnf4 and in a drop-in for dnf5.
#[derive(Debug)]
pub struct DnfConfig;

pub open spec fn dnf_conf() -> PathV {
    seq!["etc"@, "dnf"@, "dnf.conf"@]
}

pub open spec fn dnf5_bin() -> PathV {
    seq!["usr"@, "bin"@, "dnf5"@]
}

pub open spec fn dnf5_dropin_dir() -> PathV {
    seq!["etc"@, "dnf"@, "libdnf5.conf.d"@]
}

pub open spec fn dnf5_dropin() -> PathV {
    dnf5_dropin_dir().push("20-bootc-installonly.conf"@)
}

pub open spec fn limit_line() -> Seq<char> {
    "installonly_limit=1\n"@
}

/// Whether a dnf.conf already holds the line `installonly_limit=1`.
pub open spec fn dnf4_limited(t: Seq<char>) -> bool {
    contains_text("\n"@ + t, "\n"@ + limit_line())
}

/// dnf.conf with the limit appended (on a line of its own) to its last
/// section, `[main]` in the file dnf ships.
pub open spec fn dnf4_text(t: Seq<char>) -> Seq<char> {
    t + (if t.len() > 0 && t.last() != '\n' {
        "\n"@
    } else {
        ""@
    }) + limit_line()
}

pub open spec fn dnf4_needed(snap: Seq<ProbeV>) -> bool {
    info(snap, dnf_conf()).text matches Some(t) && !dnf4_limited(t)
}

pub open spec fn dnf5_needed(snap: Seq<ProbeV>) -> bool {
    info(snap, dnf5_bin()).exists && !info(snap, dnf5_dropin()).exists
}

pub open spec fn dnf_plan(snap: Seq<ProbeV>) -> Seq<FsOpV> {
    (match info(snap, dnf_conf()).text {
        Some(t) => if !dnf4_limited(t) {
            seq![FsOpV::WriteFile(dnf_conf(), dnf4_text(t), "writing etc/dnf/dnf.conf"@)]
        } else {
            seq![]
        },
        None => seq![],
    }) + (if dnf5_needed(snap) {
        seq![
            FsOpV::CreateDirAll(dnf5_dropin_dir(), "creating etc/dnf/libdnf5.conf.d"@),
            FsOpV::WriteFile(
                dnf5_dropin(),
                "[main]\n"@ + limit_line(),
                "writing etc/dnf/libdnf5.conf.d/20-bootc-installonly.conf"@,
            ),
        ]
    } else {
        seq![]
    })
}

fn dnf5_dropin_exec() -> (r: RelPath)
    ensures
        r.deep_view() == dnf5_dropin(),
{
    let mut r = rel3("etc", "dnf", "libdnf5.conf.d");
    push_component(&mut r, "20-bootc-installonly.conf");
    assert(r.deep_view() =~= dnf5_dropin());
    r
}

fn dnf4_limited_exec(t: &String) -> (r: bool)
    ensures
        r == dnf4_limited(t@),
{
    let hay = concat("\n", t.as_str());
    let needle = concat("\n", "installonly_limit=1\n");
    contains_text_exec(hay.as_str(), needle.as_str())
}

fn dnf5_needed_exec(snap: &Snapshot) -> (r: bool)
    ensures
        r == dnf5_needed(snap@),
{
    snap.exists_at(&rel3("usr", "bin", "dnf5")) && !snap.exists_at(&dnf5_dropin_exec())
}

impl Transform for DnfConfig {
    open spec fn spec_name(&self) -> Seq<char> {
        "dnf_config"@
    }

    open spec fn spec_phase(&self) -> Phase {
        Phase::PreChroot
    }

    open spec fn spec_probes(&self, snap: Seq<ProbeV>) -> Seq<PathV> {
        seq![dnf_conf(), dnf5_bin(), dnf5_dropin()]
    }

    open spec fn spec_check(&self, snap: Seq<ProbeV>) -> Result<bool, Seq<char>> {
        Ok(!dnf4_needed(snap) && !dnf5_needed(snap))
    }

    open spec fn spec_plan(&self, rootfs: Seq<char>, snap: Seq<ProbeV>) -> Seq<FsOpV> {
        dnf_plan(snap)
    }

    fn name(&self) -> (r: String) {
        owned("dnf_config")
    }

    fn phase(&self) -> (r: Phase) {
        Phase::PreChroot
    }

    fn probes(&self, snap: &Snapshot) -> (r: Vec<RelPath>) {
        let mut r: Vec<RelPath> = Vec::new();
        push_path(&mut r, rel3("etc", "dnf", "dnf.conf"));
        push_path(&mut r, rel3("usr", "bin", "dnf5"));
        push_path(&mut r, dnf5_dropin_exec());
        assert(r.deep_view() =~= self.spec_probes(snap@));
        r
    }

    fn check(&self, snap: &Snapshot) -> (r: Result<bool, String>) {
        let dnf4 = match snap.text_at(&rel3("etc", "dnf", "dnf.conf")) {
            Some(t) => !dnf4_limited_exec(&t),
            None => false,
        };
        Ok(!dnf4 && !dnf5_needed_exec(snap))
    }

    fn apply(&self, rootfs: &str, snap: &Snapshot) -> (r: Vec<FsOp>) {
        let mut ops: Vec<FsOp> = Vec::new();
        match snap.text_at(&rel3("etc", "dnf", "dnf.conf")) {
            Some(t) => {
                if !dnf4_limited_exec(&t) {
                    let n = t.unicode_len();
                    let mut text = t.clone();
                    if n > 0 && t.as_str().get_char(n - 1) != '\n' {
                        text.append("\n");
                    } else {
                        text.append("");
                    }
                    text.append("installonly_limit=1\n");
                    assert(text@ =~= dnf4_text(t@));
                    push_op(
                        &mut ops,
                        FsOp::WriteFile(
                            rel3("etc", "dnf", "dnf.conf"),
                            text,
                            owned("writing etc/dnf/dnf.conf"),
                        ),
                    );
                }
            },
            None => {},
        }
        if dnf5_needed_exec(snap) {
            push_op(
                &mut ops,
                FsOp::CreateDirAll(
                    rel3("etc", "dnf", "libdnf5.conf.d"),
                    owned("creating etc/dnf/libdnf5.conf.d"),
                ),
            );
            let mut text = owned("[main]\n");
            text.append("installonly_limit=1\n");
            push_op(
                &mut ops,
                FsOp::WriteFile(
                    dnf5_dropin_exec(),
                    text,
                    owned("writing etc/dnf/libdnf5.conf.d/20-bootc-installonly.conf"),
                ),
            );
        }
        assert(ops.deep_view() =~= self.spec_plan(rootfs@, snap@));
        ops
    }
}

proof fn lemma_limited_has_line(t: Seq<char>)
    ensures
        dnf4_limited(t) ==> has_line(t, "installonly_limit=1\n"@),
{
    reveal_strlit("\n");
    reveal_strlit("installonly_limit=1\n");
    if dnf4_limited(t) {
        let s = "\n"@ + t;
        let pat = "\n"@ + limit_line();
        let q = choose|q: int| occurs_at(s, pat, q);
        let l = limit_line();
        assert(pat.skip(1) =~= l);
        assert(pat[0] == '\n');
        assert(s.subrange(q, q + pat.len()) == pat);
        assert(q + l.len() <= t.len());
        assert(t.subrange(q, q + l.len()) =~= s.subrange(q + 1, q + 1 + l.len()));
        assert(s.subrange(q + 1, q + 1 + l.len()) =~= s.subrange(q, q + pat.len()).skip(1));
        if q > 0 {
            assert(t[q - 1] == s[q]);
            assert(s[q] == s.subrange(q, q + pat.len())[0]);
        }
        assert(t.subrange(q, q + l.len()) =~= l);
        assert(occurs_at(t, l, q) && (q == 0 || t[q - 1] == '\n'));
    }
}

/// What `dnf_config` writes: a dnf.conf without the line
/// `installonly_limit=1` is rewritten as its old text followed by that
/// line; with dnf5 installed and no drop-in yet, the drop-in sets the
/// same limit in `[main]`.
pub proof fn law_dnf_config_writes(rootfs: Seq<char>, snap: Seq<ProbeV>)
    ensures
        ({
            let t = info(snap, seq!["etc"@, "dnf"@, "dnf.conf"@]).text->0;
            info(snap, seq!["etc"@, "dnf"@, "dnf.conf"@]).text is Some && !has_line(
                t,
                "installonly_limit=1\n"@,
            ) ==> exists|i: int|
                0 <= i < DnfConfig.spec_plan(rootfs, snap).len() && #[trigger] DnfConfig.spec_plan(
                    rootfs,
                    snap,
                )[i] is WriteFile && DnfConfig.spec_plan(rootfs, snap)[i]->WriteFile_0 == seq![
                    "etc"@,
                    "dnf"@,
                    "dnf.conf"@,
                ] && t.is_prefix_of(DnfConfig.spec_plan(rootfs, snap)[i]->WriteFile_1) && has_line(
                    DnfConfig.spec_plan(rootfs, snap)[i]->WriteFile_1,
                    "installonly_limit=1\n"@,
                )
        }),
        (info(snap, seq!["usr"@, "bin"@, "dnf5"@]).exists && !info(
            snap,
            seq!["etc"@, "dnf"@, "libdnf5.conf.d"@, "20-bootc-installonly.conf"@],
        ).exists) ==> DnfConfig.spec_plan(rootfs, snap).last() == FsOpV::WriteFile(
            seq!["etc"@, "dnf"@, "libdnf5.conf.d"@, "20-bootc-installonly.conf"@],
            "[main]\ninstallonly_limit=1\n"@,
            "writing etc/dnf/libdnf5.conf.d/20-bootc-installonly.conf"@,
        ),
{
    reveal_strlit("[main]\n");
    reveal_strlit("installonly_limit=1\n");
    reveal_strlit("[main]\ninstallonly_limit=1\n");
    assert("[main]\n"@ + limit_line() =~= "[main]\ninstallonly_limit=1\n"@);
    assert(dnf5_dropin() =~= seq!["etc"@, "dnf"@, "libdnf5.conf.d"@, "20-bootc-installonly.conf"@]);
    let plan = DnfConfig.spec_plan(rootfs, snap);
    if info(snap, dnf_conf()).text is Some {
        let t = info(snap, dnf_conf()).text->0;
        lemma_limited_has_line(t);
        if !has_line(t, "installonly_limit=1\n"@) {
            let t2 = dnf4_text(t);
            lemma_dnf4_text_has_line(t);
            assert(plan[0] == FsOpV::WriteFile(dnf_conf(), t2, "writing etc/dnf/dnf.conf"@));
            assert(t.is_prefix_of(t2)) by {
                assert(t2.subrange(0, t.len() as int) =~= t);
            }
        }
    }
}

proof fn lemma_dnf4_text_has_line(t: Seq<char>)
    ensures
        has_line(dnf4_text(t), "installonly_limit=1\n"@),
{
    reveal_strlit("\n");
    reveal_strlit("");
    reveal_strlit("installonly_limit=1\n");
    let t2 = dnf4_text(t);
    let l = limit_line();
    let q = (t2.len() - l.len()) as int;
    assert(t2.subrange(q, q + l.len()) =~= l);
    if q > 0 {
        if t.len() > 0 && t.last() != '\n' {
            assert(t2[q - 1] == '\n');
        } else {
            assert(t2[q - 1] == t.last());
        }
    }
    assert(occurs_at(t2, l, q) && (q == 0 || t2[q - 1] == '\n'));
}

} // verus!
