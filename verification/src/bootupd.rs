//! Bootupd update metadata: what is written under
//! `usr/lib/bootupd/updates/` so that bootupd can later update the
//! bootloader (bootupctl itself cannot run inside a chroot).

use vstd::prelude::*;

use crate::chroot::{efi_package_names, efi_packages, Arch};
use crate::pathtext::{join, join_text};
use crate::rootfs::{concat, owned};

verus! {

/// One component version in the metadata.
#[derive(Debug)]
pub struct BootupdVersion {
    pub name: String,
    pub rpm_evr: String,
}

/// Bootupd metadata JSON structure.
#[derive(Debug)]
pub struct BootupdMeta {
    pub timestamp: String,
    pub version: String,
    pub versions: Vec<BootupdVersion>,
}

#[verifier::ext_equal]
pub struct BootupdMetaV {
    pub timestamp: Seq<char>,
    pub version: Seq<char>,
    pub versions: Seq<(Seq<char>, Seq<char>)>,
}

impl DeepView for BootupdVersion {
    type V = (Seq<char>, Seq<char>);

    open spec fn deep_view(&self) -> (Seq<char>, Seq<char>) {
        (self.name@, self.rpm_evr@)
    }
}

impl DeepView for BootupdMeta {
    type V = BootupdMetaV;

    open spec fn deep_view(&self) -> BootupdMetaV {
        BootupdMetaV {
            timestamp: self.timestamp@,
            version: self.version@,
            versions: self.versions.deep_view(),
        }
    }
}

/// What is known of the rootfs before generating the metadata.
#[derive(Debug, Clone, Copy)]
pub struct BootupdLayout {
    /// `usr/bin/bootupctl` exists.
    pub bootupctl_exists: bool,
    /// `usr/sbin/grub2-install` exists.
    pub grub2_install_exists: bool,
    /// `usr/lib/grub/i386-pc` is a directory.
    pub bios_modules_is_dir: bool,
    /// `boot/efi/EFI` is a directory.
    pub efi_src_is_dir: bool,
}

/// The installed versions (EVR) of the bootloader packages, where queried
/// and installed.
#[derive(Debug)]
pub struct RpmVersions {
    pub grub2_tools: Option<String>,
    pub grub_efi: Option<String>,
    pub shim: Option<String>,
}

/// One step of writing the metadata.
#[derive(Debug)]
pub enum BootupdOp {
    /// Create a directory and its missing ancestors.
    CreateDirAll(String),
    /// Copy a directory tree recursively: source, destination.
    CopyTree(String, String),
    /// Write the metadata as pretty-printed JSON: path, file name, metadata.
    WriteJson(String, String, BootupdMeta),
}

pub enum BootupdOpV {
    CreateDirAll(Seq<char>),
    CopyTree(Seq<char>, Seq<char>),
    WriteJson(Seq<char>, Seq<char>, BootupdMetaV),
}

impl DeepView for BootupdOp {
    type V = BootupdOpV;

    open spec fn deep_view(&self) -> BootupdOpV {
        match self {
            BootupdOp::CreateDirAll(p) => BootupdOpV::CreateDirAll(p@),
            BootupdOp::CopyTree(a, b) => BootupdOpV::CopyTree(a@, b@),
            BootupdOp::WriteJson(p, n, m) => BootupdOpV::WriteJson(p@, n@, m.deep_view()),
        }
    }
}

pub open spec fn updates_dir(rootfs: Seq<char>) -> Seq<char> {
    join_text(rootfs, "usr/lib/bootupd/updates"@)
}

/// BIOS metadata is written only when the full BIOS chain is present.
pub open spec fn wants_bios(l: BootupdLayout) -> bool {
    l.bootupctl_exists && l.grub2_install_exists && l.bios_modules_is_dir
}

pub open spec fn wants_efi(l: BootupdLayout) -> bool {
    l.bootupctl_exists && l.efi_src_is_dir
}

/// The packages whose versions the metadata needs: grub2-tools for BIOS,
/// the EFI grub and shim for EFI.
pub open spec fn queried_packages(l: BootupdLayout, arch: Arch) -> Seq<Seq<char>> {
    (if wants_bios(l) {
        seq!["grub2-tools"@]
    } else {
        seq![]
    }) + (if wants_efi(l) {
        seq![efi_packages(arch).0, efi_packages(arch).1]
    } else {
        seq![]
    })
}

/// The BIOS metadata for grub2 at version `evr`.
pub open spec fn bios_meta(evr: Seq<char>, ts: Seq<char>) -> BootupdMetaV {
    BootupdMetaV {
        timestamp: ts,
        version: "grub2-tools-"@ + evr,
        versions: seq![("grub2"@, evr)],
    }
}

/// The EFI metadata: one version entry per installed package, and the
/// version text `PKG-EVR` of each, joined by commas.
pub open spec fn efi_meta(
    grub_pkg: Seq<char>,
    shim_pkg: Seq<char>,
    grub_evr: Option<Seq<char>>,
    shim_evr: Option<Seq<char>>,
    ts: Seq<char>,
) -> BootupdMetaV {
    let grub_part = match grub_evr {
        Some(e) => seq![grub_pkg + "-"@ + e],
        None => seq![],
    };
    let shim_part = match shim_evr {
        Some(e) => seq![shim_pkg + "-"@ + e],
        None => seq![],
    };
    let parts = grub_part + shim_part;
    BootupdMetaV {
        timestamp: ts,
        version: if parts.len() == 0 {
            Seq::empty()
        } else if parts.len() == 1 {
            parts[0]
        } else {
            parts[0] + ","@ + parts[1]
        },
        versions: (match grub_evr {
            Some(e) => seq![("grub2"@, e)],
            None => seq![],
        }) + (match shim_evr {
            Some(e) => seq![("shim"@, e)],
            None => seq![],
        }),
    }
}

/// The steps that write the metadata: nothing without bootupctl; else the
/// updates directory, BIOS.json when grub2-tools is installed with the BIOS
/// chain, and the EFI binaries and EFI.json when /boot/efi/EFI exists.
pub open spec fn bootupd_steps(
    rootfs: Seq<char>,
    l: BootupdLayout,
    arch: Arch,
    grub2_tools: Option<Seq<char>>,
    grub_efi: Option<Seq<char>>,
    shim: Option<Seq<char>>,
    ts: Seq<char>,
) -> Seq<BootupdOpV> {
    let updates = updates_dir(rootfs);
    if !l.bootupctl_exists {
        seq![]
    } else {
        seq![BootupdOpV::CreateDirAll(updates)] + (if wants_bios(l) {
            match grub2_tools {
                Some(evr) => seq![
                    BootupdOpV::WriteJson(
                        join_text(updates, "BIOS.json"@),
                        "BIOS.json"@,
                        bios_meta(evr, ts),
                    ),
                ],
                None => seq![],
            }
        } else {
            seq![]
        }) + (if wants_efi(l) {
            seq![
                BootupdOpV::CopyTree(
                    join_text(rootfs, "boot/efi/EFI"@),
                    join_text(updates, "EFI"@),
                ),
                BootupdOpV::WriteJson(
                    join_text(updates, "EFI.json"@),
                    "EFI.json"@,
                    efi_meta(efi_packages(arch).0, efi_packages(arch).1, grub_efi, shim, ts),
                ),
            ]
        } else {
            seq![]
        })
    }
}

/// Every version entry of the metadata written is the EVR the rpm query
/// gave for its package: BIOS.json lists grub2 at grub2-tools' EVR (and its
/// version text names grub2-tools at it); EFI.json lists grub2 at the EFI
/// grub's EVR and shim at shim's, one entry for each that was found, and
/// no other.
pub proof fn law_bootupd_versions_are_queried_evrs(
    rootfs: Seq<char>,
    l: BootupdLayout,
    arch: Arch,
    grub2_tools: Option<Seq<char>>,
    grub_efi: Option<Seq<char>>,
    shim: Option<Seq<char>>,
    ts: Seq<char>,
    i: int,
    j: int,
)
    requires
        0 <= i < bootupd_steps(rootfs, l, arch, grub2_tools, grub_efi, shim, ts).len(),
    ensures
        ({
            let op = bootupd_steps(rootfs, l, arch, grub2_tools, grub_efi, shim, ts)[i];
            op is WriteJson && op->WriteJson_1 == "BIOS.json"@ ==> grub2_tools is Some
                && op->WriteJson_2.versions == seq![("grub2"@, grub2_tools->0)]
                && op->WriteJson_2.version == "grub2-tools-"@ + grub2_tools->0
        }),
        ({
            let op = bootupd_steps(rootfs, l, arch, grub2_tools, grub_efi, shim, ts)[i];
            let vs = op->WriteJson_2.versions;
            op is WriteJson && op->WriteJson_1 == "EFI.json"@ && 0 <= j < vs.len() ==> (vs[j].0
                == "grub2"@ && grub_efi == Some(vs[j].1)) || (vs[j].0 == "shim"@ && shim == Some(
                vs[j].1,
            ))
        }),
        ({
            let op = bootupd_steps(rootfs, l, arch, grub2_tools, grub_efi, shim, ts)[i];
            let vs = op->WriteJson_2.versions;
            op is WriteJson && op->WriteJson_1 == "EFI.json"@ ==> (grub_efi is Some ==> vs.contains(
                ("grub2"@, grub_efi->0),
            )) && (shim is Some ==> vs.contains(("shim"@, shim->0)))
        }),
{
    reveal_strlit("BIOS.json");
    reveal_strlit("EFI.json");
    reveal_strlit("grub2");
    reveal_strlit("shim");
    assert("BIOS.json"@.len() != "EFI.json"@.len());
    assert("grub2"@.len() != "shim"@.len());
    let em = efi_meta(efi_packages(arch).0, efi_packages(arch).1, grub_efi, shim, ts);
    if grub_efi is Some {
        assert(em.versions[0] == ("grub2"@, grub_efi->0));
    }
    if shim is Some {
        let k = if grub_efi is Some {
            1int
        } else {
            0int
        };
        assert(em.versions[k] == ("shim"@, shim->0));
    }
}

/// The packages whose installed versions the metadata needs.
pub fn packages_to_query(layout: &BootupdLayout, arch: Arch) -> (r: Vec<&'static str>)
    ensures
        r@.map_values(|s: &str| s@) == queried_packages(*layout, arch),
{
    let mut r: Vec<&'static str> = Vec::new();
    if layout.bootupctl_exists && layout.grub2_install_exists && layout.bios_modules_is_dir {
        r.push("grub2-tools");
    }
    if layout.bootupctl_exists && layout.efi_src_is_dir {
        let (grub, shim) = efi_package_names(arch);
        r.push(grub);
        r.push(shim);
    }
    assert(r@.map_values(|s: &str| s@) =~= queried_packages(*layout, arch));
    r
}

fn opt_clone(o: &Option<String>) -> (r: Option<String>)
    ensures
        r.deep_view() == o.deep_view(),
{
    match o {
        Some(s) => Some(s.clone()),
        None => None,
    }
}

fn push_version(v: &mut Vec<BootupdVersion>, name: &str, evr: &String)
    ensures
        final(v).deep_view() == old(v).deep_view().push((name@, evr@)),
{
    let ghost before = v.deep_view();
    v.push(BootupdVersion { name: owned(name), rpm_evr: evr.clone() });
    assert(v.deep_view() =~= before.push((name@, evr@)));
}

/// The EFI metadata.
fn make_efi_meta(
    grub_pkg: &str,
    shim_pkg: &str,
    grub_evr: &Option<String>,
    shim_evr: &Option<String>,
    ts: &String,
) -> (r: BootupdMeta)
    ensures
        r.deep_view() == efi_meta(grub_pkg@, shim_pkg@, grub_evr.deep_view(), shim_evr.deep_view(), ts@),
{
    let mut versions: Vec<BootupdVersion> = Vec::new();
    let mut version = String::new();
    let mut parts: usize = 0;
    proof {
        reveal_strlit("-");
        reveal_strlit(",");
    }
    if let Some(evr) = grub_evr {
        push_version(&mut versions, "grub2", evr);
        version.append(grub_pkg);
        version.append("-");
        version.append(evr.as_str());
        parts = 1;
    }
    if let Some(evr) = shim_evr {
        push_version(&mut versions, "shim", evr);
        if parts == 1 {
            version.append(",");
        }
        version.append(shim_pkg);
        version.append("-");
        version.append(evr.as_str());
    }
    let m = BootupdMeta { timestamp: ts.clone(), version, versions };
    assert(m.deep_view().versions =~= efi_meta(grub_pkg@, shim_pkg@, grub_evr.deep_view(), shim_evr.deep_view(), ts@).versions);
    assert(m.deep_view().version =~= efi_meta(grub_pkg@, shim_pkg@, grub_evr.deep_view(), shim_evr.deep_view(), ts@).version);
    m
}

fn push_bootupd_op(ops: &mut Vec<BootupdOp>, op: BootupdOp)
    ensures
        final(ops).deep_view() == old(ops).deep_view().push(op.deep_view()),
{
    let ghost before = ops.deep_view();
    let ghost ov = op.deep_view();
    ops.push(op);
    assert(ops.deep_view() =~= before.push(ov));
}

/// Generate bootupd update metadata: the steps that copy the EFI binaries
/// from /boot/efi/ to the updates directory and write the JSON manifests.
pub fn bootupd_plan(
    rootfs: &str,
    layout: &BootupdLayout,
    arch: Arch,
    versions: &RpmVersions,
    timestamp: &String,
) -> (r: Vec<BootupdOp>)
    ensures
        r.deep_view() == bootupd_steps(
            rootfs@,
            *layout,
            arch,
            versions.grub2_tools.deep_view(),
            versions.grub_efi.deep_view(),
            versions.shim.deep_view(),
            timestamp@,
        ),
{
    let mut ops: Vec<BootupdOp> = Vec::new();
    if !layout.bootupctl_exists {
        assert(ops.deep_view() =~= Seq::<BootupdOpV>::empty());
        return ops;
    }
    let updates = join(rootfs, "usr/lib/bootupd/updates");
    push_bootupd_op(&mut ops, BootupdOp::CreateDirAll(updates.clone()));
    let ghost a = ops.deep_view();
    if layout.grub2_install_exists && layout.bios_modules_is_dir {
        if let Some(evr) = &versions.grub2_tools {
            let mut vs: Vec<BootupdVersion> = Vec::new();
            push_version(&mut vs, "grub2", evr);
            let meta = BootupdMeta {
                timestamp: timestamp.clone(),
                version: concat("grub2-tools-", evr.as_str()),
                versions: vs,
            };
            assert(meta.deep_view() =~= bios_meta(evr@, timestamp@));
            push_bootupd_op(
                &mut ops,
                BootupdOp::WriteJson(join(updates.as_str(), "BIOS.json"), owned("BIOS.json"), meta),
            );
        }
    }
    let ghost b = ops.deep_view();
    if layout.efi_src_is_dir {
        push_bootupd_op(
            &mut ops,
            BootupdOp::CopyTree(join(rootfs, "boot/efi/EFI"), join(updates.as_str(), "EFI")),
        );
        let (grub_pkg, shim_pkg) = efi_package_names(arch);
        let meta = make_efi_meta(grub_pkg, shim_pkg, &versions.grub_efi, &versions.shim, timestamp);
        push_bootupd_op(
            &mut ops,
            BootupdOp::WriteJson(join(updates.as_str(), "EFI.json"), owned("EFI.json"), meta),
        );
    }
    assert(ops.deep_view() =~= bootupd_steps(
        rootfs@,
        *layout,
        arch,
        versions.grub2_tools.deep_view(),
        versions.grub_efi.deep_view(),
        versions.shim.deep_view(),
        timestamp@,
    ));
    ops
}

} // verus!
