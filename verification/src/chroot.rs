//! Chroot operations for finalizing a bootc rootfs: bind-mount host
//! filesystems, run depmod/dracut/preset-all/bootupd, then unmount.
//!
//! The sequence is a state machine: [`ChrootRun::step`] takes the outcome
//! of the last host action and names the next one, so that the caller only
//! performs actions and reports what came of them.

use vstd::prelude::*;

use crate::pathtext::{join, join_text};
use crate::rootfs::{concat, owned};

verus! {

/// One item read from the kernel modules directory.
pub enum KernelDirItem {
    /// The entry could not be read.
    Unreadable,
    /// An entry: its name when that is valid UTF-8, and whether it is a
    /// directory (following symlinks).
    Entry(Option<String>, bool),
}

pub enum KernelDirItemV {
    Unreadable,
    Entry(Option<Seq<char>>, bool),
}

impl DeepView for KernelDirItem {
    type V = KernelDirItemV;

    open spec fn deep_view(&self) -> KernelDirItemV {
        match self {
            KernelDirItem::Unreadable => KernelDirItemV::Unreadable,
            KernelDirItem::Entry(n, d) => KernelDirItemV::Entry(n.deep_view(), *d),
        }
    }
}

/// The listing of the kernel modules directory.
pub enum KernelListing {
    /// The directory could not be read.
    Failed,
    /// Its items, in the order the directory produced them.
    Read(Vec<KernelDirItem>),
}

pub enum KernelListingV {
    Failed,
    Read(Seq<KernelDirItemV>),
}

impl DeepView for KernelListing {
    type V = KernelListingV;

    open spec fn deep_view(&self) -> KernelListingV {
        match self {
            KernelListing::Failed => KernelListingV::Failed,
            KernelListing::Read(items) => KernelListingV::Read(items.deep_view()),
        }
    }
}

/// The kernel version among the items: the name of the first directory.
pub open spec fn pick_kernel(dir: Seq<char>, items: Seq<KernelDirItemV>) -> Result<
    Seq<char>,
    Seq<char>,
>
    decreases items.len(),
{
    if items.len() == 0 {
        Err("no kernel version found in "@ + dir)
    } else {
        match items[0] {
            KernelDirItemV::Unreadable => Err("reading entry in "@ + dir),
            KernelDirItemV::Entry(name, is_dir) => if !is_dir {
                pick_kernel(dir, items.drop_first())
            } else {
                match name {
                    Some(n) => Ok(n),
                    None => Err("kernel version directory name is not valid UTF-8"@),
                }
            },
        }
    }
}

/// The installed kernel version: the first directory entry of
/// `usr/lib/modules/` inside the rootfs.
pub open spec fn kernel_version(modules_dir: Seq<char>, listing: KernelListingV) -> Result<
    Seq<char>,
    Seq<char>,
> {
    match listing {
        KernelListingV::Failed => Err("reading "@ + modules_dir),
        KernelListingV::Read(items) => pick_kernel(modules_dir, items),
    }
}

/// Detect the installed kernel version from the listing of the modules
/// directory `modules_dir`: the name of its first directory entry.
pub fn detect_kernel_version(modules_dir: &str, listing: &KernelListing) -> (r: Result<
    String,
    String,
>)
    ensures
        match r {
            Ok(v) => kernel_version(modules_dir@, listing.deep_view()) == Ok::<
                Seq<char>,
                Seq<char>,
            >(v@),
            Err(e) => kernel_version(modules_dir@, listing.deep_view()) == Err::<
                Seq<char>,
                Seq<char>,
            >(e@),
        },
{
    match listing {
        KernelListing::Failed => Err(concat("reading ", modules_dir)),
        KernelListing::Read(items) => {
            let ghost iv = items.deep_view();
            assert(iv.skip(0) =~= iv);
            for i in 0..items.len()
                invariant
                    iv == items.deep_view(),
                    listing.deep_view() == KernelListingV::Read(iv),
                    pick_kernel(modules_dir@, iv) == pick_kernel(modules_dir@, iv.skip(i as int)),
            {
                assert(iv.skip(i as int).drop_first() =~= iv.skip(i + 1));
                assert(iv.skip(i as int)[0] == iv[i as int]);
                match &items[i] {
                    KernelDirItem::Unreadable => {
                        return Err(concat("reading entry in ", modules_dir));
                    },
                    KernelDirItem::Entry(name, is_dir) => {
                        if *is_dir {
                            match name {
                                Some(n) => {
                                    return Ok(n.clone());
                                },
                                None => {
                                    return Err(
                                        owned("kernel version directory name is not valid UTF-8"),
                                    );
                                },
                            }
                        }
                    },
                }
            }
            assert(iv.skip(items.len() as int).len() == 0);
            Err(concat("no kernel version found in ", modules_dir))
        },
    }
}

/// The architecture the tool was built for.
#[derive(Debug, Clone, Copy, PartialEq, Eq, Structural)]
pub enum Arch {
    X86_64,
    Aarch64,
    Other,
}

/// The architecture-specific EFI package names (grub, shim); x86_64's are
/// the fallback.
pub open spec fn efi_packages(arch: Arch) -> (Seq<char>, Seq<char>) {
    match arch {
        Arch::Aarch64 => ("grub2-efi-aa64"@, "shim-aa64"@),
        _ => ("grub2-efi-x64"@, "shim-x64"@),
    }
}

/// Get the architecture-specific EFI package names.
pub fn efi_package_names(arch: Arch) -> (r: (&'static str, &'static str))
    ensures
        (r.0@, r.1@) == efi_packages(arch),
{
    match arch {
        Arch::Aarch64 => ("grub2-efi-aa64", "shim-aa64"),
        _ => ("grub2-efi-x64", "shim-x64"),
    }
}

} // verus!

verus! {

/// A program to run: its arguments (the program first), the error when it
/// cannot be started, and the label of the error when it exits with a
/// failure status (`LABEL failed with STATUS`).
pub struct Command {
    pub argv: Vec<String>,
    pub spawn_context: String,
    pub failure_label: String,
}

pub struct CommandV {
    pub argv: Seq<Seq<char>>,
    pub spawn_context: Seq<char>,
    pub failure_label: Seq<char>,
}

impl DeepView for Command {
    type V = CommandV;

    open spec fn deep_view(&self) -> CommandV {
        CommandV {
            argv: self.argv.deep_view(),
            spawn_context: self.spawn_context@,
            failure_label: self.failure_label@,
        }
    }
}

/// An action on the host, by absolute paths.
pub enum HostAction {
    /// Read the kernel modules directory; answer with `Kernels`.
    ListKernels(String),
    /// Whether the path is a symlink; answer with `Flag`.
    IsSymlink(String),
    /// Whether the path is a directory; answer with `Flag`.
    IsDir(String),
    /// Read the symlink (only its success matters); answer with `Done`.
    ReadLink(String),
    RemoveFile(String),
    CreateDirAll(String),
    RemoveDirAll(String),
    /// Create a symlink: target, link path.
    Symlink(String, String),
    /// Run a program and wait for it.
    Run(Command),
    /// Generate the bootupd metadata (see `bootupd_plan`).
    Bootupd,
}

pub enum HostActionV {
    ListKernels(Seq<char>),
    IsSymlink(Seq<char>),
    IsDir(Seq<char>),
    ReadLink(Seq<char>),
    RemoveFile(Seq<char>),
    CreateDirAll(Seq<char>),
    RemoveDirAll(Seq<char>),
    Symlink(Seq<char>, Seq<char>),
    Run(CommandV),
    Bootupd,
}

impl DeepView for HostAction {
    type V = HostActionV;

    open spec fn deep_view(&self) -> HostActionV {
        match self {
            HostAction::ListKernels(p) => HostActionV::ListKernels(p@),
            HostAction::IsSymlink(p) => HostActionV::IsSymlink(p@),
            HostAction::IsDir(p) => HostActionV::IsDir(p@),
            HostAction::ReadLink(p) => HostActionV::ReadLink(p@),
            HostAction::RemoveFile(p) => HostActionV::RemoveFile(p@),
            HostAction::CreateDirAll(p) => HostActionV::CreateDirAll(p@),
            HostAction::RemoveDirAll(p) => HostActionV::RemoveDirAll(p@),
            HostAction::Symlink(t, p) => HostActionV::Symlink(t@, p@),
            HostAction::Run(c) => HostActionV::Run(c.deep_view()),
            HostAction::Bootupd => HostActionV::Bootupd,
        }
    }
}

/// What came of the last action.
pub enum HostEvent {
    /// The action finished: `Ok`, or the error it failed with.
    Done(Result<(), String>),
    /// The answer to a yes/no question.
    Flag(bool),
    /// The listing of the kernel modules directory.
    Kernels(KernelListing),
}

pub enum HostEventV {
    Done(Result<(), Seq<char>>),
    Flag(bool),
    Kernels(KernelListingV),
}

impl DeepView for HostEvent {
    type V = HostEventV;

    open spec fn deep_view(&self) -> HostEventV {
        match self {
            HostEvent::Done(Ok(())) => HostEventV::Done(Ok(())),
            HostEvent::Done(Err(e)) => HostEventV::Done(Err(e@)),
            HostEvent::Flag(b) => HostEventV::Flag(*b),
            HostEvent::Kernels(l) => HostEventV::Kernels(l.deep_view()),
        }
    }
}

/// What the sequence asks for next.
pub enum ChrootStep {
    Do(HostAction),
    /// The sequence is over, with this outcome.
    Finished(Result<(), String>),
}

pub enum ChrootStepV {
    Do(HostActionV),
    Finished(Result<(), Seq<char>>),
}

impl DeepView for ChrootStep {
    type V = ChrootStepV;

    open spec fn deep_view(&self) -> ChrootStepV {
        match self {
            ChrootStep::Do(a) => ChrootStepV::Do(a.deep_view()),
            ChrootStep::Finished(Ok(())) => ChrootStepV::Finished(Ok(())),
            ChrootStep::Finished(Err(e)) => ChrootStepV::Finished(Err(e@)),
        }
    }
}

/// The action the sequence waits on.
#[derive(Debug, Clone, Copy, PartialEq, Eq, Structural)]
pub enum ChrootStage {
    Start,
    Kernels,
    RootProbe,
    ReadLink,
    RemoveLink,
    CreateRoot,
    /// Creating the mount point: 0 proc, 1 sys, 2 dev.
    Mkdir(u8),
    MountProc,
    MountSys,
    BindDev,
    Depmod,
    Dracut,
    /// Clearing unit symlinks: 0 etc/systemd/system, 1 etc/systemd/user.
    PresetProbe(u8),
    PresetRemove(u8),
    PresetCreate(u8),
    PresetAll,
    PresetUser,
    Bootupd,
    UmountDev,
    UmountSys,
    UmountProc,
    RestoreRemove,
    RestoreLink,
    Done,
}

/// The chroot finalisation sequence: depmod, dracut initramfs generation,
/// systemd presets, and bootupd metadata, with /proc, /sys and /dev mounted
/// into the rootfs for them and unmounted afterwards.
pub struct ChrootRun {
    rootfs: String,
    stage: ChrootStage,
    kver: String,
    root_was_symlink: bool,
    failure: Option<String>,
}

pub struct ChrootRunV {
    pub rootfs: Seq<char>,
    pub stage: ChrootStage,
    pub kver: Seq<char>,
    pub root_was_symlink: bool,
    pub failure: Option<Seq<char>>,
}

impl View for ChrootRun {
    type V = ChrootRunV;

    closed spec fn view(&self) -> ChrootRunV {
        ChrootRunV {
            rootfs: self.rootfs@,
            stage: self.stage,
            kver: self.kver@,
            root_was_symlink: self.root_was_symlink,
            failure: self.failure.deep_view(),
        }
    }
}

pub open spec fn under(rootfs: Seq<char>, rel: Seq<char>) -> Seq<char> {
    join_text(rootfs, rel)
}

pub open spec fn root_path(s: ChrootRunV) -> Seq<char> {
    under(s.rootfs, "root"@)
}

/// The mount points: 0 proc, 1 sys, 2 dev.
pub open spec fn mount_target(s: ChrootRunV, i: int) -> Seq<char> {
    if i == 0 {
        under(s.rootfs, "proc"@)
    } else if i == 1 {
        under(s.rootfs, "sys"@)
    } else {
        under(s.rootfs, "dev"@)
    }
}

/// The unit symlink directories cleared before preset-all.
pub open spec fn preset_dir(s: ChrootRunV, i: int) -> Seq<char> {
    if i == 0 {
        under(s.rootfs, "etc/systemd/system"@)
    } else {
        under(s.rootfs, "etc/systemd/user"@)
    }
}

pub open spec fn mount_fs_cmd(fstype: Seq<char>, source: Seq<char>, target: Seq<char>) -> CommandV {
    CommandV {
        argv: seq!["mount"@, "-t"@, fstype, source, target],
        spawn_context: "mount -t "@ + fstype + " "@ + source + " "@ + target,
        failure_label: "mount -t "@ + fstype,
    }
}

pub open spec fn rbind_cmd(target: Seq<char>) -> CommandV {
    CommandV {
        argv: seq!["mount"@, "--rbind"@, "/dev"@, target],
        spawn_context: "mount --rbind /dev "@ + target,
        failure_label: "mount --rbind /dev"@,
    }
}

pub open spec fn chroot_cmd(rootfs: Seq<char>, program: Seq<char>, args: Seq<Seq<char>>) -> CommandV {
    CommandV {
        argv: seq!["chroot"@, rootfs, program] + args,
        spawn_context: "running chroot "@ + program,
        failure_label: program,
    }
}

pub open spec fn umount_cmd(recursive: bool, target: Seq<char>) -> CommandV {
    if recursive {
        CommandV {
            argv: seq!["umount"@, "-R"@, target],
            spawn_context: "umount -R "@ + target,
            failure_label: "umount -R "@ + target,
        }
    } else {
        CommandV {
            argv: seq!["umount"@, target],
            spawn_context: "umount "@ + target,
            failure_label: "umount "@ + target,
        }
    }
}

pub open spec fn depmod_cmd(s: ChrootRunV) -> CommandV {
    chroot_cmd(s.rootfs, "depmod"@, seq![s.kver])
}

pub open spec fn dracut_cmd(s: ChrootRunV) -> CommandV {
    chroot_cmd(
        s.rootfs,
        "dracut"@,
        seq![
            "--no-hostonly"@,
            "--kver"@,
            s.kver,
            "--force"@,
            "/usr/lib/modules/"@ + s.kver + "/initramfs.img"@,
        ],
    )
}

pub open spec fn preset_cmd(s: ChrootRunV) -> CommandV {
    chroot_cmd(s.rootfs, "systemctl"@, seq!["preset-all"@])
}

pub open spec fn preset_user_cmd(s: ChrootRunV) -> CommandV {
    chroot_cmd(s.rootfs, "systemctl"@, seq!["--user"@, "--global"@, "preset-all"@])
}

/// The outcome so far: the first failure of the chroot operations, if any.
pub open spec fn outcome(s: ChrootRunV) -> Result<(), Seq<char>> {
    match s.failure {
        Some(e) => Err(e),
        None => Ok(()),
    }
}

pub open spec fn at(s: ChrootRunV, stage: ChrootStage) -> ChrootRunV {
    ChrootRunV { stage, ..s }
}

pub open spec fn finish(s: ChrootRunV, r: Result<(), Seq<char>>) -> (ChrootRunV, ChrootStepV) {
    (at(s, ChrootStage::Done), ChrootStepV::Finished(r))
}

pub open spec fn go(s: ChrootRunV, stage: ChrootStage, a: HostActionV) -> (ChrootRunV, ChrootStepV) {
    (at(s, stage), ChrootStepV::Do(a))
}

/// The state with `e` recorded as the failure.
pub open spec fn with_failure(s: ChrootRunV, e: Seq<char>) -> ChrootRunV {
    ChrootRunV { failure: Some(e), ..s }
}

/// Nothing is mounted any more: /root is restored when it was a symlink,
/// then the sequence finishes with its outcome.
pub open spec fn after_unmount(s: ChrootRunV) -> (ChrootRunV, ChrootStepV) {
    if s.root_was_symlink {
        go(s, ChrootStage::RestoreRemove, HostActionV::RemoveDirAll(root_path(s)))
    } else {
        finish(s, outcome(s))
    }
}

/// After a chroot operation failed: keep the first failure and unmount.
pub open spec fn fail_op(s: ChrootRunV, e: Seq<char>) -> (ChrootRunV, ChrootStepV) {
    let s2 = ChrootRunV { failure: Some(e), ..s };
    go(s2, ChrootStage::UmountDev, HostActionV::Run(umount_cmd(true, mount_target(s, 2))))
}

/// The presets of directory `i` are dealt with: on to the next directory,
/// or to preset-all.
pub open spec fn after_preset_dir(s: ChrootRunV, i: int) -> (ChrootRunV, ChrootStepV) {
    if i == 0 {
        go(s, ChrootStage::PresetProbe(1), HostActionV::IsDir(preset_dir(s, 1)))
    } else {
        go(s, ChrootStage::PresetAll, HostActionV::Run(preset_cmd(s)))
    }
}

/// Whether the event is the kind of answer the stage waits for.
pub open spec fn expects(stage: ChrootStage, ev: HostEventV) -> bool {
    match stage {
        ChrootStage::Start => true,
        ChrootStage::Done => false,
        ChrootStage::Kernels => ev is Kernels,
        ChrootStage::RootProbe => ev is Flag,
        ChrootStage::PresetProbe(_) => ev is Flag,
        _ => ev is Done,
    }
}

/// Whether a stage value is one of the sequence.
pub open spec fn stage_ok(stage: ChrootStage) -> bool {
    match stage {
        ChrootStage::Mkdir(i) => i <= 2,
        ChrootStage::PresetProbe(i) => i <= 1,
        ChrootStage::PresetRemove(i) => i <= 1,
        ChrootStage::PresetCreate(i) => i <= 1,
        _ => true,
    }
}

/// One step of the sequence: the state after the event, and what to do.
pub open spec fn chroot_step(s: ChrootRunV, ev: HostEventV) -> (ChrootRunV, ChrootStepV) {
    let ok = ev matches HostEventV::Done(Ok(()));
    let err = match ev {
        HostEventV::Done(Err(e)) => e,
        _ => Seq::empty(),
    };
    let flag = ev matches HostEventV::Flag(true);
    match s.stage {
        ChrootStage::Start => go(
            s,
            ChrootStage::Kernels,
            HostActionV::ListKernels(under(s.rootfs, "usr/lib/modules"@)),
        ),
        ChrootStage::Kernels => match ev {
            HostEventV::Kernels(l) => match kernel_version(under(s.rootfs, "usr/lib/modules"@), l) {
                Err(e) => finish(s, Err(e)),
                Ok(k) => go(
                    ChrootRunV { kver: k, ..s },
                    ChrootStage::RootProbe,
                    HostActionV::IsSymlink(root_path(s)),
                ),
            },
            _ => finish(s, Err(Seq::empty())),
        },
        ChrootStage::RootProbe => {
            let s2 = ChrootRunV { root_was_symlink: flag, ..s };
            if flag {
                go(s2, ChrootStage::ReadLink, HostActionV::ReadLink(root_path(s)))
            } else {
                go(s2, ChrootStage::Mkdir(0), HostActionV::CreateDirAll(mount_target(s, 0)))
            }
        },
        ChrootStage::ReadLink => if ok {
            go(s, ChrootStage::RemoveLink, HostActionV::RemoveFile(root_path(s)))
        } else {
            finish(s, Err("reading symlink "@ + root_path(s)))
        },
        ChrootStage::RemoveLink => if ok {
            go(s, ChrootStage::CreateRoot, HostActionV::CreateDirAll(root_path(s)))
        } else {
            finish(s, Err("removing symlink "@ + root_path(s)))
        },
        ChrootStage::CreateRoot => if ok {
            go(s, ChrootStage::Mkdir(0), HostActionV::CreateDirAll(mount_target(s, 0)))
        } else {
            go(
                with_failure(s, "creating dir "@ + root_path(s)),
                ChrootStage::RestoreLink,
                HostActionV::Symlink("var/roothome"@, root_path(s)),
            )
        },
        ChrootStage::Mkdir(i) => if !ok {
            after_unmount(with_failure(s, "creating "@ + mount_target(s, i as int)))
        } else if i < 2 {
            go(
                s,
                ChrootStage::Mkdir((i + 1) as u8),
                HostActionV::CreateDirAll(mount_target(s, i + 1)),
            )
        } else {
            go(
                s,
                ChrootStage::MountProc,
                HostActionV::Run(mount_fs_cmd("proc"@, "proc"@, mount_target(s, 0))),
            )
        },
        ChrootStage::MountProc => if ok {
            go(
                s,
                ChrootStage::MountSys,
                HostActionV::Run(mount_fs_cmd("sysfs"@, "sys"@, mount_target(s, 1))),
            )
        } else {
            after_unmount(with_failure(s, err))
        },
        ChrootStage::MountSys => if ok {
            go(s, ChrootStage::BindDev, HostActionV::Run(rbind_cmd(mount_target(s, 2))))
        } else {
            go(
                with_failure(s, err),
                ChrootStage::UmountProc,
                HostActionV::Run(umount_cmd(false, mount_target(s, 0))),
            )
        },
        ChrootStage::BindDev => if ok {
            go(s, ChrootStage::Depmod, HostActionV::Run(depmod_cmd(s)))
        } else {
            go(
                with_failure(s, err),
                ChrootStage::UmountSys,
                HostActionV::Run(umount_cmd(false, mount_target(s, 1))),
            )
        },
        ChrootStage::Depmod => if ok {
            go(s, ChrootStage::Dracut, HostActionV::Run(dracut_cmd(s)))
        } else {
            fail_op(s, "depmod "@ + s.kver)
        },
        ChrootStage::Dracut => if ok {
            go(s, ChrootStage::PresetProbe(0), HostActionV::IsDir(preset_dir(s, 0)))
        } else {
            fail_op(s, "dracut --kver "@ + s.kver)
        },
        ChrootStage::PresetProbe(i) => if flag {
            go(s, ChrootStage::PresetRemove(i), HostActionV::RemoveDirAll(preset_dir(s, i as int)))
        } else {
            after_preset_dir(s, i as int)
        },
        ChrootStage::PresetRemove(i) => if ok {
            go(s, ChrootStage::PresetCreate(i), HostActionV::CreateDirAll(preset_dir(s, i as int)))
        } else {
            fail_op(s, "removing "@ + preset_dir(s, i as int))
        },
        ChrootStage::PresetCreate(i) => if ok {
            after_preset_dir(s, i as int)
        } else {
            fail_op(s, "recreating "@ + preset_dir(s, i as int))
        },
        ChrootStage::PresetAll => if ok {
            go(s, ChrootStage::PresetUser, HostActionV::Run(preset_user_cmd(s)))
        } else {
            fail_op(s, "systemctl preset-all"@)
        },
        ChrootStage::PresetUser => if ok {
            go(s, ChrootStage::Bootupd, HostActionV::Bootupd)
        } else {
            fail_op(s, "systemctl --user --global preset-all"@)
        },
        ChrootStage::Bootupd => if ok {
            go(s, ChrootStage::UmountDev, HostActionV::Run(umount_cmd(true, mount_target(s, 2))))
        } else {
            fail_op(s, err)
        },
        ChrootStage::UmountDev => go(
            s,
            ChrootStage::UmountSys,
            HostActionV::Run(umount_cmd(false, mount_target(s, 1))),
        ),
        ChrootStage::UmountSys => go(
            s,
            ChrootStage::UmountProc,
            HostActionV::Run(umount_cmd(false, mount_target(s, 0))),
        ),
        ChrootStage::UmountProc => after_unmount(s),
        ChrootStage::RestoreRemove => if ok {
            go(s, ChrootStage::RestoreLink, HostActionV::Symlink("var/roothome"@, root_path(s)))
        } else {
            finish(s, Err("removing temp dir "@ + root_path(s)))
        },
        ChrootStage::RestoreLink => if ok {
            finish(s, outcome(s))
        } else {
            finish(s, Err("restoring symlink "@ + root_path(s)))
        },
        ChrootStage::Done => (s, ChrootStepV::Finished(outcome(s))),
    }
}

} // verus!

verus! {

fn push_arg(v: &mut Vec<String>, a: String)
    ensures
        final(v).deep_view() == old(v).deep_view().push(a@),
{
    let ghost before = v.deep_view();
    v.push(a);
    assert(v.deep_view() =~= before.push(a@));
}

fn cat3(a: &str, b: &str, c: &str) -> (r: String)
    ensures
        r@ == a@ + b@ + c@,
{
    let mut r = concat(a, b);
    r.append(c);
    r
}

fn mount_fs_command(fstype: &str, source: &str, target: &String) -> (r: Command)
    ensures
        r.deep_view() == mount_fs_cmd(fstype@, source@, target@),
{
    let mut argv: Vec<String> = Vec::new();
    push_arg(&mut argv, owned("mount"));
    push_arg(&mut argv, owned("-t"));
    push_arg(&mut argv, owned(fstype));
    push_arg(&mut argv, owned(source));
    push_arg(&mut argv, target.clone());
    let mut ctx = concat("mount -t ", fstype);
    ctx.append(" ");
    ctx.append(source);
    ctx.append(" ");
    ctx.append(target.as_str());
    let r = Command { argv, spawn_context: ctx, failure_label: concat("mount -t ", fstype) };
    assert(r.deep_view().argv =~= mount_fs_cmd(fstype@, source@, target@).argv);
    assert(r.deep_view().spawn_context =~= mount_fs_cmd(fstype@, source@, target@).spawn_context);
    r
}

fn rbind_command(target: &String) -> (r: Command)
    ensures
        r.deep_view() == rbind_cmd(target@),
{
    let mut argv: Vec<String> = Vec::new();
    push_arg(&mut argv, owned("mount"));
    push_arg(&mut argv, owned("--rbind"));
    push_arg(&mut argv, owned("/dev"));
    push_arg(&mut argv, target.clone());
    let r = Command {
        argv,
        spawn_context: concat("mount --rbind /dev ", target.as_str()),
        failure_label: owned("mount --rbind /dev"),
    };
    assert(r.deep_view().argv =~= rbind_cmd(target@).argv);
    r
}

fn umount_command(recursive: bool, target: &String) -> (r: Command)
    ensures
        r.deep_view() == umount_cmd(recursive, target@),
{
    let mut argv: Vec<String> = Vec::new();
    push_arg(&mut argv, owned("umount"));
    if recursive {
        push_arg(&mut argv, owned("-R"));
        push_arg(&mut argv, target.clone());
        let r = Command {
            argv,
            spawn_context: concat("umount -R ", target.as_str()),
            failure_label: concat("umount -R ", target.as_str()),
        };
        assert(r.deep_view().argv =~= umount_cmd(recursive, target@).argv);
        r
    } else {
        push_arg(&mut argv, target.clone());
        let r = Command {
            argv,
            spawn_context: concat("umount ", target.as_str()),
            failure_label: concat("umount ", target.as_str()),
        };
        assert(r.deep_view().argv =~= umount_cmd(recursive, target@).argv);
        r
    }
}

/// `chroot ROOTFS PROGRAM ARGS...`
fn chroot_command(rootfs: &String, program: &str, args: Vec<String>) -> (r: Command)
    ensures
        r.deep_view() == chroot_cmd(rootfs@, program@, args.deep_view()),
{
    let mut argv: Vec<String> = Vec::new();
    push_arg(&mut argv, owned("chroot"));
    push_arg(&mut argv, rootfs.clone());
    push_arg(&mut argv, owned(program));
    let ghost head = argv.deep_view();
    let ghost av = args.deep_view();
    for i in 0..args.len()
        invariant
            av == args.deep_view(),
            argv.deep_view() == head + av.take(i as int),
    {
        push_arg(&mut argv, args[i].clone());
        assert(argv.deep_view() =~= head + av.take(i + 1));
    }
    assert(av.take(args.len() as int) =~= av);
    let r = Command {
        argv,
        spawn_context: concat("running chroot ", program),
        failure_label: owned(program),
    };
    assert(r.deep_view().argv =~= chroot_cmd(rootfs@, program@, av).argv);
    r
}

/// Generate kernel module dependency files: `depmod KVER` in the rootfs.
pub fn depmod(rootfs: &String, kver: &String) -> (r: Command)
    ensures
        r.deep_view() == chroot_cmd(rootfs@, "depmod"@, seq![kver@]),
{
    let mut args: Vec<String> = Vec::new();
    push_arg(&mut args, kver.clone());
    assert(args.deep_view() =~= seq![kver@]);
    chroot_command(rootfs, "depmod", args)
}

/// Generate the initramfs using dracut, written to
/// /usr/lib/modules/{kver}/initramfs.img, where bootc expects it for
/// ostree deployments.
pub fn generate_initramfs(rootfs: &String, kver: &String) -> (r: Command)
    ensures
        r.deep_view() == chroot_cmd(
            rootfs@,
            "dracut"@,
            seq![
                "--no-hostonly"@,
                "--kver"@,
                kver@,
                "--force"@,
                "/usr/lib/modules/"@ + kver@ + "/initramfs.img"@,
            ],
        ),
{
    let mut args: Vec<String> = Vec::new();
    push_arg(&mut args, owned("--no-hostonly"));
    push_arg(&mut args, owned("--kver"));
    push_arg(&mut args, kver.clone());
    push_arg(&mut args, owned("--force"));
    push_arg(&mut args, cat3("/usr/lib/modules/", kver.as_str(), "/initramfs.img"));
    assert(args.deep_view() =~= seq![
        "--no-hostonly"@,
        "--kver"@,
        kver@,
        "--force"@,
        "/usr/lib/modules/"@ + kver@ + "/initramfs.img"@,
    ]);
    chroot_command(rootfs, "dracut", args)
}

impl ChrootRun {
    pub open spec fn wf(&self) -> bool {
        stage_ok(self@.stage)
    }

    /// The sequence for the rootfs at `rootfs`, not started.
    pub fn new(rootfs: String) -> (r: ChrootRun)
        ensures
            r.wf(),
            r@.rootfs == rootfs@,
            r@.stage == ChrootStage::Start,
            r@.kver == Seq::<char>::empty(),
            r@.root_was_symlink == false,
            r@.failure is None,
    {
        ChrootRun {
            rootfs,
            stage: ChrootStage::Start,
            kver: String::new(),
            root_was_symlink: false,
            failure: None,
        }
    }

    fn path_of(&self, rel: &str) -> (r: String)
        ensures
            r@ == under(self@.rootfs, rel@),
    {
        join(self.rootfs.as_str(), rel)
    }

    fn mount_target_exec(&self, i: u8) -> (r: String)
        ensures
            r@ == mount_target(self@, i as int),
    {
        if i == 0 {
            self.path_of("proc")
        } else if i == 1 {
            self.path_of("sys")
        } else {
            self.path_of("dev")
        }
    }

    fn preset_dir_exec(&self, i: u8) -> (r: String)
        ensures
            r@ == preset_dir(self@, i as int),
    {
        if i == 0 {
            self.path_of("etc/systemd/system")
        } else {
            self.path_of("etc/systemd/user")
        }
    }

    fn go_to(&mut self, stage: ChrootStage, a: HostAction) -> (r: ChrootStep)
        ensures
            (final(self)@, r.deep_view()) == go(old(self)@, stage, a.deep_view()),
    {
        self.stage = stage;
        ChrootStep::Do(a)
    }

    fn finish_with(&mut self, r: Result<(), String>) -> (s: ChrootStep)
        ensures
            (final(self)@, s.deep_view()) == finish(
                old(self)@,
                match r {
                    Ok(()) => Ok(()),
                    Err(e) => Err(e@),
                },
            ),
    {
        self.stage = ChrootStage::Done;
        ChrootStep::Finished(r)
    }

    fn outcome_exec(&self) -> (r: Result<(), String>)
        ensures
            match r {
                Ok(()) => outcome(self@) == Ok::<(), Seq<char>>(()),
                Err(e) => outcome(self@) == Err::<(), Seq<char>>(e@),
            },
    {
        match &self.failure {
            Some(e) => Err(e.clone()),
            None => Ok(()),
        }
    }

    /// Nothing is mounted any more (see [`after_unmount`]).
    fn unmounted(&mut self) -> (r: ChrootStep)
        ensures
            (final(self)@, r.deep_view()) == after_unmount(old(self)@),
    {
        if self.root_was_symlink {
            let root = self.path_of("root");
            self.go_to(ChrootStage::RestoreRemove, HostAction::RemoveDirAll(root))
        } else {
            let o = self.outcome_exec();
            self.finish_with(o)
        }
    }

    fn fail_with(&mut self, e: String) -> (r: ChrootStep)
        ensures
            (final(self)@, r.deep_view()) == fail_op(old(self)@, e@),
    {
        let dev = self.mount_target_exec(2);
        self.failure = Some(e);
        self.stage = ChrootStage::UmountDev;
        ChrootStep::Do(HostAction::Run(umount_command(true, &dev)))
    }

    fn after_preset(&mut self, i: u8) -> (r: ChrootStep)
        ensures
            (final(self)@, r.deep_view()) == after_preset_dir(old(self)@, i as int),
    {
        if i == 0 {
            let d = self.preset_dir_exec(1);
            self.go_to(ChrootStage::PresetProbe(1), HostAction::IsDir(d))
        } else {
            let mut args: Vec<String> = Vec::new();
            push_arg(&mut args, owned("preset-all"));
            let c = chroot_command(&self.rootfs, "systemctl", args);
            assert(c.deep_view() == preset_cmd(self@)) by {
                assert(args.deep_view() =~= seq!["preset-all"@]);
            }
            self.go_to(ChrootStage::PresetAll, HostAction::Run(c))
        }
    }
}

} // verus!

verus! {

impl ChrootRun {
    /// Takes the outcome of the last action and returns the next one (the
    /// first call, at the start, ignores its event).
    pub fn step(&mut self, ev: HostEvent) -> (r: ChrootStep)
        requires
            old(self).wf(),
            old(self)@.stage != ChrootStage::Done,
            expects(old(self)@.stage, ev.deep_view()),
        ensures
            final(self).wf(),
            (final(self)@, r.deep_view()) == chroot_step(old(self)@, ev.deep_view()),
    {
        let ok = match &ev {
            HostEvent::Done(Ok(())) => true,
            _ => false,
        };
        let flag = match &ev {
            HostEvent::Flag(b) => *b,
            _ => false,
        };
        match self.stage {
            ChrootStage::Start => {
                let p = self.path_of("usr/lib/modules");
                self.go_to(ChrootStage::Kernels, HostAction::ListKernels(p))
            },
            ChrootStage::Kernels => match ev {
                HostEvent::Kernels(l) => {
                    let dir = self.path_of("usr/lib/modules");
                    match detect_kernel_version(dir.as_str(), &l) {
                        Err(e) => self.finish_with(Err(e)),
                        Ok(k) => {
                            self.kver = k;
                            let root = self.path_of("root");
                            self.go_to(ChrootStage::RootProbe, HostAction::IsSymlink(root))
                        },
                    }
                },
                _ => self.finish_with(Err(String::new())),
            },
            ChrootStage::RootProbe => {
                self.root_was_symlink = flag;
                if flag {
                    let root = self.path_of("root");
                    self.go_to(ChrootStage::ReadLink, HostAction::ReadLink(root))
                } else {
                    let t = self.mount_target_exec(0);
                    self.go_to(ChrootStage::Mkdir(0), HostAction::CreateDirAll(t))
                }
            },
            ChrootStage::ReadLink => {
                let root = self.path_of("root");
                if ok {
                    self.go_to(ChrootStage::RemoveLink, HostAction::RemoveFile(root))
                } else {
                    self.finish_with(Err(concat("reading symlink ", root.as_str())))
                }
            },
            ChrootStage::RemoveLink => {
                let root = self.path_of("root");
                if ok {
                    self.go_to(ChrootStage::CreateRoot, HostAction::CreateDirAll(root))
                } else {
                    self.finish_with(Err(concat("removing symlink ", root.as_str())))
                }
            },
            ChrootStage::CreateRoot => {
                let root = self.path_of("root");
                if ok {
                    let t = self.mount_target_exec(0);
                    self.go_to(ChrootStage::Mkdir(0), HostAction::CreateDirAll(t))
                } else {
                    self.failure = Some(concat("creating dir ", root.as_str()));
                    self.go_to(
                        ChrootStage::RestoreLink,
                        HostAction::Symlink(owned("var/roothome"), root),
                    )
                }
            },
            ChrootStage::Mkdir(i) => {
                if !ok {
                    let t = self.mount_target_exec(i);
                    self.failure = Some(concat("creating ", t.as_str()));
                    self.unmounted()
                } else if i < 2 {
                    let t = self.mount_target_exec(i + 1);
                    self.go_to(ChrootStage::Mkdir(i + 1), HostAction::CreateDirAll(t))
                } else {
                    let t = self.mount_target_exec(0);
                    let c = mount_fs_command("proc", "proc", &t);
                    self.go_to(ChrootStage::MountProc, HostAction::Run(c))
                }
            },
            ChrootStage::MountProc => match ev {
                HostEvent::Done(Ok(())) => {
                    let t = self.mount_target_exec(1);
                    let c = mount_fs_command("sysfs", "sys", &t);
                    self.go_to(ChrootStage::MountSys, HostAction::Run(c))
                },
                HostEvent::Done(Err(e)) => {
                    self.failure = Some(e);
                    self.unmounted()
                },
                _ => {
                    self.failure = Some(String::new());
                    self.unmounted()
                },
            },
            ChrootStage::MountSys => match ev {
                HostEvent::Done(Ok(())) => {
                    let t = self.mount_target_exec(2);
                    let c = rbind_command(&t);
                    self.go_to(ChrootStage::BindDev, HostAction::Run(c))
                },
                _ => {
                    let e = match ev {
                        HostEvent::Done(Err(e)) => e,
                        _ => String::new(),
                    };
                    let t = self.mount_target_exec(0);
                    self.failure = Some(e);
                    self.go_to(ChrootStage::UmountProc, HostAction::Run(umount_command(false, &t)))
                },
            },
            ChrootStage::BindDev => match ev {
                HostEvent::Done(Ok(())) => {
                    let c = depmod(&self.rootfs, &self.kver);
                    self.go_to(ChrootStage::Depmod, HostAction::Run(c))
                },
                _ => {
                    let e = match ev {
                        HostEvent::Done(Err(e)) => e,
                        _ => String::new(),
                    };
                    let t = self.mount_target_exec(1);
                    self.failure = Some(e);
                    self.go_to(ChrootStage::UmountSys, HostAction::Run(umount_command(false, &t)))
                },
            },
            ChrootStage::Depmod => {
                if ok {
                    let c = generate_initramfs(&self.rootfs, &self.kver);
                    self.go_to(ChrootStage::Dracut, HostAction::Run(c))
                } else {
                    let m = concat("depmod ", self.kver.as_str());
                    self.fail_with(m)
                }
            },
            ChrootStage::Dracut => {
                if ok {
                    let d = self.preset_dir_exec(0);
                    self.go_to(ChrootStage::PresetProbe(0), HostAction::IsDir(d))
                } else {
                    let m = concat("dracut --kver ", self.kver.as_str());
                    self.fail_with(m)
                }
            },
            ChrootStage::PresetProbe(i) => {
                if flag {
                    let d = self.preset_dir_exec(i);
                    self.go_to(ChrootStage::PresetRemove(i), HostAction::RemoveDirAll(d))
                } else {
                    self.after_preset(i)
                }
            },
            ChrootStage::PresetRemove(i) => {
                let d = self.preset_dir_exec(i);
                if ok {
                    self.go_to(ChrootStage::PresetCreate(i), HostAction::CreateDirAll(d))
                } else {
                    self.fail_with(concat("removing ", d.as_str()))
                }
            },
            ChrootStage::PresetCreate(i) => {
                if ok {
                    self.after_preset(i)
                } else {
                    let d = self.preset_dir_exec(i);
                    self.fail_with(concat("recreating ", d.as_str()))
                }
            },
            ChrootStage::PresetAll => {
                if ok {
                    let mut args: Vec<String> = Vec::new();
                    push_arg(&mut args, owned("--user"));
                    push_arg(&mut args, owned("--global"));
                    push_arg(&mut args, owned("preset-all"));
                    assert(args.deep_view() =~= seq!["--user"@, "--global"@, "preset-all"@]);
                    let c = chroot_command(&self.rootfs, "systemctl", args);
                    self.go_to(ChrootStage::PresetUser, HostAction::Run(c))
                } else {
                    self.fail_with(owned("systemctl preset-all"))
                }
            },
            ChrootStage::PresetUser => {
                if ok {
                    self.go_to(ChrootStage::Bootupd, HostAction::Bootupd)
                } else {
                    self.fail_with(owned("systemctl --user --global preset-all"))
                }
            },
            ChrootStage::Bootupd => match ev {
                HostEvent::Done(Ok(())) => {
                    let t = self.mount_target_exec(2);
                    let c = umount_command(true, &t);
                    self.go_to(ChrootStage::UmountDev, HostAction::Run(c))
                },
                HostEvent::Done(Err(e)) => self.fail_with(e),
                _ => self.fail_with(String::new()),
            },
            ChrootStage::UmountDev => {
                let t = self.mount_target_exec(1);
                let c = umount_command(false, &t);
                self.go_to(ChrootStage::UmountSys, HostAction::Run(c))
            },
            ChrootStage::UmountSys => {
                let t = self.mount_target_exec(0);
                let c = umount_command(false, &t);
                self.go_to(ChrootStage::UmountProc, HostAction::Run(c))
            },
            ChrootStage::UmountProc => self.unmounted(),
            ChrootStage::RestoreRemove => {
                let root = self.path_of("root");
                if ok {
                    self.go_to(ChrootStage::RestoreLink, HostAction::Symlink(owned("var/roothome"), root))
                } else {
                    self.finish_with(Err(concat("removing temp dir ", root.as_str())))
                }
            },
            ChrootStage::RestoreLink => {
                if ok {
                    let o = self.outcome_exec();
                    self.finish_with(o)
                } else {
                    let root = self.path_of("root");
                    self.finish_with(Err(concat("restoring symlink ", root.as_str())))
                }
            },
            ChrootStage::Done => ChrootStep::Finished(Ok(())),
        }
    }
}

} // verus!

verus! {

/// The stages in which /proc, /sys and /dev are all mounted into the rootfs
/// (from the moment the bind mount of /dev succeeded) and not all unmounted
/// yet.
/// Starts the chroot operations needed to finalize a bootc rootfs: depmod,
/// dracut initramfs generation, systemd presets, and bootupd metadata,
/// with /proc, /sys and /dev mounted into the rootfs while they run and
/// unmounted when done. Returns the sequence and its first action; the
/// caller performs each action and hands back what came of it with
/// [`ChrootRun::step`].
pub fn run_chroot_operations(rootfs: String) -> (r: (ChrootRun, ChrootStep))
    ensures
        r.0.wf(),
        (r.0@, r.1.deep_view()) == chroot_step(
            ChrootRunV {
                rootfs: rootfs@,
                stage: ChrootStage::Start,
                kver: Seq::empty(),
                root_was_symlink: false,
                failure: None,
            },
            HostEventV::Flag(false),
        ),
        r.1.deep_view() == ChrootStepV::Do(HostActionV::ListKernels(under(rootfs@, "usr/lib/modules"@))),
{
    let mut run = ChrootRun::new(rootfs);
    let first = run.step(HostEvent::Flag(false));
    (run, first)
}

/// The stages at which at least one host filesystem (/proc first) is
/// mounted into the rootfs.
pub open spec fn mounts_held(stage: ChrootStage) -> bool {
    match stage {
        ChrootStage::MountSys | ChrootStage::BindDev | ChrootStage::Depmod | ChrootStage::Dracut
        | ChrootStage::PresetProbe(_) | ChrootStage::PresetRemove(_) | ChrootStage::PresetCreate(_)
        | ChrootStage::PresetAll | ChrootStage::PresetUser | ChrootStage::Bootupd
        | ChrootStage::UmountDev | ChrootStage::UmountSys => true,
        _ => false,
    }
}

/// The stages after the chroot operations, where only unmounting and
/// restoring /root remain.
pub open spec fn cleaning_up(stage: ChrootStage) -> bool {
    match stage {
        ChrootStage::UmountDev | ChrootStage::UmountSys | ChrootStage::UmountProc
        | ChrootStage::RestoreRemove | ChrootStage::RestoreLink | ChrootStage::Done => true,
        _ => false,
    }
}

/// Once /proc is mounted, the sequence does not finish before unmounting
/// what it mounted, whether the later mounts and operations succeed or
/// fail: every step from such a stage asks for another action, and leads
/// to a stage that still holds a mount or to the unmount of /proc, the
/// last of them.
pub proof fn law_mounts_released(s: ChrootRunV, ev: HostEventV)
    requires
        stage_ok(s.stage),
        mounts_held(s.stage),
        expects(s.stage, ev),
    ensures
        chroot_step(s, ev).1 is Do,
        mounts_held(chroot_step(s, ev).0.stage) || chroot_step(s, ev).0.stage
            == ChrootStage::UmountProc,
{
}

/// The first failure of the chroot operations is the one reported: a
/// recorded failure only stands while cleaning up, and no later step
/// replaces it.
pub proof fn law_first_failure_kept(s: ChrootRunV, ev: HostEventV)
    requires
        stage_ok(s.stage),
        s.stage != ChrootStage::Done,
        expects(s.stage, ev),
        s.failure is Some ==> cleaning_up(s.stage),
    ensures
        chroot_step(s, ev).0.failure is Some ==> cleaning_up(chroot_step(s, ev).0.stage),
        s.failure is Some ==> chroot_step(s, ev).0.failure == s.failure,
{
}

/// When /root was a symlink and the sequence got as far as unmounting,
/// the symlink is restored: after /proc is unmounted the temporary
/// directory is removed and the link to var/roothome is created again.
pub proof fn law_root_link_restored(s: ChrootRunV, ev: HostEventV)
    requires
        s.stage == ChrootStage::UmountProc,
        s.root_was_symlink,
    ensures
        chroot_step(s, ev).1 == ChrootStepV::Do(HostActionV::RemoveDirAll(root_path(s))),
        chroot_step(chroot_step(s, ev).0, HostEventV::Done(Ok(()))).1 == ChrootStepV::Do(
            HostActionV::Symlink("var/roothome"@, root_path(s)),
        ),
{
}

/// When /root was a symlink and was replaced by a directory, a failure
/// before the host filesystems are all mounted still restores it: the
/// sequence goes on to remove the directory (nothing mounted) or to
/// unmount what was mounted.
pub proof fn law_early_failure_restores_root(s: ChrootRunV, e: Seq<char>)
    requires
        s.root_was_symlink,
        s.stage is Mkdir || s.stage == ChrootStage::MountProc,
    ensures
        chroot_step(s, HostEventV::Done(Err(e))).1 == ChrootStepV::Do(
            HostActionV::RemoveDirAll(root_path(s)),
        ),
        chroot_step(s, HostEventV::Done(Err(e))).0.failure is Some,
{
}

/// A failed mount of /sys or bind of /dev unmounts what was mounted
/// before it.
pub proof fn law_failed_mount_unmounts(s: ChrootRunV, e: Seq<char>)
    requires
        s.stage == ChrootStage::MountSys || s.stage == ChrootStage::BindDev,
    ensures
        s.stage == ChrootStage::MountSys ==> chroot_step(s, HostEventV::Done(Err(e))).1
            == ChrootStepV::Do(HostActionV::Run(umount_cmd(false, mount_target(s, 0)))),
        s.stage == ChrootStage::BindDev ==> chroot_step(s, HostEventV::Done(Err(e))).1
            == ChrootStepV::Do(HostActionV::Run(umount_cmd(false, mount_target(s, 1)))),
        chroot_step(s, HostEventV::Done(Err(e))).0.failure == Some(e),
{
}

} // verus!
