use bootc_base_imagectl::chroot::{
    depmod, detect_kernel_version, efi_package_names, generate_initramfs, run_chroot_operations,
    Arch, ChrootRun, ChrootStep, HostAction, HostEvent, KernelDirItem, KernelListing,
};

/// A short description of what the sequence asks for.
fn describe(step: &ChrootStep) -> String {
    match step {
        ChrootStep::Finished(Ok(())) => "finished".to_string(),
        ChrootStep::Finished(Err(e)) => format!("failed: {e}"),
        ChrootStep::Do(a) => match a {
            HostAction::ListKernels(p) => format!("list {p}"),
            HostAction::IsSymlink(p) => format!("is-symlink {p}"),
            HostAction::IsDir(p) => format!("is-dir {p}"),
            HostAction::ReadLink(p) => format!("readlink {p}"),
            HostAction::RemoveFile(p) => format!("rm {p}"),
            HostAction::CreateDirAll(p) => format!("mkdir -p {p}"),
            HostAction::RemoveDirAll(p) => format!("rm -r {p}"),
            HostAction::Symlink(t, p) => format!("ln -s {t} {p}"),
            HostAction::Run(c) => format!("run {}", c.argv.join(" ")),
            HostAction::Bootupd => "bootupd".to_string(),
        },
    }
}

fn ok() -> HostEvent {
    HostEvent::Done(Ok(()))
}

fn kernel(name: &str) -> HostEvent {
    HostEvent::Kernels(KernelListing::Read(vec![KernelDirItem::Entry(
        Some(name.to_string()),
        true,
    )]))
}

fn drive(run: &mut ChrootRun, events: Vec<HostEvent>) -> Vec<String> {
    let mut seen = Vec::new();
    for ev in events {
        let step = run.step(ev);
        seen.push(describe(&step));
    }
    seen
}

#[test]
fn chroot_sequence_with_root_symlink() {
    let (mut run, first) = run_chroot_operations("/r".to_string());
    assert_eq!(describe(&first), "list /r/usr/lib/modules");
    let seen = drive(
        &mut run,
        vec![
            kernel("6.1.0"),
            HostEvent::Flag(true),
            ok(),
            ok(),
            ok(),
            ok(),
            ok(),
            ok(),
            ok(),
            ok(),
            ok(),
            ok(),
            ok(),
            HostEvent::Flag(false),
            HostEvent::Flag(true),
            ok(),
            ok(),
            ok(),
            ok(),
            ok(),
            ok(),
            ok(),
            ok(),
            ok(),
            ok(),
        ],
    );
    assert_eq!(
        seen,
        vec![
            "is-symlink /r/root",
            "readlink /r/root",
            "rm /r/root",
            "mkdir -p /r/root",
            "mkdir -p /r/proc",
            "mkdir -p /r/sys",
            "mkdir -p /r/dev",
            "run mount -t proc proc /r/proc",
            "run mount -t sysfs sys /r/sys",
            "run mount --rbind /dev /r/dev",
            "run chroot /r depmod 6.1.0",
            "run chroot /r dracut --no-hostonly --kver 6.1.0 --force /usr/lib/modules/6.1.0/initramfs.img",
            "is-dir /r/etc/systemd/system",
            "is-dir /r/etc/systemd/user",
            "rm -r /r/etc/systemd/user",
            "mkdir -p /r/etc/systemd/user",
            "run chroot /r systemctl preset-all",
            "run chroot /r systemctl --user --global preset-all",
            "bootupd",
            "run umount -R /r/dev",
            "run umount /r/sys",
            "run umount /r/proc",
            "rm -r /r/root",
            "ln -s var/roothome /r/root",
            "finished",
        ]
    );
}

#[test]
fn chroot_failure_still_unmounts_and_keeps_the_first_error() {
    let (mut run, _) = run_chroot_operations("/r".to_string());
    let seen = drive(
        &mut run,
        vec![
            kernel("6.1.0"),
            HostEvent::Flag(false),
            ok(),
            ok(),
            ok(),
            ok(),
            ok(),
            ok(),
            HostEvent::Done(Err("depmod failed with exit status: 1".to_string())),
            HostEvent::Done(Err("umount -R /r/dev failed".to_string())),
            ok(),
            ok(),
        ],
    );
    assert_eq!(
        seen,
        vec![
            "is-symlink /r/root",
            "mkdir -p /r/proc",
            "mkdir -p /r/sys",
            "mkdir -p /r/dev",
            "run mount -t proc proc /r/proc",
            "run mount -t sysfs sys /r/sys",
            "run mount --rbind /dev /r/dev",
            "run chroot /r depmod 6.1.0",
            "run umount -R /r/dev",
            "run umount /r/sys",
            "run umount /r/proc",
            "failed: depmod 6.1.0",
        ]
    );
}

#[test]
fn chroot_mount_failure_stops_before_running_anything() {
    let (mut run, _) = run_chroot_operations("/r".to_string());
    let seen = drive(
        &mut run,
        vec![
            kernel("6.1.0"),
            HostEvent::Flag(false),
            ok(),
            ok(),
            ok(),
            HostEvent::Done(Err("mount -t proc failed with exit status: 32".to_string())),
        ],
    );
    assert_eq!(seen.last().unwrap(), "failed: mount -t proc failed with exit status: 32");
}

#[test]
fn chroot_without_kernel_fails() {
    let (mut run, _) = run_chroot_operations("/r".to_string());
    let step = run.step(HostEvent::Kernels(KernelListing::Read(vec![])));
    assert_eq!(describe(&step), "failed: no kernel version found in /r/usr/lib/modules");
}

#[test]
fn kernel_version_is_the_first_directory() {
    let listing = KernelListing::Read(vec![
        KernelDirItem::Entry(Some("README".to_string()), false),
        KernelDirItem::Entry(Some("6.8.5-301.fc40.x86_64".to_string()), true),
        KernelDirItem::Entry(Some("6.9.0".to_string()), true),
    ]);
    assert_eq!(
        detect_kernel_version("/r/usr/lib/modules", &listing),
        Ok("6.8.5-301.fc40.x86_64".to_string())
    );
}

#[test]
fn kernel_version_errors() {
    assert_eq!(
        detect_kernel_version("/m", &KernelListing::Failed),
        Err("reading /m".to_string())
    );
    assert_eq!(
        detect_kernel_version("/m", &KernelListing::Read(vec![KernelDirItem::Unreadable])),
        Err("reading entry in /m".to_string())
    );
    assert_eq!(
        detect_kernel_version("/m", &KernelListing::Read(vec![KernelDirItem::Entry(None, true)])),
        Err("kernel version directory name is not valid UTF-8".to_string())
    );
    assert_eq!(
        detect_kernel_version("/m", &KernelListing::Read(vec![])),
        Err("no kernel version found in /m".to_string())
    );
}

#[test]
fn efi_packages_by_architecture() {
    assert_eq!(efi_package_names(Arch::X86_64), ("grub2-efi-x64", "shim-x64"));
    assert_eq!(efi_package_names(Arch::Aarch64), ("grub2-efi-aa64", "shim-aa64"));
    assert_eq!(efi_package_names(Arch::Other), ("grub2-efi-x64", "shim-x64"));
}

#[test]
fn depmod_and_dracut_commands() {
    let c = depmod(&"/r".to_string(), &"6.1".to_string());
    assert_eq!(c.argv, vec!["chroot", "/r", "depmod", "6.1"]);
    assert_eq!(c.spawn_context, "running chroot depmod");
    assert_eq!(c.failure_label, "depmod");
    let c = generate_initramfs(&"/r".to_string(), &"6.1".to_string());
    assert_eq!(
        c.argv,
        vec![
            "chroot",
            "/r",
            "dracut",
            "--no-hostonly",
            "--kver",
            "6.1",
            "--force",
            "/usr/lib/modules/6.1/initramfs.img"
        ]
    );
    assert_eq!(c.failure_label, "dracut");
}

#[test]
fn chroot_failed_bind_unmounts_sys_and_proc() {
    let (mut run, _) = run_chroot_operations("/r".to_string());
    let seen = drive(
        &mut run,
        vec![
            kernel("6.1.0"),
            HostEvent::Flag(false),
            ok(),
            ok(),
            ok(),
            ok(),
            ok(),
            HostEvent::Done(Err("mount --rbind /dev failed with exit status: 32".to_string())),
            ok(),
            ok(),
        ],
    );
    assert_eq!(
        &seen[seen.len() - 3..],
        &[
            "run umount /r/sys".to_string(),
            "run umount /r/proc".to_string(),
            "failed: mount --rbind /dev failed with exit status: 32".to_string(),
        ]
    );
}

#[test]
fn chroot_failed_mkdir_restores_root_link() {
    let (mut run, _) = run_chroot_operations("/r".to_string());
    let seen = drive(
        &mut run,
        vec![
            kernel("6.1.0"),
            HostEvent::Flag(true),
            ok(),
            ok(),
            ok(),
            HostEvent::Done(Err("permission denied".to_string())),
            ok(),
            ok(),
        ],
    );
    assert_eq!(
        &seen[seen.len() - 4..],
        &[
            "mkdir -p /r/proc".to_string(),
            "rm -r /r/root".to_string(),
            "ln -s var/roothome /r/root".to_string(),
            "failed: creating /r/proc".to_string(),
        ]
    );
}

#[test]
fn chroot_failed_root_dir_puts_the_link_back() {
    let (mut run, _) = run_chroot_operations("/r".to_string());
    let seen = drive(
        &mut run,
        vec![
            kernel("6.1.0"),
            HostEvent::Flag(true),
            ok(),
            ok(),
            HostEvent::Done(Err("read-only file system".to_string())),
            ok(),
        ],
    );
    assert_eq!(
        &seen[seen.len() - 2..],
        &["ln -s var/roothome /r/root".to_string(), "failed: creating dir /r/root".to_string()]
    );
}
