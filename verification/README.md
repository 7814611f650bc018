# bootc-base-imagectl

Transforms a `dnf --installroot` rootfs into a bootc-compatible layout:
toplevel symlinks, rpmdb relocation, passwd propagation, ostree and
kernel-install configuration, the chroot finalisation (depmod, dracut,
systemd presets, bootupd metadata), /boot relocation and cleanup. It also
builds a rootfs from a TOML manifest or an rpm-ostree treefile, and
rechunks images.

## Transforms

Transforms run in three phases, and within a phase in this order:

- before the chroot: `toplevel_symlinks`, `var_tmpfiles`,
  `rpmdb_relocate`, `passwd_generate`, `ostree_config`,
  `dracut_config`, `dnf_config`, `systemd_config`;
- in the chroot: `chroot_ops`;
- after it: `boot_relocate`, `post_cleanup`.

What the configuration transforms write:

- `var_tmpfiles`: `usr/lib/tmpfiles.d/bootc-base-var.conf`, with entries
  for /var/home (0755), /var/roothome (0700), /var/lib/rpm-state (0755)
  and each directory found in /var/lib (0755, but for the rpm database);
  it removes `home.conf` and rewrites `provision.conf` so that paths
  under /root name /var/roothome.
- `dracut_config`: `usr/lib/dracut/dracut.conf.d/10-bootc-base.conf`,
  with `hostonly="no"`, the modules ostree and bootc (tpm2-tss when the
  rootfs ships `modules.d/91tpm2-tss`, then the manifest's
  `extra_modules`) and `/usr/lib/passwd` and `/usr/lib/group` as install
  items.
- `dnf_config`: `installonly_limit=1`, appended to `etc/dnf/dnf.conf`
  (dnf4) and written to `etc/dnf/libdnf5.conf.d/20-bootc-installonly.conf`
  when `usr/bin/dnf5` is installed.
- `systemd_config`: the `local-fs.target.wants/tmp.mount` link, the
  presets of the manifest in
  `usr/lib/systemd/system-preset/40-bootc-base.preset`, and an empty
  `etc/machine-id`.

## Layout

- `src/` is the library, verified with Verus. It holds every decision of
  the tool:
  - `transforms/`: each transform says which paths it needs observed,
    whether the rootfs already satisfies it (`check`), and which
    filesystem operations apply it (`apply`); `pipeline` runs them in
    phase order, honouring the manifest's skip list and dry runs;
    `effects` models what the operations do to a rootfs and proves, for
    `toplevel_symlinks`, `rpmdb_relocate`, `passwd_generate`,
    `ostree_config` and `boot_relocate`, that once the transform's
    operations have been carried out its check finds the rootfs done
    (for `rpmdb_relocate` when the directory it moves holds a plain
    `rpmdb.sqlite`, for `boot_relocate` when /boot is not a symlink), and
    that `rpmdb_relocate` leaves /var/lib/rpm a symlink to /usr/share/rpm.
    `config_effects` proves the same for `var_tmpfiles`, `dracut_config`,
    `dnf_config` and `systemd_config` (where the files their checks read
    are not symlinks). For `post_cleanup` it proves that each directory it
    clears (where it was one) ends empty and no stale rpmdb WAL or SHM
    file is left; its check always asks for a run. `chroot_ops` works
    through programs run in the chroot, whose effects lie outside the
    model; what is proved of it is that its check finds the work done
    once every kernel has an initramfs and, where bootupctl is installed,
    the bootupd metadata is there.
  - `chroot`: the chroot finalisation sequence as a state machine that
    names each host action and takes back its outcome; `bootupd` the
    bootupd metadata to write.
  - `treefile`: treefile merging and the resolution of `include`
    directives, again as a conversation with the caller that reads files.
  - `manifest`, `rootfs_build`, `datetime`, `pathtext`, `text`, `rootfs`:
    the manifest, the dnf and rpm-ostree command lines, ISO 8601
    timestamps, path text, configuration text, and the types the
    transforms observe and plan with.
- `app/main.rs` is the command-line program: argument parsing, TOML and
  YAML parsing, observing and changing the filesystem, running programs.
- `tests/` exercises the library, including the whole pipeline on an
  in-memory rootfs.
