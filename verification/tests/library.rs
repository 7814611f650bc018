use bootc_base_imagectl::rootfs::{Listing, NodeKind, Probe, Snapshot};
use bootc_base_imagectl::bootupd::{bootupd_plan, packages_to_query, BootupdLayout, BootupdOp, RpmVersions};
use bootc_base_imagectl::chroot::Arch;
use bootc_base_imagectl::datetime::{civil_from_days, utc_timestamp};
use bootc_base_imagectl::manifest::{format_for_extension, manifest_format, ImageManifest, ManifestFormat};
use bootc_base_imagectl::pathtext::{join, same_path_text};
use bootc_base_imagectl::rootfs_build::{apply_build_overrides, dnf_install_args, rechunk_args, BuildError};
use bootc_base_imagectl::transforms::Context;
use bootc_base_imagectl::treefile::Treefile;

#[test]
fn civil_dates() {
    assert_eq!(civil_from_days(0), (1970, 1, 1));
    assert_eq!(civil_from_days(59), (1970, 3, 1));
    assert_eq!(civil_from_days(10957), (2000, 1, 1));
    assert_eq!(civil_from_days(11016), (2000, 2, 29));
    assert_eq!(civil_from_days(19723), (2024, 1, 1));
    assert_eq!(civil_from_days(-1), (1969, 12, 31));
    assert_eq!(civil_from_days(-719468), (0, 3, 1));
}

#[test]
fn timestamps() {
    assert_eq!(utc_timestamp(0), "1970-01-01T00:00:00Z");
    assert_eq!(utc_timestamp(1_700_000_000), "2023-11-14T22:13:20Z");
    assert_eq!(utc_timestamp(951_782_400 + 3_661), "2000-02-29T01:01:01Z");
}

#[test]
fn manifest_formats() {
    assert_eq!(manifest_format("examples/fedora.yaml"), ManifestFormat::Treefile);
    assert_eq!(manifest_format("tree.yml"), ManifestFormat::Treefile);
    assert_eq!(manifest_format("config.toml"), ManifestFormat::Toml);
    assert_eq!(manifest_format("manifest"), ManifestFormat::Toml);
    assert_eq!(manifest_format("dir.yaml/config"), ManifestFormat::Toml);
    assert_eq!(format_for_extension(Some("yaml")), ManifestFormat::Treefile);
    assert_eq!(format_for_extension(Some("YAML")), ManifestFormat::Toml);
    assert_eq!(format_for_extension(None), ManifestFormat::Toml);
}

#[test]
fn manifest_from_treefile() {
    let tf = Treefile {
        packages: vec!["kernel".into(), "bootc".into()],
        repos: vec!["fedora".into()],
        releasever: Some("42".into()),
        units: vec!["sshd.service".into()],
        ..Default::default()
    };
    let m = ImageManifest::from_treefile(tf);
    assert_eq!(m.image.releasever, "42");
    assert_eq!(m.image.name, "");
    assert_eq!(m.packages.includes, vec!["kernel", "bootc"]);
    assert!(m.packages.exclude.is_empty());
    assert_eq!(m.repos.paths, vec!["fedora"]);
    assert_eq!(m.transforms.systemd.enable_units, vec!["sshd.service"]);
    assert!(m.transforms.skip.is_empty());
    let m = ImageManifest::from_treefile(Treefile::default());
    assert_eq!(m.image.releasever, "");
}

#[test]
fn default_manifest_is_empty() {
    let m = ImageManifest::default();
    assert!(m.packages.includes.is_empty());
    assert!(m.transforms.skip.is_empty());
    assert_eq!(m.image.releasever, "");
}

#[test]
fn build_overrides() {
    let mut m = ImageManifest::default();
    m.packages.includes = vec!["systemd".into()];
    m.image.releasever = "41".into();
    let r = apply_build_overrides(&mut m, Some("42".into()), vec!["vim".into()]);
    assert_eq!(r, Ok(()));
    assert_eq!(m.image.releasever, "42");
    assert_eq!(m.packages.includes, vec!["systemd", "vim"]);
}

#[test]
fn build_errors() {
    let mut m = ImageManifest::default();
    assert_eq!(apply_build_overrides(&mut m, Some("42".into()), vec![]), Err(BuildError::NoPackages));
    assert_eq!(
        BuildError::NoPackages.message(),
        "no packages specified in manifest or --install"
    );
    let mut m = ImageManifest::default();
    assert_eq!(apply_build_overrides(&mut m, None, vec!["vim".into()]), Err(BuildError::NoReleasever));
    assert_eq!(
        BuildError::NoReleasever.message(),
        "releasever must be set in manifest or via --releasever"
    );
}

#[test]
fn dnf_and_rechunk_arguments() {
    let mut m = ImageManifest::default();
    m.packages.includes = vec!["kernel".into(), "bootc".into()];
    m.image.releasever = "42".into();
    assert_eq!(
        dnf_install_args("/build/root", &m),
        vec![
            "install",
            "-y",
            "--installroot=/build/root",
            "--use-host-config",
            "--releasever=42",
            "--setopt=install_weak_deps=False",
            "--nodocs",
            "kernel",
            "bootc"
        ]
    );
    assert_eq!(
        rechunk_args("a:1", "b:2"),
        vec!["experimental", "compose", "build-chunked-oci", "--bootc", "--format-version=1", "a:1", "b:2"]
    );
}

#[test]
fn path_joining() {
    assert_eq!(join("/srv/tree", "base.yaml"), "/srv/tree/base.yaml");
    assert_eq!(join("/srv/tree/", "base.yaml"), "/srv/tree/base.yaml");
    assert_eq!(join("/srv/tree", "/etc/x.yaml"), "/etc/x.yaml");
    assert_eq!(join("", "x"), "x");
    assert!(same_path_text("var/home", "var/home"));
    assert!(same_path_text("var//home/", "var/./home"));
    assert!(!same_path_text("var/home", "/var/home"));
    assert!(!same_path_text("var/home", "var/roothome"));
    assert!(!same_path_text("./var", "var"));
}

#[test]
fn context_paths() {
    let ctx = Context::new("/rootfs".to_string(), ImageManifest::default(), false);
    assert_eq!(ctx.path("/etc/passwd"), "/rootfs/etc/passwd");
    assert_eq!(ctx.path("usr/lib"), "/rootfs/usr/lib");
    assert_eq!(ctx.results(), (0, 0));
}

fn layout(bootupctl: bool, grub2: bool, bios: bool, efi: bool) -> BootupdLayout {
    BootupdLayout {
        bootupctl_exists: bootupctl,
        grub2_install_exists: grub2,
        bios_modules_is_dir: bios,
        efi_src_is_dir: efi,
    }
}

#[test]
fn bootupd_queries() {
    assert!(packages_to_query(&layout(false, true, true, true), Arch::X86_64).is_empty());
    assert_eq!(
        packages_to_query(&layout(true, true, true, true), Arch::X86_64),
        vec!["grub2-tools", "grub2-efi-x64", "shim-x64"]
    );
    assert_eq!(
        packages_to_query(&layout(true, true, false, true), Arch::Aarch64),
        vec!["grub2-efi-aa64", "shim-aa64"]
    );
}

#[test]
fn bootupd_without_bootupctl_does_nothing() {
    let v = RpmVersions { grub2_tools: Some("1".into()), grub_efi: None, shim: None };
    assert!(bootupd_plan("/r", &layout(false, true, true, true), Arch::X86_64, &v, &"t".to_string()).is_empty());
}

#[test]
fn bootupd_bios_and_efi_metadata() {
    let v = RpmVersions {
        grub2_tools: Some("1:2.12-1".into()),
        grub_efi: Some("1:2.12-1".into()),
        shim: Some("15.8-3".into()),
    };
    let ts = "2024-01-01T00:00:00Z".to_string();
    let ops = bootupd_plan("/r", &layout(true, true, true, true), Arch::X86_64, &v, &ts);
    assert_eq!(ops.len(), 4);
    match &ops[0] {
        BootupdOp::CreateDirAll(p) => assert_eq!(p, "/r/usr/lib/bootupd/updates"),
        _ => panic!("expected the updates directory"),
    }
    match &ops[1] {
        BootupdOp::WriteJson(p, name, meta) => {
            assert_eq!(p, "/r/usr/lib/bootupd/updates/BIOS.json");
            assert_eq!(name, "BIOS.json");
            assert_eq!(meta.version, "grub2-tools-1:2.12-1");
            assert_eq!(meta.timestamp, ts);
            assert_eq!(meta.versions.len(), 1);
            assert_eq!(meta.versions[0].name, "grub2");
        }
        _ => panic!("expected BIOS.json"),
    }
    match &ops[2] {
        BootupdOp::CopyTree(a, b) => {
            assert_eq!(a, "/r/boot/efi/EFI");
            assert_eq!(b, "/r/usr/lib/bootupd/updates/EFI");
        }
        _ => panic!("expected the EFI copy"),
    }
    match &ops[3] {
        BootupdOp::WriteJson(p, _, meta) => {
            assert_eq!(p, "/r/usr/lib/bootupd/updates/EFI.json");
            assert_eq!(meta.version, "grub2-efi-x64-1:2.12-1,shim-x64-15.8-3");
            assert_eq!(meta.versions.len(), 2);
            assert_eq!(meta.versions[1].name, "shim");
            assert_eq!(meta.versions[1].rpm_evr, "15.8-3");
        }
        _ => panic!("expected EFI.json"),
    }
}

#[test]
fn bootupd_bios_skipped_without_grub2_tools_version() {
    let v = RpmVersions { grub2_tools: None, grub_efi: None, shim: Some("15".into()) };
    let ops = bootupd_plan("/r", &layout(true, true, true, true), Arch::Aarch64, &v, &"t".to_string());
    assert_eq!(ops.len(), 3);
    match &ops[2] {
        BootupdOp::WriteJson(_, _, meta) => {
            assert_eq!(meta.version, "shim-aa64-15");
            assert_eq!(meta.versions.len(), 1);
        }
        _ => panic!("expected EFI.json"),
    }
}

#[test]
fn snapshot_reports_what_is_left_to_observe() {
    let p = |s: &[&str]| s.iter().map(|c| c.to_string()).collect::<Vec<String>>();
    let mut snap = Snapshot { probes: Vec::new() };
    snap.probes.push(Probe {
        path: p(&["usr", "lib"]),
        lstat: Some(NodeKind::Dir),
        exists: true,
        is_dir: true,
        link_target: None,
        listing: Listing::NotRead,
        text: None,
    });
    let wanted = vec![p(&["boot"]), p(&["usr", "lib"]), p(&["usr"])];
    assert_eq!(snap.unobserved(&wanted), vec![p(&["boot"]), p(&["usr"])]);
    assert!(snap.exists_at(&p(&["usr", "lib"])));
    assert!(!snap.exists_at(&p(&["boot"])));
    assert_eq!(snap.lstat_at(&p(&["usr", "lib"])), Some(NodeKind::Dir));
}
