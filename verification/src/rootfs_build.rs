//! Building a rootfs: the manifest as the command line adjusts it, and the
//! commands that install packages and rechunk an image.

use vstd::prelude::*;

use crate::manifest::{ImageManifest, ManifestView};
use crate::rootfs::{concat, owned};

verus! {

/// The manifest after the command line's overrides: the release version
/// replaced when one is given, the extra packages appended.
pub open spec fn overridden(
    m: ManifestView,
    releasever: Option<Seq<char>>,
    extra: Seq<Seq<char>>,
) -> ManifestView {
    ManifestView {
        releasever: match releasever {
            Some(r) => r,
            None => m.releasever,
        },
        packages: m.packages + extra,
        ..m
    }
}

/// Why a build cannot start.
#[derive(Debug, Clone, Copy, PartialEq, Eq, Structural)]
pub enum BuildError {
    /// No packages in the manifest or given with `--install`.
    NoPackages,
    /// No release version in the manifest or given with `--releasever`.
    NoReleasever,
}

impl BuildError {
    /// The message of the error.
    pub fn message(&self) -> (r: &'static str)
        ensures
            r@ == match self {
                BuildError::NoPackages => "no packages specified in manifest or --install"@,
                BuildError::NoReleasever => "releasever must be set in manifest or via --releasever"@,
            },
    {
        match self {
            BuildError::NoPackages => "no packages specified in manifest or --install",
            BuildError::NoReleasever => "releasever must be set in manifest or via --releasever",
        }
    }
}

/// Apply the command line's release version and extra packages to the
/// manifest, then require packages and a release version.
pub fn apply_build_overrides(
    manifest: &mut ImageManifest,
    releasever: Option<String>,
    extra_packages: Vec<String>,
) -> (r: Result<(), BuildError>)
    ensures
        final(manifest)@ == overridden(
            old(manifest)@,
            releasever.deep_view(),
            extra_packages.deep_view(),
        ),
        r == if final(manifest)@.packages.len() == 0 {
            Err(BuildError::NoPackages)
        } else if final(manifest)@.releasever.len() == 0 {
            Err(BuildError::NoReleasever)
        } else {
            Ok(())
        },
{
    let ghost m0 = manifest@;
    let ghost ev = extra_packages.deep_view();
    if let Some(rv) = releasever {
        manifest.image.releasever = rv;
    }
    let ghost p0 = manifest.packages.includes.deep_view();
    let ghost m1 = manifest@;
    assert(m1.releasever == match releasever.deep_view() {
        Some(r) => r,
        None => m0.releasever,
    });
    for i in 0..extra_packages.len()
        invariant
            ev == extra_packages.deep_view(),
            manifest.packages.includes.deep_view() == p0 + ev.take(i as int),
            manifest@ == (ManifestView { packages: p0 + ev.take(i as int), ..m1 }),
    {
        let ghost before = manifest.packages.includes.deep_view();
        manifest.packages.includes.push(extra_packages[i].clone());
        assert(manifest.packages.includes.deep_view() =~= before.push(ev[i as int]));
        assert(manifest.packages.includes.deep_view() =~= p0 + ev.take(i + 1));
        assert(manifest@ =~= (ManifestView { packages: p0 + ev.take(i + 1), ..m1 }));
    }
    assert(ev.take(extra_packages.len() as int) =~= ev);
    assert(manifest@ =~= overridden(m0, releasever.deep_view(), ev));
    if manifest.packages.includes.len() == 0 {
        return Err(BuildError::NoPackages);
    }
    if manifest.image.releasever.as_str().unicode_len() == 0 {
        return Err(BuildError::NoReleasever);
    }
    Ok(())
}

/// The arguments of `dnf` that install the manifest's packages into the
/// rootfs at `target`.
pub open spec fn dnf_args(target: Seq<char>, m: ManifestView) -> Seq<Seq<char>> {
    seq![
        "install"@,
        "-y"@,
        "--installroot="@ + target,
        "--use-host-config"@,
        "--releasever="@ + m.releasever,
        "--setopt=install_weak_deps=False"@,
        "--nodocs"@,
    ] + m.packages
}

fn push_arg(v: &mut Vec<String>, a: String)
    ensures
        final(v).deep_view() == old(v).deep_view().push(a@),
{
    let ghost before = v.deep_view();
    v.push(a);
    assert(v.deep_view() =~= before.push(a@));
}

/// The arguments of `dnf install` for the manifest and the rootfs at
/// `target`.
pub fn dnf_install_args(target: &str, manifest: &ImageManifest) -> (r: Vec<String>)
    ensures
        r.deep_view() == dnf_args(target@, manifest@),
{
    let mut r: Vec<String> = Vec::new();
    push_arg(&mut r, owned("install"));
    push_arg(&mut r, owned("-y"));
    push_arg(&mut r, concat("--installroot=", target));
    push_arg(&mut r, owned("--use-host-config"));
    push_arg(&mut r, concat("--releasever=", manifest.image.releasever.as_str()));
    push_arg(&mut r, owned("--setopt=install_weak_deps=False"));
    push_arg(&mut r, owned("--nodocs"));
    let ghost head = r.deep_view();
    let ghost pv = manifest.packages.includes.deep_view();
    for i in 0..manifest.packages.includes.len()
        invariant
            pv == manifest.packages.includes.deep_view(),
            r.deep_view() == head + pv.take(i as int),
    {
        push_arg(&mut r, manifest.packages.includes[i].clone());
        assert(r.deep_view() =~= head + pv.take(i + 1));
    }
    assert(pv.take(manifest.packages.includes.len() as int) =~= pv);
    assert(r.deep_view() =~= dnf_args(target@, manifest@));
    r
}

/// The arguments of `rpm-ostree` that rechunk the image `from` into `to`.
pub open spec fn rechunk(from: Seq<char>, to: Seq<char>) -> Seq<Seq<char>> {
    seq![
        "experimental"@,
        "compose"@,
        "build-chunked-oci"@,
        "--bootc"@,
        "--format-version=1"@,
        from,
        to,
    ]
}

/// The arguments of `rpm-ostree` that rechunk an OCI image into
/// reproducible RPM-split layers.
pub fn rechunk_args(from: &str, to: &str) -> (r: Vec<String>)
    ensures
        r.deep_view() == rechunk(from@, to@),
{
    let mut r: Vec<String> = Vec::new();
    push_arg(&mut r, owned("experimental"));
    push_arg(&mut r, owned("compose"));
    push_arg(&mut r, owned("build-chunked-oci"));
    push_arg(&mut r, owned("--bootc"));
    push_arg(&mut r, owned("--format-version=1"));
    push_arg(&mut r, owned(from));
    push_arg(&mut r, owned(to));
    assert(r.deep_view() =~= rechunk(from@, to@));
    r
}

} // verus!
