//! Image manifest: the configuration of an image build, and its
//! construction from an rpm-ostree treefile.

use vstd::prelude::*;

use crate::pathtext::extension_of;
use crate::rootfs::owned;
use crate::treefile::{clone_strings, Treefile};

verus! {

/// Primary manifest format (TOML). Configures which transforms run
/// and their parameters.
#[derive(Debug, Clone)]
pub struct ImageManifest {
    pub image: ImageSection,
    pub packages: PackagesSection,
    pub repos: ReposSection,
    pub transforms: TransformsSection,
}

#[derive(Debug, Clone)]
pub struct ImageSection {
    pub name: String,
    pub releasever: String,
}

#[derive(Debug, Clone)]
pub struct PackagesSection {
    pub includes: Vec<String>,
    pub exclude: Vec<String>,
}

#[derive(Debug, Clone)]
pub struct ReposSection {
    /// Additional .repo file paths to inject into the installroot.
    /// Reserved for future use when build-rootfs supports custom repos
    /// instead of --use-host-config.
    pub paths: Vec<String>,
}

#[derive(Debug, Clone)]
pub struct TransformsSection {
    /// Transforms to skip by name
    pub skip: Vec<String>,
    pub dracut: DracutOptions,
    pub systemd: SystemdOptions,
}

#[derive(Debug, Clone)]
pub struct DracutOptions {
    pub extra_modules: Vec<String>,
}

#[derive(Debug, Clone)]
pub struct SystemdOptions {
    pub enable_units: Vec<String>,
    pub disable_timers: Vec<String>,
}

/// The mathematical value of a manifest.
#[verifier::ext_equal]
pub struct ManifestView {
    pub name: Seq<char>,
    pub releasever: Seq<char>,
    pub packages: Seq<Seq<char>>,
    pub exclude: Seq<Seq<char>>,
    pub repo_paths: Seq<Seq<char>>,
    pub skip: Seq<Seq<char>>,
    pub dracut_extra_modules: Seq<Seq<char>>,
    pub enable_units: Seq<Seq<char>>,
    pub disable_timers: Seq<Seq<char>>,
}

impl View for ImageManifest {
    type V = ManifestView;

    open spec fn view(&self) -> ManifestView {
        ManifestView {
            name: self.image.name@,
            releasever: self.image.releasever@,
            packages: self.packages.includes.deep_view(),
            exclude: self.packages.exclude.deep_view(),
            repo_paths: self.repos.paths.deep_view(),
            skip: self.transforms.skip.deep_view(),
            dracut_extra_modules: self.transforms.dracut.extra_modules.deep_view(),
            enable_units: self.transforms.systemd.enable_units.deep_view(),
            disable_timers: self.transforms.systemd.disable_timers.deep_view(),
        }
    }
}

/// The manifest used when none is given: every field empty.
pub open spec fn empty_manifest() -> ManifestView {
    ManifestView {
        name: Seq::empty(),
        releasever: Seq::empty(),
        packages: Seq::empty(),
        exclude: Seq::empty(),
        repo_paths: Seq::empty(),
        skip: Seq::empty(),
        dracut_extra_modules: Seq::empty(),
        enable_units: Seq::empty(),
        disable_timers: Seq::empty(),
    }
}

impl Default for ImageSection {
    fn default() -> (r: Self)
        ensures
            r.name@ == Seq::<char>::empty(),
            r.releasever@ == Seq::<char>::empty(),
    {
        ImageSection { name: String::new(), releasever: String::new() }
    }
}

impl Default for PackagesSection {
    fn default() -> (r: Self)
        ensures
            r.includes@.len() == 0,
            r.exclude@.len() == 0,
    {
        PackagesSection { includes: Vec::new(), exclude: Vec::new() }
    }
}

impl Default for ReposSection {
    fn default() -> (r: Self)
        ensures
            r.paths@.len() == 0,
    {
        ReposSection { paths: Vec::new() }
    }
}

impl Default for DracutOptions {
    fn default() -> (r: Self)
        ensures
            r.extra_modules@.len() == 0,
    {
        DracutOptions { extra_modules: Vec::new() }
    }
}

impl Default for SystemdOptions {
    fn default() -> (r: Self)
        ensures
            r.enable_units@.len() == 0,
            r.disable_timers@.len() == 0,
    {
        SystemdOptions { enable_units: Vec::new(), disable_timers: Vec::new() }
    }
}

impl Default for TransformsSection {
    fn default() -> (r: Self)
        ensures
            r.skip@.len() == 0,
            r.dracut.extra_modules@.len() == 0,
            r.systemd.enable_units@.len() == 0,
            r.systemd.disable_timers@.len() == 0,
    {
        TransformsSection {
            skip: Vec::new(),
            dracut: DracutOptions::default(),
            systemd: SystemdOptions::default(),
        }
    }
}

impl Default for ImageManifest {
    fn default() -> (r: Self)
        ensures
            r@ == empty_manifest(),
    {
        let m = ImageManifest {
            image: ImageSection::default(),
            packages: PackagesSection::default(),
            repos: ReposSection::default(),
            transforms: TransformsSection::default(),
        };
        assert(m@ =~= empty_manifest());
        m
    }
}

/// The manifest a treefile stands for: its release version (empty when
/// unset), packages, repos and units; everything else empty.
pub open spec fn manifest_of_treefile(tf: crate::treefile::TreefileView) -> ManifestView {
    ManifestView {
        name: Seq::empty(),
        releasever: match tf.releasever {
            Some(r) => r,
            None => Seq::empty(),
        },
        packages: tf.packages,
        exclude: Seq::empty(),
        repo_paths: tf.repos,
        skip: Seq::empty(),
        dracut_extra_modules: Seq::empty(),
        enable_units: tf.units,
        disable_timers: Seq::empty(),
    }
}

impl ImageManifest {
    /// The manifest of an rpm-ostree treefile.
    pub fn from_treefile(tf: Treefile) -> (r: ImageManifest)
        ensures
            r@ == manifest_of_treefile(tf@),
    {
        let ghost tv = tf@;
        let releasever = match tf.releasever {
            Some(r) => r,
            None => String::new(),
        };
        let m = ImageManifest {
            image: ImageSection { name: String::new(), releasever },
            packages: PackagesSection { includes: tf.packages, exclude: Vec::new() },
            repos: ReposSection { paths: tf.repos },
            transforms: TransformsSection {
                skip: Vec::new(),
                dracut: DracutOptions::default(),
                systemd: SystemdOptions { enable_units: tf.units, disable_timers: Vec::new() },
            },
        };
        assert(m@ =~= manifest_of_treefile(tv));
        m
    }

    /// A copy of the manifest.
    pub fn duplicate(&self) -> (r: ImageManifest)
        ensures
            r@ == self@,
    {
        ImageManifest {
            image: ImageSection {
                name: self.image.name.clone(),
                releasever: self.image.releasever.clone(),
            },
            packages: PackagesSection {
                includes: clone_strings(&self.packages.includes),
                exclude: clone_strings(&self.packages.exclude),
            },
            repos: ReposSection { paths: clone_strings(&self.repos.paths) },
            transforms: TransformsSection {
                skip: clone_strings(&self.transforms.skip),
                dracut: DracutOptions {
                    extra_modules: clone_strings(&self.transforms.dracut.extra_modules),
                },
                systemd: SystemdOptions {
                    enable_units: clone_strings(&self.transforms.systemd.enable_units),
                    disable_timers: clone_strings(&self.transforms.systemd.disable_timers),
                },
            },
        }
    }
}

} // verus!

verus! {

/// `camino::Utf8Path::extension`, as an owned string: as its
/// documentation gives it, the part of the path's file name after its
/// last `.`, and `None` when there is no file name, no `.` in it, or the
/// name begins with its only `.`.
#[verifier::external_body]
fn path_extension(path: &str) -> (r: Option<String>)
    ensures
        r.deep_view() == extension_of(path@),
{
    match camino::Utf8Path::new(path).extension() {
        Some(e) => Some(e.to_string()),
        None => None,
    }
}

/// How a manifest file is read.
#[derive(Debug, Clone, Copy, PartialEq, Eq, Structural)]
pub enum ManifestFormat {
    /// An rpm-ostree treefile (YAML), converted to a manifest.
    Treefile,
    /// A TOML manifest.
    Toml,
}

/// Files ending in `.yaml` or `.yml` are treefiles; all others are TOML.
pub open spec fn format_of_extension(ext: Option<Seq<char>>) -> ManifestFormat {
    if ext == Some("yaml"@) || ext == Some("yml"@) {
        ManifestFormat::Treefile
    } else {
        ManifestFormat::Toml
    }
}

/// The format of a manifest with the given file extension.
pub fn format_for_extension(ext: Option<&str>) -> (r: ManifestFormat)
    ensures
        r == format_of_extension(
            match ext {
                Some(e) => Some(e@),
                None => None,
            },
        ),
{
    match ext {
        Some(e) => {
            let e = owned(e);
            if e == owned("yaml") || e == owned("yml") {
                ManifestFormat::Treefile
            } else {
                ManifestFormat::Toml
            }
        },
        None => ManifestFormat::Toml,
    }
}

/// How the manifest at `path` is read: files ending in `.yaml` or `.yml`
/// are loaded as rpm-ostree treefiles; all other files are parsed as TOML.
pub fn manifest_format(path: &str) -> (r: ManifestFormat)
    ensures
        r == format_of_extension(extension_of(path@)),
{
    let ext = path_extension(path);
    match &ext {
        Some(e) => format_for_extension(Some(e.as_str())),
        None => format_for_extension(None),
    }
}

} // verus!
