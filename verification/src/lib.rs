//! bootc-base-imagectl: transforms a dnf --installroot rootfs into a
//! bootc-compatible layout.
//!
//! The library holds the decisions of the tool: manifest and treefile
//! handling, the transform pipeline, what each transform checks and which
//! filesystem operations it plans, and the chroot finalisation sequence.
//! The filesystem, processes and parsers are driven by the program in `app/`.

pub mod bootupd;
pub mod chroot;
pub mod datetime;
pub mod manifest;
pub mod pathtext;
pub mod rootfs;
pub mod rootfs_build;
pub mod text;
pub mod transforms;
pub mod treefile;
