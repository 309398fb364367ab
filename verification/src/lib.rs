//! A distribution toolchain for conda environments: it solves a manifest's
//! dependencies per target platform, reconciles the result with an on-disk
//! lockfile, stages a local file channel, and packs it — with an embedded
//! native launcher and a framed trailer — into self-extracting installer
//! images. The data structures, decision rules and formats live here, each
//! under a contract; the surrounding I/O stands outside the library.

use vstd::prelude::*;

pub mod archive;
pub mod bundle;
pub mod cache;
pub mod conda;
pub mod config;
pub mod errors;
pub mod filters;
pub mod image;
pub mod installer;
pub mod lockmode;
pub mod metadata;
pub mod names;
pub mod nativepkg;
pub mod pipeline;
pub mod platform;
pub mod records;
pub mod runtime;
pub mod text;
pub mod validate;
pub mod workspace;

verus! {

} // verus!
