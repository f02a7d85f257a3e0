//! Deterministic, dependency-only skeletons of a workspace: the manifests,
//! lockfile and toolchain pin a dependency build needs, with the versions
//! of local packages masked; the placeholder scaffold that replays them;
//! and the placeholder artifacts to remove after the dependency build.
pub mod document;
pub mod metadata;
pub mod order;
pub mod reclaim;
pub mod recipe;
pub mod scope;
pub mod skeleton;
pub mod target;
pub mod text;
pub mod toml_value;
pub mod version_masking;

pub use recipe::{
    AllFeatures, CommandArg, CookArgs, DefaultFeatures, OptimisationProfile, Recipe, TargetArgs,
};
pub use skeleton::{Manifest, RustToolchainFile, ScaffoldFile, Skeleton};
pub use target::{Target, TargetKind};
pub use toml_value::TomlValue;
