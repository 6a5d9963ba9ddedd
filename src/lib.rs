//! Data model, binary exchange format and staging buffer for skinned-figure
//! animation modules.
//!
//! Floating-point values cross the library as their IEEE-754 bit patterns
//! (`u32` for `f32`, `u64` for `f64`): the library moves, lays out and checks
//! them, while the arithmetic on them belongs to the caller.
pub mod chain;
pub mod codec;
pub mod exchange;
pub mod metadata;
pub mod skeleton;
pub mod staging;
pub mod wire;

pub use chain::{FigureBoneData, Skeleton, LANTERN_SLOT, SLOT_COUNT};
pub use exchange::{AnimReturn, AnimationPassTrough, REQUEST_LEN, RESPONSE_LEN, STAGING_LEN};
pub use metadata::{metadata, Metadata, METADATA_VERSION};
pub use skeleton::{Bone, BoneId, CharacterSkeleton, QuatBits, SkeletonAttr, SkeletonTy, Vec3Bits};
pub use staging::{StagingBuffer, StagingError};
