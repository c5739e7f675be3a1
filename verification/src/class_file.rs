//! The version that a class file declares. The type and the rule that orders
//! versions are those of [`crate::version`].

pub use crate::version::ClassFileVersion;
