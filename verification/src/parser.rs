//! Reading the parts of a class file from its bytes.

pub mod constant_pool;
