//! Values whose wire form the traversal engine cannot derive from structure
//! alone, each with its own codec.

pub mod var;
pub mod uuid;
pub mod nbt;
pub mod slot;
pub mod chunk;
pub mod entity_metadata;
pub mod array;
pub mod scan;
