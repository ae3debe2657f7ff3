//! The data-type system of a decompiler: data-types and their factory, the
//! p-code operations that move data-types around, the scoring of union fields
//! and the merging of varnodes into high-level variables.
pub mod address;
pub mod arena;
pub mod architecture;
pub mod cover;
pub mod cpool;
pub mod database;
pub mod error;
pub mod float;
pub mod fspec;
pub mod funcdata;
pub mod ids;
pub mod laws;
pub mod marshal;
pub mod op;
pub mod opbehavior;
pub mod opcodes;
pub mod space;
pub mod text;
pub mod typeop;
pub mod types;
pub mod unionresolve;
pub mod userop;
pub mod userop_decode;
pub mod variable;
pub mod varnode;
