//! The attributes and elements by which data-types are written and read.
use vstd::prelude::*;

verus! {

pub const ATTRIB_ALIGNMENT: u32 = 47;

pub const ATTRIB_ARRAYSIZE: u32 = 48;

pub const ATTRIB_CHAR: u32 = 49;

pub const ATTRIB_CORE: u32 = 50;

pub const ATTRIB_INCOMPLETE: u32 = 52;

pub const ATTRIB_OPAQUESTRING: u32 = 56;

pub const ATTRIB_SIGNED: u32 = 57;

pub const ATTRIB_STRUCTALIGN: u32 = 58;

pub const ATTRIB_UTF: u32 = 59;

pub const ATTRIB_VARLENGTH: u32 = 60;

pub const ELEM_CHAR_SIZE: u32 = 39;

pub const ELEM_CORETYPES: u32 = 41;

pub const ELEM_DATA_ORGANIZATION: u32 = 42;

pub const ELEM_DEF: u32 = 43;

pub const ELEM_ENTRY: u32 = 47;

pub const ELEM_ENUM: u32 = 48;

pub const ELEM_FIELD: u32 = 49;

pub const ELEM_INTEGER_SIZE: u32 = 51;

pub const ELEM_LONG_SIZE: u32 = 54;

pub const ELEM_POINTER_SIZE: u32 = 57;

pub const ELEM_SIZE_ALIGNMENT_MAP: u32 = 59;

pub const ELEM_TYPE: u32 = 60;

pub const ELEM_TYPEGRP: u32 = 62;

pub const ELEM_TYPEREF: u32 = 63;

pub const ELEM_WCHAR_SIZE: u32 = 65;

pub const ELEM_BITFIELD: u32 = 289;

} // verus!
