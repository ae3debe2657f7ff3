//! How a processor and its compilers lay out data.
use vstd::prelude::*;
use crate::architecture::Architecture;
use crate::error::{Error, Result};
use crate::marshal::{Element, ATTRIB_SIZE, ATTRIB_VALUE};
use crate::types::decode::Fault;
use crate::types::labels::{
    ATTRIB_ALIGNMENT, ATTRIB_SIGNED, ELEM_CHAR_SIZE, ELEM_DATA_ORGANIZATION, ELEM_ENTRY, ELEM_ENUM, ELEM_INTEGER_SIZE,
    ELEM_LONG_SIZE, ELEM_POINTER_SIZE, ELEM_SIZE_ALIGNMENT_MAP, ELEM_WCHAR_SIZE,
};
use crate::types::{TypeFactory, TypeMetatype};
use crate::userop::SegmentOpData;

verus! {

/// The number that an attribute gives, or what is wrong with it.
pub open spec fn signed_attribute(elem: Element, id: u32) -> std::result::Result<i64, Fault> {
    match elem.attribute(id) {
        Some(value) => match value.signed() {
            Some(n) => Ok(n),
            None => Err(Fault::Decoder("Expecting signed integer attribute"@)),
        },
        None => Err(Fault::Decoder("Attribute is missing"@)),
    }
}

/// The truth value that an attribute gives, or what is wrong with it.
pub open spec fn bool_attribute(elem: Element, id: u32) -> std::result::Result<bool, Fault> {
    match elem.attribute(id) {
        Some(value) => match value.boolean() {
            Some(b) => Ok(b),
            None => Err(Fault::Decoder("Expecting boolean attribute"@)),
        },
        None => Err(Fault::Decoder("Attribute is missing"@)),
    }
}

/// A list of alignments with one more of them. Sizes in between have none yet.
pub open spec fn with_alignment(map: Seq<i32>, size: int, align: i32) -> Seq<i32> {
    let long = if map.len() <= size {
        map + Seq::new((size + 1 - map.len()) as nat, |i: int| -1i32)
    } else {
        map
    };
    long.update(size, align)
}

/// What was read of alignments.
pub ghost struct AlignmentFacts {
    pub map: Seq<i32>,
    pub fault: Option<Fault>,
}

/// What entries say of alignments, from one of them on and up to the first element that
/// is none.
pub open spec fn alignment_facts(list: Seq<Element>, i: nat, map: Seq<i32>) -> AlignmentFacts
    decreases list.len() - i,
{
    if i >= list.len() || list[i as int].id != ELEM_ENTRY {
        AlignmentFacts { map, fault: None }
    } else {
        match signed_attribute(list[i as int], ATTRIB_SIZE) {
            Err(fault) => AlignmentFacts { map, fault: Some(fault) },
            Ok(size) => match signed_attribute(list[i as int], ATTRIB_ALIGNMENT) {
                Err(fault) => AlignmentFacts { map, fault: Some(fault) },
                Ok(align) => alignment_facts(list, i + 1, with_alignment(map, (size as i32) as int, align as i32)),
            },
        }
    }
}

/// The alignment of a size once gaps are filled: that of the next smaller size.
pub open spec fn settled_alignment(map: Seq<i32>, size: nat) -> i32
    decreases size,
{
    if size == 0 {
        1
    } else if map[size as int] == -1 {
        settled_alignment(map, (size - 1) as nat)
    } else {
        map[size as int]
    }
}

/// The alignments that an element gives.
pub open spec fn alignments_told(elem: Element) -> AlignmentFacts {
    let facts = alignment_facts(elem.children@, 0, Seq::empty());
    if facts.fault is Some {
        facts
    } else if facts.map.len() == 0 {
        AlignmentFacts { fault: Some(Fault::Lowlevel("Alignment map empty"@)), ..facts }
    } else {
        AlignmentFacts { map: Seq::new(facts.map.len(), |i: int| settled_alignment(facts.map, i as nat)), fault: None }
    }
}

/// The entries of an element are for sizes that can be.
pub open spec fn sizes_possible(elem: Element) -> bool {
    forall|i: int| 0 <= i < elem.children@.len() ==> (signed_attribute(#[trigger] elem.children@[i], ATTRIB_SIZE) matches Ok(
        n,
    ) ==> (n as i32) >= 0)
}

impl TypeFactory {
    fn decode_alignment_map(&mut self, elem: &Element) -> (res: Result<()>)
        requires
            sizes_possible(*elem),
        ensures
            *final(self) == (TypeFactory { align_map: final(self).align_map, ..*old(self) }),
            final(self).align_map@ == alignments_told(*elem).map,
            Fault::reported(alignments_told(*elem).fault, res),
    {
        self.align_map.clear();
        let mut i: usize = 0;
        assert(self.align_map@ =~= Seq::empty());
        while i < elem.children.len() && elem.children[i].id == ELEM_ENTRY
            invariant
                sizes_possible(*elem),
                i <= elem.children@.len(),
                *self == (TypeFactory { align_map: self.align_map, ..*old(self) }),
                alignment_facts(elem.children@, i as nat, self.align_map@) == alignment_facts(
                    elem.children@,
                    0,
                    Seq::empty(),
                ),
            decreases elem.children@.len() - i,
        {
            let entry = &elem.children[i];
            assert(signed_attribute(elem.children@[i as int], ATTRIB_SIZE) == signed_attribute(*entry, ATTRIB_SIZE));
            let sz: i32 = match entry.read_signed_attr(ATTRIB_SIZE) {
                Ok(n) => n as i32,
                Err(e) => {
                    return Err(e);
                },
            };
            let val: i32 = match entry.read_signed_attr(ATTRIB_ALIGNMENT) {
                Ok(n) => n as i32,
                Err(e) => {
                    return Err(e);
                },
            };
            let ghost before = self.align_map@;
            while self.align_map.len() <= sz as usize
                invariant
                    sz >= 0,
                    *self == (TypeFactory { align_map: self.align_map, ..*old(self) }),
                    before.len() <= self.align_map@.len(),
                    self.align_map@.len() <= sz + 1 || self.align_map@.len() == before.len(),
                    self.align_map@ == before + Seq::new((self.align_map@.len() - before.len()) as nat, |i: int| -1i32),
                decreases sz + 1 - self.align_map@.len(),
            {
                self.align_map.push(-1);
                assert(self.align_map@ =~= before + Seq::new(
                    (self.align_map@.len() - before.len()) as nat,
                    |i: int| -1i32,
                ));
            }
            proof {
                if before.len() > sz {
                    assert(self.align_map@ =~= before);
                }
            }
            self.align_map.set(sz as usize, val);
            assert(self.align_map@ =~= with_alignment(before, sz as int, val));
            i = i + 1;
        }
        if self.align_map.len() == 0 {
            return Err(Error::lowlevel("Alignment map empty"));
        }
        let ghost raw = self.align_map@;
        self.align_map.set(0, 1);
        let mut cur_align: i32 = 1;
        let mut sz: usize = 1;
        while sz < self.align_map.len()
            invariant
                *self == (TypeFactory { align_map: self.align_map, ..*old(self) }),
                1 <= sz <= self.align_map@.len(),
                self.align_map@.len() == raw.len(),
                cur_align == settled_alignment(raw, (sz - 1) as nat),
                forall|k: int| 0 <= k < sz ==> #[trigger] self.align_map@[k] == settled_alignment(raw, k as nat),
                forall|k: int| sz <= k < raw.len() ==> #[trigger] self.align_map@[k] == raw[k],
            decreases self.align_map@.len() - sz,
        {
            let tmp_align: i32 = self.align_map[sz];
            if tmp_align == -1 {
                self.align_map.set(sz, cur_align);
            } else {
                cur_align = tmp_align;
            }
            sz = sz + 1;
        }
        assert(self.align_map@ =~= alignments_told(*elem).map);
        Ok(())
    }
}

/// What was read of how data is laid out.
pub ghost struct LayoutFacts {
    pub size_of_int: i32,
    pub size_of_long: i32,
    pub size_of_pointer: i32,
    pub size_of_char: i32,
    pub size_of_wchar: i32,
    pub align_map: Seq<i32>,
    pub fault: Option<Fault>,
}

impl TypeFactory {
    pub open spec fn layout(self, fault: Option<Fault>) -> LayoutFacts {
        LayoutFacts {
            size_of_int: self.size_of_int,
            size_of_long: self.size_of_long,
            size_of_pointer: self.size_of_pointer,
            size_of_char: self.size_of_char,
            size_of_wchar: self.size_of_wchar,
            align_map: self.align_map@,
            fault,
        }
    }

    /// Nothing but how data is laid out is different.
    pub open spec fn differs_in_layout(self, before: TypeFactory) -> bool {
        self == (TypeFactory {
            size_of_int: self.size_of_int,
            size_of_long: self.size_of_long,
            size_of_pointer: self.size_of_pointer,
            size_of_char: self.size_of_char,
            size_of_wchar: self.size_of_wchar,
            align_map: self.align_map,
            ..before
        })
    }
}

/// What is known once one more element is read.
pub open spec fn layout_with(known: LayoutFacts, elem: Element) -> LayoutFacts {
    if elem.id == ELEM_SIZE_ALIGNMENT_MAP {
        LayoutFacts { align_map: alignments_told(elem).map, fault: alignments_told(elem).fault, ..known }
    } else if elem.id == ELEM_INTEGER_SIZE || elem.id == ELEM_LONG_SIZE || elem.id == ELEM_POINTER_SIZE || elem.id
        == ELEM_CHAR_SIZE || elem.id == ELEM_WCHAR_SIZE {
        match signed_attribute(elem, ATTRIB_VALUE) {
            Err(fault) => LayoutFacts { fault: Some(fault), ..known },
            Ok(n) => if elem.id == ELEM_INTEGER_SIZE {
                LayoutFacts { size_of_int: n as i32, ..known }
            } else if elem.id == ELEM_LONG_SIZE {
                LayoutFacts { size_of_long: n as i32, ..known }
            } else if elem.id == ELEM_POINTER_SIZE {
                LayoutFacts { size_of_pointer: n as i32, ..known }
            } else if elem.id == ELEM_CHAR_SIZE {
                LayoutFacts { size_of_char: n as i32, ..known }
            } else {
                LayoutFacts { size_of_wchar: n as i32, ..known }
            },
        }
    } else {
        known
    }
}

/// What elements say of how data is laid out, from one of them on.
pub open spec fn layout_from(list: Seq<Element>, i: nat, known: LayoutFacts) -> LayoutFacts
    decreases list.len() - i,
{
    if i >= list.len() || known.fault is Some {
        known
    } else {
        layout_from(list, i + 1, layout_with(known, list[i as int]))
    }
}

impl TypeFactory {
    fn decode_layout_part(&mut self, elem: &Element) -> (res: Result<()>)
        requires
            sizes_possible(*elem),
        ensures
            ({
                let next = layout_with(old(self).layout(None), *elem);
                &&& final(self).layout(next.fault) == next
                &&& final(self).differs_in_layout(*old(self))
                &&& Fault::reported(next.fault, res)
            }),
    {
        if elem.id == ELEM_SIZE_ALIGNMENT_MAP {
            return self.decode_alignment_map(elem);
        }
        if elem.id == ELEM_INTEGER_SIZE || elem.id == ELEM_LONG_SIZE || elem.id == ELEM_POINTER_SIZE || elem.id
            == ELEM_CHAR_SIZE || elem.id == ELEM_WCHAR_SIZE {
            let val: i32 = match elem.read_signed_attr(ATTRIB_VALUE) {
                Ok(n) => n as i32,
                Err(e) => {
                    return Err(e);
                },
            };
            if elem.id == ELEM_INTEGER_SIZE {
                self.size_of_int = val;
            } else if elem.id == ELEM_LONG_SIZE {
                self.size_of_long = val;
            } else if elem.id == ELEM_POINTER_SIZE {
                self.size_of_pointer = val;
            } else if elem.id == ELEM_CHAR_SIZE {
                self.size_of_char = val;
            } else {
                self.size_of_wchar = val;
            }
        }
        Ok(())
    }

    /// Reads the sizes of the standard data-types and their alignments.
    pub fn decode_data_organization(&mut self, elem: &Element) -> (res: Result<()>)
        requires
            forall|i: int| 0 <= i < elem.children@.len() ==> sizes_possible(#[trigger] elem.children@[i]),
        ensures
            final(self).differs_in_layout(*old(self)),
            ({
                let facts = layout_from(elem.children@, 0, old(self).layout(None));
                if elem.id != ELEM_DATA_ORGANIZATION {
                    *final(self) == *old(self) && (res matches Err(e) && e.is_decoder("Unexpected element"@))
                } else {
                    final(self).layout(facts.fault) == facts && Fault::reported(facts.fault, res)
                }
            }),
    {
        match elem.expect(ELEM_DATA_ORGANIZATION) {
            Ok(()) => {},
            Err(e) => {
                return Err(e);
            },
        }
        let mut i: usize = 0;
        while i < elem.children.len()
            invariant
                forall|i: int| 0 <= i < elem.children@.len() ==> sizes_possible(#[trigger] elem.children@[i]),
                elem.id == ELEM_DATA_ORGANIZATION,
                i <= elem.children@.len(),
                self.differs_in_layout(*old(self)),
                layout_from(elem.children@, i as nat, self.layout(None)) == layout_from(
                    elem.children@,
                    0,
                    old(self).layout(None),
                ),
            decreases elem.children@.len() - i,
        {
            let ghost next = layout_with(self.layout(None), elem.children@[i as int]);
            assert(next.fault is Some ==> layout_from(elem.children@, (i + 1) as nat, next) == next);
            match self.decode_layout_part(&elem.children[i]) {
                Ok(()) => {},
                Err(e) => {
                    return Err(e);
                },
            }
            i = i + 1;
        }
        Ok(())
    }

    /// Reads the size and the sign of enumerations.
    pub fn parse_enum_config(&mut self, elem: &Element) -> (res: Result<()>)
        ensures
            if elem.id != ELEM_ENUM {
                *final(self) == *old(self) && (res matches Err(e) && e.is_decoder("Unexpected element"@))
            } else {
                match signed_attribute(*elem, ATTRIB_SIZE) {
                    Err(fault) => *final(self) == *old(self) && (res matches Err(e) && fault.is_report(e)),
                    Ok(size) => match bool_attribute(*elem, ATTRIB_SIGNED) {
                        Err(fault) => *final(self) == (TypeFactory { enumsize: size as i32, ..*old(self) }) && (
                        res matches Err(e) && fault.is_report(e)),
                        Ok(signed) => *final(self) == (TypeFactory {
                            enumsize: size as i32,
                            enumtype: (if signed {
                                TypeMetatype::EnumInt
                            } else {
                                TypeMetatype::EnumUint
                            }),
                            ..*old(self)
                        }) && res == Ok::<(), Error>(()),
                    },
                }
            },
    {
        match elem.expect(ELEM_ENUM) {
            Ok(()) => {},
            Err(e) => {
                return Err(e);
            },
        }
        match elem.read_signed_attr(ATTRIB_SIZE) {
            Ok(size) => {
                self.enumsize = size as i32;
            },
            Err(e) => {
                return Err(e);
            },
        }
        match elem.read_bool_attr(ATTRIB_SIGNED) {
            Ok(signed) => {
                self.enumtype = if signed {
                    TypeMetatype::EnumInt
                } else {
                    TypeMetatype::EnumUint
                };
                Ok(())
            },
            Err(e) => Err(e),
        }
    }

    /// The size of an integer: that of the register that the stack is based on, but four at most.
    pub open spec fn natural_int(stack: Option<i32>) -> i32 {
        match stack {
            Some(size) => if size > 4 {
                4
            } else {
                size
            },
            None => 1,
        }
    }

    /// The sizes that were left open are set, after what is known of the processor.
    pub open spec fn sized(self, before: TypeFactory, glb: Architecture, segment: Option<SegmentOpData>) -> bool {
        let whole = if before.size_of_int == 0 {
            TypeFactory::natural_int(glb.manager.stack_pointer_size)
        } else {
            before.size_of_int
        };
        let far = segment is Some && segment->0.supportsfarpointer;
        &&& self.size_of_int == whole
        &&& self.size_of_long == if before.size_of_long != 0 {
            before.size_of_long
        } else if whole == 4 {
            8
        } else {
            whole
        }
        &&& self.size_of_char == if before.size_of_char == 0 {
            1
        } else {
            before.size_of_char
        }
        &&& self.size_of_wchar == if before.size_of_wchar == 0 {
            2
        } else {
            before.size_of_wchar
        }
        &&& self.size_of_pointer == if far {
            segment->0.innerinsize
        } else if before.size_of_pointer == 0 {
            glb.manager.default_data_space->0.addr_size as i32
        } else {
            before.size_of_pointer
        }
        &&& self.size_of_alt_pointer == if far {
            (segment->0.innerinsize + segment->0.baseinsize) as i32
        } else {
            before.size_of_alt_pointer
        }
        &&& self.align_map@ == if before.align_map@.len() == 0 {
            seq![1i32, 1, 2, 2, 4, 4, 4, 4, 8]
        } else {
            before.align_map@
        }
        &&& self.enumsize == if before.enumsize == 0 {
            glb.manager.default_size
        } else {
            before.enumsize
        }
        &&& self.enumtype == if before.enumsize == 0 {
            TypeMetatype::EnumUint
        } else {
            before.enumtype
        }
        &&& self == (TypeFactory {
            size_of_int: self.size_of_int,
            size_of_long: self.size_of_long,
            size_of_char: self.size_of_char,
            size_of_wchar: self.size_of_wchar,
            size_of_pointer: self.size_of_pointer,
            size_of_alt_pointer: self.size_of_alt_pointer,
            align_map: self.align_map,
            enumsize: self.enumsize,
            enumtype: self.enumtype,
            ..before
        })
    }

    /// Sets the sizes that were left open. The operation that makes far pointers into the
    /// default space, if the processor has one, decides the size of pointers.
    pub fn setup_sizes(glb: &mut Architecture, segment: Option<&SegmentOpData>) -> (res: Result<()>)
        requires
            old(glb).types.size_of_pointer == 0 ==> old(glb).manager.default_data_space is Some,
            segment matches Some(seg) ==> i32::MIN <= seg.innerinsize + seg.baseinsize <= i32::MAX,
        ensures
            if old(glb).manager.stack_space is Some && old(glb).manager.stack_pointer_size is None {
                *final(glb) == *old(glb) && (res matches Err(e) && e.is_lowlevel(
                    old(glb).manager.stack_space->0.name@
                        + " space is not virtual and has no associated base register"@,
                ))
            } else {
                &&& res == Ok::<(), Error>(())
                &&& *final(glb) == (Architecture { types: final(glb).types, ..*old(glb) })
                &&& final(glb).types.sized(
                    old(glb).types,
                    *old(glb),
                    match segment {
                        Some(seg) => Some(*seg),
                        None => None,
                    },
                )
            },
    {
        if let Some(spc) = &glb.manager.stack_space {
            if glb.manager.stack_pointer_size.is_none() {
                let mut text = spc.get_name().to_owned();
                text.push_str(" space is not virtual and has no associated base register");
                return Err(Error::Lowlevel(text));
            }
        }
        let stack_int_size = glb.manager.stack_pointer_size;
        if glb.types.size_of_int == 0 {
            let mut size: i32 = 1;
            if let Some(found) = stack_int_size {
                size = found;
                if size > 4 {
                    size = 4;
                }
            }
            glb.types.size_of_int = size;
        }
        if glb.types.size_of_long == 0 {
            let size: i32 = if glb.types.size_of_int == 4 {
                8
            } else {
                glb.types.size_of_int
            };
            glb.types.size_of_long = size;
        }
        if glb.types.size_of_char == 0 {
            glb.types.size_of_char = 1;
        }
        if glb.types.size_of_wchar == 0 {
            glb.types.size_of_wchar = 2;
        }
        if glb.types.size_of_pointer == 0 {
            if let Some(spc) = glb.manager.get_default_data_space() {
                let size: i32 = spc.addr_size as i32;
                glb.types.size_of_pointer = size;
            }
        }
        if let Some(seg) = segment {
            if seg.has_far_pointer_support() {
                glb.types.size_of_pointer = seg.get_inner_size();
                glb.types.size_of_alt_pointer = seg.get_inner_size() + seg.get_base_size();
            }
        }
        if glb.types.align_map.len() == 0 {
            glb.types.set_default_alignment_map();
        }
        if glb.types.enumsize == 0 {
            glb.types.enumsize = glb.manager.default_size;
            glb.types.enumtype = TypeMetatype::EnumUint;
        }
        Ok(())
    }
}

} // verus!
