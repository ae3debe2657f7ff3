//! Code data-types and their prototypes.
use vstd::prelude::*;
use crate::architecture::Architecture;
use crate::error::Result;
use crate::fspec::{FuncProto, PrototypePieces};
use crate::ids::TypeId;
use crate::types::{CodeSignature, Datatype, SubMetatype, TypeCodeData, TypeFactory, TypeKind, TypeMetatype};

verus! {

/// The signature of a prototype: its convention, and the data-types of its
/// parameters and its return value.
pub open spec fn is_signature(sig: CodeSignature, proto: FuncProto) -> bool {
    &&& sig.model_name == proto.model_name
    &&& sig.params@.len() == proto.params@.len()
    &&& forall|i: int| 0 <= i < proto.params@.len() ==> (#[trigger] sig.params@[i]) == proto.params@[i].tp
    &&& sig.output == match proto.output {
        Some(out) => Some(out.tp),
        None => None,
    }
    &&& sig.comparable_flags == proto.flags & FuncProto::COMPARABLE
}

/// Code with a prototype that was built from a raw description.
pub open spec fn is_code_with(d: Datatype, before: Datatype, pieces: PrototypePieces) -> bool {
    &&& d == (Datatype { kind: d.kind, flags: before.flags | Datatype::VARIABLE_LENGTH, ..before })
    &&& d.kind matches TypeKind::Code(data) && data.factory && data.proto is Some && data.signature is Some
        && is_signature(data.signature->0, data.proto->0) && built_from(data.proto->0, pieces)
}

/// A locked prototype that was built from a raw description.
pub open spec fn built_from(proto: FuncProto, pieces: PrototypePieces) -> bool {
    &&& proto.model_name == pieces.model_name
    &&& proto.params@.len() == pieces.intypes@.len()
    &&& forall|i: int|
        0 <= i < proto.params@.len() ==> (#[trigger] proto.params@[i]).tp == pieces.intypes@[i] && proto.params@[i].name
            == pieces.innames@[i] && proto.params@[i].type_locked
    &&& proto.output matches Some(out) && out.tp == pieces.outtype && out.type_locked
    &&& proto.flags == if pieces.dotdotdot {
        FuncProto::DOTDOTDOT
    } else {
        0
    }
}

impl TypeFactory {
    /// The data-types of a raw description belong to the factory.
    pub open spec fn pieces_suit(self, pieces: PrototypePieces) -> bool {
        &&& pieces.innames@.len() >= pieces.intypes@.len()
        &&& self.has(pieces.outtype)
        &&& forall|i: int| #![trigger pieces.intypes@[i]]
            0 <= i < pieces.intypes@.len() ==> self.has(pieces.intypes@[i])
        &&& pieces.intypes@.len() <= i32::MAX
    }
}

impl Datatype {
    pub fn compute_code_signature(proto: &FuncProto) -> (res: CodeSignature)
        requires
            proto.params@.len() <= i32::MAX,
        ensures
            is_signature(res, *proto),
    {
        let nump: i32 = proto.num_params();
        let mut params: Vec<TypeId> = Vec::new();
        let mut index: i32 = 0;
        while index < nump
            invariant
                0 <= index <= nump,
                nump == proto.params@.len(),
                params@.len() == index,
                forall|i: int| 0 <= i < index ==> (#[trigger] params@[i]) == proto.params@[i].tp,
            decreases nump - index,
        {
            match proto.get_param(index) {
                Some(param) => {
                    params.push(param.get_type());
                },
                None => {
                    vstd::pervasive::unreached()
                },
            }
            index = index + 1;
        }
        CodeSignature {
            model_name: match &proto.model_name {
                Some(name) => Some(name.clone()),
                None => None,
            },
            params,
            output: match &proto.output {
                Some(param) => Some(param.get_type()),
                None => None,
            },
            comparable_flags: proto.get_comparable_flags(),
        }
    }

    /// Gives code a prototype from a raw description.
    pub fn set_prototype_pieces(&mut self, sig: &PrototypePieces) -> (res: Result<()>)
        requires
            old(self).kind is Code,
            sig.innames@.len() >= sig.intypes@.len(),
            sig.intypes@.len() <= i32::MAX,
        ensures
            is_code_with(*final(self), *old(self), *sig),
            res is Ok,
    {
        self.flags = self.flags | Datatype::VARIABLE_LENGTH;
        let proto = FuncProto::from_pieces(sig);
        let signature = Datatype::compute_code_signature(&proto);
        self.kind = TypeKind::Code(
            TypeCodeData { proto: Some(proto), signature: Some(signature), factory: true },
        );
        Ok(())
    }
}

impl TypeFactory {
    /// Code with a prototype that was built from a raw description.
    pub fn get_type_code_proto(glb: &mut Architecture, proto: &PrototypePieces) -> (res: Result<TypeId>)
        requires
            old(glb).sound(),
            old(glb).types.has_room(1),
            old(glb).types.arena@.len() < u32::MAX - 1,
            old(glb).types.pieces_suit(*proto),
        ensures
            final(glb).types.ready(),
            final(glb).sound(),
            final(glb).same_program(*old(glb)),
            exists|mid: TypeFactory, tc: Datatype|
                #![trigger mid.voids(old(glb).types), is_proto_code(tc, *proto)]
                mid.voids(old(glb).types) && is_proto_code(tc, *proto) && final(glb).types.adds(mid, tc, res),
            res matches Ok(id) ==> final(glb).types.member(id),
    {
        let ghost before = *glb;
        let mut tc = Datatype::new_code()?;
        let ghost bare = tc;
        glb.types.get_type_void()?;
        let ghost mid = glb.types;
        tc.set_prototype_pieces(proto)?;
        tc.mark_complete();
        proof {
            assert(mid.voids(before.types));
            assert(is_proto_code(tc, *proto));
            voided_keeps(before, *glb);
            proto_code_is_valid(before.types, mid, tc, *proto);
            mid.voided_room(before.types);
        }
        let res = glb.types.find_add(&tc);
        proof {
            crate::types::pointers::extending_keeps(mid, glb.types);
            let middle = Architecture { types: mid, ..before };
            crate::types::chain::kept_program_is_sound(middle, *glb);
        }
        res
    }

    /// The data-type for nothing has been asked for.
    pub open spec fn voids(self, before: TypeFactory) -> bool {
        match before.cached(0, TypeMetatype::Void) {
            Some(_) => self == before,
            None => exists|d: Datatype| #[trigger] TypeFactory::is_void(d) && self.voided(before, d),
        }
    }

    proof fn voided_room(self, before: TypeFactory)
        requires
            self.voids(before),
        ensures
            self.arena@.len() <= before.arena@.len() + 1,
            self.same_settings(before),
    {
    }
}

/// Code with a prototype from a raw description, once it is complete.
pub open spec fn is_proto_code(d: Datatype, pieces: PrototypePieces) -> bool {
    d.made(
        0,
        1,
        1,
        TypeMetatype::Code,
        SubMetatype::Code,
        (Datatype::TYPE_INCOMPLETE | Datatype::VARIABLE_LENGTH) & !Datatype::TYPE_INCOMPLETE,
        Seq::empty(),
    ) && (d.kind matches TypeKind::Code(data) && data.factory && data.proto is Some && data.signature is Some
        && is_signature(data.signature->0, data.proto->0) && built_from(data.proto->0, pieces))
}

proof fn proto_code_is_valid(before: TypeFactory, types: TypeFactory, d: Datatype, pieces: PrototypePieces)
    requires
        is_proto_code(d, pieces),
        before.pieces_suit(pieces),
        forall|i: int| 0 <= i < before.arena@.len() ==> #[trigger] types.arena@[i] == before.arena@[i],
        types.arena@.len() >= before.arena@.len(),
    ensures
        types.valid(d),
{
    reveal(TypeFactory::kind_valid);
    reveal(TypeFactory::firm_kind);
    assert(((0x400u32 | 128u32) & !0x400u32) & 0x40104u32 == 0) by (bit_vector);
    crate::types::grow::free_flags_fit(d);
    let sig = d.kind->Code_0.signature->0;
    let proto = d.kind->Code_0.proto->0;
    assert forall|i: int| #![trigger sig.params@[i]] 0 <= i < sig.params@.len() implies types.has(sig.params@[i]) by {
        assert(proto.params@[i].tp == pieces.intypes@[i]);
        assert(before.has(pieces.intypes@[i]));
        assert(types.arena@[sig.params@[i].0 as int] == before.arena@[sig.params@[i].0 as int]);
    }
    let out = pieces.outtype;
    assert(types.arena@[out.0 as int] == before.arena@[out.0 as int]);
}

proof fn voided_keeps(before: Architecture, after: Architecture)
    requires
        before.sound(),
        after.same_program(before),
        after.types.sound(),
        forall|i: int|
            0 <= i < before.types.arena@.len() ==> #[trigger] after.types.arena@[i] == before.types.arena@[i],
        after.types.arena@.len() >= before.types.arena@.len(),
    ensures
        after.sound(),
{
    assert forall|i: int| #![trigger after.symboltab.symbols@[i]]
        0 <= i < after.symboltab.symbols@.len() implies after.symbol_type_valid(after.symboltab.symbols@[i].tp) by {
        let tp = before.symboltab.symbols@[i].tp;
        assert(before.symbol_type_valid(tp));
        if tp is Some {
            assert(after.types.arena@[(tp->0).0 as int] == before.types.arena@[(tp->0).0 as int]);
        }
    }
}

} // verus!
