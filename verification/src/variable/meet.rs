//! Whether variables intersect.
use vstd::prelude::*;
use crate::cover::{AffectingOp, Cover};
use crate::error::{Error, Result};
use crate::funcdata::Funcdata;
use crate::ids::{HighId, VarnodeId};
use crate::variable::edges::HighIntersectTest;
use crate::variable::HighVariable;
use crate::varnode::Varnode;

verus! {

impl Funcdata {
    /// The varnodes of a variable exist, and it is known where each is alive.
    pub open spec fn instances_alive(self, high: HighId) -> bool {
        &&& self.has_high(high)
        &&& self.variable(high).inst@.len() <= i32::MAX
        &&& forall|i: int| #![trigger self.variable(high).inst@[i]]
            0 <= i < self.variable(high).inst@.len() ==> self.has_vn(self.variable(high).inst@[i]) && self.value(
                self.variable(high).inst@[i],
            ).cover is Some
    }

    /// The first `n` varnodes of a variable, as far as they meet a cover inside a block.
    pub open spec fn meeting_varnodes(self, high: HighId, blk: i32, cover: Cover, n: nat) -> Seq<VarnodeId>
        decreases n,
    {
        if n == 0 {
            Seq::empty()
        } else {
            let rest = self.meeting_varnodes(high, blk, cover, (n - 1) as nat);
            let vn = self.variable(high).inst@[n - 1];
            if self.value(vn).cover->0.meeting_in(blk as int, cover) > 1 {
                rest.push(vn)
            } else {
                rest
            }
        }
    }

    /// Whether two varnodes are alive together in a block and do not hold the same value.
    pub open spec fn clash(self, vn: VarnodeId, vn2: VarnodeId, blk: i32, rel_off: i32) -> bool {
        &&& self.value(vn2).cover->0.meeting_in(blk as int, self.value(vn).cover->0) > 1
        &&& if self.value(vn).size == self.value(vn2).size {
            !self.copies(vn, vn2)
        } else {
            !self.partial_shadows@.contains((vn, vn2, rel_off))
        }
    }

    /// Whether one of the first `n` varnodes of a variable meets a cover inside a
    /// block and clashes with one of a list.
    pub open spec fn clashes(
        self,
        high: HighId,
        blk: i32,
        cover: Cover,
        rel_off: i32,
        blist: Seq<VarnodeId>,
        n: int,
    ) -> bool {
        exists|i: int, j: int|
            #![trigger self.variable(high).inst@[i], blist[j]]
            0 <= i < n && 0 <= j < blist.len() && self.value(self.variable(high).inst@[i]).cover->0.meeting_in(
                blk as int,
                cover,
            ) >= 2 && self.clash(self.variable(high).inst@[i], blist[j], blk, rel_off)
    }

    /// The varnodes of a list exist, and it is known where each is alive.
    pub open spec fn all_alive(self, list: Seq<VarnodeId>) -> bool {
        forall|j: int| #![trigger list[j]] 0 <= j < list.len() ==> self.has_vn(list[j]) && self.value(list[j]).cover
            is Some
    }
}

impl HighIntersectTest {
    /// Gathers the varnodes of a variable that meet a cover inside a block.
    pub fn gather_block_varnodes(data: &Funcdata, first: HighId, blk: i32, cover: &Cover, res: &mut Vec<VarnodeId>)
        requires
            data.instances_alive(first),
            data.all_alive(old(res)@),
        ensures
            final(res)@ == old(res)@ + data.meeting_varnodes(first, blk, *cover, data.variable(first).inst@.len()),
            data.all_alive(final(res)@),
    {
        let num: i32 = data.high(first).num_instances();
        let mut index: i32 = 0;
        assert(res@ =~= old(res)@ + data.meeting_varnodes(first, blk, *cover, 0));
        while index < num
            invariant
                0 <= index <= num,
                num == data.variable(first).inst@.len(),
                data.instances_alive(first),
                data.all_alive(res@),
                res@ == old(res)@ + data.meeting_varnodes(first, blk, *cover, index as nat),
            decreases num - index,
        {
            let vn = data.high(first).get_instance(index);
            assert(data.has_vn(data.variable(first).inst@[index as int]));
            match &data.vn(vn).cover {
                Some(vn_cover) => {
                    if 1 < vn_cover.intersect_by_block(blk, cover) {
                        res.push(vn);
                    }
                },
                None => {
                    vstd::pervasive::unreached()
                },
            }
            index = index + 1;
            assert(res@ =~= old(res)@ + data.meeting_varnodes(first, blk, *cover, index as nat));
        }
    }

    /// Whether a varnode of a variable meets a cover inside a block and clashes with one of a list.
    pub fn test_block_intersection(
        data: &Funcdata,
        first: HighId,
        blk: i32,
        cover: &Cover,
        rel_off: i32,
        blist: &Vec<VarnodeId>,
    ) -> (res: bool)
        requires
            data.instances_alive(first),
            data.all_alive(blist@),
        ensures
            res == data.clashes(first, blk, *cover, rel_off, blist@, data.variable(first).inst@.len() as int),
    {
        let num: i32 = data.high(first).num_instances();
        let ghost inst = data.variable(first).inst@;
        let mut index: i32 = 0;
        while index < num
            invariant
                0 <= index <= num,
                inst == data.variable(first).inst@,
                num == inst.len(),
                data.instances_alive(first),
                data.all_alive(blist@),
                forall|i: int, j: int|
                    #![trigger data.variable(first).inst@[i], blist@[j]]
                    0 <= i < index && 0 <= j < blist@.len() ==> !(data.value(
                        data.variable(first).inst@[i],
                    ).cover->0.meeting_in(blk as int, *cover) >= 2 && data.clash(
                        data.variable(first).inst@[i],
                        blist@[j],
                        blk,
                        rel_off,
                    )),
            decreases num - index,
        {
            let vn = data.high(first).get_instance(index);
            assert(data.has_vn(data.variable(first).inst@[index as int]));
            match &data.vn(vn).cover {
                Some(vn_cover) => {
                    if 2 <= vn_cover.intersect_by_block(blk, cover) {
                        let mut k: usize = 0;
                        while k < blist.len()
                            invariant
                                k <= blist@.len(),
                                0 <= index < num,
                                num == data.variable(first).inst@.len(),
                                vn == data.variable(first).inst@[index as int],
                                data.has_vn(vn),
                                data.value(vn).cover == Some(*vn_cover),
                                vn_cover.meeting_in(blk as int, *cover) >= 2,
                                data.all_alive(blist@),
                                forall|j: int| #![trigger blist@[j]]
                                    0 <= j < k ==> !data.clash(vn, blist@[j], blk, rel_off),
                            decreases blist@.len() - k,
                        {
                            let vn2 = blist[k];
                            assert(data.has_vn(blist@[k as int]));
                            match &data.vn(vn2).cover {
                                Some(vn2_cover) => {
                                    if 1 < vn2_cover.intersect_by_block(blk, vn_cover) {
                                        if data.vn(vn).get_size() == data.vn(vn2).get_size() {
                                            if !data.vn_copy_shadow(vn, vn2) {
                                                assert(data.clash(
                                                    data.variable(first).inst@[index as int],
                                                    blist@[k as int],
                                                    blk,
                                                    rel_off,
                                                ));
                                                return true;
                                            }
                                        } else if !data.vn_partial_copy_shadow(vn, vn2, rel_off) {
                                            assert(data.clash(
                                                data.variable(first).inst@[index as int],
                                                blist@[k as int],
                                                blk,
                                                rel_off,
                                            ));
                                            return true;
                                        }
                                    }
                                },
                                None => {
                                    vstd::pervasive::unreached()
                                },
                            }
                            k = k + 1;
                        }
                    }
                },
                None => {
                    vstd::pervasive::unreached()
                },
            }
            index = index + 1;
        }
        false
    }
}

impl Funcdata {
    /// A piece, or any variable that is none, with all that shares storage with it, is known.
    pub open spec fn sharers_alive(self, high: HighId) -> bool {
        &&& self.instances_alive(high)
        &&& self.variable(high).piece matches Some(piece) ==> forall|i: int| #![trigger piece.intersection@[i]]
            0 <= i < piece.intersection@.len() ==> self.instances_alive(piece.intersection@[i]) && self.variable(
                piece.intersection@[i],
            ).piece is Some
    }

    /// How far one piece starts behind another.
    pub open spec fn apart(self, high: HighId, from: HighId) -> i32 {
        self.variable(high).piece->0.group_offset.wrapping_sub(self.variable(from).piece->0.group_offset)
    }

    /// Whether a variable, or a piece that shares storage with it, clashes with
    /// those varnodes of another that meet it.
    pub open spec fn clash_with_whole(self, first: HighId, second: HighId, blk: i32) -> bool {
        let a_cover = self.variable(first).full_cover();
        let b_cover = self.variable(second).full_cover();
        let blist = self.meeting_varnodes(second, blk, a_cover, self.variable(second).inst@.len());
        let inter = self.variable(first).piece->0.intersection@;
        ||| self.clashes(first, blk, b_cover, 0, blist, self.variable(first).inst@.len() as int)
        ||| self.variable(first).piece is Some && exists|i: int|
            0 <= i < inter.len() && self.sharer_clashes(#[trigger] inter[i], first, 0, blk, b_cover, blist)
    }

    /// Whether a piece that shares storage with a variable clashes with varnodes
    /// of a list that start some bytes behind the variable.
    pub open spec fn sharer_clashes(
        self,
        sharer: HighId,
        first: HighId,
        b_off: i32,
        blk: i32,
        b_cover: Cover,
        blist: Seq<VarnodeId>,
    ) -> bool {
        self.clashes(
            sharer,
            blk,
            b_cover,
            self.apart(sharer, first).wrapping_sub(b_off),
            blist,
            self.variable(sharer).inst@.len() as int,
        )
    }

    /// Whether two pieces, the second some bytes behind the first, share no storage.
    pub open spec fn disjoint(off: i32, first_size: i32, second_size: i32) -> bool {
        (off > 0 && off >= second_size) || (off < 0 && -off >= first_size)
    }

    /// Whether a variable, or a piece that shares storage with it, clashes with a
    /// piece that shares storage with another variable.
    pub open spec fn clash_with_sharer(self, first: HighId, second: HighId, sharer: HighId, blk: i32) -> bool {
        let a_cover = self.variable(first).full_cover();
        let b_cover = self.variable(second).full_cover();
        let b_off = self.apart(sharer, second);
        let blist = self.meeting_varnodes(sharer, blk, a_cover, self.variable(sharer).inst@.len());
        let inter = self.variable(first).piece->0.intersection@;
        ||| self.clashes(
            first,
            blk,
            b_cover,
            0i32.wrapping_sub(b_off),
            blist,
            self.variable(first).inst@.len() as int,
        )
        ||| self.variable(first).piece is Some && exists|i: int|
            0 <= i < inter.len() && !Funcdata::disjoint(
                self.apart(#[trigger] inter[i], first).wrapping_sub(b_off),
                self.variable(inter[i]).piece->0.size,
                self.variable(sharer).piece->0.size,
            ) && self.sharer_clashes(inter[i], first, b_off, blk, b_cover, blist)
    }

    /// Whether two variables clash in a block.
    pub open spec fn meet_in_block(self, first: HighId, second: HighId, blk: i32) -> bool {
        let inter = self.variable(second).piece->0.intersection@;
        ||| self.clash_with_whole(first, second, blk)
        ||| self.variable(second).piece is Some && exists|j: int|
            0 <= j < inter.len() && self.clash_with_sharer(first, second, #[trigger] inter[j], blk)
    }
}

impl HighIntersectTest {
    fn sharers_clash(
        data: &Funcdata,
        first: HighId,
        b_off: i32,
        b_size: Option<i32>,
        blk: i32,
        b_cover: &Cover,
        blist: &Vec<VarnodeId>,
    ) -> (res: bool)
        requires
            data.sharers_alive(first),
            data.all_alive(blist@),
        ensures
            res == (data.variable(first).piece is Some && exists|i: int|
                0 <= i < data.variable(first).piece->0.intersection@.len() && (b_size is Some ==> !Funcdata::disjoint(
                    data.apart(#[trigger] data.variable(first).piece->0.intersection@[i], first).wrapping_sub(b_off),
                    data.variable(data.variable(first).piece->0.intersection@[i]).piece->0.size,
                    b_size->0,
                )) && data.sharer_clashes(
                    data.variable(first).piece->0.intersection@[i],
                    first,
                    b_off,
                    blk,
                    *b_cover,
                    blist@,
                )),
    {
        match &data.high(first).piece {
            Some(piece) => {
                let base_off: i32 = piece.get_offset();
                let mut i: usize = 0;
                while i < piece.intersection.len()
                    invariant
                        i <= piece.intersection@.len(),
                        data.sharers_alive(first),
                        data.all_alive(blist@),
                        data.variable(first).piece == Some(*piece),
                        base_off == piece.group_offset,
                        forall|k: int| #![trigger data.variable(first).piece->0.intersection@[k]]
                            0 <= k < i ==> !((b_size is Some ==> !Funcdata::disjoint(
                                data.apart(data.variable(first).piece->0.intersection@[k], first).wrapping_sub(b_off),
                                data.variable(data.variable(first).piece->0.intersection@[k]).piece->0.size,
                                b_size->0,
                            )) && data.sharer_clashes(
                                data.variable(first).piece->0.intersection@[k],
                                first,
                                b_off,
                                blk,
                                *b_cover,
                                blist@,
                            )),
                    decreases piece.intersection@.len() - i,
                {
                    let inter_high = piece.intersection[i];
                    assert(data.instances_alive(piece.intersection@[i as int]));
                    let (inter_offset, inter_size): (i32, i32) = match &data.high(inter_high).piece {
                        Some(other) => (other.get_offset(), other.get_size()),
                        None => vstd::pervasive::unreached(),
                    };
                    let off: i32 = inter_offset.wrapping_sub(base_off).wrapping_sub(b_off);
                    let apart = match b_size {
                        Some(size) => (off > 0 && off >= size) || (off < 0 && -(off as i64) >= inter_size as i64),
                        None => false,
                    };
                    if !apart && HighIntersectTest::test_block_intersection(
                        data,
                        inter_high,
                        blk,
                        b_cover,
                        off,
                        blist,
                    ) {
                        assert(data.variable(first).piece->0.intersection@[i as int] == inter_high);
                        return true;
                    }
                    i = i + 1;
                }
                false
            },
            None => false,
        }
    }

    /// Whether two variables clash in a block.
    pub fn block_intersection(&self, data: &Funcdata, first: HighId, second: HighId, blk: i32) -> (res: bool)
        requires
            data.sharers_alive(first),
            data.sharers_alive(second),
        ensures
            res == data.meet_in_block(first, second, blk),
    {
        let a_cover = data.high(first).get_cover();
        let b_cover = data.high(second).get_cover();
        let mut blist: Vec<VarnodeId> = Vec::new();
        HighIntersectTest::gather_block_varnodes(data, second, blk, a_cover, &mut blist);
        proof {
            assert(blist@ =~= data.meeting_varnodes(second, blk, *a_cover, data.variable(second).inst@.len()));
        }
        if HighIntersectTest::test_block_intersection(data, first, blk, b_cover, 0, &blist) {
            return true;
        }
        if HighIntersectTest::sharers_clash(data, first, 0, None, blk, b_cover, &blist) {
            proof {
                let inter = data.variable(first).piece->0.intersection@;
                let i = choose|i: int|
                    0 <= i < inter.len() && data.sharer_clashes(
                        #[trigger] inter[i],
                        first,
                        0,
                        blk,
                        *b_cover,
                        blist@,
                    );
                assert(data.sharer_clashes(inter[i], first, 0, blk, *b_cover, blist@));
            }
            return true;
        }
        assert(!data.clash_with_whole(first, second, blk));
        match &data.high(second).piece {
            Some(second_piece) => {
                let b_base_off: i32 = second_piece.get_offset();
                let mut j: usize = 0;
                while j < second_piece.intersection.len()
                    invariant
                        j <= second_piece.intersection@.len(),
                        data.sharers_alive(first),
                        data.sharers_alive(second),
                        data.variable(second).piece == Some(*second_piece),
                        b_base_off == second_piece.group_offset,
                        *a_cover == data.variable(first).full_cover(),
                        *b_cover == data.variable(second).full_cover(),
                        forall|k: int| #![trigger data.variable(second).piece->0.intersection@[k]]
                            0 <= k < j ==> !data.clash_with_sharer(
                                first,
                                second,
                                data.variable(second).piece->0.intersection@[k],
                                blk,
                            ),
                    decreases second_piece.intersection@.len() - j,
                {
                    let b_high = second_piece.intersection[j];
                    assert(data.instances_alive(second_piece.intersection@[j as int]));
                    let (b_piece_offset, b_piece_size): (i32, i32) = match &data.high(b_high).piece {
                        Some(piece) => (piece.get_offset(), piece.get_size()),
                        None => vstd::pervasive::unreached(),
                    };
                    let b_off: i32 = b_piece_offset.wrapping_sub(b_base_off);
                    let mut blist: Vec<VarnodeId> = Vec::new();
                    HighIntersectTest::gather_block_varnodes(data, b_high, blk, a_cover, &mut blist);
                    assert(blist@ =~= data.meeting_varnodes(b_high, blk, *a_cover, data.variable(b_high).inst@.len()));
                    let back: i32 = 0i32.wrapping_sub(b_off);
                    if HighIntersectTest::test_block_intersection(data, first, blk, b_cover, back, &blist) {
                        assert(data.clash_with_sharer(
                            first,
                            second,
                            data.variable(second).piece->0.intersection@[j as int],
                            blk,
                        ));
                        return true;
                    }
                    if HighIntersectTest::sharers_clash(
                        data,
                        first,
                        b_off,
                        Some(b_piece_size),
                        blk,
                        b_cover,
                        &blist,
                    ) {
                        assert(data.clash_with_sharer(
                            first,
                            second,
                            data.variable(second).piece->0.intersection@[j as int],
                            blk,
                        ));
                        return true;
                    }
                    j = j + 1;
                }
                false
            },
            None => false,
        }
    }
}

impl Funcdata {
    /// The first varnode of a variable, from the given place on, that has a property.
    pub open spec fn first_with(self, high: HighVariable, bits: u32, i: nat) -> Option<VarnodeId>
        decreases high.inst@.len() - i,
    {
        if i >= high.inst@.len() {
            None
        } else if self.value(high.inst@[i as int]).flag(bits) {
            Some(high.inst@[i as int])
        } else {
            self.first_with(high, bits, i + 1)
        }
    }

    pub fn high_get_tied_varnode(&self, high: HighId) -> (res: Result<VarnodeId>)
        requires
            self.has_high(high),
            self.instances_exist(self.variable(high)),
        ensures
            match self.first_with(self.variable(high), Varnode::ADDRTIED, 0) {
                Some(vn) => res == Ok::<VarnodeId, Error>(vn) && self.has_vn(vn),
                None => res matches Err(e) && e.is_lowlevel("Could not find address-tied varnode"@),
            },
    {
        let data = self.high(high);
        let mut i: usize = 0;
        while i < data.inst.len()
            invariant
                i <= data.inst@.len(),
                *data == self.variable(high),
                self.instances_exist(*data),
                self.first_with(*data, Varnode::ADDRTIED, i as nat) == self.first_with(*data, Varnode::ADDRTIED, 0),
            decreases data.inst@.len() - i,
        {
            assert(self.has_vn(data.inst@[i as int]));
            if self.vn(data.inst[i]).is_addr_tied() {
                return Ok(data.inst[i]);
            }
            i = i + 1;
        }
        Err(Error::lowlevel("Could not find address-tied varnode"))
    }

    pub fn high_get_input_varnode(&self, high: HighId) -> (res: Result<VarnodeId>)
        requires
            self.has_high(high),
            self.instances_exist(self.variable(high)),
        ensures
            match self.first_with(self.variable(high), Varnode::INPUT, 0) {
                Some(vn) => res == Ok::<VarnodeId, Error>(vn) && self.has_vn(vn),
                None => res matches Err(e) && e.is_lowlevel("Could not find input varnode"@),
            },
    {
        let data = self.high(high);
        let mut i: usize = 0;
        while i < data.inst.len()
            invariant
                i <= data.inst@.len(),
                *data == self.variable(high),
                self.instances_exist(*data),
                self.first_with(*data, Varnode::INPUT, i as nat) == self.first_with(*data, Varnode::INPUT, 0),
            decreases data.inst@.len() - i,
        {
            assert(self.has_vn(data.inst@[i as int]));
            if self.vn(data.inst[i]).is_input() {
                return Ok(data.inst[i]);
            }
            i = i + 1;
        }
        Err(Error::lowlevel("Could not find input varnode"))
    }

    /// What is found when a variable that is tied to its storage is tested
    /// against one that is not: whether an operation that may change the storage
    /// lies where the other is alive.
    pub open spec fn untied_outcome(
        self,
        ops: Seq<AffectingOp>,
        tied: HighId,
        untied: HighId,
        res: Result<bool>,
    ) -> bool {
        if (self.variable(tied).flags & Varnode::PERSIST) != 0 {
            res == Ok::<bool, Error>(false)
        } else {
            match self.first_with(self.variable(tied), Varnode::ADDRTIED, 0) {
                Some(vn) => res == Ok::<bool, Error>(
                    !self.value(vn).flag(Varnode::NOLOCALALIAS) && self.variable(untied).full_cover().affected(
                        ops,
                        vn,
                        ops.len(),
                    ),
                ),
                None => res matches Err(e) && e.is_lowlevel("Could not find address-tied varnode"@),
            }
        }
    }
}

impl HighIntersectTest {
    pub fn test_untied_call_intersection(
        &self,
        data: &mut Funcdata,
        affecting_ops: &Vec<AffectingOp>,
        tied: HighId,
        untied: HighId,
    ) -> (res: Result<bool>)
        requires
            old(data).has_high(tied),
            old(data).has_high(untied),
            old(data).instances_exist(old(data).variable(tied)),
        ensures
            final(data).flagged(*old(data), tied),
            final(data).untied_outcome(affecting_ops@, tied, untied, res),
    {
        if data.high_is_persist(tied) {
            return Ok(false);
        }
        assert(data.instances_exist(data.variable(tied))) by {
            let high = data.variable(tied);
            assert forall|i: int| #![trigger high.inst@[i]] 0 <= i < high.inst@.len() implies data.has_vn(
                high.inst@[i],
            ) by {
                assert(old(data).has_vn(old(data).variable(tied).inst@[i]));
            }
        }
        assert(data.has_high(untied)) by {
            assert(data.highs.slots@[untied.0 as int] is Some);
        }
        let vn = data.high_get_tied_varnode(tied)?;
        if data.vn(vn).has_no_local_alias() {
            return Ok(false);
        }
        Ok(data.high(untied).get_cover().intersect_op_set(affecting_ops, vn))
    }
}

} // verus!
