//! Scoring the fields of a union by how well they fit the flow of values.
use vstd::prelude::*;
use crate::architecture::Architecture;
use crate::error::{Error, Result};
use crate::funcdata::Funcdata;
use crate::ids::{OpId, TypeId, VarnodeId};
use crate::types::{Datatype, TypeFactory};
use crate::unionresolve::fit::{score_constant_fit, score_locked_type, too_many_types};
use crate::unionresolve::judge::{judge_down, judge_up, Trial, TrialDirection, Verdict};
use crate::unionresolve::ResolvedUnion;
use crate::varnode::Varnode;

verus! {

/// A value that has been visited for one of the fields.
#[derive(Copy, Clone, Debug, PartialEq, Eq, Structural)]
pub struct VisitMark {
    pub vn: VarnodeId,
    pub index: i32,
}

impl VisitMark {
    pub fn new(vn: VarnodeId, index: i32) -> (res: VisitMark)
        ensures
            res == (VisitMark { vn, index }),
    {
        VisitMark { vn, index }
    }
}

/// The state of a scoring. The first score is that of the union as a whole.
#[derive(Debug)]
pub struct ScoreUnionFields {
    pub scores: Vec<i32>,
    pub fields: Vec<Option<TypeId>>,
    pub visited: Vec<VisitMark>,
    pub trial_current: Vec<Trial>,
    pub trial_next: Vec<Trial>,
    pub result: ResolvedUnion,
    pub trial_count: i32,
}

/// What the state of a scoring holds.
#[verifier::ext_equal]
pub ghost struct Scoring {
    pub scores: Seq<i32>,
    pub fields: Seq<Option<TypeId>>,
    pub visited: Seq<VisitMark>,
    pub current: Seq<Trial>,
    pub next: Seq<Trial>,
    pub result: ResolvedUnion,
    pub count: i32,
}

/// The trials of a data-type on the operations that read a value, but for one
/// way of reading it.
pub open spec fn readers(
    vn: VarnodeId,
    ct: TypeId,
    index: i32,
    max: i32,
    but: Option<(OpId, i32)>,
    data: Funcdata,
    i: nat,
) -> Seq<Trial>
    decreases i,
{
    if i == 0 {
        Seq::empty()
    } else {
        let before = readers(vn, ct, index, max, but, data, (i - 1) as nat);
        let op = data.value(vn).descend@[i - 1];
        let slot = data.operation(op).slot(vn) as i32;
        if but == Some((op, slot)) {
            before
        } else {
            before.push(Trial::down(op, slot, ct, index, max, data))
        }
    }
}

impl Scoring {
    pub open spec fn scored(self, index: i32, score: i32) -> Scoring {
        Scoring {
            scores: self.scores.update(index as int, self.scores[index as int].wrapping_add(score)),
            ..self
        }
    }

    pub open spec fn marked(self, vn: VarnodeId, index: i32) -> Scoring {
        Scoring { visited: self.visited.push(VisitMark { vn, index }), ..self }
    }

    /// The state once a data-type has been passed on to what reads a value. A
    /// data-type that the value is locked to counts at once.
    pub open spec fn passed_down(
        self,
        vn: VarnodeId,
        ct: TypeId,
        index: i32,
        max: i32,
        data: Funcdata,
        types: TypeFactory,
    ) -> Scoring {
        let lock = data.def_facing(vn, types);
        if self.visited.contains(VisitMark { vn, index }) {
            self
        } else if data.value(vn).flag(Varnode::TYPELOCK) && !types.dt(lock).flag(Datatype::NEEDS_RESOLUTION) {
            self.marked(vn, index).scored(index, crate::unionresolve::fit::locked_fit(ct, lock, types))
        } else {
            Scoring {
                next: self.next + readers(vn, ct, index, max, None, data, data.value(vn).descend@.len()),
                ..self.marked(vn, index)
            }
        }
    }

    /// The state once a data-type has been passed on to a value that an operation
    /// reads: to what writes it, and to what else reads it.
    pub open spec fn passed_on(
        self,
        op: OpId,
        slot: i32,
        ct: TypeId,
        index: i32,
        max: i32,
        data: Funcdata,
        types: TypeFactory,
    ) -> Scoring {
        let vn = data.operation(op).inrefs@[slot as int];
        let lock = data.read_facing(vn, op, types);
        if self.visited.contains(VisitMark { vn, index }) {
            self
        } else if data.value(vn).flag(Varnode::TYPELOCK) && !types.dt(lock).flag(Datatype::NEEDS_RESOLUTION) {
            self.marked(vn, index).scored(index, crate::unionresolve::fit::locked_fit(ct, lock, types))
        } else {
            Scoring {
                next: self.next.push(Trial::up(vn, ct, index, max)) + readers(
                    vn,
                    ct,
                    index,
                    max,
                    Some((op, slot)),
                    data,
                    data.value(vn).descend@.len(),
                ),
                ..self.marked(vn, index)
            }
        }
    }

    /// The state once a verdict has been taken in.
    pub open spec fn learned(
        self,
        v: Verdict,
        op: OpId,
        index: i32,
        last: bool,
        data: Funcdata,
        types: TypeFactory,
    ) -> Scoring {
        let known = self.scored(index, v.score);
        if last {
            known
        } else if v.out is Some {
            known.passed_down(data.operation(op).output->0, (v.out->0).0, index, (v.out->0).1, data, types)
        } else if v.input is Some {
            known.passed_on(op, (v.input->0).0, (v.input->0).1, index, (v.input->0).2, data, types)
        } else {
            known
        }
    }

    /// The fields that are scored, and the union they belong to, are the same.
    pub open spec fn same_fields(self, before: Scoring) -> bool {
        &&& self.fields == before.fields
        &&& self.scores.len() == before.scores.len()
        &&& self.result == before.result
    }

    /// The trials speak of what is there.
    pub open spec fn valid(self, data: Funcdata, types: TypeFactory) -> bool {
        &&& forall|k: int| #![trigger self.current[k]]
            0 <= k < self.current.len() ==> self.current[k].fits(data, types) && self.holds(self.current[k].score_index)
        &&& forall|k: int| #![trigger self.next[k]]
            0 <= k < self.next.len() ==> self.next[k].fits(data, types) && self.holds(self.next[k].score_index)
        &&& self.scores.len() == self.fields.len()
        &&& self.scores.len() <= i32::MAX
        &&& forall|k: int| #![trigger self.fields[k]]
            0 <= k < self.fields.len() ==> self.fields[k] is Some && types.has(self.fields[k]->0)
        &&& types.has(self.result.base_type)
        &&& types.has(self.result.resolve)
    }

    pub open spec fn holds(self, index: i32) -> bool {
        0 <= index < self.scores.len()
    }

    /// The state before the next pass: the trials that have come up are due.
    pub open spec fn turned(self) -> Scoring {
        Scoring { current: self.next, next: Seq::empty(), ..self }
    }

    pub open spec fn counted(self) -> Scoring {
        Scoring { count: (self.count + 1) as i32, ..self }
    }

    /// The state once the best field has been chosen: the first with the highest score.
    pub open spec fn decided(self, best: int) -> Scoring {
        Scoring {
            result: ResolvedUnion { field_num: (best - 1) as i32, resolve: self.fields[best]->0, ..self.result },
            ..self
        }
    }
}

/// The first of the highest scores.
pub open spec fn is_best(scores: Seq<i32>, k: int) -> bool {
    &&& 0 <= k < scores.len()
    &&& forall|j: int| #![trigger scores[j]] 0 <= j < scores.len() ==> scores[j] <= scores[k]
    &&& forall|j: int| #![trigger scores[j]] 0 <= j < k ==> scores[j] < scores[k]
}

/// There is no more than one first of the highest scores.
pub proof fn best_is_unique(scores: Seq<i32>, a: int, b: int)
    requires
        is_best(scores, a),
        is_best(scores, b),
    ensures
        a == b,
{
    assert(scores[a] <= scores[b]);
    assert(scores[b] <= scores[a]);
}

/// What one trial does.
pub open spec fn tries(
    after: Scoring,
    after_glb: Architecture,
    before: Scoring,
    before_glb: Architecture,
    trial: Trial,
    last: bool,
    data: Funcdata,
    res: Result<()>,
) -> bool {
    let vn = data.value(trial.vn);
    let written = vn.flag(Varnode::WRITTEN);
    if trial.direction is FitUp && !written {
        &&& after_glb == before_glb
        &&& res == Ok::<(), Error>(())
        &&& after == (if vn.flag(Varnode::CONSTANT) {
            before.scored(
                trial.score_index,
                crate::unionresolve::fit::constant_fit(
                    before_glb.types.dt(trial.fit_type).metatype,
                    vn.size,
                    vn.loc.offset,
                    before_glb,
                ),
            )
        } else {
            before
        })
    } else if !before_glb.roomy(9) {
        after_glb == before_glb && after == before && (res matches Err(e) && crate::unionresolve::fit::out_of_room(e))
    } else {
        exists|v: Result<Verdict>| #[trigger]
            judged(after_glb, before_glb, trial, last, data, before.result.base_type, v) && match v {
                Ok(v) => {
                    &&& res == Ok::<(), Error>(())
                    &&& after == before.learned(
                        v,
                        if trial.direction is FitDown {
                            trial.op->0
                        } else {
                            vn.def->0
                        },
                        trial.score_index,
                        last,
                        data,
                        after_glb.types,
                    )
                },
                Err(e) => after == before && res == Err::<(), Error>(e),
            }
    }
}

pub open spec fn judged(
    after: Architecture,
    before: Architecture,
    trial: Trial,
    last: bool,
    data: Funcdata,
    base: TypeId,
    v: Result<Verdict>,
) -> bool {
    if trial.direction is FitDown {
        crate::unionresolve::judge::judges_down(after, before, trial, last, data, base, v)
    } else {
        crate::unionresolve::judge::judges_up(after, before, trial, data, v)
    }
}

/// What the trials that are due do, from one of them on.
pub open spec fn runs_level(
    after: Scoring,
    after_glb: Architecture,
    before: Scoring,
    before_glb: Architecture,
    i: nat,
    last: bool,
    data: Funcdata,
    res: Result<()>,
) -> bool
    decreases before.current.len() - i,
{
    if i >= before.current.len() {
        after == before && after_glb == before_glb && res == Ok::<(), Error>(())
    } else if before.count >= ScoreUnionFields::MAX_TRIALS {
        after == before.counted() && after_glb == before_glb && res == Ok::<(), Error>(())
    } else {
        exists|mid: Scoring, mid_glb: Architecture, r: Result<()>| #[trigger]
            tries(mid, mid_glb, before.counted(), before_glb, before.current[i as int], last, data, r)
                && mid.current == before.current && match r {
                Ok(_) => runs_level(after, after_glb, mid, mid_glb, i + 1, last, data, res),
                Err(e) => after == mid && after_glb == mid_glb && res == Err::<(), Error>(e),
            }
    }
}

/// The last pass passes nothing on.
pub open spec fn is_last(pass: nat) -> bool {
    pass + 1 == ScoreUnionFields::MAX_PASSES
}

/// What the passes do, from one of them on.
pub open spec fn runs_passes(
    after: Scoring,
    after_glb: Architecture,
    before: Scoring,
    before_glb: Architecture,
    pass: nat,
    data: Funcdata,
    res: Result<()>,
) -> bool
    decreases ScoreUnionFields::MAX_PASSES - pass,
{
    if pass >= ScoreUnionFields::MAX_PASSES || before.current.len() == 0 || before.count > ScoreUnionFields::THRESHOLD {
        after == before && after_glb == before_glb && res == Ok::<(), Error>(())
    } else {
        exists|mid: Scoring, mid_glb: Architecture, r: Result<()>| #[trigger]
            runs_level(mid, mid_glb, before, before_glb, 0, is_last(pass), data, r) && match r {
                Ok(_) => if is_last(pass) {
                    after == mid && after_glb == mid_glb && res == Ok::<(), Error>(())
                } else {
                    runs_passes(after, after_glb, mid.turned(), mid_glb, pass + 1, data, res)
                },
                Err(e) => after == mid && after_glb == mid_glb && res == Err::<(), Error>(e),
            }
    }
}

/// What a run does.
pub open spec fn runs(
    after: Scoring,
    after_glb: Architecture,
    before: Scoring,
    before_glb: Architecture,
    data: Funcdata,
    res: Result<()>,
) -> bool {
    runs_passes(after, after_glb, Scoring { count: 0, ..before }, before_glb, 0, data, res)
}

/// What is asked of a program whose unions are scored.
pub open spec fn scorable(data: Funcdata, glb: Architecture) -> bool {
    &&& glb.workable()
    &&& glb.types.spaces_sizeless()
    &&& glb.manager.default_data_space is Some
    &&& data.flowing()
    &&& data.typed_in(glb.types)
}

pub proof fn scorable_later(data: Funcdata, after: Architecture, before: Architecture)
    requires
        scorable(data, before),
        after.grew(before),
    ensures
        scorable(data, after),
{
    crate::unionresolve::typed_later(data, after.types, before.types);
}

pub proof fn valid_later(s: Scoring, data: Funcdata, after: TypeFactory, before: TypeFactory)
    requires
        s.valid(data, before),
        after.keeps(before),
    ensures
        s.valid(data, after),
{
    assert forall|k: int| #![trigger s.current[k]] 0 <= k < s.current.len() implies s.current[k].fits(data, after)
        && s.holds(s.current[k].score_index) by {
        assert(before.has(s.current[k].fit_type));
        assert(after.has(s.current[k].fit_type));
    }
    assert forall|k: int| #![trigger s.next[k]] 0 <= k < s.next.len() implies s.next[k].fits(data, after) && s.holds(
        s.next[k].score_index,
    ) by {
        assert(after.has(s.next[k].fit_type));
    }
    assert forall|k: int| #![trigger s.fields[k]] 0 <= k < s.fields.len() implies s.fields[k] is Some && after.has(
        s.fields[k]->0,
    ) by {
        assert(after.has(s.fields[k]->0));
    }
}

proof fn readers_fit(
    vn: VarnodeId,
    ct: TypeId,
    index: i32,
    max: i32,
    but: Option<(OpId, i32)>,
    data: Funcdata,
    types: TypeFactory,
    i: nat,
)
    requires
        data.flowing(),
        data.has_vn(vn),
        types.has(ct),
        i <= data.value(vn).descend@.len(),
    ensures
        forall|k: int| #![trigger readers(vn, ct, index, max, but, data, i)[k]]
            0 <= k < readers(vn, ct, index, max, but, data, i).len() ==> readers(
                vn,
                ct,
                index,
                max,
                but,
                data,
                i,
            )[k].fits(data, types) && readers(vn, ct, index, max, but, data, i)[k].score_index == index,
    decreases i,
{
    if i > 0 {
        readers_fit(vn, ct, index, max, but, data, types, (i - 1) as nat);
        let op = data.value(vn).descend@[i - 1];
        assert(data.has_op(op));
        data.operation(op).slot_is_there(vn, 0);
    }
}

impl View for ScoreUnionFields {
    type V = Scoring;

    open spec fn view(&self) -> Scoring {
        Scoring {
            scores: self.scores@,
            fields: self.fields@,
            visited: self.visited@,
            current: self.trial_current@,
            next: self.trial_next@,
            result: self.result,
            count: self.trial_count,
        }
    }
}

impl ScoreUnionFields {
    pub const MAX_PASSES: i32 = 6;
    pub const THRESHOLD: i32 = 256;
    pub const MAX_TRIALS: i32 = 1024;

    fn add_score(&mut self, index: i32, score: i32)
        requires
            old(self)@.holds(index),
        ensures
            final(self)@ == old(self)@.scored(index, score),
    {
        let sum: i32 = self.scores[index as usize].wrapping_add(score);
        self.scores.set(index as usize, sum);
    }

    /// Notes that a value is visited. Whether it is for the first time.
    fn visit(&mut self, vn: VarnodeId, index: i32) -> (res: bool)
        ensures
            res == !old(self)@.visited.contains(VisitMark { vn, index }),
            final(self)@ == (if res {
                old(self)@.marked(vn, index)
            } else {
                old(self)@
            }),
    {
        let mark = VisitMark::new(vn, index);
        let mut i: usize = 0;
        while i < self.visited.len()
            invariant
                i <= self.visited@.len(),
                *self == *old(self),
                mark == (VisitMark { vn, index }),
                forall|k: int| 0 <= k < i ==> self.visited@[k] != mark,
            decreases self.visited@.len() - i,
        {
            if self.visited[i] == mark {
                assert(old(self)@.visited[i as int] == mark);
                return false;
            }
            i = i + 1;
        }
        self.visited.push(mark);
        true
    }

    /// Adds the trials on the operations that read a value.
    fn add_readers(&mut self, vn: VarnodeId, ct: TypeId, index: i32, max: i32, but: Option<(OpId, i32)>, data: &Funcdata)
        requires
            data.flowing(),
            data.has_vn(vn),
        ensures
            final(self)@ == (Scoring {
                next: old(self)@.next + readers(vn, ct, index, max, but, *data, data.value(vn).descend@.len()),
                ..old(self)@
            }),
    {
        let descend = &data.vn(vn).descend;
        let mut i: usize = 0;
        assert(self@.next =~= self@.next + Seq::<Trial>::empty());
        while i < descend.len()
            invariant
                i <= descend@.len(),
                data.flowing(),
                data.has_vn(vn),
                *descend == data.value(vn).descend,
                self@ == (Scoring {
                    next: old(self)@.next + readers(vn, ct, index, max, but, *data, i as nat),
                    ..old(self)@
                }),
            decreases descend@.len() - i,
        {
            let op = descend[i];
            assert(op == data.value(vn).descend@[i as int]);
            assert(data.has_op(op));
            let slot: i32 = data.op(op).get_slot(vn);
            let skip = match but {
                Some((but_op, but_slot)) => but_op == op && but_slot == slot,
                None => false,
            };
            let ghost past = readers(vn, ct, index, max, but, *data, i as nat);
            if !skip {
                self.trial_next.push(Trial::new_down(op, slot, ct, index, max, data));
                assert(self@.next =~= old(self)@.next + past.push(Trial::down(op, slot, ct, index, max, *data)));
            }
            i = i + 1;
        }
    }

    pub fn new_trials_down(&mut self, vn: VarnodeId, ct: TypeId, index: i32, max: i32, data: &Funcdata, glb: &Architecture)
        requires
            scorable(*data, *glb),
            data.has_vn(vn),
            glb.types.has(ct),
            old(self)@.holds(index),
            old(self)@.valid(*data, glb.types),
        ensures
            final(self)@ == old(self)@.passed_down(vn, ct, index, max, *data, glb.types),
            final(self)@.valid(*data, glb.types),
    {
        let ghost before = self@;
        if !self.visit(vn, index) {
            return;
        }
        if data.vn(vn).is_type_lock() {
            let lock_type = data.vn_get_type_def_facing(vn, glb);
            if !glb.types.get(lock_type).needs_resolution() {
                self.add_score(index, score_locked_type(ct, lock_type, &glb.types));
                return;
            }
        }
        self.add_readers(vn, ct, index, max, None, data);
        proof {
            readers_fit(vn, ct, index, max, None, *data, glb.types, data.value(vn).descend@.len());
            still_valid(self@, before, index, *data, glb.types);
        }
    }

    fn new_trials(
        &mut self,
        op: OpId,
        slot: i32,
        ct: TypeId,
        index: i32,
        max: i32,
        data: &Funcdata,
        glb: &Architecture,
    )
        requires
            scorable(*data, *glb),
            data.has_op(op),
            0 <= slot < data.operation(op).inrefs@.len(),
            glb.types.has(ct),
            old(self)@.holds(index),
            old(self)@.valid(*data, glb.types),
        ensures
            final(self)@ == old(self)@.passed_on(op, slot, ct, index, max, *data, glb.types),
            final(self)@.valid(*data, glb.types),
    {
        let ghost before = self@;
        let vn = data.op(op).get_in(slot);
        assert(data.has_vn(data.operation(op).inrefs@[slot as int]));
        if !self.visit(vn, index) {
            return;
        }
        if data.vn(vn).is_type_lock() {
            let lock_type = data.vn_get_type_read_facing(vn, op, glb);
            if !glb.types.get(lock_type).needs_resolution() {
                self.add_score(index, score_locked_type(ct, lock_type, &glb.types));
                return;
            }
        }
        self.trial_next.push(Trial::new_up(vn, ct, index, max));
        self.add_readers(vn, ct, index, max, Some((op, slot)), data);
        proof {
            readers_fit(vn, ct, index, max, Some((op, slot)), *data, glb.types, data.value(vn).descend@.len());
            still_valid(self@, before, index, *data, glb.types);
        }
    }

    fn learn(&mut self, v: Verdict, op: OpId, index: i32, last: bool, data: &Funcdata, glb: &Architecture)
        requires
            scorable(*data, *glb),
            data.has_op(op),
            v.out is Some ==> data.operation(op).output is Some && glb.types.has((v.out->0).0),
            v.input is Some ==> 0 <= (v.input->0).0 < data.operation(op).inrefs@.len() && glb.types.has((v.input->0).1),
            old(self)@.holds(index),
            old(self)@.valid(*data, glb.types),
        ensures
            final(self)@ == old(self)@.learned(v, op, index, last, *data, glb.types),
            final(self)@.valid(*data, glb.types),
            final(self)@.current == old(self)@.current,
            final(self)@.count == old(self)@.count,
            final(self)@.same_fields(old(self)@),
    {
        self.add_score(index, v.score);
        if last {
            return;
        }
        if let Some((ct, max)) = v.out {
            assert(data.has_op(op));
            let out = data.op(op).get_out().unwrap();
            self.new_trials_down(out, ct, index, max, data, glb);
        } else if let Some((slot, ct, max)) = v.input {
            self.new_trials(op, slot, ct, index, max, data, glb);
        }
    }

    /// Tries a data-type on an operation that reads a value.
    fn score_trial_down(&mut self, trial: &Trial, last: bool, data: &Funcdata, glb: &mut Architecture) -> (res: Result<()>)
        requires
            scorable(*data, *old(glb)),
            old(self)@.valid(*data, old(glb).types),
            trial.fits(*data, old(glb).types),
            old(self)@.holds(trial.score_index),
            trial.direction is FitDown,
        ensures
            final(glb).grew(*old(glb)),
            tries(final(self)@, *final(glb), old(self)@, *old(glb), *trial, last, *data, res),
            final(self)@.valid(*data, final(glb).types),
            final(self)@.current == old(self)@.current,
            final(self)@.count == old(self)@.count,
            final(self)@.same_fields(old(self)@),
    {
        proof {
            crate::types::suit::grew_never(*glb);
        }
        if !glb.has_room_for(9) {
            return Err(too_many_types());
        }
        let v = judge_down(trial, last, data, self.result.base_type, glb);
        proof {
            scorable_later(*data, *glb, *old(glb));
            valid_later(self@, *data, glb.types, old(glb).types);
            assert(judged(*glb, *old(glb), *trial, last, *data, self.result.base_type, v));
        }
        match v {
            Ok(v) => {
                self.learn(v, trial.op.unwrap(), trial.score_index, last, data, glb);
                Ok(())
            },
            Err(e) => Err(e),
        }
    }

    /// Tries a data-type on what writes a value.
    fn score_trial_up(&mut self, trial: &Trial, last: bool, data: &Funcdata, glb: &mut Architecture) -> (res: Result<()>)
        requires
            scorable(*data, *old(glb)),
            old(self)@.valid(*data, old(glb).types),
            trial.fits(*data, old(glb).types),
            old(self)@.holds(trial.score_index),
            trial.direction is FitUp,
        ensures
            final(glb).grew(*old(glb)),
            tries(final(self)@, *final(glb), old(self)@, *old(glb), *trial, last, *data, res),
            final(self)@.valid(*data, final(glb).types),
            final(self)@.current == old(self)@.current,
            final(self)@.count == old(self)@.count,
            final(self)@.same_fields(old(self)@),
    {
        proof {
            crate::types::suit::grew_never(*glb);
            assert(data.has_vn(trial.vn));
        }
        let vn = data.vn(trial.vn);
        if !vn.is_written() {
            if vn.is_constant() {
                let meta = glb.types.get(trial.fit_type).get_metatype();
                let score: i32 = score_constant_fit(meta, vn.get_size(), vn.get_offset(), glb);
                self.add_score(trial.score_index, score);
            }
            return Ok(());
        }
        if !glb.has_room_for(9) {
            return Err(too_many_types());
        }
        let v = judge_up(trial, data, glb);
        proof {
            scorable_later(*data, *glb, *old(glb));
            valid_later(self@, *data, glb.types, old(glb).types);
            assert(judged(*glb, *old(glb), *trial, last, *data, self.result.base_type, v));
        }
        match v {
            Ok(v) => {
                self.learn(v, vn.get_def().unwrap(), trial.score_index, last, data, glb);
                Ok(())
            },
            Err(e) => Err(e),
        }
    }

    /// Carries out the trials that are due, from one of them on.
    fn run_one_level(&mut self, i: usize, last: bool, data: &Funcdata, glb: &mut Architecture) -> (res: Result<()>)
        requires
            scorable(*data, *old(glb)),
            old(self)@.valid(*data, old(glb).types),
            old(self)@.count <= ScoreUnionFields::MAX_TRIALS,
            i <= old(self)@.current.len(),
        ensures
            final(glb).grew(*old(glb)),
            runs_level(final(self)@, *final(glb), old(self)@, *old(glb), i as nat, last, *data, res),
            final(self)@.same_fields(old(self)@),
            final(self)@.valid(*data, final(glb).types),
        decreases old(self)@.current.len() - i,
    {
        let ghost before = self@;
        let ghost before_glb = *glb;
        proof {
            crate::types::suit::grew_never(*glb);
        }
        if i >= self.trial_current.len() {
            return Ok(());
        }
        self.trial_count = self.trial_count + 1;
        proof {
            assert(self@ == before.counted());
            assert(self@.valid(*data, glb.types)) by {
                assert(self@.current == before.current && self@.next == before.next && self@.fields == before.fields);
            }
        }
        if self.trial_count > ScoreUnionFields::MAX_TRIALS {
            return Ok(());
        }
        let trial = self.trial_current[i];
        assert(before.current[i as int].fits(*data, glb.types));
        let r = if trial.direction == TrialDirection::FitDown {
            self.score_trial_down(&trial, last, data, glb)
        } else {
            self.score_trial_up(&trial, last, data, glb)
        };
        let ghost mid = self@;
        let ghost mid_glb = *glb;
        proof {
            assert(tries(mid, mid_glb, before.counted(), before_glb, before.current[i as int], last, *data, r));
            scorable_later(*data, *glb, before_glb);
        }
        match r {
            Ok(_) => {
                let res = self.run_one_level(i + 1, last, data, glb);
                proof {
                    crate::types::suit::grew_twice(*glb, mid_glb, before_glb);
                }
                res
            },
            Err(e) => Err(e),
        }
    }

    /// Carries out the passes, from one of them on.
    fn run_pass(&mut self, pass: i32, data: &Funcdata, glb: &mut Architecture) -> (res: Result<()>)
        requires
            scorable(*data, *old(glb)),
            old(self)@.valid(*data, old(glb).types),
            0 <= pass <= ScoreUnionFields::MAX_PASSES,
        ensures
            final(glb).grew(*old(glb)),
            runs_passes(final(self)@, *final(glb), old(self)@, *old(glb), pass as nat, *data, res),
            final(self)@.same_fields(old(self)@),
            final(self)@.valid(*data, final(glb).types),
        decreases ScoreUnionFields::MAX_PASSES - pass,
    {
        let ghost before = self@;
        let ghost before_glb = *glb;
        proof {
            crate::types::suit::grew_never(*glb);
        }
        if pass >= ScoreUnionFields::MAX_PASSES || self.trial_current.len() == 0 || self.trial_count
            > ScoreUnionFields::THRESHOLD {
            return Ok(());
        }
        let last = pass + 1 == ScoreUnionFields::MAX_PASSES;
        let r = self.run_one_level(0, last, data, glb);
        let ghost mid = self@;
        let ghost mid_glb = *glb;
        proof {
            assert(runs_level(mid, mid_glb, before, before_glb, 0, is_last(pass as nat), *data, r));
            scorable_later(*data, *glb, before_glb);
        }
        match r {
            Ok(_) => {
                if last {
                    return Ok(());
                }
                let mut due: Vec<Trial> = Vec::new();
                std::mem::swap(&mut self.trial_next, &mut due);
                self.trial_current = due;
                assert(self@ == mid.turned());
                assert(self@.valid(*data, glb.types));
                let res = self.run_pass(pass + 1, data, glb);
                proof {
                    crate::types::suit::grew_twice(*glb, mid_glb, before_glb);
                }
                res
            },
            Err(e) => Err(e),
        }
    }

    pub fn run(&mut self, data: &Funcdata, glb: &mut Architecture) -> (res: Result<()>)
        requires
            scorable(*data, *old(glb)),
            old(self)@.valid(*data, old(glb).types),
        ensures
            final(glb).grew(*old(glb)),
            runs(final(self)@, *final(glb), old(self)@, *old(glb), *data, res),
            final(self)@.same_fields(old(self)@),
            final(self)@.valid(*data, final(glb).types),
    {
        let ghost before = self@;
        self.trial_count = 0;
        proof {
            assert(self@ == (Scoring { count: 0, ..before }));
            assert(self@.valid(*data, glb.types)) by {
                assert(self@.current == before.current && self@.next == before.next && self@.fields == before.fields);
            }
        }
        self.run_pass(0, data, glb)
    }

    pub fn compute_best_index(&mut self)
        requires
            old(self)@.scores.len() > 0,
            old(self)@.scores.len() == old(self)@.fields.len(),
            old(self)@.scores.len() <= i32::MAX,
            forall|k: int| #![trigger old(self)@.fields[k]]
                0 <= k < old(self)@.fields.len() ==> old(self)@.fields[k] is Some,
        ensures
            exists|best: int| #[trigger] is_best(old(self)@.scores, best) && final(self)@ == old(self)@.decided(best),
    {
        let ghost before = self@;
        let mut best_index: usize = 0;
        let mut index: usize = 1;
        while index < self.scores.len()
            invariant
                *self == *old(self),
                best_index < index <= self.scores@.len(),
                forall|j: int| #![trigger self.scores@[j]] 0 <= j < index ==> self.scores@[j] <= self.scores@[best_index as int],
                forall|j: int| #![trigger self.scores@[j]] 0 <= j < best_index ==> self.scores@[j]
                    < self.scores@[best_index as int],
            decreases self.scores@.len() - index,
        {
            if self.scores[index] > self.scores[best_index] {
                best_index = index;
            }
            index = index + 1;
        }
        assert(before.fields[best_index as int] is Some);
        self.result.field_num = best_index as i32 - 1;
        self.result.resolve = self.fields[best_index].unwrap();
        assert(is_best(before.scores, best_index as int));
        assert(self@ == before.decided(best_index as int));
    }

    pub fn get_result(&self) -> (res: &ResolvedUnion)
        ensures
            *res == self@.result,
    {
        &self.result
    }
}

proof fn still_valid(after: Scoring, before: Scoring, index: i32, data: Funcdata, types: TypeFactory)
    requires
        before.valid(data, types),
        before.holds(index),
        after.current == before.current,
        after.scores.len() == before.scores.len(),
        after.fields == before.fields,
        after.result == before.result,
        after.next.len() >= before.next.len(),
        forall|k: int| #![trigger after.next[k]]
            0 <= k < after.next.len() ==> (k < before.next.len() && after.next[k] == before.next[k]) || (
            after.next[k].fits(data, types) && after.next[k].score_index == index),
    ensures
        after.valid(data, types),
{
    assert forall|k: int| #![trigger after.next[k]] 0 <= k < after.next.len() implies after.next[k].fits(data, types)
        && after.holds(after.next[k].score_index) by {
        if k < before.next.len() {
            assert(before.next[k].fits(data, types));
        }
    }
}

} // verus!
