//! Constants that a program refers to by description.
use vstd::prelude::*;
use crate::ids::TypeId;

verus! {

/// What a description stands for.
#[derive(Debug)]
pub struct CPoolRecord {
    pub tag: u32,
    pub tp: Option<TypeId>,
    pub token: String,
}

impl CPoolRecord {
    pub const INSTANCE_OF: u32 = 6;
}

/// Descriptions, as lists of numbers, and what they stand for.
#[derive(Debug)]
pub struct ConstantPool {
    pub records: Vec<(Vec<u64>, CPoolRecord)>,
}

/// Where the first record for a description is, from a place on.
pub open spec fn record_from(list: Seq<(Vec<u64>, CPoolRecord)>, refs: Seq<u64>, i: nat) -> nat
    decreases list.len() - i,
{
    if i >= list.len() || list[i as int].0@ == refs {
        i
    } else {
        record_from(list, refs, i + 1)
    }
}

fn same_refs(a: &Vec<u64>, b: &Vec<u64>) -> (res: bool)
    ensures
        res == (a@ == b@),
{
    if a.len() != b.len() {
        return false;
    }
    let mut i: usize = 0;
    while i < a.len()
        invariant
            i <= a@.len(),
            a@.len() == b@.len(),
            forall|k: int| 0 <= k < i ==> a@[k] == b@[k],
        decreases a@.len() - i,
    {
        if a[i] != b[i] {
            return false;
        }
        i = i + 1;
    }
    assert(a@ =~= b@);
    true
}

impl ConstantPool {
    /// The first record for a description.
    pub open spec fn record(self, refs: Seq<u64>) -> Option<CPoolRecord> {
        let i = record_from(self.records@, refs, 0);
        if i < self.records@.len() {
            Some(self.records@[i as int].1)
        } else {
            None
        }
    }

    pub fn get_record(&self, refs: &Vec<u64>) -> (res: Option<&CPoolRecord>)
        ensures
            match res {
                Some(record) => self.record(refs@) == Some(*record),
                None => self.record(refs@) is None,
            },
    {
        let mut i: usize = 0;
        while i < self.records.len()
            invariant
                i <= self.records@.len(),
                record_from(self.records@, refs@, i as nat) == record_from(self.records@, refs@, 0),
            decreases self.records@.len() - i,
        {
            if same_refs(&self.records[i].0, refs) {
                return Some(&self.records[i].1);
            }
            i = i + 1;
        }
        None
    }
}

} // verus!
