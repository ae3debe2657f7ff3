//! The names of the values of an enumeration.
use vstd::prelude::*;

verus! {

/// A named value.
#[derive(Debug)]
pub struct NamedValue {
    pub value: u64,
    pub name: String,
}

/// Names by value, in ascending order of the values.
#[derive(Debug)]
pub struct NameMap {
    pub entries: Vec<NamedValue>,
}

impl NamedValue {
    pub fn copy(&self) -> (res: NamedValue)
        ensures
            res == *self,
    {
        NamedValue { value: self.value, name: self.name.clone() }
    }
}

impl NameMap {
    /// Every value has one name, and the values ascend.
    pub open spec fn sorted(self) -> bool {
        forall|i: int, j: int|
            0 <= i < j < self.entries@.len() ==> (#[trigger] self.entries@[i]).value < (
            #[trigger] self.entries@[j]).value
    }

    /// Whether a value has a name.
    pub open spec fn named(self, value: u64) -> bool {
        exists|i: int| 0 <= i < self.entries@.len() && (#[trigger] self.entries@[i]).value == value
    }

    /// The name of a value.
    pub open spec fn name_of(self, value: u64) -> String {
        self.entries@[choose|i: int| 0 <= i < self.entries@.len() && (#[trigger] self.entries@[i]).value == value].name
    }

    pub fn new() -> (res: NameMap)
        ensures
            res.sorted(),
            res.entries@.len() == 0,
    {
        NameMap { entries: Vec::new() }
    }

    pub fn copy(&self) -> (res: NameMap)
        ensures
            res.entries@ == self.entries@,
    {
        let mut entries: Vec<NamedValue> = Vec::new();
        let mut i: usize = 0;
        while i < self.entries.len()
            invariant
                i <= self.entries@.len(),
                entries@ == self.entries@.take(i as int),
            decreases self.entries@.len() - i,
        {
            entries.push(self.entries[i].copy());
            i = i + 1;
            assert(entries@ =~= self.entries@.take(i as int));
        }
        assert(entries@ =~= self.entries@);
        NameMap { entries }
    }

    /// The number of values that are not greater than the given one.
    pub open spec fn count_upto(self, value: u64, n: int) -> bool {
        &&& 0 <= n <= self.entries@.len()
        &&& forall|i: int| 0 <= i < n ==> (#[trigger] self.entries@[i]).value <= value
        &&& forall|i: int| n <= i < self.entries@.len() ==> (#[trigger] self.entries@[i]).value > value
    }

    /// Counts the values that are not greater than the given one.
    pub fn upper_bound(&self, value: u64) -> (res: usize)
        requires
            self.sorted(),
        ensures
            self.count_upto(value, res as int),
    {
        let mut low: usize = 0;
        let mut high: usize = self.entries.len();
        while low < high
            invariant
                self.sorted(),
                low <= high <= self.entries@.len(),
                forall|i: int| 0 <= i < low ==> (#[trigger] self.entries@[i]).value <= value,
                forall|i: int| high <= i < self.entries@.len() ==> (#[trigger] self.entries@[i]).value > value,
            decreases high - low,
        {
            let mid: usize = low + (high - low) / 2;
            if self.entries[mid].value <= value {
                low = mid + 1;
            } else {
                high = mid;
            }
        }
        low
    }

    /// The position of a value, if it has a name.
    pub fn find(&self, value: u64) -> (res: Option<usize>)
        requires
            self.sorted(),
        ensures
            match res {
                Some(i) => i < self.entries@.len() && self.entries@[i as int].value == value,
                None => !self.named(value),
            },
    {
        let n: usize = self.upper_bound(value);
        if n > 0 && self.entries[n - 1].value == value {
            Some(n - 1)
        } else {
            None
        }
    }

    pub fn contains(&self, value: u64) -> (res: bool)
        requires
            self.sorted(),
        ensures
            res == self.named(value),
    {
        self.find(value).is_some()
    }

    /// A value has at most one position.
    pub proof fn position_is_unique(self, i: int, j: int)
        requires
            self.sorted(),
            0 <= i < self.entries@.len(),
            0 <= j < self.entries@.len(),
            self.entries@[i].value == self.entries@[j].value,
        ensures
            i == j,
    {
    }

    /// The map after a value has got a name.
    pub open spec fn inserted(self, before: NameMap, value: u64, name: Seq<char>) -> bool {
        &&& self.sorted()
        &&& self.entries@.len() == before.entries@.len() + 1
        &&& forall|v: u64| #[trigger] self.named(v) <==> (v == value || before.named(v))
        &&& exists|n: int|
            0 <= n <= before.entries@.len() && self.entries@.len() > n && (#[trigger] self.entries@[n]).value == value
                && self.entries@[n].name@ == name && self.entries@.remove(n) == before.entries@
    }

    /// Names a value that has no name yet.
    pub fn insert(&mut self, value: u64, name: String)
        requires
            old(self).sorted(),
            !old(self).named(value),
        ensures
            final(self).inserted(*old(self), value, name@),
    {
        let n: usize = self.upper_bound(value);
        let ghost before = *self;
        self.entries.insert(n, NamedValue { value, name });
        assert(self.entries@.remove(n as int) =~= before.entries@);
        assert forall|i: int, j: int| 0 <= i < j < self.entries@.len() implies (#[trigger] self.entries@[i]).value < (
        #[trigger] self.entries@[j]).value by {
            if n > 0 {
                assert(before.entries@[n - 1].value != value);
            }
            if i < n {
                assert(self.entries@[i] == before.entries@[i]);
            } else if i > n {
                assert(self.entries@[i] == before.entries@[i - 1]);
            }
            if j < n {
                assert(self.entries@[j] == before.entries@[j]);
            } else if j > n {
                assert(self.entries@[j] == before.entries@[j - 1]);
            }
        }
        assert forall|v: u64| #[trigger] self.named(v) <==> (v == value || before.named(v)) by {
            if before.named(v) {
                let i = choose|i: int| 0 <= i < before.entries@.len() && (#[trigger] before.entries@[i]).value == v;
                if i < n {
                    assert(self.entries@[i].value == v);
                } else {
                    assert(self.entries@[i + 1].value == v);
                }
            }
            if v == value {
                assert(self.entries@[n as int].value == v);
            }
            if self.named(v) && v != value {
                let i = choose|i: int| 0 <= i < self.entries@.len() && (#[trigger] self.entries@[i]).value == v;
                if i < n {
                    assert(before.entries@[i].value == v);
                } else {
                    assert(before.entries@[i - 1].value == v);
                }
            }
        }
        assert(self.entries@[n as int].value == value);
    }
}

} // verus!
