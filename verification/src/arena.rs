//! Storage that hands out indices: a slot is never given to another object.
use vstd::prelude::*;

verus! {

/// Objects by index. A slot whose object was removed stays empty.
#[derive(Debug)]
pub struct Arena<T> {
    pub slots: Vec<Option<T>>,
}

impl<T> Arena<T> {
    pub open spec fn has(self, index: u32) -> bool {
        index < self.slots@.len() && self.slots@[index as int] is Some
    }

    pub open spec fn item(self, index: u32) -> T {
        self.slots@[index as int]->0
    }

    /// The slots, with another object in one of them.
    pub open spec fn with(self, index: u32, value: T) -> Seq<Option<T>> {
        self.slots@.update(index as int, Some(value))
    }

    pub fn new() -> (res: Arena<T>)
        ensures
            res.slots@.len() == 0,
    {
        Arena { slots: Vec::new() }
    }

    pub fn contains(&self, index: u32) -> (res: bool)
        ensures
            res == self.has(index),
    {
        (index as usize) < self.slots.len() && self.slots[index as usize].is_some()
    }

    pub fn put(&mut self, value: T) -> (res: u32)
        requires
            old(self).slots@.len() < u32::MAX,
        ensures
            final(self).slots@ == old(self).slots@.push(Some(value)),
            res == old(self).slots@.len(),
    {
        let index: u32 = self.slots.len() as u32;
        self.slots.push(Some(value));
        index
    }

    pub fn get(&self, index: u32) -> (res: &T)
        requires
            self.has(index),
        ensures
            *res == self.item(index),
    {
        match &self.slots[index as usize] {
            Some(value) => value,
            None => vstd::pervasive::unreached(),
        }
    }

    pub fn get_mut(&mut self, index: u32) -> (res: &mut T)
        requires
            old(self).has(index),
        ensures
            *res == old(self).item(index),
            final(self).slots@ == old(self).with(index, *final(res)),
    {
        match &mut self.slots[index as usize] {
            Some(value) => value,
            None => vstd::pervasive::unreached(),
        }
    }

    pub fn remove(&mut self, index: u32)
        requires
            index < old(self).slots@.len(),
        ensures
            final(self).slots@ == old(self).slots@.update(index as int, None),
    {
        self.slots.set(index as usize, None);
    }
}

} // verus!
