//! An optional slot a value can be taken out of and put back into.
//!
//! Per-thread bookkeeping parks in-progress timing samples here: a slot is
//! filled when a phase begins and emptied when its duration is recorded.
//! Taking from an empty slot and inserting into a full one are the two
//! error cases, and both report which they were.

use vstd::prelude::*;

verus! {

/// Why a slot operation failed: the slot already held a value, or held
/// none.
#[derive(Debug, Clone, Copy, PartialEq, Eq, Structural)]
pub enum ValueError {
    Occupied,
    Empty,
}

/// A rejected insertion: the value that could not be stored and why.
#[derive(Debug, Clone)]
pub struct InsertErr<T> {
    pub to_insert: T,
    pub err: ValueError,
}

/// A slot holding at most one value.
#[derive(Debug, Clone)]
pub struct CellOpt<T> {
    slot: Option<T>,
}

impl<T> CellOpt<T> {
    /// What the slot holds.
    pub closed spec fn view_slot(self) -> Option<T> {
        self.slot
    }

    /// A slot holding `value`.
    pub fn new(value: T) -> (r: CellOpt<T>)
        ensures
            r.view_slot() == Some(value),
    {
        CellOpt { slot: Some(value) }
    }

    /// Empty the slot, reporting what it held, or that it held nothing.
    pub fn take(&mut self) -> (r: Result<T, ValueError>)
        ensures
            final(self).view_slot() is None,
            r == (match old(self).view_slot() {
                Some(v) => Result::<T, ValueError>::Ok(v),
                None => Result::<T, ValueError>::Err(ValueError::Empty),
            }),
    {
        match self.slot.take() {
            Some(v) => Ok(v),
            None => Err(ValueError::Empty),
        }
    }

    /// Empty a slot known to be full.
    pub fn force_take(&mut self) -> (r: T)
        requires
            old(self).view_slot() is Some,
        ensures
            final(self).view_slot() is None,
            Some(r) == old(self).view_slot(),
    {
        match self.slot.take() {
            Some(v) => v,
            None => unreached(),
        }
    }

    /// Store a value in an empty slot; a full slot rejects it, handing the
    /// value back.
    pub fn insert(&mut self, value: T) -> (r: Result<(), InsertErr<T>>)
        ensures
            old(self).view_slot() is None ==> final(self).view_slot() == Some(value) && r is Ok,
            old(self).view_slot() is Some ==> final(self).view_slot() == old(self).view_slot()
                && (r matches Err(e) && e.to_insert == value && e.err is Occupied),
    {
        if self.is_occupied() {
            Err(InsertErr { to_insert: value, err: ValueError::Occupied })
        } else {
            self.slot = Some(value);
            Ok(())
        }
    }

    /// Whether the slot holds a value.
    pub fn is_occupied(&self) -> (r: bool)
        ensures
            r == (self.view_slot() is Some),
    {
        self.slot.is_some()
    }

    /// Store a value whether or not the slot already held one.
    pub fn overwrite(&mut self, value: T)
        ensures
            final(self).view_slot() == Some(value),
    {
        self.slot = Some(value);
    }

    /// Apply `f` to the held value without disturbing the slot; an empty
    /// slot yields nothing.
    pub fn apply_then_restore<U, F: Fn(&T) -> U>(&self, f: F) -> (r: Option<U>)
        requires
            self.view_slot() matches Some(t) ==> call_requires(f, (&t,)),
        ensures
            r is Some <==> self.view_slot() is Some,
            self.view_slot() matches Some(t) ==> (r matches Some(u) && call_ensures(
                f,
                (&t,),
                u,
            )),
    {
        match &self.slot {
            Some(t) => Some(f(t)),
            None => None,
        }
    }

    /// Replace the held value with `f` of it; an empty slot stays empty.
    pub fn apply_and_update<F: Fn(T) -> T>(&mut self, f: F)
        requires
            old(self).view_slot() matches Some(t) ==> call_requires(f, (t,)),
        ensures
            old(self).view_slot() is None ==> final(self).view_slot() is None,
            old(self).view_slot() matches Some(t) ==> (final(self).view_slot() matches Some(u)
                && call_ensures(f, (t,), u)),
    {
        match self.slot.take() {
            Some(t) => {
                self.slot = Some(f(t));
            },
            None => {},
        }
    }
}

impl<T> Default for CellOpt<T> {
    /// An empty slot.
    fn default() -> (r: CellOpt<T>)
        ensures
            r.view_slot() is None,
    {
        CellOpt { slot: None }
    }
}

} // verus!
