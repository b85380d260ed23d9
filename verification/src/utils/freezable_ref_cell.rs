//! A cell with a two-phase life: mutable until it is frozen, shared and
//! read-only afterwards.

use vstd::prelude::*;

verus! {

/// A value that can be changed through `borrow_mut` until `freeze` is
/// called, and only read through `borrow` afterwards.
pub struct FreezableRefCell<T> {
    value: T,
    frozen: bool,
}

/// Exclusive access to the value of a `FreezableRefCell` that is not frozen.
pub struct RefMut<'a, T: 'a> {
    value: &'a mut T,
}

impl<T> FreezableRefCell<T> {
    /// The value held.
    pub closed spec fn value(&self) -> T {
        self.value
    }

    /// Whether `freeze` has been called.
    pub closed spec fn is_frozen(&self) -> bool {
        self.frozen
    }

    /// Creates a cell that is not frozen.
    pub fn new(value: T) -> (cell: FreezableRefCell<T>)
        ensures
            cell.value() == value,
            !cell.is_frozen(),
    {
        FreezableRefCell { value, frozen: false }
    }

    /// Creates a cell that holds the default value of `T` and is not frozen.
    pub fn default() -> (cell: FreezableRefCell<T>) where T: Default
        ensures
            !cell.is_frozen(),
    {
        FreezableRefCell::new(T::default())
    }

    /// Borrows the value mutably. The cell must not be frozen.
    pub fn borrow_mut(&mut self) -> (r: RefMut<'_, T>)
        requires
            !old(self).is_frozen(),
        ensures
            *r.target() == old(self).value(),
            final(self).value() == *final(r.target()),
            !final(self).is_frozen(),
    {
        RefMut { value: &mut self.value }
    }

    /// Freezes the cell: from now on the value can only be read.
    pub fn freeze(&mut self)
        requires
            !old(self).is_frozen(),
        ensures
            final(self).is_frozen(),
            final(self).value() == old(self).value(),
    {
        self.frozen = true;
    }

    /// Borrows the value of a frozen cell.
    pub fn borrow(&self) -> (r: &T)
        requires
            self.is_frozen(),
        ensures
            *r == self.value(),
    {
        &self.value
    }
}

impl<'a, T: 'a> RefMut<'a, T> {
    /// The reference that the guard holds.
    pub closed spec fn target(self) -> &'a mut T {
        self.value
    }

    /// Reads the borrowed value.
    pub fn deref(&self) -> (r: &T)
        ensures
            *r == *self.target(),
    {
        &*self.value
    }

    /// Reaches the borrowed value for a change in place.
    pub fn deref_mut(&mut self) -> (r: &mut T)
        ensures
            *r == *old(self).target(),
            *final(self).target() == *final(r),
            *final(final(self).target()) == *final(old(self).target()),
    {
        &mut *self.value
    }

    /// Replaces the borrowed value.
    pub fn set(&mut self, value: T)
        ensures
            *final(self).target() == value,
            *final(final(self).target()) == *final(old(self).target()),
    {
        *self.value = value;
    }
}

} // verus!
