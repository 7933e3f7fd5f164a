//! Cells for single values, which can be restricted to reads or to writes.
//!
//! They give the fields of a device's register block their direction. The
//! accesses themselves are ordinary loads and stores.

use vstd::prelude::*;

verus! {

/// A cell that can be read and written.
#[derive(Debug)]
pub struct Volatile<T: Copy>(T);

impl<T: Copy> Clone for Volatile<T> {
    /// A new cell holding the value that is read from this one.
    fn clone(&self) -> (copy: Self)
        ensures
            copy@ == self@,
    {
        Volatile(self.read())
    }
}

impl<T: Copy> Volatile<T> {
    /// The value the cell holds.
    pub closed spec fn view(&self) -> T {
        self.0
    }

    /// Creates a cell holding `value`.
    pub fn new(value: T) -> (cell: Volatile<T>)
        ensures
            cell@ == value,
    {
        Volatile(value)
    }

    /// Reads the value out of the cell.
    pub fn read(&self) -> (value: T)
        ensures
            value == self@,
    {
        self.0
    }

    /// Stores `value` in the cell.
    pub fn write(&mut self, value: T)
        ensures
            final(self)@ == value,
    {
        self.0 = value;
    }

    /// Reads the value, lets `f` compute its successor, and stores that.
    pub fn update<F>(&mut self, f: F) where F: FnOnce(T) -> T
        requires
            call_requires(f, (old(self)@,)),
        ensures
            call_ensures(f, (old(self)@,), final(self)@),
    {
        let value = self.read();
        let value = f(value);
        self.write(value);
    }
}

/// A cell that can only be read.
#[derive(Debug)]
pub struct ReadOnly<T: Copy>(Volatile<T>);

impl<T: Copy> Clone for ReadOnly<T> {
    /// A new cell holding the same value.
    fn clone(&self) -> (copy: Self)
        ensures
            copy@ == self@,
    {
        ReadOnly(self.0.clone())
    }
}

impl<T: Copy> ReadOnly<T> {
    /// The value the cell holds.
    pub closed spec fn view(&self) -> T {
        self.0@
    }

    /// Creates a cell holding `value`.
    pub fn new(value: T) -> (cell: ReadOnly<T>)
        ensures
            cell@ == value,
    {
        ReadOnly(Volatile::new(value))
    }

    /// Reads the value out of the cell.
    pub fn read(&self) -> (value: T)
        ensures
            value == self@,
    {
        self.0.read()
    }
}

/// A cell that can only be written.
#[derive(Debug)]
pub struct WriteOnly<T: Copy>(Volatile<T>);

impl<T: Copy> Clone for WriteOnly<T> {
    /// A new cell holding the same value.
    fn clone(&self) -> (copy: Self)
        ensures
            copy@ == self@,
    {
        WriteOnly(self.0.clone())
    }
}

impl<T: Copy> WriteOnly<T> {
    /// The value the cell holds.
    pub closed spec fn view(&self) -> T {
        self.0@
    }

    /// Creates a cell holding `value`.
    pub fn new(value: T) -> (cell: WriteOnly<T>)
        ensures
            cell@ == value,
    {
        WriteOnly(Volatile::new(value))
    }

    /// Stores `value` in the cell.
    pub fn write(&mut self, value: T)
        ensures
            final(self)@ == value,
    {
        self.0.write(value)
    }
}

} // verus!
