//! Helpers for reading structures field by field.

use vstd::prelude::*;
use vstd::std_specs::cmp::PartialEqSpec;

verus! {

/// Why a field could not be read.
#[derive(Debug)]
pub enum FieldError<E> {
    /// Reading failed.
    Read(E),
    /// The field was given twice.
    Duplicate(&'static str),
    /// The field was not given.
    Missing(&'static str),
    /// The field does not hold the expected value.
    WrongValue,
}

/// The next element of a sequence, named `name`, from what reading it gave:
/// an element, the end of the sequence (the field is missing), or a failure.
pub fn next<T, E>(read: Result<Option<T>, E>, name: &'static str) -> (r: Result<T, FieldError<E>>)
    ensures
        match read {
            Ok(Some(t)) => r == Ok::<T, FieldError<E>>(t),
            Ok(None) => r == Err::<T, FieldError<E>>(FieldError::Missing(name)),
            Err(m) => r == Err::<T, FieldError<E>>(FieldError::Read(m)),
        },
{
    match read {
        Ok(Some(t)) => Ok(t),
        Ok(None) => Err(FieldError::Missing(name)),
        Err(m) => Err(FieldError::Read(m)),
    }
}

/// A field of a structure being read: its name, and its value once read.
pub struct Hole<T> {
    pub name: &'static str,
    pub val: Option<T>,
}

impl<T> Hole<T> {
    /// An empty field.
    pub fn new(name: &'static str) -> (r: Self)
        ensures
            r.name == name,
            r.val is None,
    {
        Hole { name, val: None }
    }

    /// A field holding `val`.
    pub fn val(name: &'static str, val: T) -> (r: Self)
        ensures
            r.name == name,
            r.val == Some(val),
    {
        Hole { name, val: Some(val) }
    }

    /// Takes the field from the next element of a sequence (what reading it gave).
    pub fn from<E>(&mut self, read: Result<Option<T>, E>) -> (r: Result<(), E>)
        ensures
            final(self).name == old(self).name,
            match read {
                Ok(v) => r is Ok && final(self).val == v,
                Err(m) => r == Err::<(), E>(m) && final(self).val == old(self).val,
            },
    {
        match read {
            Ok(v) => {
                self.val = v;
                Ok(())
            },
            Err(m) => Err(m),
        }
    }

    /// Fills the field with the next value of a map (what reading it gave); a
    /// field that is already filled is a duplicate.
    pub fn fill<E>(&mut self, read: Result<T, E>) -> (r: Result<(), FieldError<E>>)
        ensures
            final(self).name == old(self).name,
            match read {
                Ok(t) => if old(self).val is Some {
                    r == Err::<(), FieldError<E>>(FieldError::Duplicate(old(self).name)) && final(self).val
                        == old(self).val
                } else {
                    r is Ok && final(self).val == Some(t)
                },
                Err(m) => r == Err::<(), FieldError<E>>(FieldError::Read(m)) && final(self).val == old(self).val,
            },
    {
        match read {
            Ok(t) => {
                if self.val.is_some() {
                    Err(FieldError::Duplicate(self.name))
                } else {
                    self.val = Some(t);
                    Ok(())
                }
            },
            Err(m) => Err(FieldError::Read(m)),
        }
    }

    /// The field's value; an empty field is missing.
    pub fn take<E>(self) -> (r: Result<T, FieldError<E>>)
        ensures
            match self.val {
                Some(t) => r == Ok::<T, FieldError<E>>(t),
                None => r == Err::<T, FieldError<E>>(FieldError::Missing(self.name)),
            },
    {
        match self.val {
            Some(t) => Ok(t),
            None => Err(FieldError::Missing(self.name)),
        }
    }

    /// Takes out the value the field is expected to hold, before the actual value
    /// is read; an empty field counts as a duplicate.
    pub fn expect_start<E>(&mut self) -> (r: Result<T, FieldError<E>>)
        ensures
            final(self).name == old(self).name,
            final(self).val is None,
            match old(self).val {
                Some(t) => r == Ok::<T, FieldError<E>>(t),
                None => r == Err::<T, FieldError<E>>(FieldError::Duplicate(old(self).name)),
            },
    {
        match self.val.take() {
            Some(t) => Ok(t),
            None => Err(FieldError::Duplicate(self.name)),
        }
    }

    /// A field that was expected to be consumed: one that still holds a value is
    /// reported as missing.
    pub fn expected<E>(self) -> (r: Result<(), FieldError<E>>)
        ensures
            self.val is Some ==> r == Err::<(), FieldError<E>>(FieldError::Missing(self.name)),
            self.val is None ==> r is Ok,
    {
        if self.val.is_some() {
            Err(FieldError::Missing(self.name))
        } else {
            Ok(())
        }
    }
}

impl<T: PartialEq> Hole<T> {
    /// Compares the expected value with what reading the actual value gave.
    pub fn expect_finish<E>(expected: T, read: Result<T, E>) -> (r: Result<(), FieldError<E>>)
        ensures
            match read {
                Ok(t) => T::obeys_eq_spec() ==> if expected.eq_spec(&t) {
                    r is Ok
                } else {
                    r == Err::<(), FieldError<E>>(FieldError::WrongValue)
                },
                Err(m) => r == Err::<(), FieldError<E>>(FieldError::Read(m)),
            },
    {
        match read {
            Ok(t) => if expected == t {
                Ok(())
            } else {
                Err(FieldError::WrongValue)
            },
            Err(e) => Err(FieldError::Read(e)),
        }
    }
}

} // verus!
