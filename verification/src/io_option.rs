//! A stream that may not be there yet.

use crate::errno::ebadf;
use crate::errno::bad_descriptor_code;
use vstd::prelude::*;

verus! {

/// A stream for input and output that may not have been set up yet.
///
/// While there is no stream, reads wait forever, and writes, flushes and shutdowns
/// fail with EBADF.
#[derive(Clone, Copy, Debug, Eq, PartialEq)]
pub struct IOOption<S>(Option<S>);

impl<S> View for IOOption<S> {
    type V = Option<S>;

    /// The stream, where there is one.
    closed spec fn view(&self) -> Option<S> {
        self.0
    }
}

impl<S> Default for IOOption<S> {
    /// No stream.
    fn default() -> (res: Self)
        ensures
            res@ == None::<S>,
    {
        Self(None)
    }
}

impl<S> IOOption<S> {
    /// Wraps the option.
    pub fn new(opt: Option<S>) -> (res: Self)
        ensures
            res@ == opt,
    {
        Self(opt)
    }

    /// Wraps no stream.
    pub fn new_none() -> (res: Self)
        ensures
            res@ == None::<S>,
    {
        Self(None)
    }

    /// Wraps the stream.
    pub fn new_some(s: S) -> (res: Self)
        ensures
            res@ == Some(s),
    {
        Self(Some(s))
    }

    /// Consumes this IOOption and returns the option inside.
    pub fn inner(self) -> (opt: Option<S>)
        ensures
            opt == self@,
    {
        self.0
    }

    /// Borrows the option inside as a reference.
    pub fn inner_ref(&self) -> (opt: &Option<S>)
        ensures
            *opt == self@,
    {
        &self.0
    }

    /// Borrows the option inside as a mutable reference: what the borrower leaves
    /// there is what this IOOption then holds.
    pub fn inner_mut(&mut self) -> (opt: &mut Option<S>)
        ensures
            *opt == old(self)@,
            final(self)@ == *final(opt),
    {
        &mut self.0
    }

    /// Whether there is no stream.
    pub fn is_none(&self) -> (b: bool)
        ensures
            b == (self@ is None),
    {
        self.0.is_none()
    }

    /// Whether there is a stream.
    pub fn is_some(&self) -> (b: bool)
        ensures
            b == (self@ is Some),
    {
        self.0.is_some()
    }

    /// Consumes this IOOption and returns the stream, which must be there.
    pub fn unwrap(self) -> (s: S)
        requires
            self@ is Some,
        ensures
            self@ == Some(s),
    {
        self.0.unwrap()
    }

    /// Borrows the stream, which must be there.
    pub fn unwrap_ref(&self) -> (s: &S)
        requires
            self@ is Some,
        ensures
            self@ == Some(*s),
    {
        self.0.as_ref().unwrap()
    }

    /// Borrows the stream, which must be there, as a mutable reference.
    pub fn unwrap_mut(&mut self) -> (s: &mut S)
        requires
            old(self)@ is Some,
        ensures
            old(self)@ == Some(*s),
            final(self)@ == Some(*final(s)),
    {
        self.0.as_mut().unwrap()
    }

    /// Puts a stream in, and returns what was there before.
    pub fn replace(&mut self, value: S) -> (previous: Self)
        ensures
            previous@ == old(self)@,
            final(self)@ == Some(value),
    {
        let previous = self.0.take();
        self.0 = Some(value);
        Self(previous)
    }

    /// Where a read from this stream goes: to the stream, where there is one. With
    /// no stream the read is pending.
    pub fn poll_read(&mut self) -> (target: Option<&mut S>)
        ensures
            match target {
                Some(s) => old(self)@ == Some(*s) && final(self)@ == Some(*final(s)),
                None => old(self)@ is None && final(self)@ is None,
            },
            target is Some <==> old(self)@ is Some,
    {
        self.0.as_mut()
    }

    /// Where a write to this stream goes: to the stream, where there is one. With
    /// no stream the write ends with the error number EBADF.
    pub fn poll_write(&mut self) -> (target: Result<&mut S, i32>)
        ensures
            match target {
                Ok(s) => old(self)@ == Some(*s) && final(self)@ == Some(*final(s)),
                Err(code) => old(self)@ is None && final(self)@ is None && code
                    == bad_descriptor_code(),
            },
            target is Ok <==> old(self)@ is Some,
    {
        self.write_target()
    }

    /// Where a flush of this stream goes: to the stream, where there is one. With
    /// no stream the flush ends with the error number EBADF.
    pub fn poll_flush(&mut self) -> (target: Result<&mut S, i32>)
        ensures
            match target {
                Ok(s) => old(self)@ == Some(*s) && final(self)@ == Some(*final(s)),
                Err(code) => old(self)@ is None && final(self)@ is None && code
                    == bad_descriptor_code(),
            },
            target is Ok <==> old(self)@ is Some,
    {
        self.write_target()
    }

    /// Where a shutdown of this stream goes: to the stream, where there is one.
    /// With no stream the shutdown ends with the error number EBADF.
    pub fn poll_shutdown(&mut self) -> (target: Result<&mut S, i32>)
        ensures
            match target {
                Ok(s) => old(self)@ == Some(*s) && final(self)@ == Some(*final(s)),
                Err(code) => old(self)@ is None && final(self)@ is None && code
                    == bad_descriptor_code(),
            },
            target is Ok <==> old(self)@ is Some,
    {
        self.write_target()
    }

    /// The stream, for an operation that fails at once where there is none.
    fn write_target(&mut self) -> (target: Result<&mut S, i32>)
        ensures
            match target {
                Ok(s) => old(self)@ == Some(*s) && final(self)@ == Some(*final(s)),
                Err(code) => old(self)@ is None && final(self)@ is None && code
                    == bad_descriptor_code(),
            },
    {
        match self.0.as_mut() {
            Some(s) => Ok(s),
            None => Err(ebadf()),
        }
    }
}

} // verus!
