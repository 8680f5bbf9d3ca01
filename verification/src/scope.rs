//! Handle scopes and the handles they give out.
//!
//! A scope borrows its engine for as long as it lasts, and every handle made
//! in it carries the scope's lifetime: the compiler keeps a handle
//! from being used, stored or returned once its scope has ended.

use vstd::prelude::*;
use std::marker::PhantomData;
use std::rc::Rc;
use crate::engine::Isolate;

verus! {

/// A region in which handles are made. It holds the engine exclusively
/// until it ends.
pub struct HandleScope<'s> {
    /// The engine this scope works on.
    pub isolate: &'s mut Isolate,
}

impl<'s> HandleScope<'s> {
    /// The engine as it now is.
    pub open spec fn isolate(&self) -> Isolate {
        *self.isolate
    }

    /// Opens a scope on an engine.
    pub fn new(isolate: &'s mut Isolate) -> (scope: HandleScope<'s>)
        ensures
            scope.isolate() == *old(isolate),
            *final(scope.isolate) == *final(isolate),
    {
        HandleScope { isolate }
    }

    /// Binds what the engine returned to this scope: a string becomes a
    /// handle, and nothing stays nothing.
    pub fn cast_local<T>(&mut self, raw: Option<Rc<T>>) -> (handle: Option<Local<'s, T>>)
        ensures
            handle is Some <==> raw is Some,
            handle matches Some(h) ==> h.target() == *raw.unwrap(),
            *final(self) == *old(self),
    {
        match raw {
            Some(target) => Some(Local { target, scope: PhantomData }),
            None => None,
        }
    }
}

impl<'s> std::ops::Deref for HandleScope<'s> {
    type Target = Isolate;

    fn deref(&self) -> (isolate: &Isolate)
        ensures
            *isolate == self.isolate(),
    {
        &*self.isolate
    }
}

impl<'s> std::ops::DerefMut for HandleScope<'s> {
    fn deref_mut(&mut self) -> (isolate: &mut Isolate)
        ensures
            *isolate == old(self).isolate(),
            final(self).isolate() == *final(isolate),
            *final(final(self).isolate) == *final(old(self).isolate),
    {
        &mut *self.isolate
    }
}

/// A handle to a value of the engine, good for the lifetime of the scope
/// that made it.
pub struct Local<'s, T> {
    target: Rc<T>,
    scope: PhantomData<&'s ()>,
}

impl<'s, T> Local<'s, T> {
    /// The value that the handle refers to.
    pub closed spec fn target(&self) -> T {
        *self.target
    }
}

impl<'s, T: View> View for Local<'s, T> {
    type V = T::V;

    open spec fn view(&self) -> T::V {
        self.target()@
    }
}

impl<'s, T> std::ops::Deref for Local<'s, T> {
    type Target = T;

    fn deref(&self) -> (target: &T)
        ensures
            *target == self.target(),
    {
        &*self.target
    }
}

impl<'s, T> Clone for Local<'s, T> {
    fn clone(&self) -> (handle: Local<'s, T>)
        ensures
            handle.target() == self.target(),
    {
        Local { target: self.target.clone(), scope: PhantomData }
    }
}

} // verus!
