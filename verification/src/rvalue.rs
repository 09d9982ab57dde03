//! The move-parameter transfer protocol: a small runtime state machine
//! giving pinned, exactly-once-populate, pointer-stable passing of an
//! owned value into a native call that consumes it by move.
//!
//! A handler starts `Empty`, becomes `Populated` after exactly one
//! populate, and hands out its stored target while populated.  The caller
//! must not relocate the handler between populating and retrieval; that
//! discipline is the caller's, enforced here by the exactly-once
//! contract on [`RValueParamHandler::populate`].

use vstd::prelude::*;

verus! {

/// A parameter to a native call which is received by rvalue (by move).
/// Implementers provide the stack storage the value is parked in while
/// the call runs, and how the passed target is read from it.
pub trait RValueParam<T>: Sized {
    /// The stack storage required while passing to the native side.
    type StackStorage;

    /// The storage value that populating parks.
    spec fn stored(self) -> Self::StackStorage;

    /// Whether the storage can hand out a target (it holds a value).
    spec fn storage_valid(s: &Self::StackStorage) -> bool;

    /// The target a retrieval hands out.
    spec fn target(s: &Self::StackStorage) -> T;

    /// Populates the stack storage exactly once.
    fn populate_stack_space(self, this: &mut Option<Self::StackStorage>)
        ensures
            *final(this) == Option::Some(self.stored()),
    ;

    /// Retrieves the stored target, to be passed to the native side.
    fn get_ptr(stack: &Self::StackStorage) -> (r: &T)
        requires
            Self::storage_valid(stack),
        ensures
            *r == Self::target(stack),
    ;

    /// The storage-specific cleanup step run at destruction.  It is a
    /// no-op for self-releasing storage kinds; storage kinds needing
    /// manual release would act here.
    fn do_drop(stack: &mut Self::StackStorage);
}

/// A uniquely owned, possibly empty, heap handle: the one storage
/// strategy currently implemented, whose owned representation doubles as
/// its own stack storage.
pub struct UniqueHandle<T> {
    pub inner: Option<Box<T>>,
}

impl<T> UniqueHandle<T> {
    /// The held value, if the handle is not null.
    pub open spec fn pointee(self) -> Option<T> {
        match self.inner {
            Option::Some(b) => Option::Some(*b),
            Option::None => Option::None,
        }
    }

    /// A handle owning `value` on the heap.
    pub fn new(value: T) -> (r: Self)
        ensures
            r.pointee() == Option::Some(value),
    {
        UniqueHandle { inner: Option::Some(Box::new(value)) }
    }

    /// The null handle.
    pub fn null() -> (r: Self)
        ensures
            r.pointee() is None,
    {
        UniqueHandle { inner: Option::None }
    }

    pub fn is_null(&self) -> (r: bool)
        ensures
            r == (self.pointee() is None),
    {
        match &self.inner {
            Option::Some(_) => false,
            Option::None => true,
        }
    }
}

impl<T> RValueParam<T> for UniqueHandle<T> {
    /// The handle itself is the stack storage.
    type StackStorage = UniqueHandle<T>;

    open spec fn stored(self) -> UniqueHandle<T> {
        self
    }

    /// A null handle supplied as a value parameter is a programming
    /// error: retrieval requires a held value.
    open spec fn storage_valid(s: &UniqueHandle<T>) -> bool {
        s.pointee() is Some
    }

    open spec fn target(s: &UniqueHandle<T>) -> T {
        s.pointee()->0
    }

    fn populate_stack_space(self, this: &mut Option<UniqueHandle<T>>) {
        *this = Option::Some(self);
    }

    fn get_ptr(stack: &UniqueHandle<T>) -> (r: &T) {
        match &stack.inner {
            Option::Some(b) => &**b,
            Option::None => vstd::pervasive::unreached(),
        }
    }

    /// The handle releases its own heap storage; no manual step is
    /// needed.
    fn do_drop(_stack: &mut UniqueHandle<T>) {
    }
}

/// The per-argument handler passing one owned value into a native call by
/// move: populate exactly once, then retrieve the target while populated.
pub struct RValueParamHandler<T, RVP: RValueParam<T>> {
    pub space: Option<RVP::StackStorage>,
    pub _target: core::marker::PhantomData<T>,
}

impl<T, RVP: RValueParam<T>> RValueParamHandler<T, RVP> {
    /// Whether populate has run.
    pub open spec fn is_populated(self) -> bool {
        self.space is Some
    }

    /// The parked storage, once populated.
    pub open spec fn stored_space(self) -> RVP::StackStorage {
        self.space->0
    }

    /// A fresh, empty handler.
    pub fn new() -> (r: Self)
        ensures
            !r.is_populated(),
    {
        RValueParamHandler { space: Option::None, _target: core::marker::PhantomData }
    }

    /// Parks the owned value.  A second populate before destruction is
    /// disallowed by this contract; the handler must not be relocated
    /// between this call and any retrieval.
    pub fn populate(&mut self, param: RVP)
        requires
            !old(self).is_populated(),
        ensures
            final(self).is_populated(),
            final(self).stored_space() == param.stored(),
    {
        param.populate_stack_space(&mut self.space);
    }

    /// Hands out the stored target for one native call.  Callable any
    /// number of times while populated: the handler is unchanged and
    /// every retrieval hands out the same target.
    pub fn get_ptr(&mut self) -> (r: &T)
        requires
            old(self).is_populated(),
            RVP::storage_valid(&old(self).stored_space()),
        ensures
            *final(self) == *old(self),
            *r == RVP::target(&old(self).stored_space()),
    {
        match &self.space {
            Option::Some(s) => RVP::get_ptr(s),
            Option::None => vstd::pervasive::unreached(),
        }
    }

    /// Ends the handler's life: the storage-specific cleanup step runs
    /// exactly once if the handler was populated, and not at all
    /// otherwise.
    pub fn finish(self) -> (cleaned: bool)
        ensures
            cleaned == self.is_populated(),
    {
        match self.space {
            Option::Some(mut s) => {
                RVP::do_drop(&mut s);
                true
            },
            Option::None => false,
        }
    }
}

impl<T, RVP: RValueParam<T>> Default for RValueParamHandler<T, RVP> {
    fn default() -> (r: Self)
        ensures
            !r.is_populated(),
    {
        RValueParamHandler { space: Option::None, _target: core::marker::PhantomData }
    }
}

/// LAW: while populated, retrieval is deterministic — any two targets
/// handed out from the same stored storage are the same value.
pub proof fn lemma_repeated_get_ptr_same<T, RVP: RValueParam<T>>(
    s: RVP::StackStorage,
    r1: T,
    r2: T,
)
    requires
        r1 == RVP::target(&s),
        r2 == RVP::target(&s),
    ensures
        r1 == r2,
{
}

} // verus!
