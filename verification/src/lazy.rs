//! A value computed on first use: the initialiser runs at most once, and
//! every later use sees the value it produced.

use vstd::prelude::*;

verus! {

/// A value produced on demand by an initialiser.
pub struct LazySlot<T> {
    value: Option<T>,
}

impl<T> View for LazySlot<T> {
    type V = Option<T>;

    /// The value, once it has been computed.
    closed spec fn view(&self) -> Option<T> {
        self.value
    }
}

impl<T> LazySlot<T> {
    /// A slot whose value has not been computed yet.
    pub fn new() -> (slot: Self)
        ensures
            slot@ == None::<T>,
    {
        LazySlot { value: None }
    }

    /// The value, computed by `init` if this is the first use; `init` is not
    /// called when the value is already there.
    pub fn get_or_init<F: FnOnce() -> T>(&mut self, init: F) -> (r: &T)
        requires
            old(self)@ is None ==> call_requires(init, ()),
        ensures
            old(self)@ is Some ==> final(self)@ == old(self)@,
            old(self)@ is None ==> final(self)@ is Some && call_ensures(init, (), final(self)@->0),
            *r == final(self)@->0,
    {
        if self.value.is_none() {
            let v = init();
            self.value = Some(v);
        }
        self.value.as_ref().unwrap()
    }
}

} // verus!
