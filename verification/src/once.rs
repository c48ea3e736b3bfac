//! A slot that is written at most once: the first value set stays, every
//! later attempt is refused and hands its value back.

use vstd::prelude::*;

verus! {

/// A cell initialised at most once.
pub struct OnceSlot<T> {
    value: Option<T>,
}

impl<T> View for OnceSlot<T> {
    type V = Option<T>;

    /// The value held, if the slot has been set.
    closed spec fn view(&self) -> Option<T> {
        self.value
    }
}

/// What an attempt to set `v` into a slot holding `state` returns.
pub open spec fn set_result<T>(state: Option<T>, v: T) -> Result<(), T> {
    if state is None {
        Ok(())
    } else {
        Err(v)
    }
}

/// What a slot holding `state` holds after an attempt to set `v`.
pub open spec fn after_set<T>(state: Option<T>, v: T) -> Option<T> {
    if state is None {
        Some(v)
    } else {
        state
    }
}

/// What a slot holding `state` holds after the attempts `attempts`, made in
/// that order.
pub open spec fn after_sets<T>(state: Option<T>, attempts: Seq<T>) -> Option<T>
    decreases attempts.len(),
{
    if attempts.len() == 0 {
        state
    } else {
        after_sets(after_set(state, attempts.first()), attempts.drop_first())
    }
}

/// How many of the attempts `attempts`, made in that order on a slot holding
/// `state`, succeed.
pub open spec fn successful_sets<T>(state: Option<T>, attempts: Seq<T>) -> nat
    decreases attempts.len(),
{
    if attempts.len() == 0 {
        0
    } else {
        (if set_result(state, attempts.first()) is Ok { 1nat } else { 0nat })
            + successful_sets(after_set(state, attempts.first()), attempts.drop_first())
    }
}

impl<T> OnceSlot<T> {
    /// An empty slot.
    pub fn new() -> (slot: Self)
        ensures
            slot@ == None::<T>,
    {
        OnceSlot { value: None }
    }

    /// Sets the slot if it is empty; otherwise refuses and returns `v`.
    pub fn set(&mut self, v: T) -> (res: Result<(), T>)
        ensures
            res == set_result(old(self)@, v),
            final(self)@ == after_set(old(self)@, v),
    {
        if self.value.is_none() {
            self.value = Some(v);
            Ok(())
        } else {
            Err(v)
        }
    }

    /// The value held, if any.
    pub fn get(&self) -> (res: Option<&T>)
        ensures
            res is Some <==> self@ is Some,
            res matches Some(r) ==> *r == self@->0,
    {
        match &self.value {
            Some(v) => Some(v),
            None => None,
        }
    }
}

/// On a slot that holds a value, every attempt to set fails and the value
/// stays.
pub proof fn lemma_set_once_filled<T>(state: Option<T>, attempts: Seq<T>)
    requires
        state is Some,
    ensures
        after_sets(state, attempts) == state,
        successful_sets(state, attempts) == 0,
    decreases attempts.len(),
{
    if attempts.len() > 0 {
        lemma_set_once_filled(after_set(state, attempts.first()), attempts.drop_first());
    }
}

/// However many threads race to set an empty slot, exactly one succeeds, and
/// the slot keeps the value of the first attempt.
pub proof fn lemma_exactly_one_set_wins<T>(attempts: Seq<T>)
    requires
        attempts.len() > 0,
    ensures
        after_sets(None::<T>, attempts) == Some(attempts[0]),
        successful_sets(None::<T>, attempts) == 1,
{
    lemma_set_once_filled(Some(attempts[0]), attempts.drop_first());
}

} // verus!
