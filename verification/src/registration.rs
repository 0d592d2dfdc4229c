//! Registered callbacks. At most one of a kind is held; the one that it takes
//! the place of is handed back, so that its state can be released.

use vstd::prelude::*;

verus! {

/// A place for one registration.
#[derive(Debug)]
pub struct Slot<T> {
    pub held: Option<T>,
}

impl<T> Slot<T> {
    /// A place without a registration.
    pub fn new() -> (r: Slot<T>)
        ensures
            r.held is None,
    {
        Slot { held: None }
    }

    /// Whether something is registered.
    pub fn is_registered(&self) -> (r: bool)
        ensures
            r == self.held is Some,
    {
        self.held.is_some()
    }

    /// Puts `new` in the place of what was registered, and gives that back.
    pub fn register(&mut self, new: Option<T>) -> (r: Option<T>)
        ensures
            r == old(self).held,
            final(self).held == new,
    {
        let old_one = self.held.take();
        self.held = new;
        old_one
    }
}

/// Registers a progress callback with its state, or unregisters the one there
/// is. Gives 0 and the registration to be released, or -1 without an archive.
pub fn zip_register_progress_callback_with_state<T>(slot: Option<&mut Slot<T>>, new: Option<T>) ->
    (r: (i32, Option<T>))
    ensures
        slot is None ==> r.0 == -1 && r.1 is None,
        slot matches Some(s) ==> {
            &&& r.0 == 0
            &&& r.1 == s.held
            &&& final(s).held == new
        },
{
    match slot {
        None => (-1, None),
        Some(s) => (0, s.register(new)),
    }
}

/// Registers a cancel callback with its state, or unregisters the one there is.
/// Gives 0 and the registration to be released, or -1 without an archive.
pub fn zip_register_cancel_callback_with_state<T>(slot: Option<&mut Slot<T>>, new: Option<T>) ->
    (r: (i32, Option<T>))
    ensures
        slot is None ==> r.0 == -1 && r.1 is None,
        slot matches Some(s) ==> {
            &&& r.0 == 0
            &&& r.1 == s.held
            &&& final(s).held == new
        },
{
    match slot {
        None => (-1, None),
        Some(s) => (0, s.register(new)),
    }
}

/// Registers a progress callback without state, or unregisters the one there
/// is. Gives the registration to be released.
pub fn zip_register_progress_callback<T>(slot: Option<&mut Slot<T>>, new: Option<T>) -> (r: Option<
    T,
>)
    ensures
        slot is None ==> r is None,
        slot matches Some(s) ==> r == s.held && final(s).held == new,
{
    zip_register_progress_callback_with_state(slot, new).1
}

/// Whether the answer of a cancel callback asks for the operation to be
/// cancelled.
pub fn asks_to_cancel(answer: i32) -> (r: bool)
    ensures
        r == (answer != 0),
{
    answer != 0
}

} // verus!
