//! The value from the previous render. Diff against it to animate a change,
//! detect a direction, or log what moved.

use vstd::prelude::*;

verus! {

/// The value the last render passed, once there was one.
pub struct Slot<T> {
    current: Option<T>,
}

impl<T> Slot<T> {
    /// Before the first render.
    pub fn new() -> (r: Self)
        ensures
            r.spec_current() is None,
    {
        Slot { current: None }
    }

    /// The value the latest render passed.
    pub closed spec fn spec_current(&self) -> Option<T> {
        self.current
    }

    /// A render passes `value`: it becomes the current one, and the one
    /// before comes back, `None` on the first render.
    pub fn advance(&mut self, value: T) -> (previous: Option<T>)
        ensures
            advanced(*old(self), value, previous, *final(self)),
    {
        let mut previous = Some(value);
        std::mem::swap(&mut previous, &mut self.current);
        previous
    }
}

/// One render as `advance` states it: `value` goes in, the value before
/// comes back as `previous`, and `value` is current after.
pub open spec fn advanced<T>(before: Slot<T>, value: T, previous: Option<T>, after: Slot<T>) -> bool {
    &&& previous == before.spec_current()
    &&& after.spec_current() == Some(value)
}

/// The previous value lags the current one by one render: over renders
/// passing `values` to a fresh slot, the first gets `None` back and each
/// later one the value the render before it passed. `slots[i]` is the slot
/// before render `i`, `previous[i]` what that render got back.
pub proof fn lemma_previous_lags_by_one<T>(values: Seq<T>, slots: Seq<Slot<T>>, previous: Seq<Option<T>>)
    requires
        slots.len() == values.len() + 1,
        previous.len() == values.len(),
        slots[0].spec_current() is None,
        forall|i: int| 0 <= i < values.len() ==> advanced(slots[i], values[i], previous[i], slots[i + 1]),
    ensures
        values.len() > 0 ==> previous[0] is None,
        forall|i: int| 1 <= i < values.len() ==> previous[i] == Some(values[i - 1]),
        values.len() > 0 ==> slots.last().spec_current() == Some(values.last()),
{
    assert forall|i: int| 1 <= i < values.len() implies previous[i] == Some(values[i - 1]) by {
        assert(advanced(slots[i - 1], values[i - 1], previous[i - 1], slots[i]));
        assert(advanced(slots[i], values[i], previous[i], slots[i + 1]));
    }
    if values.len() > 0 {
        assert(advanced(slots[0], values[0], previous[0], slots[1]));
        let n = values.len() - 1;
        assert(advanced(slots[n], values[n], previous[n], slots[n + 1]));
    }
}

} // verus!
