//! Copy text and know, for a moment, that you did: the "Copied!" label an
//! app draws after a copy button. Each copy raises the flag and names the
//! timer that will lower it; a later copy restarts the wait, so only the
//! latest timer may lower it. The application writes the clipboard and
//! runs the timer.

use vstd::prelude::*;

verus! {

/// How long the flag stays up after a copy, in milliseconds.
pub const SHOW_FOR_MS: u64 = 2000;

/// Whether a copy happened within the last two seconds.
pub struct Clipboard {
    /// The ticket of the timer that will lower the flag, while it is up.
    reset: Option<u64>,
    /// The ticket the next copy gets.
    next_ticket: u64,
}

/// The clipboard flag taken as plain values.
pub struct ClipboardView {
    pub reset: Option<u64>,
    pub next_ticket: u64,
}

impl View for Clipboard {
    type V = ClipboardView;

    closed spec fn view(&self) -> ClipboardView {
        ClipboardView { reset: self.reset, next_ticket: self.next_ticket }
    }
}

/// After a copy: the flag is up, held by a fresh ticket.
pub open spec fn after_copy(v: ClipboardView) -> ClipboardView {
    ClipboardView { reset: Some(v.next_ticket), next_ticket: v.next_ticket.wrapping_add(1) }
}

/// After the timer with `ticket` runs out: the flag drops only if that
/// timer is the latest.
pub open spec fn after_expire(v: ClipboardView, ticket: u64) -> ClipboardView {
    if v.reset == Some(ticket) {
        ClipboardView { reset: None, ..v }
    } else {
        v
    }
}

impl Clipboard {
    /// Nothing copied yet.
    pub fn new() -> (r: Clipboard)
        ensures
            r@ == (ClipboardView { reset: None, next_ticket: 0 }),
    {
        Clipboard { reset: None, next_ticket: 0 }
    }

    /// A copy happened: raise the flag. Returns the ticket of the timer to
    /// start, which replaces any running one.
    pub fn copy(&mut self) -> (ticket: u64)
        ensures
            final(self)@ == after_copy(old(self)@),
            ticket == old(self)@.next_ticket,
    {
        let ticket = self.next_ticket;
        self.reset = Some(ticket);
        self.next_ticket = ticket.wrapping_add(1);
        ticket
    }

    /// The timer with `ticket` ran out. Returns whether the flag dropped.
    pub fn expire(&mut self, ticket: u64) -> (dropped: bool)
        ensures
            final(self)@ == after_expire(old(self)@, ticket),
            dropped == (old(self)@.reset == Some(ticket)),
    {
        if self.reset == Some(ticket) {
            self.reset = None;
            true
        } else {
            false
        }
    }

    /// True for two seconds after `copy`.
    pub fn copied(&self) -> (r: bool)
        ensures
            r == self@.reset is Some,
    {
        self.reset.is_some()
    }
}

/// A copy restarts the two seconds: the timer of an earlier copy running
/// out leaves the flag of a later copy up.
pub proof fn lemma_copy_restarts_the_wait(v: ClipboardView)
    ensures
        after_expire(after_copy(after_copy(v)), v.next_ticket).reset is Some,
        after_expire(after_copy(after_copy(v)), after_copy(v).next_ticket).reset is None,
{
    let t0: u64 = v.next_ticket;
    assert(t0.wrapping_add(1) != t0);
}

/// Right after a copy the flag is up.
pub proof fn lemma_copied_after_copy(v: ClipboardView)
    ensures
        after_copy(v).reset is Some,
{
}

} // verus!
