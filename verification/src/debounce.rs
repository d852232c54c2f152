//! A value that settles: the input is echoed only after it has stopped
//! changing for a delay. Each change of input starts a timer and names it
//! with a ticket; only the timer holding the latest ticket may commit, so
//! the last change of a burst is the one that lands. The application runs
//! the timers.

use vstd::prelude::*;
use vstd::std_specs::cmp::PartialEqSpec;

verus! {

/// The settled value and the change waiting out its delay, if any. The
/// latest input is the pending one when there is one, else the settled
/// value.
pub struct DebouncedState<T> {
    /// The last input that survived a full delay unchanged.
    value: T,
    /// The ticket of the timer now running and the input it will commit.
    pending: Option<(u64, T)>,
    /// The ticket the next timer gets.
    next_ticket: u64,
}

/// A debounced state taken as plain values.
pub struct DebouncedView<T> {
    pub value: T,
    pub pending: Option<(u64, T)>,
    pub next_ticket: u64,
}

impl<T> View for DebouncedState<T> {
    type V = DebouncedView<T>;

    closed spec fn view(&self) -> DebouncedView<T> {
        DebouncedView { value: self.value, pending: self.pending, next_ticket: self.next_ticket }
    }
}

/// What the caller passed most recently.
pub open spec fn latest<T>(v: DebouncedView<T>) -> T {
    match v.pending {
        Some((_, x)) => x,
        None => v.value,
    }
}

/// The state after a render passes `input`: an input equal to the latest
/// changes nothing; any other replaces the pending change with a timer for
/// itself.
pub open spec fn after_input<T: PartialEq>(v: DebouncedView<T>, input: T) -> DebouncedView<T> {
    if latest(v).eq_spec(&input) {
        v
    } else {
        DebouncedView {
            value: v.value,
            pending: Some((v.next_ticket, input)),
            next_ticket: v.next_ticket.wrapping_add(1),
        }
    }
}

/// The state after the timer with `ticket` runs out: it commits its input
/// only if it is still the pending one.
pub open spec fn after_settle<T>(v: DebouncedView<T>, ticket: u64) -> DebouncedView<T> {
    match v.pending {
        Some((t, x)) => if t == ticket {
            DebouncedView { value: x, pending: None, next_ticket: v.next_ticket }
        } else {
            v
        },
        None => v,
    }
}

impl<T: PartialEq> DebouncedState<T> {
    /// The first render commits `value` at once, so the view never renders
    /// a placeholder.
    pub fn new(value: T) -> (r: Self)
        ensures
            r@ == (DebouncedView::<T> { value, pending: None, next_ticket: 0 }),
    {
        DebouncedState { value, pending: None, next_ticket: 0 }
    }

    /// The settled value.
    pub fn value(&self) -> (r: &T)
        ensures
            *r == self@.value,
    {
        &self.value
    }

    /// `true` while an input change is waiting out its delay.
    pub fn pending(&self) -> (r: bool)
        ensures
            r == self@.pending is Some,
    {
        self.pending.is_some()
    }

    /// A render passes `input`. Returns the ticket of a timer to start, when
    /// the input changed; that timer supersedes the one before.
    pub fn input(&mut self, input: T) -> (timer: Option<u64>)
        requires
            T::obeys_eq_spec(),
        ensures
            final(self)@ == after_input(old(self)@, input),
            timer == (if latest(old(self)@).eq_spec(&input) {
                None
            } else {
                Some(old(self)@.next_ticket)
            }),
    {
        let unchanged = match &self.pending {
            Some((_, x)) => *x == input,
            None => self.value == input,
        };
        if unchanged {
            return None;
        }
        let ticket = self.next_ticket;
        self.next_ticket = ticket.wrapping_add(1);
        self.pending = Some((ticket, input));
        Some(ticket)
    }

    /// The timer with `ticket` ran out. Its input commits when it is still
    /// the pending one; a superseded timer changes nothing.
    pub fn settle(&mut self, ticket: u64) -> (committed: bool)
        ensures
            final(self)@ == after_settle(old(self)@, ticket),
            committed == (old(self)@.pending matches Some((t, _)) && t == ticket),
    {
        let due = match &self.pending {
            Some((t, _)) => *t == ticket,
            None => false,
        };
        if !due {
            return false;
        }
        let taken = self.pending.take();
        match taken {
            Some((_, x)) => {
                self.value = x;
            },
            None => {},
        }
        true
    }
}

/// Only the last change of a burst commits: after `first` and then a
/// different `second` start their timers, the first timer running out
/// changes nothing, and the second commits `second`.
pub proof fn lemma_burst_commits_last<T: PartialEq>(v: DebouncedView<T>, first: T, second: T)
    requires
        !latest(v).eq_spec(&first),
        !first.eq_spec(&second),
    ensures
        ({
            let a = after_input(v, first);
            let b = after_input(a, second);
            &&& after_settle(b, v.next_ticket) == b
            &&& after_settle(b, a.next_ticket).value == second
            &&& after_settle(b, a.next_ticket).pending is None
        }),
{
    let t0: u64 = v.next_ticket;
    assert(t0.wrapping_add(1) != t0);
}

/// An input equal to the latest one starts no timer and changes nothing.
pub proof fn lemma_unchanged_input_is_quiet<T: PartialEq>(v: DebouncedView<T>, input: T)
    requires
        latest(v).eq_spec(&input),
    ensures
        after_input(v, input) == v,
{
}

/// A timer that runs out while its change is still pending commits it.
pub proof fn lemma_settled_value_is_latest<T: PartialEq>(v: DebouncedView<T>, input: T)
    requires
        !latest(v).eq_spec(&input),
    ensures
        after_settle(after_input(v, input), v.next_ticket).value == input,
        latest(after_settle(after_input(v, input), v.next_ticket)) == input,
{
}

/// The state after renders pass each of `inputs` in turn, with no timer
/// running out between them.
pub open spec fn after_inputs<T: PartialEq>(v: DebouncedView<T>, inputs: Seq<T>) -> DebouncedView<T>
    decreases inputs.len(),
{
    if inputs.len() == 0 {
        v
    } else {
        after_input(after_inputs(v, inputs.drop_last()), inputs.last())
    }
}

/// The ticket `k` timers after `t`, counting round past `u64::MAX`.
pub open spec fn ticket_after(t: u64, k: nat) -> u64 {
    ((t + k) % 0x1_0000_0000_0000_0000) as u64
}

/// A burst: every input differs from the one before it, the first from
/// the latest input of `v`.
pub open spec fn is_burst<T: PartialEq>(v: DebouncedView<T>, inputs: Seq<T>) -> bool {
    &&& inputs.len() > 0
    &&& !latest(v).eq_spec(&inputs[0])
    &&& forall|i: int| 1 <= i < inputs.len() ==> !(#[trigger] inputs[i - 1]).eq_spec(&inputs[i])
}

proof fn lemma_ticket_step(t: u64, k: nat)
    ensures
        ticket_after(t, k).wrapping_add(1) == ticket_after(t, k + 1),
{
    let m: int = 0x1_0000_0000_0000_0000;
    let a: int = t + k;
    assert(a % m + 1 == m ==> (a + 1) % m == 0) by (nonlinear_arith)
        requires
            a >= 0,
            m == 0x1_0000_0000_0000_0000,
    ;
    assert(a % m + 1 < m ==> (a + 1) % m == a % m + 1) by (nonlinear_arith)
        requires
            a >= 0,
            m == 0x1_0000_0000_0000_0000,
    ;
    assert(0 <= a % m < m) by (nonlinear_arith)
        requires
            m == 0x1_0000_0000_0000_0000,
    ;
}

proof fn lemma_tickets_differ(t: u64, j: nat, k: nat)
    requires
        j < k < 0x1_0000_0000_0000_0000,
    ensures
        ticket_after(t, j) != ticket_after(t, k),
{
    let m: int = 0x1_0000_0000_0000_0000;
    let a: int = t + j;
    let b: int = t + k;
    assert(a % m != b % m) by (nonlinear_arith)
        requires
            0 <= a < b,
            b - a < m,
            m == 0x1_0000_0000_0000_0000,
    {
        if a % m == b % m {
            assert((b - a) % m == 0);
        }
    }
}

proof fn lemma_burst_state<T: PartialEq>(v: DebouncedView<T>, inputs: Seq<T>)
    requires
        is_burst(v, inputs),
    ensures
        after_inputs(v, inputs).value == v.value,
        after_inputs(v, inputs).pending == Some(
            (ticket_after(v.next_ticket, (inputs.len() - 1) as nat), inputs.last()),
        ),
        after_inputs(v, inputs).next_ticket == ticket_after(v.next_ticket, inputs.len()),
    decreases inputs.len(),
{
    let n = inputs.len();
    if n == 1 {
        assert(inputs.drop_last() =~= Seq::<T>::empty());
        assert(after_inputs(v, inputs.drop_last()) == v);
        lemma_ticket_step(v.next_ticket, 0);
        assert((v.next_ticket as int) % 0x1_0000_0000_0000_0000int == v.next_ticket as int);
    } else {
        let front = inputs.drop_last();
        assert(front[n - 2] == inputs[n - 2]);
        assert forall|i: int| 1 <= i < front.len() implies !(#[trigger] front[i - 1]).eq_spec(&front[i]) by {
            assert(front[i - 1] == inputs[i - 1] && front[i] == inputs[i]);
            assert(!inputs[i - 1].eq_spec(&inputs[i]));
        }
        assert(front[0] == inputs[0]);
        lemma_burst_state(v, front);
        assert(!inputs[n - 2].eq_spec(&inputs[n - 1]));
        lemma_ticket_step(v.next_ticket, (n - 1) as nat);
    }
}

/// Only the last input of a burst commits, however long the burst: the
/// settled value stays through it, the pending change is the last input
/// under the burst's last ticket, that timer commits it and clears the
/// pending change, and (while the burst is shorter than the ticket space)
/// the timer of any earlier input of it changes nothing.
pub proof fn lemma_burst_commits_only_last<T: PartialEq>(v: DebouncedView<T>, inputs: Seq<T>)
    requires
        is_burst(v, inputs),
    ensures
        ({
            let w = after_inputs(v, inputs);
            let last = ticket_after(v.next_ticket, (inputs.len() - 1) as nat);
            &&& w.value == v.value
            &&& w.pending is Some
            &&& latest(w) == inputs.last()
            &&& after_settle(w, last).value == inputs.last()
            &&& after_settle(w, last).pending is None
            &&& inputs.len() <= 0x1_0000_0000_0000_0000 ==> forall|k: nat|
                k < inputs.len() - 1 ==> after_settle(w, #[trigger] ticket_after(v.next_ticket, k)) == w
        }),
{
    lemma_burst_state(v, inputs);
    let n = inputs.len();
    if n <= 0x1_0000_0000_0000_0000 {
        assert forall|k: nat| k < n - 1 implies after_settle(
            after_inputs(v, inputs),
            #[trigger] ticket_after(v.next_ticket, k),
        ) == after_inputs(v, inputs) by {
            lemma_tickets_differ(v.next_ticket, k, (n - 1) as nat);
        }
    }
}

} // verus!
