//! A light chasing around the LED ring, timed by the basic timer.
use vstd::prelude::*;
use crate::leds::{LED_COUNT, LedCommand, LedStep, apply_command, lemma_ring_successor};

verus! {

/// Milliseconds the timer waits after each LED command of the chase.
pub const CHASE_DELAY_MS: u16 = 50;

/// A light that chases around the ring: the LED ahead is turned on, then
/// the current LED is turned off, each followed by a timer delay.
#[derive(Clone, Copy, Debug, PartialEq, Eq, Structural)]
pub struct Chase {
    /// Index of the current LED.
    pub curr: usize,
    /// Whether the LED ahead of the current one was already turned on.
    pub ahead_on: bool,
}

impl Chase {
    /// The current LED lies on the ring.
    pub open spec fn wf(self) -> bool {
        self.curr < LED_COUNT
    }

    /// Index of the LED ahead of the current one.
    pub open spec fn next(self) -> usize {
        ((self.curr + 1) % (LED_COUNT as int)) as usize
    }

    /// The step that follows this state, and the state after it.
    pub open spec fn step_spec(self) -> (Chase, LedStep) {
        if !self.ahead_on {
            (
                Chase { ahead_on: true, ..self },
                LedStep { command: LedCommand::On(self.next()), delay_ms: CHASE_DELAY_MS },
            )
        } else {
            (
                Chase { curr: self.next(), ahead_on: false },
                LedStep { command: LedCommand::Off(self.curr), delay_ms: CHASE_DELAY_MS },
            )
        }
    }

    /// The chase at its first LED.
    pub fn new() -> (c: Chase)
        ensures
            c == (Chase { curr: 0, ahead_on: false }),
    {
        Chase { curr: 0, ahead_on: false }
    }

    /// The next command and delay.
    pub fn step(&mut self) -> (step: LedStep)
        requires
            old(self).wf(),
        ensures
            (*final(self), step) == old(self).step_spec(),
            final(self).wf(),
            !old(self).ahead_on ==> step.command == LedCommand::On(((old(self).curr + 1) % 8) as usize),
            old(self).ahead_on ==> final(self).curr == (old(self).curr + 1) % 8,
            step.delay_ms == CHASE_DELAY_MS,
    {
        proof { lemma_chase_successor(*old(self)); }
        let next = (self.curr + 1) % LED_COUNT;
        if !self.ahead_on {
            self.ahead_on = true;
            LedStep { command: LedCommand::On(next), delay_ms: CHASE_DELAY_MS }
        } else {
            let curr = self.curr;
            self.curr = next;
            self.ahead_on = false;
            LedStep { command: LedCommand::Off(curr), delay_ms: CHASE_DELAY_MS }
        }
    }

    /// The lit LEDs in this state: at most the current LED, and once the
    /// LED ahead was turned on, that LED too.
    pub open spec fn lights(self, lit: Set<usize>) -> bool {
        if self.ahead_on {
            lit.contains(self.next()) && lit.subset_of(set![self.curr, self.next()])
        } else {
            lit.subset_of(set![self.curr])
        }
    }

    /// The state and the lit LEDs after `n` steps.
    pub open spec fn run(self, lit: Set<usize>, n: nat) -> (Chase, Set<usize>)
        decreases n,
    {
        if n == 0 {
            (self, lit)
        } else {
            let (c, st) = self.step_spec();
            c.run(apply_command(lit, st.command), (n - 1) as nat)
        }
    }
}

/// A step keeps the lit LEDs to the current LED and the one ahead; the
/// step that turns the current LED off leaves the new current LED alone
/// lit.
pub proof fn lemma_chase_step(c: Chase, lit: Set<usize>)
    requires
        c.wf(),
        c.lights(lit),
    ensures
        c.step_spec().0.wf(),
        c.step_spec().0.lights(apply_command(lit, c.step_spec().1.command)),
        c.ahead_on ==> apply_command(lit, c.step_spec().1.command) == set![c.step_spec().0.curr],
{
    lemma_ring_successor(c.curr as int, LED_COUNT as int);
    let lit2 = apply_command(lit, c.step_spec().1.command);
    if c.ahead_on {
        assert(lit2 =~= set![c.next()]);
    } else {
        assert(lit2.subset_of(set![c.curr, c.next()]));
    }
}

/// Starting from the first LED with every LED off, at most two LEDs are
/// ever lit: the current LED and the one ahead of it.
pub proof fn lemma_chase_lights_at_most_two(n: nat)
    ensures
        ({
            let (c, lit) = Chase { curr: 0, ahead_on: false }.run(Set::empty(), n);
            &&& c.wf()
            &&& lit.subset_of(set![c.curr, c.next()])
        }),
{
    lemma_chase_run(Chase { curr: 0, ahead_on: false }, Set::empty(), n);
}

/// The LED ahead of the current one is its successor around the ring of
/// eight: the first half of a step turns on LED `(curr + 1) % 8`, and the
/// second half turns off the current LED and moves there.
pub proof fn lemma_chase_successor(c: Chase)
    requires
        c.wf(),
    ensures
        c.next() as int == (c.curr + 1) % 8,
        !c.ahead_on ==> c.step_spec().1 == (LedStep {
            command: LedCommand::On(((c.curr + 1) % 8) as usize),
            delay_ms: 50,
        }),
        c.ahead_on ==> c.step_spec().1 == (LedStep { command: LedCommand::Off(c.curr), delay_ms: 50 }),
        c.ahead_on ==> c.step_spec().0 == (Chase { curr: ((c.curr + 1) % 8) as usize, ahead_on: false }),
{
    lemma_ring_successor(c.curr as int, LED_COUNT as int);
}

/// Every two steps the chase moves one LED on around the ring: from a
/// state that has not yet lit the LED ahead, `2 * k` steps reach LED
/// `(curr + k) % 8`, so every LED of the ring is visited in turn.
pub proof fn lemma_chase_visits_ring(c: Chase, lit: Set<usize>, k: nat)
    requires
        c.wf(),
        !c.ahead_on,
    ensures
        c.run(lit, 2 * k).0 == (Chase { curr: ((c.curr + k) % 8) as usize, ahead_on: false }),
    decreases k,
{
    if k == 0 {
        vstd::arithmetic::div_mod::lemma_small_mod(c.curr as nat, 8);
    } else {
        let (c1, s1) = c.step_spec();
        let (c2, s2) = c1.step_spec();
        let lit1 = apply_command(lit, s1.command);
        let lit2 = apply_command(lit1, s2.command);
        lemma_chase_successor(c);
        lemma_chase_successor(c1);
        assert(c.run(lit, 2 * k) == c1.run(lit1, (2 * k - 1) as nat));
        assert(c1.run(lit1, (2 * k - 1) as nat) == c2.run(lit2, (2 * (k - 1)) as nat));
        lemma_chase_visits_ring(c2, lit2, (k - 1) as nat);
        vstd::arithmetic::div_mod::lemma_add_mod_noop(c.curr + 1, (k - 1) as int, 8);
        vstd::arithmetic::div_mod::lemma_add_mod_noop(c2.curr as int, (k - 1) as int, 8);
        vstd::arithmetic::div_mod::lemma_mod_twice(c.curr + 1, 8);
    }
}

/// From the start, the current LED after `2 * k` steps is LED `k % 8`.
pub proof fn lemma_chase_from_start(lit: Set<usize>, k: nat)
    ensures
        (Chase { curr: 0, ahead_on: false }).run(lit, 2 * k).0.curr == k % 8,
{
    lemma_chase_visits_ring(Chase { curr: 0, ahead_on: false }, lit, k);
}

/// Running keeps the lights of the chase.
proof fn lemma_chase_run(c: Chase, lit: Set<usize>, n: nat)
    requires
        c.wf(),
        c.lights(lit),
    ensures
        c.run(lit, n).0.wf(),
        c.run(lit, n).0.lights(c.run(lit, n).1),
    decreases n,
{
    if n > 0 {
        let (c2, st) = c.step_spec();
        lemma_chase_step(c, lit);
        lemma_chase_run(c2, apply_command(lit, st.command), (n - 1) as nat);
    }
}

} // verus!
