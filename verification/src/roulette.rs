//! The roulette: two neighbouring LEDs spinning around the ring.
use vstd::prelude::*;
use crate::leds::{LedCommand, apply_commands, apply_optional, lemma_ring_successor};

verus! {

/// Milliseconds between two ticks of the roulette.
pub const PERIOD_MS: u8 = 25;

/// The spinning roulette: a lit pair of neighbouring LEDs that walks
/// around the ring, one LED at a time.
#[derive(Clone, Copy, Debug, PartialEq, Eq, Structural)]
pub struct Roulette {
    /// Number of LEDs in the ring.
    pub total_headings: usize,
    /// Index of the trailing lit LED.
    pub heading: usize,
    /// Ticks left before the trailing LED is turned off.
    pub active_heading_count: i32,
}

impl Roulette {
    /// The state fits the ring and the countdown lies in 0..=2.
    pub open spec fn wf(self) -> bool {
        &&& 0 < self.total_headings
        &&& self.heading < self.total_headings
        &&& 0 <= self.active_heading_count <= 2
    }

    /// Index of the LED after the heading, around the ring.
    pub open spec fn next_heading(self) -> usize {
        ((self.heading + 1) % (self.total_headings as int)) as usize
    }

    /// The state and the LED commands when the roulette starts.
    pub open spec fn start_spec(total_headings: usize) -> (Roulette, Seq<LedCommand>) {
        let s = Roulette { total_headings, heading: 0, active_heading_count: 2 };
        (s, seq![LedCommand::On(0), LedCommand::On(s.next_heading())])
    }

    /// One tick: with no tick left the trailing LED goes off and the
    /// heading moves on; with one tick left the LED ahead goes on; else
    /// the countdown goes down.
    pub open spec fn tick_spec(self) -> (Roulette, Option<LedCommand>) {
        if self.active_heading_count == 0 {
            (
                Roulette { heading: self.next_heading(), active_heading_count: 2, ..self },
                Some(LedCommand::Off(self.heading)),
            )
        } else if self.active_heading_count == 1 {
            (Roulette { active_heading_count: 0, ..self }, Some(LedCommand::On(self.next_heading())))
        } else {
            (Roulette { active_heading_count: (self.active_heading_count - 1) as i32, ..self }, None)
        }
    }

    /// Starts the roulette on a ring of `total_headings` LEDs: the first
    /// two LEDs are turned on.
    pub fn start(total_headings: usize) -> (result: (Roulette, Vec<LedCommand>))
        requires
            total_headings > 0,
        ensures
            result.0 == Self::start_spec(total_headings).0,
            result.1@ == Self::start_spec(total_headings).1,
            result.0.wf(),
            result.0 == (Roulette { total_headings, heading: 0, active_heading_count: 2 }),
            result.1@ == seq![LedCommand::On(0), LedCommand::On((1int % (total_headings as int)) as usize)],
    {
        let s = Roulette { total_headings, heading: 0, active_heading_count: 2 };
        let mut commands = Vec::new();
        commands.push(LedCommand::On(s.heading));
        commands.push(LedCommand::On((s.heading + 1) % total_headings));
        (s, commands)
    }

    /// One tick of the roulette, after the period has passed.
    pub fn tick(&mut self) -> (command: Option<LedCommand>)
        requires
            old(self).wf(),
        ensures
            (*final(self), command) == old(self).tick_spec(),
            final(self).wf(),
            final(self).total_headings == old(self).total_headings,
            old(self).active_heading_count == 0 ==> {
                &&& command == Some(LedCommand::Off(old(self).heading))
                &&& final(self).heading == (old(self).heading + 1) % (old(self).total_headings as int)
                &&& final(self).active_heading_count == 2
            },
            old(self).active_heading_count == 1 ==> {
                &&& command == Some(LedCommand::On(
                    ((old(self).heading + 1) % (old(self).total_headings as int)) as usize,
                ))
                &&& final(self).heading == old(self).heading
                &&& final(self).active_heading_count == 0
            },
            old(self).active_heading_count == 2 ==> {
                &&& command is None
                &&& final(self).heading == old(self).heading
                &&& final(self).active_heading_count == 1
            },
    {
        match self.active_heading_count {
            0 => {
                let off = self.heading;
                self.heading = (self.heading + 1) % self.total_headings;
                self.active_heading_count = 2;
                Some(LedCommand::Off(off))
            },
            1 => {
                self.active_heading_count -= 1;
                Some(LedCommand::On((self.heading + 1) % self.total_headings))
            },
            _ => {
                self.active_heading_count -= 1;
                None
            },
        }
    }

    /// The LEDs lit in this state: the heading, with the LED ahead of it
    /// too when no tick is left.
    pub open spec fn lights_pair(self, lit: Set<usize>) -> bool {
        &&& (lit == set![self.heading] || lit == set![self.heading, self.next_heading()])
        &&& self.active_heading_count == 0 ==> lit == set![self.heading, self.next_heading()]
    }

    /// The state and the lit LEDs after `n` ticks.
    pub open spec fn run(self, lit: Set<usize>, n: nat) -> (Roulette, Set<usize>)
        decreases n,
    {
        if n == 0 {
            (self, lit)
        } else {
            let (s, c) = self.tick_spec();
            s.run(apply_optional(lit, c), (n - 1) as nat)
        }
    }
}

/// On a ring of two LEDs or more, the two LEDs lit at the start are the
/// heading and the LED ahead of it.
pub proof fn lemma_start_lights_pair(total_headings: usize)
    requires
        total_headings >= 2,
    ensures
        Roulette::start_spec(total_headings).0.wf(),
        Roulette::start_spec(total_headings).0.lights_pair(
            apply_commands(Set::empty(), Roulette::start_spec(total_headings).1),
        ),
{
    let (s, cs) = Roulette::start_spec(total_headings);
    lemma_ring_successor(0, total_headings as int);
    reveal_with_fuel(apply_commands, 3);
    assert(cs.drop_first().drop_first() =~= Seq::<LedCommand>::empty());
    assert(apply_commands(Set::empty(), cs) =~= set![s.heading, s.next_heading()]);
}

/// On a ring of two LEDs or more, a tick keeps the lit LEDs to the
/// heading and the LED ahead of it.
pub proof fn lemma_tick_keeps_pair(s: Roulette, lit: Set<usize>)
    requires
        s.wf(),
        s.total_headings >= 2,
        s.lights_pair(lit),
    ensures
        s.tick_spec().0.wf(),
        s.tick_spec().0.lights_pair(apply_optional(lit, s.tick_spec().1)),
{
    let (t, c) = s.tick_spec();
    let h = s.heading;
    let n = s.next_heading();
    lemma_ring_successor(h as int, s.total_headings as int);
    assert(h != n);
    if s.active_heading_count == 0 {
        assert(apply_optional(lit, c) =~= set![t.heading]);
    } else if s.active_heading_count == 1 {
        assert(apply_optional(lit, c) =~= set![h, n]);
    }
}

/// On a ring of two LEDs or more, at every tick after the start either
/// the heading alone or the heading and the LED ahead of it are lit.
pub proof fn lemma_roulette_lights_one_or_two(total_headings: usize, n: nat)
    requires
        total_headings >= 2,
    ensures
        ({
            let (s0, cs) = Roulette::start_spec(total_headings);
            let (s, lit) = s0.run(apply_commands(Set::empty(), cs), n);
            &&& s.wf()
            &&& lit == set![s.heading] || lit == set![s.heading, s.next_heading()]
        }),
{
    let (s0, cs) = Roulette::start_spec(total_headings);
    lemma_start_lights_pair(total_headings);
    lemma_run_keeps_pair(s0, apply_commands(Set::empty(), cs), n);
}

/// Every three ticks from a fresh countdown the heading moves one LED on
/// around the ring: after `3 * k` ticks it is `(heading + k) % total`.
pub proof fn lemma_roulette_visits_ring(s: Roulette, lit: Set<usize>, k: nat)
    requires
        s.wf(),
        s.active_heading_count == 2,
    ensures
        s.run(lit, 3 * k).0 == (Roulette {
            heading: ((s.heading + k) % (s.total_headings as int)) as usize,
            ..s
        }),
    decreases k,
{
    let t = s.total_headings as int;
    if k == 0 {
        vstd::arithmetic::div_mod::lemma_small_mod(s.heading as nat, t as nat);
    } else {
        let (s1, c1) = s.tick_spec();
        let (s2, c2) = s1.tick_spec();
        let (s3, c3) = s2.tick_spec();
        let l1 = apply_optional(lit, c1);
        let l2 = apply_optional(l1, c2);
        let l3 = apply_optional(l2, c3);
        lemma_ring_successor(s.heading as int, t);
        assert(s.run(lit, 3 * k) == s1.run(l1, (3 * k - 1) as nat));
        assert(s1.run(l1, (3 * k - 1) as nat) == s2.run(l2, (3 * k - 2) as nat));
        assert(s2.run(l2, (3 * k - 2) as nat) == s3.run(l3, (3 * (k - 1)) as nat));
        lemma_roulette_visits_ring(s3, l3, (k - 1) as nat);
        vstd::arithmetic::div_mod::lemma_add_mod_noop(s.heading + 1, (k - 1) as int, t);
        vstd::arithmetic::div_mod::lemma_add_mod_noop(s3.heading as int, (k - 1) as int, t);
        vstd::arithmetic::div_mod::lemma_mod_twice(s.heading + 1, t);
    }
}

/// From the start, after `3 * k` ticks the heading is LED `k % total`:
/// the roulette goes round the whole ring.
pub proof fn lemma_roulette_from_start(total_headings: usize, lit: Set<usize>, k: nat)
    requires
        total_headings > 0,
    ensures
        Roulette::start_spec(total_headings).0.run(lit, 3 * k).0.heading == (k as int) % (total_headings as int),
{
    lemma_roulette_visits_ring(Roulette::start_spec(total_headings).0, lit, k);
}

/// Running keeps the lit LEDs to the heading and the LED ahead of it.
proof fn lemma_run_keeps_pair(s: Roulette, lit: Set<usize>, n: nat)
    requires
        s.wf(),
        s.total_headings >= 2,
        s.lights_pair(lit),
    ensures
        s.run(lit, n).0.wf(),
        s.run(lit, n).0.lights_pair(s.run(lit, n).1),
        s.run(lit, n).0.total_headings == s.total_headings,
    decreases n,
{
    if n > 0 {
        let (t, c) = s.tick_spec();
        lemma_tick_keeps_pair(s, lit);
        lemma_run_keeps_pair(t, apply_optional(lit, c), (n - 1) as nat);
    }
}

/// From a fresh countdown, three ticks move the heading one LED on: the
/// LED ahead is turned on, then the old heading is turned off.
pub proof fn lemma_three_ticks_advance(s: Roulette)
    requires
        s.wf(),
        s.active_heading_count == 2,
    ensures
        ({
            let (s1, c1) = s.tick_spec();
            let (s2, c2) = s1.tick_spec();
            let (s3, c3) = s2.tick_spec();
            &&& c1 is None
            &&& c2 == Some(LedCommand::On(s.next_heading()))
            &&& c3 == Some(LedCommand::Off(s.heading))
            &&& s3 == Roulette { heading: s.next_heading(), ..s }
        }),
{
    lemma_ring_successor(s.heading as int, s.total_headings as int);
}

} // verus!
