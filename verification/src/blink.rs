//! A single LED flashing at a fixed half period.
use vstd::prelude::*;
use crate::leds::{LedCommand, LedStep, apply_command};

verus! {

/// Milliseconds the LED stays on, and then off.
pub const HALF_PERIOD_MS: u16 = 500;

/// Index of the LED that flashes.
pub const FLASH_LED: usize = 0;

/// A single LED flashing: on for half a period, off for the other half.
#[derive(Clone, Copy, Debug, PartialEq, Eq, Structural)]
pub struct Flash {
    /// Whether the LED was last turned on.
    pub led_on: bool,
}

impl Flash {
    /// The step that follows this state, and the state after it.
    pub open spec fn step_spec(self) -> (Flash, LedStep) {
        if self.led_on {
            (Flash { led_on: false }, LedStep { command: LedCommand::Off(FLASH_LED), delay_ms: HALF_PERIOD_MS })
        } else {
            (Flash { led_on: true }, LedStep { command: LedCommand::On(FLASH_LED), delay_ms: HALF_PERIOD_MS })
        }
    }

    /// A flashing LED that starts with turning the LED on.
    pub fn new() -> (f: Flash)
        ensures
            !f.led_on,
    {
        Flash { led_on: false }
    }

    /// The next command and pause.
    pub fn step(&mut self) -> (step: LedStep)
        ensures
            (*final(self), step) == old(self).step_spec(),
            final(self).led_on == !old(self).led_on,
            step.command == if old(self).led_on { LedCommand::Off(0) } else { LedCommand::On(0) },
            step.delay_ms == 500,
    {
        if self.led_on {
            self.led_on = false;
            LedStep { command: LedCommand::Off(FLASH_LED), delay_ms: HALF_PERIOD_MS }
        } else {
            self.led_on = true;
            LedStep { command: LedCommand::On(FLASH_LED), delay_ms: HALF_PERIOD_MS }
        }
    }
}

/// Whatever was lit, after a step the flashing LED alone is lit exactly
/// when the state says it is on, and two steps give back the state.
pub proof fn lemma_flash_alternates(f: Flash, lit: Set<usize>)
    requires
        lit.subset_of(set![FLASH_LED]),
    ensures
        apply_command(lit, f.step_spec().1.command) == if f.step_spec().0.led_on {
            set![FLASH_LED]
        } else {
            Set::<usize>::empty()
        },
        f.step_spec().0.led_on != f.led_on,
        f.step_spec().0.step_spec().0 == f,
{
    let lit2 = apply_command(lit, f.step_spec().1.command);
    if f.led_on {
        assert(lit2 =~= Set::<usize>::empty());
    } else {
        assert(lit2 =~= set![FLASH_LED]);
    }
}

} // verus!
