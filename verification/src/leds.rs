//! LED commands for the compass ring, and the lit LEDs they leave.
use vstd::prelude::*;

verus! {

/// Number of user LEDs in the compass ring of the board.
pub const LED_COUNT: usize = 8;

/// A command for one LED of the ring, by its index.
#[derive(Clone, Copy, Debug, PartialEq, Eq, Structural)]
pub enum LedCommand {
    /// Turn the LED at this index on.
    On(usize),
    /// Turn the LED at this index off.
    Off(usize),
}

/// The set of lit LEDs after one command.
pub open spec fn apply_command(lit: Set<usize>, command: LedCommand) -> Set<usize> {
    match command {
        LedCommand::On(i) => lit.insert(i),
        LedCommand::Off(i) => lit.remove(i),
    }
}

/// The set of lit LEDs after a command, if there is one.
pub open spec fn apply_optional(lit: Set<usize>, command: Option<LedCommand>) -> Set<usize> {
    match command {
        Some(c) => apply_command(lit, c),
        None => lit,
    }
}

/// The set of lit LEDs after the commands, applied in order.
pub open spec fn apply_commands(lit: Set<usize>, commands: Seq<LedCommand>) -> Set<usize>
    decreases commands.len(),
{
    if commands.len() == 0 {
        lit
    } else {
        apply_commands(apply_command(lit, commands[0]), commands.drop_first())
    }
}

} // verus!

verus! {

/// The index after `i` around a ring of `total` LEDs.
pub proof fn lemma_ring_successor(i: int, total: int)
    requires
        0 <= i < total,
    ensures
        (i + 1) % total == if i + 1 < total { i + 1 } else { 0 },
{
    if i + 1 < total {
        vstd::arithmetic::div_mod::lemma_small_mod((i + 1) as nat, total as nat);
    } else {
        vstd::arithmetic::div_mod::lemma_mod_self_0(total);
    }
}

} // verus!

verus! {

/// One step of a blinking pattern: an LED command, then a pause.
#[derive(Clone, Copy, Debug, PartialEq, Eq, Structural)]
pub struct LedStep {
    /// The command applied first.
    pub command: LedCommand,
    /// Milliseconds to wait after the command.
    pub delay_ms: u16,
}

} // verus!
