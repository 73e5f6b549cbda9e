//! Pointing the LED ring to one of the eight compass directions.
use vstd::prelude::*;
use crate::leds::{LED_COUNT, LedCommand, apply_command, apply_commands};

verus! {

/// The eight compass directions, in the order of the LEDs of the ring.
#[derive(Clone, Copy, Debug, PartialEq, Eq, Structural)]
pub enum Direction {
    North,
    Northeast,
    East,
    Southeast,
    South,
    Southwest,
    West,
    Northwest,
}

/// Index in the ring of the LED that points to a direction.
pub open spec fn direction_led(d: Direction) -> usize {
    match d {
        Direction::North => 0,
        Direction::Northeast => 1,
        Direction::East => 2,
        Direction::Southeast => 3,
        Direction::South => 4,
        Direction::Southwest => 5,
        Direction::West => 6,
        Direction::Northwest => 7,
    }
}

impl Direction {
    /// Index in the ring of the LED that points to this direction.
    pub fn led_index(self) -> (i: usize)
        ensures
            i == direction_led(self),
            i < LED_COUNT,
    {
        match self {
            Direction::North => 0,
            Direction::Northeast => 1,
            Direction::East => 2,
            Direction::Southeast => 3,
            Direction::South => 4,
            Direction::Southwest => 5,
            Direction::West => 6,
            Direction::Northwest => 7,
        }
    }
}

/// The LEDs of the ring point clockwise from north: north is LED 0 and
/// each direction a quarter of a quadrant further clockwise is the next
/// LED. Distinct directions have distinct LEDs, so every LED of the ring
/// is the LED of exactly one direction.
pub proof fn lemma_direction_leds(d: Direction, e: Direction)
    ensures
        direction_led(Direction::North) == 0,
        direction_led(Direction::Northeast) == 1,
        direction_led(Direction::East) == 2,
        direction_led(Direction::Southeast) == 3,
        direction_led(Direction::South) == 4,
        direction_led(Direction::Southwest) == 5,
        direction_led(Direction::West) == 6,
        direction_led(Direction::Northwest) == 7,
        direction_led(d) < LED_COUNT,
        direction_led(d) == direction_led(e) ==> d == e,
{
}

/// The commands that show a heading: every LED of the ring off, in ring
/// order, then the LED of the direction on.
pub open spec fn heading_commands(d: Direction) -> Seq<LedCommand> {
    Seq::new(LED_COUNT as nat, |i: int| LedCommand::Off(i as usize)).push(
        LedCommand::On(direction_led(d)),
    )
}

/// The LED commands that point the ring to a direction.
pub fn show_heading(d: Direction) -> (commands: Vec<LedCommand>)
    ensures
        commands@ == heading_commands(d),
        commands@.len() == 9,
        forall|i: int| 0 <= i < 8 ==> #[trigger] commands@[i] == LedCommand::Off(i as usize),
        commands@[8] == LedCommand::On(direction_led(d)),
{
    let mut commands: Vec<LedCommand> = Vec::new();
    for i in 0..LED_COUNT
        invariant
            commands@ == Seq::new(i as nat, |k: int| LedCommand::Off(k as usize)),
    {
        commands.push(LedCommand::Off(i));
        assert(commands@ =~= Seq::new((i + 1) as nat, |k: int| LedCommand::Off(k as usize)));
    }
    commands.push(LedCommand::On(d.led_index()));
    assert(commands@ =~= heading_commands(d));
    commands
}

/// The commands that turn off, in ring order, the LEDs from `from` on.
spec fn offs_from(from: nat) -> Seq<LedCommand> {
    Seq::new((LED_COUNT - from) as nat, |k: int| LedCommand::Off((k + from) as usize))
}

/// Turning LEDs off in ring order from `from` leaves lit only what was
/// lit below `from`.
proof fn lemma_offs_clear(lit: Set<usize>, from: nat, rest: Seq<LedCommand>)
    requires
        from <= LED_COUNT,
    ensures
        apply_commands(lit, offs_from(from) + rest) == apply_commands(
            lit.filter(|i: usize| !(from <= i < LED_COUNT)),
            rest,
        ),
    decreases LED_COUNT - from,
{
    if from == LED_COUNT {
        assert(offs_from(from) + rest =~= rest);
        assert(lit.filter(|i: usize| !(from <= i < LED_COUNT)) =~= lit);
    } else {
        let all = offs_from(from) + rest;
        assert(all.drop_first() =~= offs_from(from + 1) + rest);
        assert(all[0] == LedCommand::Off(from as usize));
        assert(apply_commands(lit, all) == apply_commands(lit.remove(from as usize), all.drop_first()));
        lemma_offs_clear(lit.remove(from as usize), from + 1, rest);
        assert(lit.remove(from as usize).filter(|i: usize| !(from + 1 <= i < LED_COUNT))
            =~= lit.filter(|i: usize| !(from <= i < LED_COUNT)));
    }
}

/// Whatever LEDs of the ring were lit, showing a heading leaves the LED
/// of that direction alone lit.
pub proof fn lemma_heading_lights_one(d: Direction, lit: Set<usize>)
    requires
        forall|i: usize| lit.contains(i) ==> i < LED_COUNT,
    ensures
        apply_commands(lit, heading_commands(d)) == set![direction_led(d)],
{
    let on = seq![LedCommand::On(direction_led(d))];
    lemma_offs_clear(lit, 0, on);
    assert(offs_from(0) + on =~= heading_commands(d));
    let cleared = lit.filter(|i: usize| !(0 <= i < LED_COUNT));
    assert(cleared =~= Set::<usize>::empty());
    reveal_with_fuel(apply_commands, 2);
    assert(on.drop_first() =~= Seq::<LedCommand>::empty());
    assert(apply_command(cleared, on[0]) =~= set![direction_led(d)]);
}

} // verus!
