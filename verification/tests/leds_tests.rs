use discovery::blink::{Flash, FLASH_LED, HALF_PERIOD_MS};
use discovery::chase::{Chase, CHASE_DELAY_MS};
use discovery::compass::{show_heading, Direction};
use discovery::leds::{LedCommand, LedStep, LED_COUNT};
use discovery::roulette::{Roulette, PERIOD_MS};

fn apply(lit: &mut [bool; 8], c: LedCommand) {
    match c {
        LedCommand::On(i) => lit[i] = true,
        LedCommand::Off(i) => lit[i] = false,
    }
}

fn lit_indices(lit: &[bool; 8]) -> Vec<usize> {
    (0..8).filter(|&i| lit[i]).collect()
}

#[test]
fn roulette_starts_with_first_two_leds() {
    let (s, cmds) = Roulette::start(LED_COUNT);
    assert_eq!(cmds, vec![LedCommand::On(0), LedCommand::On(1)]);
    assert_eq!(s, Roulette { total_headings: 8, heading: 0, active_heading_count: 2 });
    assert_eq!(PERIOD_MS, 25);
}

#[test]
fn roulette_ticks_follow_countdown() {
    let (mut s, _) = Roulette::start(8);
    assert_eq!(s.tick(), None);
    assert_eq!(s.active_heading_count, 1);
    assert_eq!(s.tick(), Some(LedCommand::On(1)));
    assert_eq!(s.active_heading_count, 0);
    assert_eq!(s.tick(), Some(LedCommand::Off(0)));
    assert_eq!(s, Roulette { total_headings: 8, heading: 1, active_heading_count: 2 });
}

#[test]
fn roulette_wraps_around_the_ring() {
    let mut s = Roulette { total_headings: 8, heading: 7, active_heading_count: 1 };
    assert_eq!(s.tick(), Some(LedCommand::On(0)));
    assert_eq!(s.tick(), Some(LedCommand::Off(7)));
    assert_eq!(s.heading, 0);
}

#[test]
fn roulette_always_lights_one_or_two_neighbours() {
    let (mut s, cmds) = Roulette::start(8);
    let mut lit = [false; 8];
    for c in cmds {
        apply(&mut lit, c);
    }
    for _ in 0..100 {
        if let Some(c) = s.tick() {
            apply(&mut lit, c);
        }
        let on = lit_indices(&lit);
        let next = (s.heading + 1) % 8;
        assert!(on == vec![s.heading] || on == {
            let mut v = vec![s.heading, next];
            v.sort();
            v
        });
    }
}

#[test]
fn roulette_on_a_single_led_goes_dark() {
    let (mut s, cmds) = Roulette::start(1);
    assert_eq!(cmds, vec![LedCommand::On(0), LedCommand::On(0)]);
    assert_eq!(s.tick(), None);
    assert_eq!(s.tick(), Some(LedCommand::On(0)));
    assert_eq!(s.tick(), Some(LedCommand::Off(0)));
}

#[test]
fn chase_turns_next_on_then_current_off() {
    let mut c = Chase::new();
    assert_eq!(c.step(), LedStep { command: LedCommand::On(1), delay_ms: CHASE_DELAY_MS });
    assert_eq!(c.step(), LedStep { command: LedCommand::Off(0), delay_ms: 50 });
    assert_eq!(c.curr, 1);
    let mut last = Chase { curr: 7, ahead_on: false };
    assert_eq!(last.step().command, LedCommand::On(0));
    assert_eq!(last.step().command, LedCommand::Off(7));
    assert_eq!(last, Chase { curr: 0, ahead_on: false });
}

#[test]
fn chase_lights_at_most_two() {
    let mut c = Chase::new();
    let mut lit = [false; 8];
    for k in 0..64 {
        let st = c.step();
        apply(&mut lit, st.command);
        let on = lit_indices(&lit);
        assert!(on.len() <= 2);
        if k % 2 == 1 {
            assert_eq!(on, vec![c.curr]);
        }
    }
}

#[test]
fn flash_alternates_on_and_off() {
    let mut f = Flash::new();
    assert_eq!(f.step(), LedStep { command: LedCommand::On(FLASH_LED), delay_ms: HALF_PERIOD_MS });
    assert_eq!(f.step(), LedStep { command: LedCommand::Off(0), delay_ms: 500 });
    assert_eq!(f.step().command, LedCommand::On(0));
}

#[test]
fn heading_turns_all_off_then_one_on() {
    let dirs = [
        Direction::North,
        Direction::Northeast,
        Direction::East,
        Direction::Southeast,
        Direction::South,
        Direction::Southwest,
        Direction::West,
        Direction::Northwest,
    ];
    for (i, d) in dirs.iter().enumerate() {
        assert_eq!(d.led_index(), i);
        let cmds = show_heading(*d);
        assert_eq!(cmds.len(), 9);
        for k in 0..8 {
            assert_eq!(cmds[k], LedCommand::Off(k));
        }
        assert_eq!(cmds[8], LedCommand::On(i));
        let mut lit = [true; 8];
        for c in cmds {
            apply(&mut lit, c);
        }
        assert_eq!(lit_indices(&lit), vec![i]);
    }
}
