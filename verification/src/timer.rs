//! Busy-wait delays with the basic timer TIM6 in one-pulse mode.
use vstd::prelude::*;

verus! {

/// Frequency of the APB1 clock that drives the basic timer TIM6.
pub const APB1_CLOCK_HZ: u32 = 8_000_000;

/// Prescaler of TIM6: the counter runs at 8 MHz / (7999 + 1) = 1 kHz,
/// one tick per millisecond.
pub const TIM6_PRESCALER: u16 = 7999;

/// With the prescaler, the 8 MHz APB1 clock makes the TIM6 counter tick
/// at 1 kHz: one tick per millisecond.
pub proof fn lemma_counter_ticks_at_1khz()
    ensures
        (APB1_CLOCK_HZ as int) / (TIM6_PRESCALER + 1) == 1000,
{
    assert(8_000_000int / 8000int == 1000) by (nonlinear_arith);
}

/// A register operation on the basic timer TIM6.
#[derive(Clone, Copy, Debug, PartialEq, Eq, Structural)]
pub enum TimerOp {
    /// Enable the APB1 clock of TIM6 (TIM6EN).
    EnableClock,
    /// Select one-pulse mode (OPM) with the counter disabled (CEN clear).
    OnePulseStopped,
    /// Write the prescaler register (PSC).
    SetPrescaler(u16),
    /// Write the auto-reload register (ARR): the ticks until the update event.
    SetAutoReload(u16),
    /// Enable the counter (CEN).
    EnableCounter,
    /// Wait until the update interrupt flag (UIF) is set.
    WaitUpdate,
    /// Clear the update interrupt flag.
    ClearUpdate,
}

/// The operations that set TIM6 up as a one-pulse millisecond timer.
pub open spec fn setup_ops() -> Seq<TimerOp> {
    seq![TimerOp::EnableClock, TimerOp::OnePulseStopped, TimerOp::SetPrescaler(TIM6_PRESCALER)]
}

/// The operations of a delay of `ms` milliseconds: load the count,
/// start the counter, wait for the update event, clear it.
pub open spec fn delay_ops(ms: u16) -> Seq<TimerOp> {
    seq![TimerOp::SetAutoReload(ms), TimerOp::EnableCounter, TimerOp::WaitUpdate, TimerOp::ClearUpdate]
}

/// The operations that set TIM6 up, in order.
pub fn timer_setup() -> (ops: Vec<TimerOp>)
    ensures
        ops@ == setup_ops(),
        ops@ == seq![TimerOp::EnableClock, TimerOp::OnePulseStopped, TimerOp::SetPrescaler(7999)],
{
    let mut ops = Vec::new();
    ops.push(TimerOp::EnableClock);
    ops.push(TimerOp::OnePulseStopped);
    ops.push(TimerOp::SetPrescaler(TIM6_PRESCALER));
    assert(ops@ =~= setup_ops());
    ops
}

/// The operations of a busy-wait delay of `ms` milliseconds, in order.
pub fn delay(ms: u16) -> (ops: Vec<TimerOp>)
    ensures
        ops@ == delay_ops(ms),
        ops@.len() == 4,
        ops@[0] == TimerOp::SetAutoReload(ms),
        ops@[1] == TimerOp::EnableCounter,
        ops@[2] == TimerOp::WaitUpdate,
        ops@[3] == TimerOp::ClearUpdate,
{
    let mut ops = Vec::new();
    ops.push(TimerOp::SetAutoReload(ms));
    ops.push(TimerOp::EnableCounter);
    ops.push(TimerOp::WaitUpdate);
    ops.push(TimerOp::ClearUpdate);
    assert(ops@ =~= delay_ops(ms));
    ops
}

/// The set-up loads the prescaler that makes the 8 MHz clock tick the
/// counter at 1 kHz, after enabling the clock and stopping the counter in
/// one-pulse mode.
pub proof fn lemma_setup_ticks_milliseconds()
    ensures
        setup_ops().len() == 3,
        setup_ops()[0] == TimerOp::EnableClock,
        setup_ops()[1] == TimerOp::OnePulseStopped,
        setup_ops()[2] matches TimerOp::SetPrescaler(p) && 8_000_000int / (p + 1) == 1000,
{
    assert(8_000_000int / 8000int == 1000) by (nonlinear_arith);
}

/// A delay of `ms` milliseconds loads `ms` itself as the tick count,
/// starts the counter, waits for the update event and clears it; so two
/// delays of different lengths never load the same count.
pub proof fn lemma_delay_loads_its_length(ms: u16, other: u16)
    ensures
        delay_ops(ms).len() == 4,
        delay_ops(ms)[0] == TimerOp::SetAutoReload(ms),
        delay_ops(ms)[1] == TimerOp::EnableCounter,
        delay_ops(ms)[2] == TimerOp::WaitUpdate,
        delay_ops(ms)[3] == TimerOp::ClearUpdate,
        delay_ops(ms) == delay_ops(other) ==> ms == other,
{
    if delay_ops(ms) == delay_ops(other) {
        assert(delay_ops(ms)[0] == delay_ops(other)[0]);
    }
}

} // verus!
