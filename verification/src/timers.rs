use vstd::prelude::*;

verus! {

/// One fire of the 60 Hz timer schedule on a countdown byte: decrement by
/// one, saturating at zero.
pub open spec fn ticked_spec(v: u8) -> u8 {
    if v == 0 {
        0
    } else {
        (v - 1) as u8
    }
}

/// A countdown byte after `n` fires of the timer schedule.
pub open spec fn iter_ticked(v: u8, n: nat) -> u8
    decreases n,
{
    if n == 0 {
        v
    } else {
        ticked_spec(iter_ticked(v, (n - 1) as nat))
    }
}

/// One fire of the timer schedule on a countdown byte. The schedule that
/// drives the two timers applies this to each of them once per period.
pub fn ticked(v: u8) -> (r: u8)
    ensures
        r == ticked_spec(v),
{
    v.saturating_sub(1)
}

/// Law: the timer decrement never underflows. A timer that reached zero is
/// still zero after any number of fires of the schedule.
pub proof fn lemma_timer_never_underflows(n: nat)
    ensures
        iter_ticked(0, n) == 0,
    decreases n,
{
    if n > 0 {
        lemma_timer_never_underflows((n - 1) as nat);
    }
}

/// What the run loop should do about the tone after one instruction.
#[derive(Clone, Copy, Debug, PartialEq, Eq, Structural)]
pub enum SoundAction {
    /// The sound timer became nonzero while silent: start the tone.
    Start,
    /// The sound timer reached zero while sounding: stop the tone.
    Stop,
    /// No transition: leave the tone as it is.
    Keep,
}

/// The edge-triggered sound decision of the run loop: the tone starts when
/// the sound timer is nonzero while no tone plays, stops when the timer is
/// zero while one does, and is otherwise left alone — so a transition
/// toggles the frontend exactly once, not once per iteration.
pub fn sound_transition(playing: bool, sound_timer: u8) -> (r: SoundAction)
    ensures
        r == (if sound_timer > 0 && !playing {
            SoundAction::Start
        } else if sound_timer == 0 && playing {
            SoundAction::Stop
        } else {
            SoundAction::Keep
        }),
{
    if sound_timer > 0 && !playing {
        SoundAction::Start
    } else if sound_timer == 0 && playing {
        SoundAction::Stop
    } else {
        SoundAction::Keep
    }
}

} // verus!
