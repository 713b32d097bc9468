//! Laws of the gain computer: its envelope stays a level, a steady level
//! gives a steady gain, and the RMS detector is resized only when its window
//! changes.
use vstd::prelude::*;
use crate::compressor::Action;
use crate::compressor::CompressorState;
use crate::compressor::Event;
use crate::detector_laws::lemma_constant_input_converges_smooth;
use crate::detector_laws::run_smooth;
use crate::detector_laws::settled_at;
use crate::fixed::Fixed;
use crate::fixed::SCALE;
use crate::fixed::lemma_scaled_toward_zero;

verus! {

/// The state after `n` samples whose envelope was reported as `db` decibels.
pub open spec fn run_decibels(s: CompressorState, db: Fixed, n: nat) -> CompressorState
    decreases n,
{
    if n == 0 {
        s
    } else {
        run_decibels(s.step(Event::Decibels(db)).0, db, (n - 1) as nat)
    }
}

/// The pre-smoothing filter keeps the envelope between the level and the old
/// envelope. With a pole in `[0, 1]`, a finite non-negative envelope and a
/// finite non-negative level, the new envelope is finite and non-negative
/// too, so the guard of the filter does not fire and the caller is never
/// asked for the decibels of a negative number.
pub proof fn lemma_envelope_stays_between(s: CompressorState, level: Fixed)
    requires
        s.pre_smooth_gain is Finite,
        0 <= s.pre_smooth_gain.raw() <= SCALE,
        s.envelope is Finite,
        s.envelope.raw() >= 0,
        level is Finite,
        level.raw() >= 0,
    ensures
        s.followed(level) is Finite,
        level.raw() <= s.followed(level).raw() <= s.envelope.raw() || s.envelope.raw()
            <= s.followed(level).raw() <= level.raw(),
        s.step(Event::Rms(level)).1 == Action::ToDecibels(s.followed(level)),
        !s.uses_rms() ==> s.step(Event::Input(level)).1 == Action::ToDecibels(s.followed(level)),
{
    lemma_scaled_toward_zero(s.pre_smooth_gain.raw(), s.envelope.raw() - level.raw());
}

/// A steady level gives a steady gain. While the envelope stays at `db`
/// decibels and the curve asks for a finite gain reduction that is not
/// negative, the follower settles on that reduction: from some sample count on
/// its peak envelope equals the reduction and its smoothed envelope, whose
/// negation is the gain in decibels, stays less than `2 / (1 - attack)` raw
/// units away from it.
pub proof fn lemma_steady_level_settles(s: CompressorState, db: Fixed) -> (n0: nat)
    requires
        s.detector.stable(),
        s.reduction(db) is Finite,
        s.reduction(db).raw() >= 0,
    ensures
        forall|n: nat|
            n >= n0 ==> settled_at((#[trigger] run_decibels(s, db, n)).detector, s.reduction(db)),
{
    let n0 = lemma_constant_input_converges_smooth(s.detector, s.reduction(db));
    assert forall|n: nat| n >= n0 implies settled_at(
        (#[trigger] run_decibels(s, db, n)).detector,
        s.reduction(db),
    ) by {
        lemma_run_decibels_runs_the_follower(s, db, n);
    }
    n0
}

/// The RMS detector is resized exactly when the window changes. After an
/// update to the window `first`, a second update asks for a resize if and
/// only if its window differs from `first`; and no event of the per-sample
/// exchange changes the configured window, so processing never brings a
/// resize about.
pub proof fn lemma_resize_only_on_change(
    s: CompressorState,
    first: Fixed,
    second: Fixed,
    event: Event,
    threshold: Fixed,
    knee: Fixed,
    pre_smooth_gain: Fixed,
    ratio: Fixed,
    attack: Fixed,
    release: Fixed,
    gain: Fixed,
)
    ensures
        ({
            let configured = s.updated(
                threshold,
                knee,
                pre_smooth_gain,
                first,
                ratio,
                attack,
                release,
                gain,
            );
            &&& configured.needs_resize(second) <==> second != first
            &&& configured.step(event).0.needs_resize(second) <==> second != first
            &&& !configured.step(event).0.needs_resize(first)
        }),
{
}

/// Samples at a constant level feed the follower a constant gain reduction
/// and change nothing else.
proof fn lemma_run_decibels_runs_the_follower(s: CompressorState, db: Fixed, n: nat)
    ensures
        run_decibels(s, db, n) == s.with_detector(run_smooth(s.detector, s.reduction(db), n)),
    decreases n,
{
    if n > 0 {
        let next = s.step(Event::Decibels(db)).0;
        assert(next.reduction(db) == s.reduction(db));
        lemma_run_decibels_runs_the_follower(next, db, (n - 1) as nat);
    }
}

} // verus!
