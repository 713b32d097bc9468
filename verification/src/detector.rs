//! An envelope follower whose peak-hold stage is decoupled from its smoothing
//! stage, so that attack and release do not work against each other.
use vstd::prelude::*;
use crate::detector_laws::lemma_process_keeps_stable;
use crate::detector_laws::lemma_process_smooth_keeps_stable;
use crate::fixed::Fixed;
use crate::fixed::SCALE;

verus! {

/// The mathematical state of a detector: two one-pole coefficients and two envelopes.
pub struct DetectorState {
    /// Pole of the smoothing stage.
    pub attack: Fixed,
    /// Pole of the peak-hold stage.
    pub release: Fixed,
    /// The peak-holding envelope.
    pub env: Fixed,
    /// The smoothed envelope, which is what callers consume.
    pub env2: Fixed,
}

impl DetectorState {
    /// The peak-hold stage: `max(x, release * env)`.
    pub open spec fn peak(self, x: Fixed) -> Fixed {
        x.spec_max(self.release.spec_mul(self.env))
    }

    /// The peak-hold stage with a smoothed release:
    /// `max(x, release * env + (1 - release) * x)`.
    pub open spec fn peak_smooth(self, x: Fixed) -> Fixed {
        x.spec_max(
            self.release.spec_mul(self.env).spec_add(
                Fixed::one().spec_sub(self.release).spec_mul(x),
            ),
        )
    }

    /// The smoothing stage fed with the peak envelope `env`:
    /// `attack * env2 + (1 - attack) * env`.
    pub open spec fn smoothed(self, env: Fixed) -> Fixed {
        self.attack.spec_mul(self.env2).spec_add(Fixed::one().spec_sub(self.attack).spec_mul(env))
    }

    /// The state after one sample `x` of the plain follower.
    pub open spec fn process(self, x: Fixed) -> DetectorState {
        let env = self.peak(x);
        DetectorState { attack: self.attack, release: self.release, env, env2: self.smoothed(env) }
    }

    /// The state after one sample `x` of the follower with smoothed release.
    /// The smoothing stage runs on the peak envelope as it was computed;
    /// then either envelope that is not finite is replaced by one.
    pub open spec fn process_smooth(self, x: Fixed) -> DetectorState {
        let env = self.peak_smooth(x);
        DetectorState {
            attack: self.attack,
            release: self.release,
            env: env.spec_finite_or_one(),
            env2: self.smoothed(env).spec_finite_or_one(),
        }
    }

    /// Both coefficients lie in `[0, 1)` and both envelopes are finite.
    pub open spec fn stable(self) -> bool {
        &&& self.attack is Finite
        &&& self.release is Finite
        &&& self.env is Finite
        &&& self.env2 is Finite
        &&& 0 <= self.attack.raw() < SCALE
        &&& 0 <= self.release.raw() < SCALE
    }
}

/// A two-stage envelope follower: a peak-hold stage that decays with the
/// release coefficient, chased by a one-pole smoother with the attack
/// coefficient. A coefficient is the pole of its filter: zero follows the
/// input at once, values toward one follow it more slowly.
pub struct DecoupledPeakDetector {
    attack: Fixed,
    release: Fixed,
    env: Fixed,
    env2: Fixed,
}

impl View for DecoupledPeakDetector {
    type V = DetectorState;

    closed spec fn view(&self) -> DetectorState {
        DetectorState { attack: self.attack, release: self.release, env: self.env, env2: self.env2 }
    }
}

impl DecoupledPeakDetector {
    /// A detector at rest with the given one-pole coefficients.
    pub fn new(attack: Fixed, release: Fixed) -> (detector: DecoupledPeakDetector)
        ensures
            detector@ == (DetectorState { attack, release, env: Fixed::zero(), env2: Fixed::zero() }),
    {
        let mut detector = DecoupledPeakDetector {
            attack: Fixed::zero(),
            release: Fixed::zero(),
            env: Fixed::zero(),
            env2: Fixed::zero(),
        };
        detector.update(attack, release);
        detector
    }

    /// Feeds one sample and returns the smoothed envelope.
    ///
    /// The follower has no guard of its own. With coefficients in `[0, 1)`
    /// and finite envelopes it needs none: the result is finite whatever the
    /// sample is, since the peak-hold stage passes over a sample that is not
    /// finite.
    pub fn process(&mut self, x: Fixed) -> (y: Fixed)
        ensures
            final(self)@ == old(self)@.process(x),
            y == final(self)@.env2,
            old(self)@.stable() ==> final(self)@.stable() && y is Finite,
    {
        proof {
            if self@.stable() {
                lemma_process_keeps_stable(self@, x);
            }
        }
        self.env = x.max(self.release.mul(self.env));
        self.env2 = self.attack.mul(self.env2).add(Fixed::one().sub(self.attack).mul(self.env));
        self.env2
    }

    /// Feeds one sample to the follower with smoothed release and returns the
    /// smoothed envelope.
    ///
    /// The result and both envelopes are always finite. A sample that is not
    /// finite, like a smoothed envelope or an attack coefficient that is not
    /// finite, gives the result one.
    pub fn process_smooth(&mut self, x: Fixed) -> (y: Fixed)
        ensures
            final(self)@ == old(self)@.process_smooth(x),
            y == final(self)@.env2,
            y is Finite,
            final(self)@.env is Finite,
            x is NonFinite ==> y == Fixed::one() && final(self)@.env == Fixed::one(),
            old(self)@.env2 is NonFinite || old(self)@.attack is NonFinite ==> y == Fixed::one(),
            old(self)@.stable() ==> final(self)@.stable(),
    {
        proof {
            if self@.stable() && x is Finite {
                lemma_process_smooth_keeps_stable(self@, x);
            }
        }
        self.env = x.max(
            self.release.mul(self.env).add(Fixed::one().sub(self.release).mul(x)),
        );
        self.env2 = self.attack.mul(self.env2).add(Fixed::one().sub(self.attack).mul(self.env));

        self.env = self.env.finite_or_one();
        self.env2 = self.env2.finite_or_one();
        self.env2
    }

    /// Replaces both coefficients; the envelopes keep their values.
    pub fn update(&mut self, attack: Fixed, release: Fixed)
        ensures
            final(self)@ == (DetectorState { attack, release, env: old(self)@.env, env2: old(self)@.env2 }),
    {
        self.attack = attack;
        self.release = release;
    }

    /// The peak-holding envelope.
    pub fn env(&self) -> (r: Fixed)
        ensures
            r == self@.env,
    {
        self.env
    }

    /// The smoothed envelope that the last sample left.
    pub fn env2(&self) -> (r: Fixed)
        ensures
            r == self@.env2,
    {
        self.env2
    }
}

} // verus!
