//! The gain computer of a dynamic-range compressor, one sample at a time.
//!
//! The compressor owns the level arithmetic and the order of the stages. Three
//! pieces of work are done by its caller: the windowed RMS measurement and the
//! two conversions between linear amplitude and decibels. For each sample the
//! caller hands the compressor an [`Event`], performs the [`Action`] that comes
//! back, and reports the outcome as the next event, until the action is
//! [`Action::Output`].
use vstd::prelude::*;
use crate::curve::curve;
use crate::curve::reiss;
use crate::curve::slope_for;
use crate::curve::slope_of;
use crate::detector::DecoupledPeakDetector;
use crate::detector::DetectorState;
use crate::fixed::Fixed;

verus! {

/// What the caller reports to the compressor.
#[derive(Clone, Copy, PartialEq, Eq, Structural, Debug)]
pub enum Event {
    /// A new detector sample, as a linear amplitude.
    Input(Fixed),
    /// The RMS detector's answer for the sample it was given.
    Rms(Fixed),
    /// The envelope that was to be converted, in decibels.
    Decibels(Fixed),
    /// The gain that was to be converted, as a linear multiplier.
    Linear(Fixed),
}

/// What the compressor asks of its caller.
#[derive(Clone, Copy, PartialEq, Eq, Structural, Debug)]
pub enum Action {
    /// Feed this sample to the RMS detector and report `Event::Rms`.
    MeasureRms(Fixed),
    /// Convert this linear envelope to decibels and report `Event::Decibels`.
    ToDecibels(Fixed),
    /// Convert this gain in decibels to linear and report `Event::Linear`.
    ToLinear(Fixed),
    /// The sample is done: multiply the audio by this attenuation.
    Output(Fixed),
}

/// The mathematical state of a compressor.
pub struct CompressorState {
    /// Pre-smoothed detector level, linear.
    pub envelope: Fixed,
    /// Threshold in decibels.
    pub threshold: Fixed,
    /// Knee width in decibels.
    pub knee: Fixed,
    /// Compression ratio.
    pub ratio: Fixed,
    /// Makeup gain, linear. It is kept for the caller and not applied here.
    pub gain: Fixed,
    /// `1 / ratio - 1`, derived when the ratio is set.
    pub slope: Fixed,
    /// Pole of the pre-smoothing filter.
    pub pre_smooth_gain: Fixed,
    /// The follower that smooths the gain reduction.
    pub detector: DetectorState,
    /// Configured RMS window in milliseconds; below one, peak detection is used.
    pub rms_size: Fixed,
}

impl CompressorState {
    /// The state of a new compressor: everything zero.
    pub open spec fn neutral() -> CompressorState {
        CompressorState {
            envelope: Fixed::zero(),
            threshold: Fixed::zero(),
            knee: Fixed::zero(),
            ratio: Fixed::zero(),
            gain: Fixed::zero(),
            slope: Fixed::zero(),
            pre_smooth_gain: Fixed::zero(),
            detector: DetectorState {
                attack: Fixed::zero(),
                release: Fixed::zero(),
                env: Fixed::zero(),
                env2: Fixed::zero(),
            },
            rms_size: Fixed::zero(),
        }
    }

    /// The slope is the one derived from the ratio, or the compressor still
    /// has the ratio and slope it was made with.
    pub open spec fn consistent(self) -> bool {
        self.slope == slope_for(self.ratio) || (self.ratio == Fixed::zero() && self.slope
            == Fixed::zero())
    }

    /// The state after a parameter update. Envelopes are kept.
    pub open spec fn updated(
        self,
        threshold: Fixed,
        knee: Fixed,
        pre_smooth_gain: Fixed,
        rms_size: Fixed,
        ratio: Fixed,
        attack: Fixed,
        release: Fixed,
        gain: Fixed,
    ) -> CompressorState {
        CompressorState {
            envelope: self.envelope,
            threshold,
            knee,
            ratio,
            gain,
            slope: slope_for(ratio),
            pre_smooth_gain,
            detector: DetectorState {
                attack,
                release,
                env: self.detector.env,
                env2: self.detector.env2,
            },
            rms_size,
        }
    }

    /// Whether an update to the window `rms_size` has to resize the RMS detector.
    pub open spec fn needs_resize(self, rms_size: Fixed) -> bool {
        rms_size != self.rms_size
    }

    /// Whether samples go through the RMS detector: the window is at least one.
    pub open spec fn uses_rms(self) -> bool {
        self.rms_size.spec_ge(Fixed::one())
    }

    /// The pre-smoothing filter, in the linear domain:
    /// `level + pre_smooth_gain * (envelope - level)`, or one where that is not finite.
    pub open spec fn followed(self, level: Fixed) -> Fixed {
        level.spec_add(
            self.pre_smooth_gain.spec_mul(self.envelope.spec_sub(level)),
        ).spec_finite_or_one()
    }

    /// The gain reduction in decibels that the curve asks for at the level
    /// `db`; positive values attenuate.
    pub open spec fn reduction(self, db: Fixed) -> Fixed {
        db.spec_sub(curve(db, self.threshold, self.knee, self.ratio, self.slope))
    }

    /// The state with the envelope replaced.
    pub open spec fn with_envelope(self, envelope: Fixed) -> CompressorState {
        CompressorState {
            envelope,
            threshold: self.threshold,
            knee: self.knee,
            ratio: self.ratio,
            gain: self.gain,
            slope: self.slope,
            pre_smooth_gain: self.pre_smooth_gain,
            detector: self.detector,
            rms_size: self.rms_size,
        }
    }

    /// The state with the follower replaced.
    pub open spec fn with_detector(self, detector: DetectorState) -> CompressorState {
        CompressorState {
            envelope: self.envelope,
            threshold: self.threshold,
            knee: self.knee,
            ratio: self.ratio,
            gain: self.gain,
            slope: self.slope,
            pre_smooth_gain: self.pre_smooth_gain,
            detector,
            rms_size: self.rms_size,
        }
    }

    /// The next state and the action that answer `event`.
    ///
    /// - `Input(x)`: with an RMS window, ask for the measurement of `x`;
    ///   otherwise treat `x` as the level.
    /// - a level (from `Rms`, or directly): run the pre-smoothing filter and
    ///   ask for the envelope in decibels.
    /// - `Decibels(db)`: smooth the gain reduction at `db` through the
    ///   follower and ask for its negation as a linear gain.
    /// - `Linear(m)`: output `m`, or one where `m` is not finite.
    pub open spec fn step(self, event: Event) -> (CompressorState, Action) {
        match event {
            Event::Input(x) => if self.uses_rms() {
                (self, Action::MeasureRms(x))
            } else {
                (self.with_envelope(self.followed(x)), Action::ToDecibels(self.followed(x)))
            },
            Event::Rms(level) => (
                self.with_envelope(self.followed(level)),
                Action::ToDecibels(self.followed(level)),
            ),
            Event::Decibels(db) => {
                let detector = self.detector.process_smooth(self.reduction(db));
                (self.with_detector(detector), Action::ToLinear(detector.env2.spec_neg()))
            },
            Event::Linear(m) => (self, Action::Output(m.spec_finite_or_one())),
        }
    }
}

/// A compressor's gain computer.
pub struct Compressor {
    envelope: Fixed,
    threshold: Fixed,
    knee: Fixed,
    ratio: Fixed,
    gain: Fixed,
    slope: Fixed,
    pre_smooth_gain: Fixed,
    decoupled_peak_detector: DecoupledPeakDetector,
    rms_size: Fixed,
}

impl View for Compressor {
    type V = CompressorState;

    closed spec fn view(&self) -> CompressorState {
        CompressorState {
            envelope: self.envelope,
            threshold: self.threshold,
            knee: self.knee,
            ratio: self.ratio,
            gain: self.gain,
            slope: self.slope,
            pre_smooth_gain: self.pre_smooth_gain,
            detector: self.decoupled_peak_detector@,
            rms_size: self.rms_size,
        }
    }
}

impl Compressor {
    /// A compressor with neutral defaults, in peak-detection mode.
    pub fn new() -> (compressor: Compressor)
        ensures
            compressor@ == CompressorState::neutral(),
            compressor@.consistent(),
    {
        Compressor {
            envelope: Fixed::zero(),
            threshold: Fixed::zero(),
            knee: Fixed::zero(),
            ratio: Fixed::zero(),
            gain: Fixed::zero(),
            slope: Fixed::zero(),
            pre_smooth_gain: Fixed::zero(),
            decoupled_peak_detector: DecoupledPeakDetector::new(Fixed::zero(), Fixed::zero()),
            rms_size: Fixed::zero(),
        }
    }

    /// Sets all parameters at once and derives the slope from the ratio.
    ///
    /// `pre_smooth_gain`, `attack` and `release` are one-pole coefficients and
    /// `gain` is linear. Returns whether the RMS window changed, in which case
    /// the caller has to resize its RMS detector to `rms_size`.
    pub fn update_prams(
        &mut self,
        threshold: Fixed,
        knee: Fixed,
        pre_smooth_gain: Fixed,
        rms_size: Fixed,
        ratio: Fixed,
        attack: Fixed,
        release: Fixed,
        gain: Fixed,
    ) -> (resize: bool)
        ensures
            final(self)@ == old(self)@.updated(
                threshold,
                knee,
                pre_smooth_gain,
                rms_size,
                ratio,
                attack,
                release,
                gain,
            ),
            resize == old(self)@.needs_resize(rms_size),
            final(self)@.consistent(),
    {
        self.ratio = ratio;
        self.gain = gain;
        self.threshold = threshold;
        self.knee = knee;

        self.slope = slope_of(self.ratio);
        self.pre_smooth_gain = pre_smooth_gain;
        self.decoupled_peak_detector.update(attack, release);

        if rms_size != self.rms_size {
            self.rms_size = rms_size;
            true
        } else {
            false
        }
    }

    /// Answers one event of the per-sample exchange.
    ///
    /// The attenuation that ends a sample is always finite, and positive
    /// wherever the linear gain reported by the caller was positive or not
    /// finite. Parameters, the slope among them, are never touched.
    pub fn process(&mut self, event: Event) -> (action: Action)
        ensures
            (final(self)@, action) == old(self)@.step(event),
            old(self)@.consistent() ==> final(self)@.consistent(),
            final(self)@.rms_size == old(self)@.rms_size,
            action matches Action::Output(g) ==> g is Finite,
            action matches Action::ToDecibels(e) ==> e is Finite,
            event matches Event::Linear(m) ==> action == Action::Output(m.spec_finite_or_one()),
            event matches Event::Linear(m) && (m is NonFinite || m.raw() > 0) ==> action is Output
                && action->Output_0.raw() > 0,
    {
        match event {
            Event::Input(x) => {
                if self.rms_size.ge(Fixed::one()) {
                    Action::MeasureRms(x)
                } else {
                    Action::ToDecibels(self.follow(x))
                }
            },
            Event::Rms(level) => Action::ToDecibels(self.follow(level)),
            Event::Decibels(db) => {
                let cv = db.sub(reiss(db, self.threshold, self.knee, self.ratio, self.slope));
                Action::ToLinear(self.decoupled_peak_detector.process_smooth(cv).neg())
            },
            Event::Linear(m) => Action::Output(m.finite_or_one()),
        }
    }

    fn follow(&mut self, level: Fixed) -> (envelope: Fixed)
        ensures
            envelope == old(self)@.followed(level),
            final(self)@ == old(self)@.with_envelope(envelope),
    {
        self.envelope = level.add(self.pre_smooth_gain.mul(self.envelope.sub(level)));
        self.envelope = self.envelope.finite_or_one();
        self.envelope
    }

    /// The pre-smoothed detector level.
    pub fn envelope(&self) -> (r: Fixed)
        ensures
            r == self@.envelope,
    {
        self.envelope
    }

    /// The slope term derived from the ratio.
    pub fn slope(&self) -> (r: Fixed)
        ensures
            r == self@.slope,
    {
        self.slope
    }

    /// The makeup gain, linear, for the caller to apply.
    pub fn gain(&self) -> (r: Fixed)
        ensures
            r == self@.gain,
    {
        self.gain
    }
}

} // verus!
