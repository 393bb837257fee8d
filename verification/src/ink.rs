//! Ink capture: turns a stream of pointer samples into a stroke with one
//! point per kept sample and, when tapering, one width ratio per point.
//!
//! The arithmetic on a sample (distances, blends, width ratios) is done by
//! the caller and handed in as [`SampleFacts`]; this module decides which of
//! it takes effect.

use vstd::prelude::*;
use crate::element::WPoint;

verus! {

/// A finished stroke: the centre line and the width ratios, one per point or
/// none at all.
#[derive(Debug)]
pub struct InkStroke<F> {
    pub points: Vec<WPoint<F>>,
    pub widths: Vec<F>,
}

/// What the caller computed for one sample, from the collector's state.
#[derive(Clone, Copy, Debug)]
pub struct SampleFacts<F> {
    /// The sample is nearer than the minimum distance to the smoothed point.
    pub too_close: bool,
    /// Time has passed since the sample before.
    pub advanced: bool,
    /// The pressure average with this sample's pressure blended in: the
    /// hardware pressure, or the one that the speed stands for.
    pub blended: F,
    /// The position blended with the smoothed point.
    pub smoothed: WPoint<F>,
    /// The width ratio for the pressure average that results.
    pub width: F,
}

/// Captures one stroke.
#[derive(Debug)]
pub struct InkCollector<F> {
    pub zoom: F,
    pub taper: bool,
    pub min_dist: F,
    /// The last smoothed position, which is the last point emitted.
    pub smooth_pt: WPoint<F>,
    /// The last raw position and its time.
    pub last_raw: Option<(WPoint<F>, F)>,
    /// The running pressure average.
    pub p_ema: F,
    pub stroke: InkStroke<F>,
}

/// The value of an [`InkCollector`].
#[verifier::ext_equal]
pub ghost struct InkV<F> {
    pub zoom: F,
    pub taper: bool,
    pub min_dist: F,
    pub smooth_pt: WPoint<F>,
    pub last_raw: Option<(WPoint<F>, F)>,
    pub p_ema: F,
    pub points: Seq<WPoint<F>>,
    pub widths: Seq<F>,
}

impl<F> View for InkCollector<F> {
    type V = InkV<F>;

    open spec fn view(&self) -> InkV<F> {
        InkV {
            zoom: self.zoom,
            taper: self.taper,
            min_dist: self.min_dist,
            smooth_pt: self.smooth_pt,
            last_raw: self.last_raw,
            p_ema: self.p_ema,
            points: self.stroke.points@,
            widths: self.stroke.widths@,
        }
    }
}

impl<F> InkV<F> {
    /// Whether a sample is kept: the first one always, a later one when it
    /// went far enough.
    pub open spec fn keeps(self, t: SampleFacts<F>) -> bool {
        self.points.len() == 0 || !t.too_close
    }

    /// Whether a kept sample changes the pressure average: a hardware
    /// pressure always does, and the simulated one does when a speed is known.
    pub open spec fn presses(self, hardware: bool, t: SampleFacts<F>) -> bool {
        hardware || (self.points.len() > 0 && self.last_raw is Some && t.advanced)
    }

    /// The collector after a sample.
    pub open spec fn pushed(self, raw: WPoint<F>, at: F, hardware: bool, t: SampleFacts<F>) -> Self {
        if !self.keeps(t) {
            self
        } else {
            let p = if self.points.len() == 0 {
                raw
            } else {
                t.smoothed
            };
            InkV {
                smooth_pt: p,
                last_raw: Some((raw, at)),
                p_ema: if self.presses(hardware, t) {
                    t.blended
                } else {
                    self.p_ema
                },
                points: self.points.push(p),
                widths: if self.taper {
                    self.widths.push(t.width)
                } else {
                    self.widths
                },
                ..self
            }
        }
    }

    /// Whether the widths run parallel to the points, or are empty for a
    /// stroke of uniform width.
    pub open spec fn parallel(self) -> bool {
        if self.taper {
            self.widths.len() == self.points.len()
        } else {
            self.widths.len() == 0
        }
    }
}

impl<F: Copy> InkCollector<F> {
    /// Starts a stroke. The zoom and the minimum distance between samples
    /// hold for the whole stroke; `origin` and `pressure` are where the
    /// smoothed position and the pressure average start.
    pub fn new(zoom: F, taper: bool, min_dist: F, origin: WPoint<F>, pressure: F) -> (r: Self)
        ensures
            r@ == (InkV {
                zoom,
                taper,
                min_dist,
                smooth_pt: origin,
                last_raw: None,
                p_ema: pressure,
                points: Seq::empty(),
                widths: Seq::empty(),
            }),
            r@.parallel(),
    {
        InkCollector {
            zoom,
            taper,
            min_dist,
            smooth_pt: origin,
            last_raw: None,
            p_ema: pressure,
            stroke: InkStroke { points: Vec::new(), widths: Vec::new() },
        }
    }

    /// The number of points captured so far.
    pub fn len(&self) -> (r: usize)
        ensures
            r == self@.points.len(),
    {
        self.stroke.points.len()
    }

    /// The points captured so far.
    pub fn points(&self) -> (r: &Vec<WPoint<F>>)
        ensures
            r@ == self@.points,
    {
        &self.stroke.points
    }

    /// The width ratios captured so far; none when tapering is off.
    pub fn widths(&self) -> (r: &Vec<F>)
        ensures
            r@ == self@.widths,
    {
        &self.stroke.widths
    }

    /// The finished stroke.
    pub fn finish(self) -> (r: InkStroke<F>)
        ensures
            r.points@ == self@.points,
            r.widths@ == self@.widths,
    {
        self.stroke
    }

    /// Captures a sample taken at `at`; `hardware` says whether it carries a
    /// stylus pressure. True when a point was emitted.
    pub fn push_at(&mut self, raw: WPoint<F>, at: F, hardware: bool, t: SampleFacts<F>) -> (r: bool)
        ensures
            r == old(self)@.keeps(t),
            final(self)@ == old(self)@.pushed(raw, at, hardware, t),
    {
        let first: bool = self.stroke.points.len() == 0;
        if !first && t.too_close {
            return false;
        }
        let timed: bool = self.last_raw.is_some();
        if hardware || (!first && timed && t.advanced) {
            self.p_ema = t.blended;
        }
        self.last_raw = Some((raw, at));
        let p: WPoint<F> = if first {
            raw
        } else {
            t.smoothed
        };
        self.smooth_pt = p;
        self.stroke.points.push(p);
        if self.taper {
            self.stroke.widths.push(t.width);
        }
        assert(self@ =~= old(self)@.pushed(raw, at, hardware, t));
        true
    }
}

/// A sample keeps the widths parallel to the points, keeps every point and
/// width captured before it, and never changes whether the stroke tapers.
pub proof fn law_capture_keeps_widths_parallel<F>(
    c: InkV<F>,
    raw: WPoint<F>,
    at: F,
    hardware: bool,
    t: SampleFacts<F>,
)
    requires
        c.parallel(),
    ensures
        c.pushed(raw, at, hardware, t).parallel(),
        c.points.is_prefix_of(c.pushed(raw, at, hardware, t).points),
        c.widths.is_prefix_of(c.pushed(raw, at, hardware, t).widths),
        c.pushed(raw, at, hardware, t).taper == c.taper,
{
}

/// A sample with its time, whether its pressure is that of a stylus, and the
/// numbers that go with it.
pub ghost struct SampleV<F> {
    pub raw: WPoint<F>,
    pub at: F,
    pub hardware: bool,
    pub facts: SampleFacts<F>,
}

/// A collector after several samples.
pub open spec fn captured<F>(c: InkV<F>, samples: Seq<SampleV<F>>) -> InkV<F>
    decreases samples.len(),
{
    if samples.len() == 0 {
        c
    } else {
        let s = samples.last();
        captured(c, samples.drop_last()).pushed(s.raw, s.at, s.hardware, s.facts)
    }
}

/// Whatever samples come, the widths run parallel to the points of a tapered
/// stroke and stay empty otherwise, and they stay in a range that the widths of
/// the samples lie in.
pub proof fn law_widths_stay_parallel_and_in_range<F>(
    c: InkV<F>,
    samples: Seq<SampleV<F>>,
    in_range: spec_fn(F) -> bool,
)
    requires
        c.parallel(),
        forall|i: int| 0 <= i < c.widths.len() ==> in_range(#[trigger] c.widths[i]),
        forall|i: int| 0 <= i < samples.len() ==> in_range((#[trigger] samples[i]).facts.width),
    ensures
        captured(c, samples).taper == c.taper,
        captured(c, samples).parallel(),
        forall|i: int|
            0 <= i < captured(c, samples).widths.len() ==> in_range(
                #[trigger] captured(c, samples).widths[i],
            ),
    decreases samples.len(),
{
    if samples.len() > 0 {
        law_widths_stay_parallel_and_in_range(c, samples.drop_last(), in_range);
        assert(in_range(samples[samples.len() - 1].facts.width));
    }
}

/// A dropped sample leaves no trace: the next one is captured as if it had
/// never come.
pub proof fn law_dropped_samples_leave_no_trace<F>(
    c: InkV<F>,
    raw: WPoint<F>,
    at: F,
    hardware: bool,
    t: SampleFacts<F>,
)
    requires
        !c.keeps(t),
    ensures
        c.pushed(raw, at, hardware, t) == c,
        c.points.len() > 0,
{
}

} // verus!
