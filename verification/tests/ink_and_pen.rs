use boundless::element::WPoint;
use boundless::ink::{InkCollector, SampleFacts};
use boundless::pen::{
    pen_sample_from, PenSample, PenSlot, PEN_FLAG_ERASER, PEN_FRESH_MS, PEN_PRESSURE_MAX, PT_PEN,
};

/// A collector for zoom `zoom`: close points lie within two screen pixels.
fn collector(zoom: f64, taper: bool) -> InkCollector<f64> {
    InkCollector::new(zoom, taper, 2.0 / zoom, WPoint { x: 0.0, y: 0.0 }, 0.6)
}

/// What the pointer measures against the last sample of `c`.
fn facts(c: &InkCollector<f64>, raw: WPoint<f64>, at: f64, pressure: Option<f64>) -> SampleFacts<f64> {
    let far = |p: WPoint<f64>| (raw.x - p.x).hypot(raw.y - p.y);
    let (step, dt) = match c.last_raw {
        Some((p, t)) => (far(p), at - t),
        None => (0.0, 0.0),
    };
    let target = match pressure {
        Some(p) => p,
        None if dt > 0.0 => (1.0 - step / dt * c.zoom / 4.0).clamp(0.0, 1.0),
        None => c.p_ema,
    };
    let blended = c.p_ema + (target - c.p_ema) * 0.3;
    let smoothed = WPoint {
        x: c.smooth_pt.x + (raw.x - c.smooth_pt.x) * 0.5,
        y: c.smooth_pt.y + (raw.y - c.smooth_pt.y) * 0.5,
    };
    SampleFacts { too_close: far(c.smooth_pt) < c.min_dist, advanced: dt > 0.0, blended, smoothed, width: blended }
}

fn push(c: &mut InkCollector<f64>, x: f64, y: f64, at: f64) -> bool {
    let raw = WPoint { x, y };
    let f = facts(c, raw, at, None);
    c.push_at(raw, at, false, f)
}

#[test]
fn first_sample_always_emits() {
    let mut c = collector(1.0, true);
    assert!(push(&mut c, 5.0, 5.0, 0.0));
    assert_eq!(c.len(), 1);
}

#[test]
fn decimation_drops_close_points() {
    let mut c = collector(1.0, true);
    assert!(push(&mut c, 0.0, 0.0, 0.0));
    assert!(!push(&mut c, 1.0, 0.0, 10.0));
    assert!(push(&mut c, 10.0, 0.0, 20.0));
    assert_eq!(c.len(), 2);
}

#[test]
fn decimation_zooms_with_the_camera() {
    let mut c = collector(8.0, true);
    assert!(push(&mut c, 0.0, 0.0, 0.0));
    assert!(!push(&mut c, 0.1, 0.0, 10.0));
    assert!(push(&mut c, 0.5, 0.0, 20.0));
}

#[test]
fn taper_off_yields_empty_widths() {
    let mut c = collector(1.0, false);
    push(&mut c, 0.0, 0.0, 0.0);
    push(&mut c, 50.0, 0.0, 50.0);
    assert_eq!(c.len(), 2);
    assert!(c.widths().is_empty());
}

#[test]
fn points_and_widths_stay_parallel() {
    let mut c = collector(1.0, true);
    for i in 0..20 {
        push(&mut c, i as f64 * 3.0, 0.0, i as f64 * 10.0);
    }
    assert_eq!(c.points().len(), c.widths().len());
    let stroke = c.finish();
    assert_eq!(stroke.points.len(), stroke.widths.len());
}

#[test]
fn zero_dt_keeps_previous_pressure() {
    let mut c = collector(1.0, true);
    assert!(push(&mut c, 0.0, 0.0, 0.0));
    let before = c.p_ema;
    assert!(push(&mut c, 100.0, 0.0, 0.0));
    assert_eq!(c.len(), 2);
    assert_eq!(c.p_ema, before);
}

#[test]
fn a_dropped_sample_leaves_no_trace() {
    let mut c = collector(1.0, true);
    push(&mut c, 0.0, 0.0, 0.0);
    let before = (c.smooth_pt, c.last_raw, c.p_ema, c.stroke.points.clone());
    assert!(!push(&mut c, 0.5, 0.0, 90.0));
    assert_eq!((c.smooth_pt, c.last_raw, c.p_ema, c.stroke.points.clone()), before);
}

#[test]
fn hardware_pressure_counts_from_the_first_sample() {
    let raw = WPoint { x: 1.0, y: 2.0 };
    let f = SampleFacts {
        too_close: false,
        advanced: false,
        blended: 0.9,
        smoothed: raw,
        width: 0.8,
    };
    let mut pen = collector(1.0, true);
    assert!(pen.push_at(raw, 0.0, true, f));
    assert_eq!(pen.p_ema, 0.9);
    assert_eq!(pen.widths(), &vec![0.8]);
    let mut mouse = collector(1.0, true);
    assert!(mouse.push_at(raw, 0.0, false, f));
    assert_eq!(mouse.p_ema, 0.6);
}

#[test]
fn pen_classifier_rejects_non_pen_pointers() {
    assert!(pen_sample_from(4, 512, 0).is_none());
    assert!(pen_sample_from(2, 512, 0).is_none());
}

fn share(s: PenSample) -> f32 {
    s.pressure as f32 / PEN_PRESSURE_MAX as f32
}

#[test]
fn pen_classifier_normalizes_pressure() {
    let full = pen_sample_from(PT_PEN, 1024, 0).unwrap();
    assert!((share(full) - 1.0).abs() < 1e-6);
    assert!(!full.eraser);

    let half = pen_sample_from(PT_PEN, 512, 0).unwrap();
    assert!((share(half) - 0.5).abs() < 1e-6);

    let zero = pen_sample_from(PT_PEN, 0, 0).unwrap();
    assert!(share(zero).abs() < 1e-6);
}

#[test]
fn pen_classifier_clamps_out_of_range_pressure() {
    let s = pen_sample_from(PT_PEN, 999_999, 0).unwrap();
    assert!((share(s) - 1.0).abs() < 1e-6);
}

#[test]
fn pen_classifier_detects_eraser_tip() {
    assert!(pen_sample_from(PT_PEN, 100, PEN_FLAG_ERASER).unwrap().eraser);
    assert!(!pen_sample_from(PT_PEN, 100, 1).unwrap().eraser);
    assert!(pen_sample_from(PT_PEN, 100, 7).unwrap().eraser);
}

#[test]
fn pen_slot_never_reports_without_packets() {
    let mut slot = PenSlot::new();
    slot.seen_ms = 5000;
    assert!(slot.latest_pen_sample(5000).is_none());
    slot.packet(4, 512, 0, 5000);
    assert!(slot.latest_pen_sample(5000).is_none());
}

#[test]
fn pen_slot_expires_stale_packets() {
    let now = 10_000;
    let mut slot = PenSlot::new();
    slot.packet(PT_PEN, 300, 0, now - (PEN_FRESH_MS + 1));
    assert!(slot.latest_pen_sample(now).is_none());

    slot.packet(PT_PEN, 300, 0, now);
    let s = slot.latest_pen_sample(now).unwrap();
    assert!((0.0..=1.0).contains(&share(s)));
    assert_eq!(s, PenSample { pressure: 300, eraser: false });
    assert_eq!(slot.latest_pen_sample(now + PEN_FRESH_MS), Some(s));
    assert!(slot.latest_pen_sample(now + PEN_FRESH_MS + 1).is_none());
}

#[test]
fn the_eraser_end_gives_no_ink_pressure() {
    let mut slot = PenSlot::new();
    slot.packet(PT_PEN, 300, PEN_FLAG_ERASER, 50);
    assert!(slot.latest_pen_sample(60).unwrap().eraser);
    slot.packet(PT_PEN, 400, 0, 70);
    assert_eq!(slot.ink_pressure(70), Some(400));
    assert_eq!(slot.ink_pressure(900), None);
}
