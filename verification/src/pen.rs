//! Stylus packets: which pointers are pens, and how long a packet stays
//! current.

use vstd::prelude::*;

verus! {

/// The pointer type of a stylus.
pub const PT_PEN: i32 = 3;

/// The flag of the eraser end.
pub const PEN_FLAG_ERASER: u32 = 4;

/// The pressure of a full press.
pub const PEN_PRESSURE_MAX: u32 = 1024;

/// How long a packet counts as current, in milliseconds.
pub const PEN_FRESH_MS: u64 = 200;

/// A stylus sample: its pressure in parts of [`PEN_PRESSURE_MAX`], and whether
/// the eraser end is in use.
#[derive(Clone, Copy, Debug, PartialEq, Eq, Structural)]
pub struct PenSample {
    pub pressure: u32,
    pub eraser: bool,
}

/// Whether the flags hold the eraser flag.
pub open spec fn erases(flags: u32) -> bool {
    flags & PEN_FLAG_ERASER != 0
}

/// The sample of a pointer packet; none for anything but a pen. A pressure
/// beyond a full press counts as a full one.
pub open spec fn sample_of(pointer_type: i32, pressure: u32, flags: u32) -> Option<PenSample> {
    if pointer_type != PT_PEN {
        None
    } else {
        Some(
            PenSample {
                pressure: if pressure > PEN_PRESSURE_MAX {
                    PEN_PRESSURE_MAX
                } else {
                    pressure
                },
                eraser: erases(flags),
            },
        )
    }
}

/// Classifies a pointer packet.
pub fn pen_sample_from(pointer_type: i32, pressure: u32, flags: u32) -> (r: Option<PenSample>)
    ensures
        r == sample_of(pointer_type, pressure, flags),
{
    if pointer_type != PT_PEN {
        return None;
    }
    let capped: u32 = if pressure > PEN_PRESSURE_MAX {
        PEN_PRESSURE_MAX
    } else {
        pressure
    };
    Some(PenSample { pressure: capped, eraser: flags & PEN_FLAG_ERASER != 0 })
}

/// The last packet seen of a stylus.
#[derive(Clone, Copy, Debug, PartialEq, Eq, Structural)]
pub struct PenSlot {
    pub last: Option<PenSample>,
    /// When it was seen, in milliseconds.
    pub seen_ms: u64,
}

impl PenSlot {
    /// A slot that has seen no packet.
    pub fn new() -> (r: PenSlot)
        ensures
            r.last is None,
            r.seen_ms == 0,
    {
        PenSlot { last: None, seen_ms: 0 }
    }

    /// The current sample at the time `now`: none once the packet is older
    /// than [`PEN_FRESH_MS`]. A packet from the future counts as fresh.
    pub open spec fn current(self, now: u64) -> Option<PenSample> {
        if now > self.seen_ms && now - self.seen_ms > PEN_FRESH_MS {
            None
        } else {
            self.last
        }
    }

    /// The pressure for ink at the time `now`: that of the current sample, none for
    /// the eraser end.
    pub open spec fn pressure(self, now: u64) -> Option<u32> {
        match self.current(now) {
            Some(s) => if s.eraser {
                None
            } else {
                Some(s.pressure)
            },
            None => None,
        }
    }

    /// Takes note of a pointer packet; anything but a pen leaves the slot as
    /// it is.
    pub fn packet(&mut self, pointer_type: i32, pressure: u32, flags: u32, now: u64)
        ensures
            *final(self) == (match sample_of(pointer_type, pressure, flags) {
                Some(s) => PenSlot { last: Some(s), seen_ms: now },
                None => *old(self),
            }),
    {
        match pen_sample_from(pointer_type, pressure, flags) {
            Some(s) => {
                self.last = Some(s);
                self.seen_ms = now;
            },
            None => {},
        }
    }

    /// The current sample.
    pub fn latest_pen_sample(&self, now: u64) -> (r: Option<PenSample>)
        ensures
            r == self.current(now),
    {
        let age: u64 = if now > self.seen_ms {
            now - self.seen_ms
        } else {
            0
        };
        if age > PEN_FRESH_MS {
            None
        } else {
            self.last
        }
    }

    /// The stylus pressure for ink; the eraser end contributes none.
    pub fn ink_pressure(&self, now: u64) -> (r: Option<u32>)
        ensures
            r == (match self.current(now) {
                Some(s) => if s.eraser {
                    None
                } else {
                    Some(s.pressure)
                },
                None => None,
            }),
            r == self.pressure(now),
    {
        match self.latest_pen_sample(now) {
            Some(s) => if s.eraser {
                None
            } else {
                Some(s.pressure)
            },
            None => None,
        }
    }
}

/// Every pressure is at most a full press, and a packet counts for exactly
/// [`PEN_FRESH_MS`] milliseconds.
pub proof fn law_samples_are_capped_and_expire(
    pointer_type: i32,
    pressure: u32,
    flags: u32,
    seen: u64,
    now: u64,
)
    requires
        seen <= now,
    ensures
        sample_of(pointer_type, pressure, flags) matches Some(s) ==> s.pressure
            <= PEN_PRESSURE_MAX && ((PenSlot { last: Some(s), seen_ms: seen }).current(now)
            is Some <==> now - seen <= PEN_FRESH_MS),
{
}

} // verus!
