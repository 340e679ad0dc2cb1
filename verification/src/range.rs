//! Runtime calibration of the logical brightness range.
//!
//! The logical range starts from the persisted property pair (or fallback
//! constants) and converges onto the live system-reported pair once that
//! exists.  Each refresh prefers a valid live pair — adopting it locks the
//! range for the rest of the process — then a valid persisted pair, and
//! finally the fallback constants; a degenerate result is always reset to
//! the fallback constants.

use vstd::prelude::*;
use crate::constants::{FALLBACK_MAX, FALLBACK_MIN};

verus! {

/// The logical brightness range and its one-shot calibration lock.
#[derive(Clone, Copy, PartialEq, Eq, Structural, Debug)]
pub struct BrightnessRange {
    pub min: i32,
    pub max: i32,
    pub locked: bool,
}

/// Property writes a calibration step asks for: the persisted pair is
/// corrected where it disagrees with the adopted live pair.
#[derive(Clone, Copy, PartialEq, Eq, Structural, Debug)]
pub struct RefreshActions {
    pub set_persist_min: Option<i32>,
    pub set_persist_max: Option<i32>,
}

impl BrightnessRange {
    /// A non-degenerate range.
    pub open spec fn wf(self) -> bool {
        self.min < self.max
    }

    /// The best range the persisted pair alone supports: the pair when it is
    /// non-degenerate, else the fallback constants; never locked.
    pub open spec fn spec_init(persist_min: Option<i32>, persist_max: Option<i32>) -> BrightnessRange {
        match (persist_min, persist_max) {
            (Some(a), Some(b)) => if a < b {
                BrightnessRange { min: a, max: b, locked: false }
            } else {
                BrightnessRange { min: FALLBACK_MIN, max: FALLBACK_MAX, locked: false }
            },
            _ => BrightnessRange { min: FALLBACK_MIN, max: FALLBACK_MAX, locked: false },
        }
    }

    /// The range and the property corrections one `refresh_range` call
    /// produces.  A valid live pair is adopted and locks; otherwise the
    /// persisted pair decides exactly as at start-up: adopted when valid,
    /// else the fallback constants.  A degenerate result is reset to the
    /// fallback constants.
    pub open spec fn spec_refresh(
        self,
        persist_min: Option<i32>,
        persist_max: Option<i32>,
        live_min: Option<i32>,
        live_max: Option<i32>,
    ) -> (BrightnessRange, RefreshActions) {
        let none = RefreshActions { set_persist_min: None, set_persist_max: None };
        if self.locked {
            (self, none)
        } else {
            let (mid, acts) = match (live_min, live_max) {
                (Some(rm), Some(rx)) => if rm < rx {
                    (
                        BrightnessRange { min: rm, max: rx, locked: true },
                        RefreshActions {
                            set_persist_min: if persist_min != Some(rm) {
                                Some(rm)
                            } else {
                                None
                            },
                            set_persist_max: if persist_max != Some(rx) {
                                Some(rx)
                            } else {
                                None
                            },
                        },
                    )
                } else {
                    (BrightnessRange::spec_init(persist_min, persist_max), none)
                },
                _ => (BrightnessRange::spec_init(persist_min, persist_max), none),
            };
            if mid.min >= mid.max {
                (BrightnessRange { min: FALLBACK_MIN, max: FALLBACK_MAX, locked: mid.locked }, acts)
            } else {
                (mid, acts)
            }
        }
    }

    /// Best-known range at start-up: the persisted pair when it is
    /// non-degenerate, else the fallback constants; never locked.
    pub fn init(persist_min: Option<i32>, persist_max: Option<i32>) -> (r: BrightnessRange)
        ensures
            r == BrightnessRange::spec_init(persist_min, persist_max),
            r.wf(),
            !r.locked,
    {
        match (persist_min, persist_max) {
            (Some(a), Some(b)) => {
                if a < b {
                    BrightnessRange { min: a, max: b, locked: false }
                } else {
                    BrightnessRange { min: FALLBACK_MIN, max: FALLBACK_MAX, locked: false }
                }
            },
            _ => BrightnessRange { min: FALLBACK_MIN, max: FALLBACK_MAX, locked: false },
        }
    }

    /// One calibration step.  A valid live pair is adopted, written through
    /// to the persisted properties where they differ, and locks the range
    /// permanently.  Without one, a valid persisted pair is adopted
    /// unlocked, so later refreshes may still find a live signal; with
    /// neither, the fallback constants.  A locked range never changes, and
    /// a degenerate result is reset to the fallback constants.
    pub fn refresh_range(
        &mut self,
        persist_min: Option<i32>,
        persist_max: Option<i32>,
        live_min: Option<i32>,
        live_max: Option<i32>,
    ) -> (acts: RefreshActions)
        ensures
            (*final(self), acts) == old(self).spec_refresh(
                persist_min,
                persist_max,
                live_min,
                live_max,
            ),
            old(self).locked ==> *final(self) == *old(self) && acts.set_persist_min is None
                && acts.set_persist_max is None,
            !old(self).locked ==> final(self).wf(),
            old(self).wf() ==> final(self).wf(),
    {
        if self.locked {
            return RefreshActions { set_persist_min: None, set_persist_max: None };
        }
        let mut acts = RefreshActions { set_persist_min: None, set_persist_max: None };
        let live_valid = match (live_min, live_max) {
            (Some(rm), Some(rx)) => rm < rx,
            _ => false,
        };
        if live_valid {
            let rm = match live_min {
                Some(v) => v,
                None => 0,
            };
            let rx = match live_max {
                Some(v) => v,
                None => 0,
            };
            self.min = rm;
            self.max = rx;
            self.locked = true;
            acts.set_persist_min = match persist_min {
                Some(p) => if p != rm {
                    Some(rm)
                } else {
                    None
                },
                None => Some(rm),
            };
            acts.set_persist_max = match persist_max {
                Some(p) => if p != rx {
                    Some(rx)
                } else {
                    None
                },
                None => Some(rx),
            };
        } else {
            *self = BrightnessRange::init(persist_min, persist_max);
        }
        if self.min >= self.max {
            self.min = FALLBACK_MIN;
            self.max = FALLBACK_MAX;
        }
        acts
    }
}

/// Law: a locked range is frozen — no later live pair, however different,
/// moves `min` or `max`, and no property write is asked for.
pub proof fn lemma_locked_range_is_frozen(
    r: BrightnessRange,
    persist_min: Option<i32>,
    persist_max: Option<i32>,
    live_min: Option<i32>,
    live_max: Option<i32>,
)
    requires
        r.locked,
    ensures
        r.spec_refresh(persist_min, persist_max, live_min, live_max) == (
            r,
            RefreshActions { set_persist_min: None, set_persist_max: None },
        ),
{
}

/// Law: a valid live pair wins over any persisted pair: it is adopted, the
/// persisted properties are corrected where they disagree, and the range
/// locks.
pub proof fn lemma_live_pair_adopted_and_locked(
    r: BrightnessRange,
    persist_min: Option<i32>,
    persist_max: Option<i32>,
    rm: i32,
    rx: i32,
)
    requires
        !r.locked,
        rm < rx,
    ensures
        ({
            let (nr, acts) = r.spec_refresh(persist_min, persist_max, Some(rm), Some(rx));
            nr == BrightnessRange { min: rm, max: rx, locked: true } && acts.set_persist_min == (
            if persist_min != Some(rm) {
                Some(rm)
            } else {
                None
            }) && acts.set_persist_max == (if persist_max != Some(rx) {
                Some(rx)
            } else {
                None
            })
        }),
{
}

/// Law: without a valid live pair, a valid persisted pair is adopted — also
/// when a live pair is present but degenerate — and the range stays
/// unlocked, with no property write.
pub proof fn lemma_persisted_pair_adopted_when_live_invalid(
    r: BrightnessRange,
    a: i32,
    b: i32,
    live_min: Option<i32>,
    live_max: Option<i32>,
)
    requires
        !r.locked,
        a < b,
        !(live_min matches Some(rm) && live_max matches Some(rx) && rm < rx),
    ensures
        r.spec_refresh(Some(a), Some(b), live_min, live_max) == (
            BrightnessRange { min: a, max: b, locked: false },
            RefreshActions { set_persist_min: None, set_persist_max: None },
        ),
{
}

/// Law: with neither a valid live pair nor a valid persisted pair, the
/// range resets to the fallback constants, unlocked, with no property
/// write.
pub proof fn lemma_no_signal_resets_to_fallback(
    r: BrightnessRange,
    persist_min: Option<i32>,
    persist_max: Option<i32>,
    live_min: Option<i32>,
    live_max: Option<i32>,
)
    requires
        !r.locked,
        !(live_min matches Some(rm) && live_max matches Some(rx) && rm < rx),
        !(persist_min matches Some(a) && persist_max matches Some(b) && a < b),
    ensures
        r.spec_refresh(persist_min, persist_max, live_min, live_max) == (
            BrightnessRange { min: FALLBACK_MIN, max: FALLBACK_MAX, locked: false },
            RefreshActions { set_persist_min: None, set_persist_max: None },
        ),
{
}

} // verus!
