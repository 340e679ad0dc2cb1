use display_adaptor::range::BrightnessRange;

#[test]
fn init_prefers_valid_persisted_pair() {
    let r = BrightnessRange::init(Some(100), Some(2000));
    assert_eq!(r.min, 100);
    assert_eq!(r.max, 2000);
    assert!(!r.locked);
}

#[test]
fn init_falls_back_on_missing_or_degenerate_pair() {
    let r = BrightnessRange::init(None, Some(2000));
    assert_eq!((r.min, r.max), (222, 8191));
    let r = BrightnessRange::init(Some(500), Some(500));
    assert_eq!((r.min, r.max), (222, 8191));
    let r = BrightnessRange::init(Some(700), Some(100));
    assert_eq!((r.min, r.max), (222, 8191));
    assert!(!r.locked);
}

#[test]
fn live_pair_wins_corrects_persisted_and_locks() {
    // live pair (100, 2000), stale persisted pair (50, 1000)
    let mut r = BrightnessRange::init(Some(50), Some(1000));
    let acts = r.refresh_range(Some(50), Some(1000), Some(100), Some(2000));
    assert_eq!((r.min, r.max), (100, 2000));
    assert!(r.locked);
    assert_eq!(acts.set_persist_min, Some(100));
    assert_eq!(acts.set_persist_max, Some(2000));
}

#[test]
fn matching_persisted_pair_is_not_rewritten() {
    let mut r = BrightnessRange::init(Some(100), Some(2000));
    let acts = r.refresh_range(Some(100), Some(2000), Some(100), Some(2000));
    assert!(r.locked);
    assert_eq!(acts.set_persist_min, None);
    assert_eq!(acts.set_persist_max, None);
}

#[test]
fn locked_range_ignores_later_live_changes() {
    let mut r = BrightnessRange::init(None, None);
    r.refresh_range(None, None, Some(100), Some(2000));
    assert!(r.locked);
    // the live signal changes afterwards; nothing may move
    let acts = r.refresh_range(Some(1), Some(2), Some(7), Some(7000));
    assert_eq!((r.min, r.max), (100, 2000));
    assert!(r.locked);
    assert_eq!(acts.set_persist_min, None);
    assert_eq!(acts.set_persist_max, None);
    let acts = r.refresh_range(None, None, Some(3), Some(4));
    assert_eq!((r.min, r.max), (100, 2000));
    assert_eq!((acts.set_persist_min, acts.set_persist_max), (None, None));
}

#[test]
fn persisted_pair_adopted_without_lock() {
    let mut r = BrightnessRange::init(None, None);
    let acts = r.refresh_range(Some(300), Some(4000), None, None);
    assert_eq!((r.min, r.max), (300, 4000));
    assert!(!r.locked);
    assert_eq!((acts.set_persist_min, acts.set_persist_max), (None, None));
}

#[test]
fn degenerate_live_pair_yields_to_persisted_pair() {
    // a live pair that is present but degenerate does not win: the valid
    // persisted pair is adopted, unlocked
    let mut r = BrightnessRange { min: 300, max: 400, locked: false };
    let acts = r.refresh_range(Some(10), Some(20), Some(5), Some(3));
    assert_eq!((r.min, r.max), (10, 20));
    assert!(!r.locked);
    assert_eq!((acts.set_persist_min, acts.set_persist_max), (None, None));
}

#[test]
fn nothing_valid_resets_to_fallback() {
    let mut r = BrightnessRange::init(Some(300), Some(4000));
    r.refresh_range(None, Some(4000), None, None);
    assert_eq!((r.min, r.max), (222, 8191));
    assert!(!r.locked);
}

#[test]
fn degenerate_persisted_pair_resets_to_fallback() {
    // a persisted pair with min >= max counts as no signal at all
    let mut r = BrightnessRange::init(Some(300), Some(4000));
    r.refresh_range(Some(10), Some(5), None, None);
    assert_eq!((r.min, r.max), (222, 8191));
    assert!(!r.locked);
    let mut r = BrightnessRange { min: 300, max: 400, locked: false };
    r.refresh_range(Some(7), Some(7), Some(9), Some(9));
    assert_eq!((r.min, r.max), (222, 8191));
    assert!(!r.locked);
}
