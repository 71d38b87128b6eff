use conservation_spectral_core::tracker::{ConservationTracker, MIN_HISTORY};
use conservation_spectral_core::{AnomalyType, LaplacianType};

#[test]
fn new_tracker_is_empty() {
    let t: ConservationTracker<f64, u32> = ConservationTracker::new(10, 0.5);
    assert!(t.current_ratios().is_empty());
    assert!(t.baseline().is_empty());
    assert_eq!(*t.threshold(), 0.5);
    assert_eq!(t.window_size, 10);
    assert_eq!(t.comparison_window(), None);
}

#[test]
fn baseline_is_fixed_by_the_third_entry_and_then_stays() {
    let mut t: ConservationTracker<f64, u32> = ConservationTracker::new(10, 0.5);
    t.record(1, 0.1, vec![1.0]);
    t.record(2, 0.2, vec![2.0]);
    assert!(t.baseline().is_empty());
    t.record(3, 0.3, vec![3.0, 3.5]);
    assert_eq!(t.baseline(), &[3.0, 3.5]);
    t.record(4, 0.4, vec![4.0]);
    assert_eq!(t.baseline(), &[3.0, 3.5]);
    assert_eq!(t.current_ratios(), &[0.1, 0.2, 0.3, 0.4]);
}

#[test]
fn empty_ratios_leave_the_baseline_unfixed() {
    let mut t: ConservationTracker<u64, ()> = ConservationTracker::new(5, 0);
    t.record((), 1, vec![]);
    t.record((), 2, vec![]);
    t.record((), 3, vec![]);
    assert!(t.baseline().is_empty());
    t.record((), 4, vec![9]);
    assert_eq!(t.baseline(), &[9]);
}

#[test]
fn window_keeps_the_newest_entries() {
    let mut t: ConservationTracker<u64, u64> = ConservationTracker::new(3, 0);
    for i in 0..6u64 {
        t.record(i, i * 10, vec![i]);
        assert!(t.current_ratios().len() <= 3);
        assert_eq!(*t.current_ratios().last().unwrap(), i * 10);
    }
    assert_eq!(t.current_ratios(), &[30, 40, 50]);
    assert_eq!(t.baseline(), &[2]);
}

#[test]
fn shrunken_window_is_enforced_on_next_record() {
    let mut t: ConservationTracker<u64, u64> = ConservationTracker::new(10, 0);
    for i in 0..5u64 {
        t.record(i, i, vec![]);
    }
    t.window_size = 2;
    t.record(5, 5, vec![]);
    assert_eq!(t.current_ratios(), &[4, 5]);
}

#[test]
fn zero_window_keeps_nothing() {
    let mut t: ConservationTracker<u64, u64> = ConservationTracker::new(0, 0);
    t.record(1, 1, vec![1]);
    t.record(2, 2, vec![2]);
    t.record(3, 3, vec![3]);
    assert!(t.current_ratios().is_empty());
    // the history never reaches three entries, so no baseline is fixed
    assert!(t.baseline().is_empty());
}

#[test]
fn comparison_window_skips_the_second_to_last_entry() {
    let mut t: ConservationTracker<u64, u64> = ConservationTracker::new(10, 0);
    t.record(0, 1, vec![]);
    t.record(0, 2, vec![]);
    assert_eq!(t.comparison_window(), None);
    t.record(0, 3, vec![]);
    assert_eq!(MIN_HISTORY, 3);
    assert_eq!(t.comparison_window(), Some((1, 2)));
    t.record(0, 4, vec![]);
    t.record(0, 5, vec![]);
    assert_eq!(t.comparison_window(), Some((3, 4)));
}

#[test]
fn reset_forgets_everything_but_the_settings() {
    let mut t: ConservationTracker<f64, u8> = ConservationTracker::new(4, 0.25);
    for i in 0..4u8 {
        t.record(i, i as f64, vec![1.0]);
    }
    assert!(!t.baseline().is_empty());
    t.reset();
    assert!(t.current_ratios().is_empty());
    assert!(t.baseline().is_empty());
    assert_eq!(t.window_size, 4);
    assert_eq!(*t.threshold(), 0.25);
    t.record(9, 9.0, vec![]);
    assert_eq!(t.current_ratios(), &[9.0]);
}

#[test]
fn enumerations_compare_by_variant() {
    assert_eq!(LaplacianType::Unnormalized, LaplacianType::Unnormalized);
    assert_ne!(LaplacianType::Unnormalized, LaplacianType::SymmetricNormalized);
    assert_ne!(LaplacianType::SymmetricNormalized, LaplacianType::RandomWalkNormalized);
    assert_eq!(AnomalyType::SpectralOutlier.clone(), AnomalyType::SpectralOutlier);
    assert_ne!(AnomalyType::ConservationViolation, AnomalyType::TransitionAnomaly);
    assert_ne!(AnomalyType::StructuralBreak, AnomalyType::SpectralOutlier);
}
