use soroban_guard_core::analysis::access_control::AccessControlDetector;
use soroban_guard_core::analysis::overflow::OverflowChecker;
use soroban_guard_core::analysis::reentrancy::ReentrancyDetector;
use soroban_guard_core::analysis::storage::StorageCollisionDetector;
use soroban_guard_core::analysis::AnalysisRule;

#[test]
fn access_control_tests_test_detector_metadata() {
    let d = AccessControlDetector;
    assert_eq!(d.id(), "access_control");
    assert!(!d.name().is_empty());
    assert!(!d.description().is_empty());
}

#[test]
fn reentrancy_tests_test_detector_metadata() {
    let d = ReentrancyDetector;
    assert_eq!(d.id(), "reentrancy");
    assert!(!d.name().is_empty());
    assert!(!d.description().is_empty());
}

#[test]
fn storage_tests_test_detector_metadata() {
    let d = StorageCollisionDetector;
    assert_eq!(d.id(), "storage");
    assert!(!d.name().is_empty());
    assert!(!d.description().is_empty());
}

#[test]
fn overflow_tests_test_detector_metadata() {
    let d = OverflowChecker;
    assert_eq!(d.id(), "overflow");
    assert!(!d.name().is_empty());
    assert!(!d.description().is_empty());
}
