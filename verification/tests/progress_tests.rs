use jwt_crack::algorithm::HmacAlgorithm;
use jwt_crack::progress::{chunk_size, percentage, progress_report, report_due, ProgressReport};

#[test]
fn chunk_is_a_hundredth_and_at_least_one() {
    assert_eq!(chunk_size(0), 1);
    assert_eq!(chunk_size(1), 1);
    assert_eq!(chunk_size(99), 1);
    assert_eq!(chunk_size(100), 1);
    assert_eq!(chunk_size(199), 1);
    assert_eq!(chunk_size(200), 2);
    assert_eq!(chunk_size(250), 2);
    assert_eq!(chunk_size(14_344_391), 143_443);
    assert_eq!(chunk_size(usize::MAX), usize::MAX / 100);
}

#[test]
fn percentage_rounds_down() {
    assert_eq!(percentage(0, 3), 0);
    assert_eq!(percentage(1, 3), 33);
    assert_eq!(percentage(2, 3), 66);
    assert_eq!(percentage(3, 3), 100);
    assert_eq!(percentage(50, 200), 25);
    assert_eq!(percentage(199, 200), 99);
}

#[test]
fn percentage_of_an_empty_wordlist_is_zero() {
    assert_eq!(percentage(0, 0), 0);
    assert_eq!(percentage(7, 0), 0);
    assert_eq!(percentage(usize::MAX, 0), 0);
}

#[test]
fn percentage_does_not_overflow() {
    assert_eq!(percentage(usize::MAX, usize::MAX), 100);
    assert_eq!(percentage(usize::MAX, 1), (usize::MAX as u128) * 100);
    assert_eq!(percentage(usize::MAX / 2, usize::MAX), 49);
}

#[test]
fn report_is_due_on_multiples_of_the_chunk() {
    assert!(report_due(0, 250));
    assert!(!report_due(1, 250));
    assert!(report_due(2, 250));
    assert!(report_due(248, 250));
    assert!(!report_due(249, 250));
    // With fewer than two hundred candidates every attempt is reported.
    assert!(report_due(0, 3));
    assert!(report_due(1, 3));
    assert!(report_due(2, 3));
    // An empty wordlist has a chunk of one and divides nothing by zero.
    assert!(report_due(0, 0));
    assert!(report_due(5, 0));
}

#[test]
fn report_carries_algorithm_total_and_percentage() {
    assert_eq!(
        progress_report(HmacAlgorithm::Hs256, 4, 250),
        Some(ProgressReport { algorithm: HmacAlgorithm::Hs256, total: 250, percent: 1 })
    );
    assert_eq!(progress_report(HmacAlgorithm::Hs256, 5, 250), None);
    assert_eq!(
        progress_report(HmacAlgorithm::Hs512, 500, 1000),
        Some(ProgressReport { algorithm: HmacAlgorithm::Hs512, total: 1000, percent: 50 })
    );
    assert_eq!(
        progress_report(HmacAlgorithm::Hs384, 0, 0),
        Some(ProgressReport { algorithm: HmacAlgorithm::Hs384, total: 0, percent: 0 })
    );
}
