use dispute::Dispute;
use dispute::Ledger;
use dispute::RandomnessSource;

const CUSTODY: usize = 0;

fn with_latest_bytes(bytes: Vec<u8>) -> Dispute {
    Dispute::new(RandomnessSource::new(vec![bytes], 0), CUSTODY)
}

#[test]
fn missing_round_falls_back_to_zero() {
    // the latest round points past what the source has published
    let d = Dispute::new(RandomnessSource::new(vec![vec![9u8]], 5), CUSTODY);
    assert_eq!(d.get_random_number_in_range(200), 0);
    assert_eq!(d.get_random_value(5), None);
    assert_eq!(d.fetch_latest(), 5);
}

#[test]
fn empty_randomness_counts_as_byte_zero() {
    let d = with_latest_bytes(Vec::new());
    assert_eq!(d.get_random_number_in_range(10), 0);
    assert_eq!(d.get_random_number_in_range(0), 0);
}

#[test]
fn byte_at_or_above_the_bound_saturates() {
    let d = with_latest_bytes(vec![200u8, 77]);
    assert_eq!(d.get_random_number_in_range(10), 10);
    assert_eq!(d.get_random_number_in_range(200), 200);
    assert_eq!(d.get_random_number_in_range(0), 0);
}

#[test]
fn byte_below_the_bound_is_returned_unchanged() {
    let d = with_latest_bytes(vec![5u8]);
    assert_eq!(d.get_random_number_in_range(10), 5);
    assert_eq!(d.get_random_number_in_range(255), 5);
    assert_eq!(d.get_random_number_in_range(6), 5);
}

#[test]
fn result_always_lies_within_the_bound() {
    for byte in [0u8, 1, 7, 128, 254, 255] {
        let d = with_latest_bytes(vec![byte]);
        for bound in [0u8, 1, 7, 128, 254, 255] {
            let r = d.get_random_number_in_range(bound);
            assert!(r <= bound);
            if byte >= bound {
                assert_eq!(r, bound);
            } else {
                assert_eq!(r, byte);
            }
        }
    }
}

#[test]
fn oracle_values_are_returned_whole() {
    let rounds = vec![vec![1u8, 2, 3], vec![4u8], Vec::new()];
    let d = Dispute::new(RandomnessSource::new(rounds, 2), CUSTODY);
    assert_eq!(d.get_random_value(0), Some(vec![1u8, 2, 3]));
    assert_eq!(d.get_random_value(1), Some(vec![4u8]));
    assert_eq!(d.get_random_value(2), Some(Vec::new()));
    assert_eq!(d.get_random_value(3), None);
    assert_eq!(d.fetch_latest(), 2);
}

#[test]
fn ledger_refuses_what_it_cannot_cover() {
    let mut ledger = Ledger::new(vec![10, 20]);
    assert!(ledger.transfer_from(0, 1, 30).is_err());
    assert_eq!(ledger.balance_of(0), 10);
    assert_eq!(ledger.balance_of(1), 20);
    assert!(ledger.transfer_from(0, 5, 1).is_err());
    assert!(ledger.transfer_from(0, 1, 10).is_ok());
    assert_eq!(ledger.balance_of(0), 0);
    assert_eq!(ledger.balance_of(1), 30);
}
