use latency_probe::{ExperimentID, PayloadClass, PayloadPool, PhaseConfig, WSData};

#[test]
fn pool_wants_payloads_of_the_right_lengths() {
    assert!(PayloadPool::from_buffers(vec![0; 32], vec![0; 256]).is_some());
    assert!(PayloadPool::from_buffers(vec![0; 31], vec![0; 256]).is_none());
    assert!(PayloadPool::from_buffers(vec![0; 33], vec![0; 256]).is_none());
    assert!(PayloadPool::from_buffers(vec![0; 32], vec![0; 255]).is_none());
    assert!(PayloadPool::from_buffers(vec![0; 32], vec![0; 257]).is_none());
    assert!(PayloadPool::from_buffers(vec![], vec![]).is_none());
    assert!(PayloadPool::from_buffers(vec![0; 256], vec![0; 32]).is_none());
}

#[test]
fn pool_hands_out_copies_of_its_payloads() {
    let small: Vec<u8> = (0..32).collect();
    let large: Vec<u8> = (0..=255).collect();
    let pool = PayloadPool::from_buffers(small.clone(), large.clone()).unwrap();
    assert_eq!(pool.payload(PayloadClass::NoData), Vec::<u8>::new());
    assert_eq!(pool.payload(PayloadClass::WithData), small);
    assert_eq!(pool.payload(PayloadClass::LargeData), large);
    // and again: the pool is not used up
    assert_eq!(pool.payload(PayloadClass::WithData), small);
}

#[test]
fn record_carries_tag_stamp_and_payload() {
    let small: Vec<u8> = vec![7; 32];
    let large: Vec<u8> = vec![9; 256];
    let pool = PayloadPool::from_buffers(small.clone(), large.clone()).unwrap();
    let row = PhaseConfig::reference(ExperimentID::BurstLargeData);
    assert_eq!(
        pool.record(&row, 123_456_789),
        WSData { experiment_id: ExperimentID::BurstLargeData, timestamp: 123_456_789, data: large }
    );
    let row = PhaseConfig::reference(ExperimentID::ConsistentWithData);
    assert_eq!(
        pool.record(&row, u128::MAX),
        WSData { experiment_id: ExperimentID::ConsistentWithData, timestamp: u128::MAX, data: small }
    );
    let row = PhaseConfig::reference(ExperimentID::SlowNoData);
    assert_eq!(
        pool.record(&row, 0),
        WSData { experiment_id: ExperimentID::SlowNoData, timestamp: 0, data: vec![] }
    );
}

#[test]
fn record_follows_the_row_not_the_tag() {
    let pool = PayloadPool::from_buffers(vec![1; 32], vec![2; 256]).unwrap();
    let row = PhaseConfig {
        tag: ExperimentID::SlowNoData,
        iteration_count: 1,
        interval_micros: 1,
        payload: PayloadClass::WithData,
    };
    assert_eq!(pool.record(&row, 5).data, vec![1; 32]);
}

#[test]
fn generated_pool_has_payloads_of_the_right_lengths() {
    let pool = PayloadPool::generate();
    assert_eq!(pool.payload(PayloadClass::NoData).len(), 0);
    assert_eq!(pool.payload(PayloadClass::WithData).len(), 32);
    assert_eq!(pool.payload(PayloadClass::LargeData).len(), 256);
}

#[test]
fn generated_payloads_are_random() {
    let pool = PayloadPool::generate();
    let small = pool.payload(PayloadClass::WithData);
    let large = pool.payload(PayloadClass::LargeData);
    // a buffer that was left as it was allocated would be all zero
    assert!(small.iter().any(|b| *b != 0));
    assert!(large.iter().any(|b| *b != 0));
    let other = PayloadPool::generate();
    assert_ne!(other.payload(PayloadClass::LargeData), large);
    assert_ne!(other.payload(PayloadClass::WithData), small);
}

#[test]
fn generated_pool_stays_the_same_over_a_run() {
    let pool = PayloadPool::generate();
    assert_eq!(pool.payload(PayloadClass::WithData), pool.payload(PayloadClass::WithData));
    assert_eq!(pool.payload(PayloadClass::LargeData), pool.payload(PayloadClass::LargeData));
}
