use storage_bench::transport::{
    BackendKind, Transport, IDLE_BYTE, MIN_PRIME_PULSES, OPERATIONAL_CLOCK_KHZ, SAFE_CLOCK_KHZ,
};

#[test]
fn priming_sends_enough_idle_clock_bytes() {
    let mut t = Transport::new(BackendKind::PolledBlocking);
    t.prime_pulses(MIN_PRIME_PULSES);
    assert_eq!(MIN_PRIME_PULSES, 74);
    assert_eq!(t.wire.len(), 10);
    assert!(t.wire.iter().all(|&b| b == IDLE_BYTE));
    assert!(t.wire.len() * 8 >= 74);
    assert!(!t.cs_asserted);
    assert_eq!(t.clock_khz, SAFE_CLOCK_KHZ);
}

#[test]
fn fresh_backend_starts_at_safety_rate_with_cs_released() {
    let t = Transport::new(BackendKind::AsyncDescriptor);
    assert_eq!(t.clock_khz, SAFE_CLOCK_KHZ);
    assert!(!t.cs_asserted);
    assert!(t.wire.is_empty());
}

#[test]
fn both_backends_put_identical_bytes_on_the_wire() {
    let mut dma = Transport::new(BackendKind::AsyncDescriptor);
    let mut polled = Transport::new(BackendKind::PolledBlocking);
    let tx: Vec<u8> = vec![0x40, 0x00, 0x00, 0x00, 0x00, 0x95];
    let _ = dma.exchange(&tx);
    let _ = polled.exchange(&tx);
    assert_eq!(dma.wire, polled.wire);
    assert_eq!(dma.wire, tx);
}

#[test]
fn exchanges_append_in_submission_order() {
    let mut t = Transport::new(BackendKind::PolledBlocking);
    let first: Vec<u8> = vec![1, 2, 3];
    let second: Vec<u8> = vec![4, 5];
    let _ = t.exchange(&first);
    let _ = t.exchange(&second);
    assert_eq!(t.wire, vec![1, 2, 3, 4, 5]);
}

#[test]
fn received_buffer_matches_length_and_reads_idle() {
    let mut t = Transport::new(BackendKind::AsyncDescriptor);
    let tx: Vec<u8> = vec![7; 9];
    let rx = t.exchange(&tx);
    assert_eq!(rx.len(), tx.len());
    assert!(rx.iter().all(|&b| b == IDLE_BYTE));
}

#[test]
fn clock_upgrade_changes_only_the_rate() {
    let mut t = Transport::new(BackendKind::PolledBlocking);
    let tx: Vec<u8> = vec![1, 2];
    let _ = t.exchange(&tx);
    t.set_clock(OPERATIONAL_CLOCK_KHZ);
    assert_eq!(t.clock_khz, OPERATIONAL_CLOCK_KHZ);
    assert_eq!(t.wire, vec![1, 2]);
    assert!(!t.cs_asserted);
}

#[test]
fn chip_select_toggles_without_touching_the_wire() {
    let mut t = Transport::new(BackendKind::AsyncDescriptor);
    t.assert_cs();
    assert!(t.cs_asserted);
    t.deassert_cs();
    assert!(!t.cs_asserted);
    assert!(t.wire.is_empty());
}

#[test]
fn large_exchange_spanning_descriptors_is_unaltered() {
    let mut dma = Transport::new(BackendKind::AsyncDescriptor);
    let mut polled = Transport::new(BackendKind::PolledBlocking);
    let tx: Vec<u8> = (0..16000u32).map(|i| (i % 251) as u8).collect();
    let _ = dma.exchange(&tx);
    let _ = polled.exchange(&tx);
    assert_eq!(dma.wire, tx);
    assert_eq!(polled.wire, tx);
}
