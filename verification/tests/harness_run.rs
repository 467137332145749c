use object_store_rs::harness::Harness;
use object_store_rs::harness::RunConfig;

fn quick_config(block_offset: u64, iteration_cap: u64) -> RunConfig {
    RunConfig {
        block_offset,
        stride: 100,
        iteration_cap,
        window_period_nanos: 5_000_000_000,
        test_duration_nanos: 120_000_000_000,
    }
}

#[test]
fn two_objects_total_thirty_bytes() {
    // Two objects of 10 and 20 bytes at offset 0 and stride 100: the run
    // fetches block 0 then block 100 and ends with exactly 30 bytes counted.
    let mut h = Harness::new(quick_config(0, 2), 0);
    let key1 = h.begin_fetch();
    assert_eq!(key1, "0000000000.dbin.zst");
    h.record_fetch(1_000);
    assert!(h.on_chunk(4, 10).is_none());
    assert!(h.on_chunk(6, 20).is_none());
    assert!(h.object_done(30));
    let key2 = h.begin_fetch();
    assert_eq!(key2, "0000000100.dbin.zst");
    h.record_fetch(3_000);
    assert!(h.on_chunk(20, 40).is_none());
    assert!(!h.object_done(50));
    let m = h.finalize(60);
    assert_eq!(m.total_bytes, 30);
    assert_eq!(m.fetch_count, 2);
    assert_eq!(m.total_fetch_nanos, 4_000);
    assert_eq!(m.elapsed_nanos, 60);
    assert_eq!(m.average_fetch_nanos(), 2_000);
}

#[test]
fn chunk_sum_over_many_objects() {
    // Five objects of three 7-byte chunks each: the total is exactly the sum
    // of every chunk length ever received.
    let mut h = Harness::new(quick_config(0, 5), 0);
    let mut now: u64 = 0;
    loop {
        let _key = h.begin_fetch();
        h.record_fetch(10);
        for _ in 0..3 {
            now += 1;
            assert!(h.on_chunk(7, now).is_none());
        }
        now += 1;
        if !h.object_done(now) {
            break;
        }
    }
    let m = h.finalize(now);
    assert_eq!(m.total_bytes, 5 * 3 * 7);
    assert_eq!(m.fetch_count, 5);
}

#[test]
fn window_flush_emits_sample_and_advances() {
    let config = RunConfig {
        block_offset: 0,
        stride: 100,
        iteration_cap: 1,
        window_period_nanos: 100,
        test_duration_nanos: 1_000_000,
    };
    let mut h = Harness::new(config, 0);
    let _key = h.begin_fetch();
    h.record_fetch(5);
    assert!(h.on_chunk(10, 50).is_none());
    let first_window_start = h.window_start_nanos;
    let sample = h.on_chunk(20, 150).expect("a full window must flush");
    // the sample holds the bytes of the closed window over the fixed period
    assert_eq!(sample.bytes, 10);
    assert_eq!(sample.period_nanos, 100);
    assert!(sample.period_nanos > 0);
    // the window start advances strictly, and the new window holds the chunk
    assert!(h.window_start_nanos > first_window_start);
    assert_eq!(h.window_bytes, 20);
    assert_eq!(h.total_bytes, 30);
    let second_window_start = h.window_start_nanos;
    let sample2 = h.on_chunk(1, 300).expect("a second full window must flush");
    assert_eq!(sample2.bytes, 20);
    assert!(sample2.period_nanos > 0);
    assert!(h.window_start_nanos > second_window_start);
    assert!(!h.object_done(400));
}

#[test]
fn budget_is_checked_only_between_objects() {
    let config = RunConfig {
        block_offset: 0,
        stride: 100,
        iteration_cap: 5,
        window_period_nanos: 5_000_000_000,
        test_duration_nanos: 100,
    };
    let mut h = Harness::new(config, 0);
    let _key = h.begin_fetch();
    h.record_fetch(1);
    // the chunk arrives long after the budget, but the stream still drains
    assert!(h.on_chunk(9, 5_000).is_none());
    // only once the object completes does the budget end the run
    assert!(!h.object_done(5_001));
    let m = h.finalize(5_002);
    assert_eq!(m.total_bytes, 9);
    assert_eq!(m.fetch_count, 1);
}

#[test]
fn offset_shifts_the_first_key() {
    let mut h = Harness::new(quick_config(7, 2), 0);
    assert_eq!(h.begin_fetch(), "0000000007.dbin.zst");
    h.record_fetch(1);
    assert!(h.object_done(1));
    assert_eq!(h.begin_fetch(), "0000000107.dbin.zst");
}

#[test]
fn standard_config_values() {
    let config = RunConfig::standard(42);
    assert_eq!(config.block_offset, 42);
    assert_eq!(config.stride, 100);
    assert_eq!(config.iteration_cap, 1000);
    assert_eq!(config.window_period_nanos, 5_000_000_000);
    assert_eq!(config.test_duration_nanos, 120_000_000_000);
}
