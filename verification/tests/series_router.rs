use dashbars::router::SeriesPool;
use dashbars::Series;

#[test]
fn series_scenario_average_min_max() {
    // Samples 5, 3, 8, 1 in milli-units into a capacity-4 series:
    // the average is 17000 / 4 = 4.25 units, min 1, max 8.
    let mut s = Series::new(4);
    s.push(5000);
    s.push(3000);
    s.push(8000);
    s.push(1000);
    assert_eq!(s.len(), 4);
    assert_eq!(s.sum(), 17000);
    assert_eq!(s.sum() as f64 / s.len() as f64 / 1000.0, 4.25);
    assert_eq!(s.min(), Some(1000));
    assert_eq!(s.max(), Some(8000));
}

#[test]
fn series_length_follows_min_rule() {
    // length after each push equals min(previous + 1, capacity)
    let mut s = Series::new(3);
    let mut expected: usize = 0;
    for v in [10, 20, 30, 40, 50] {
        s.push(v);
        expected = (expected + 1).min(3);
        assert_eq!(s.len(), expected);
    }
}

#[test]
fn series_eviction_keeps_most_recent() {
    let mut s = Series::new(4);
    for v in [5000, 3000, 8000, 1000, 9000] {
        s.push(v);
    }
    // window is now 3, 8, 1, 9
    assert_eq!(s.samples().clone(), vec![3000, 8000, 1000, 9000]);
    assert_eq!(s.sum(), 21000);
    assert_eq!(s.min(), Some(1000));
    assert_eq!(s.max(), Some(9000));
}

#[test]
fn series_empty_statistics() {
    let s = Series::new(4);
    assert_eq!(s.len(), 0);
    assert_eq!(s.sum(), 0);
    assert_eq!(s.min(), None);
    assert_eq!(s.max(), None);
}

#[test]
fn series_zero_capacity_stays_empty() {
    let mut s = Series::new(0);
    s.push(7000);
    assert_eq!(s.len(), 0);
}

#[test]
fn series_default_capacity() {
    let s = Series::default();
    assert_eq!(s.capacity(), 200);
}

#[test]
fn series_negative_samples() {
    let mut s = Series::new(2);
    s.push(-4000);
    s.push(2500);
    assert_eq!(s.sum(), -1500);
    assert_eq!(s.min(), Some(-4000));
    assert_eq!(s.max(), Some(2500));
}

#[test]
fn unit_tag_scenario() {
    // Unit "ms" on "Response: 42.5 ms, cpu 10%" extracts 42.5 and records
    // the unit; the "10" token is not also taken.
    let mut pool = SeriesPool::new(200);
    let line = b"Response: 42.5 ms, cpu 10%".to_vec();
    let units = vec![b"ms".to_vec()];
    pool.ingest_units(&line, &units);
    assert_eq!(pool.len(), 1);
    let s = pool.get(0);
    assert_eq!(s.len(), 1);
    assert_eq!(s.samples().clone(), vec![42500]);
    assert_eq!(s.unit().clone(), b"ms".to_vec());
}

#[test]
fn unit_tag_case_insensitive_whole_word() {
    let mut pool = SeriesPool::new(10);
    let units = vec![b"MB".to_vec()];
    // "9 Amb" must not match: "mb" there is not a whole word.
    pool.ingest_units(&b"used 9 Amb".to_vec(), &units);
    assert_eq!(pool.get(0).len(), 0);
    // "12 mb" matches case-insensitively.
    pool.ingest_units(&b"used 12 mb now".to_vec(), &units);
    assert_eq!(pool.get(0).samples().clone(), vec![12000]);
    assert_eq!(pool.get(0).unit().clone(), b"MB".to_vec());
}

#[test]
fn unit_tag_no_match_is_noop() {
    let mut pool = SeriesPool::new(10);
    let units = vec![b"ms".to_vec()];
    pool.ingest_units(&b"no numbers here".to_vec(), &units);
    assert_eq!(pool.len(), 1);
    assert_eq!(pool.get(0).len(), 0);
    assert_eq!(pool.get(0).unit().clone(), Vec::<u8>::new());
}

#[test]
fn unit_tag_grows_pool_per_slot() {
    let mut pool = SeriesPool::new(10);
    let units = vec![b"ms".to_vec(), b"mb".to_vec(), b"gb".to_vec()];
    pool.ingest_units(&b"disk 3.5 GB, lat 7 ms".to_vec(), &units);
    // ms matched (slot 0), mb did not, gb matched (slot 2): grown to 3.
    assert_eq!(pool.len(), 3);
    assert_eq!(pool.get(0).samples().clone(), vec![7000]);
    assert_eq!(pool.get(1).len(), 0);
    assert_eq!(pool.get(2).samples().clone(), vec![3500]);
}

#[test]
fn unit_tag_first_match_wins() {
    let mut pool = SeriesPool::new(10);
    let units = vec![b"ms".to_vec()];
    pool.ingest_units(&b"a 5 ms then 9 ms".to_vec(), &units);
    assert_eq!(pool.get(0).samples().clone(), vec![5000]);
}

#[test]
fn positional_routes_every_value() {
    let mut pool = SeriesPool::new(10);
    pool.ingest_positional(&b"alpha 1 2.5 beta -3".to_vec());
    assert_eq!(pool.len(), 3);
    assert_eq!(pool.get(0).samples().clone(), vec![1000]);
    assert_eq!(pool.get(1).samples().clone(), vec![2500]);
    assert_eq!(pool.get(2).samples().clone(), vec![-3000]);
}

#[test]
fn positional_empty_line_is_noop() {
    let mut pool = SeriesPool::new(10);
    pool.ingest_positional(&b"   ".to_vec());
    assert_eq!(pool.len(), 1);
    assert_eq!(pool.get(0).len(), 0);
}

#[test]
fn indexed_selects_columns_and_skips_out_of_range() {
    let mut pool = SeriesPool::new(10);
    let indices = vec![2usize, 5usize];
    pool.ingest_indexed(&b"10 20 30".to_vec(), &indices);
    // column 2 selects 20; column 5 has no value and is skipped.
    assert_eq!(pool.len(), 1);
    assert_eq!(pool.get(0).samples().clone(), vec![20000]);
}

#[test]
fn indexed_zero_index_is_skipped() {
    let mut pool = SeriesPool::new(10);
    let indices = vec![0usize, 1usize];
    pool.ingest_indexed(&b"10 20".to_vec(), &indices);
    assert_eq!(pool.len(), 1);
    assert_eq!(pool.get(0).samples().clone(), vec![10000]);
}
