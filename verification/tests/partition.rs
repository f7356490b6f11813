use flatrows::index::PartitionKey;
use flatrows::partition::{
    assign, clone_key, partition_records, partition_segments, PartitionAccumulator,
};
use flatrows::shared::SharedAccumulator;
use flatrows::row::FlatRow;

fn key(a: &str, b: &str, c: &str, d: &str) -> PartitionKey {
    (a.to_string(), b.to_string(), c.to_string(), d.to_string())
}

fn row(id: i32, category: Option<&str>, tag: Option<&str>) -> FlatRow {
    let mut r = FlatRow::new();
    r.id = Some(id);
    r.category = category.map(|s| s.to_string());
    r.tag = tag.map(|s| s.to_string());
    r
}

fn ids(rows: &[FlatRow]) -> Vec<i32> {
    rows.iter().map(|r| r.id.unwrap()).collect()
}

#[test]
fn assign_projects_the_four_key_columns() {
    let mut r = FlatRow::new();
    r.category = Some("Temperature".to_string());
    r.tag = Some("tag1".to_string());
    r.country_code = Some("US".to_string());
    r.h3_cell = Some("8f283082080".to_string());
    r.name = Some("ignored".to_string());
    assert_eq!(assign(&r), key("Temperature", "tag1", "US", "8f283082080"));
    assert_eq!(assign(&r), assign(&r.clone()));
}

#[test]
fn assign_puts_the_sentinel_for_what_is_missing() {
    assert_eq!(assign(&FlatRow::new()), key("unknown", "unknown", "unknown", "unknown"));
    let r = row(1, None, Some("t"));
    assert_eq!(assign(&r), key("unknown", "t", "unknown", "unknown"));
    let mut r = FlatRow::new();
    r.h3_cell = Some("".to_string());
    assert_eq!(assign(&r), key("unknown", "unknown", "unknown", ""));
}

#[test]
fn rows_without_key_columns_share_one_partition() {
    let mut acc = PartitionAccumulator::new(100);
    let mut a = FlatRow::new();
    a.id = Some(1);
    a.name = Some("a".to_string());
    let mut b = FlatRow::new();
    b.id = Some(2);
    b.value = Some(9);
    let ka = acc.insert(a.clone());
    let kb = acc.insert(b.clone());
    assert_eq!(ka, kb);
    assert_eq!(ka, key("unknown", "unknown", "unknown", "unknown"));
    assert_eq!(acc.pending(&ka), 2);
    let drained = acc.drain_all();
    assert_eq!(drained.len(), 1);
    assert_eq!(drained[0].0, ka);
    assert_eq!(drained[0].1, vec![a, b]);
}

#[test]
fn new_accumulator_holds_nothing() {
    let mut acc = PartitionAccumulator::new(3);
    assert_eq!(acc.threshold(), 3);
    assert_eq!(acc.pending(&key("a", "b", "c", "d")), 0);
    assert_eq!(acc.maybe_flush(&key("a", "b", "c", "d")), None);
    assert_eq!(acc.drain_all(), Vec::new());
}

#[test]
fn insert_routes_each_row_to_the_buffer_of_its_key() {
    let mut acc = PartitionAccumulator::new(10);
    let k1 = acc.insert(row(1, Some("x"), None));
    let k2 = acc.insert(row(2, Some("y"), None));
    let k3 = acc.insert(row(3, Some("x"), None));
    assert_eq!(k1, k3);
    assert_ne!(k1, k2);
    assert_eq!(acc.pending(&k1), 2);
    assert_eq!(acc.pending(&k2), 1);
    assert_eq!(acc.pending(&key("z", "unknown", "unknown", "unknown")), 0);
}

#[test]
fn maybe_flush_waits_for_the_threshold() {
    let mut acc = PartitionAccumulator::new(3);
    let k = acc.insert(row(1, Some("x"), None));
    assert_eq!(acc.maybe_flush(&k), None);
    acc.insert(row(2, Some("x"), None));
    assert_eq!(acc.maybe_flush(&k), None);
    assert_eq!(acc.pending(&k), 2);
    acc.insert(row(3, Some("x"), None));
    let flushed = acc.maybe_flush(&k).unwrap();
    assert_eq!(ids(&flushed), vec![1, 2, 3]);
    assert_eq!(acc.pending(&k), 0);
    assert_eq!(acc.maybe_flush(&k), None);
    acc.insert(row(4, Some("x"), None));
    assert_eq!(acc.pending(&k), 1);
    assert_eq!(acc.maybe_flush(&k), None);
    let drained = acc.drain_all();
    assert_eq!(drained.len(), 1);
    assert_eq!(ids(&drained[0].1), vec![4]);
}

#[test]
fn maybe_flush_takes_the_whole_buffer_when_it_overshoots() {
    let mut acc = PartitionAccumulator::new(2);
    let mut k = key("", "", "", "");
    for i in 0..5 {
        k = acc.insert(row(i, Some("x"), Some("t")));
    }
    let flushed = acc.maybe_flush(&k).unwrap();
    assert_eq!(ids(&flushed), vec![0, 1, 2, 3, 4]);
    assert_eq!(acc.pending(&k), 0);
}

#[test]
fn maybe_flush_leaves_other_keys_alone() {
    let mut acc = PartitionAccumulator::new(1);
    let kx = acc.insert(row(1, Some("x"), None));
    let ky = acc.insert(row(2, Some("y"), None));
    let flushed = acc.maybe_flush(&kx).unwrap();
    assert_eq!(ids(&flushed), vec![1]);
    assert_eq!(acc.pending(&ky), 1);
    assert_eq!(acc.maybe_flush(&key("nobody", "unknown", "unknown", "unknown")), None);
    assert_eq!(ids(&acc.maybe_flush(&ky).unwrap()), vec![2]);
}

#[test]
fn threshold_zero_never_hands_out_an_empty_buffer() {
    let mut acc = PartitionAccumulator::new(0);
    let k = key("x", "unknown", "unknown", "unknown");
    assert_eq!(acc.maybe_flush(&k), None);
    acc.insert(row(1, Some("x"), None));
    assert_eq!(ids(&acc.maybe_flush(&k).unwrap()), vec![1]);
    assert_eq!(acc.maybe_flush(&k), None);
}

#[test]
fn drain_all_returns_every_buffer_once_in_first_seen_order() {
    let mut acc = PartitionAccumulator::new(100);
    acc.insert(row(1, Some("b"), None));
    acc.insert(row(2, Some("a"), None));
    acc.insert(row(3, Some("c"), None));
    acc.insert(row(4, Some("a"), None));
    acc.insert(row(5, Some("b"), None));
    let drained = acc.drain_all();
    let keys: Vec<String> = drained.iter().map(|(k, _)| k.0.clone()).collect();
    assert_eq!(keys, vec!["b", "a", "c"]);
    assert_eq!(ids(&drained[0].1), vec![1, 5]);
    assert_eq!(ids(&drained[1].1), vec![2, 4]);
    assert_eq!(ids(&drained[2].1), vec![3]);
    assert_eq!(acc.drain_all(), Vec::new());
    acc.insert(row(6, Some("c"), None));
    let drained = acc.drain_all();
    assert_eq!(drained.len(), 1);
    assert_eq!(drained[0].0, key("c", "unknown", "unknown", "unknown"));
    assert_eq!(ids(&drained[0].1), vec![6]);
}

#[test]
fn drain_all_skips_buffers_that_were_flushed() {
    let mut acc = PartitionAccumulator::new(2);
    let ka = acc.insert(row(1, Some("a"), None));
    acc.insert(row(2, Some("b"), None));
    acc.insert(row(3, Some("a"), None));
    assert_eq!(ids(&acc.maybe_flush(&ka).unwrap()), vec![1, 3]);
    let drained = acc.drain_all();
    assert_eq!(drained.len(), 1);
    assert_eq!(drained[0].0 .0, "b");
    assert_eq!(ids(&drained[0].1), vec![2]);
}

#[test]
fn every_inserted_row_comes_out_exactly_once() {
    let mut acc = PartitionAccumulator::new(4);
    let categories = ["a", "b", "c"];
    let mut inserted: Vec<Vec<i32>> = vec![Vec::new(), Vec::new(), Vec::new()];
    let mut returned: Vec<Vec<i32>> = vec![Vec::new(), Vec::new(), Vec::new()];
    for i in 0..50 {
        let c = ((i * 7) % 5) as usize % 3;
        let k = acc.insert(row(i, Some(categories[c]), None));
        inserted[c].push(i);
        if let Some(rows) = acc.maybe_flush(&k) {
            assert!(rows.len() >= 4);
            returned[c].extend(ids(&rows));
        }
    }
    for (k, rows) in acc.drain_all() {
        let c = categories.iter().position(|x| *x == k.0).unwrap();
        assert!(!rows.is_empty());
        returned[c].extend(ids(&rows));
    }
    assert_eq!(inserted, returned);
    assert_eq!(returned.iter().map(|v| v.len()).sum::<usize>(), 50);
}

#[test]
fn insert_under_takes_a_key_of_the_callers_choice() {
    let mut acc = PartitionAccumulator::new(2);
    let custom = key("42", "SensorClusterA", "Temperature", "1");
    acc.insert_under(clone_key(&custom), row(1, None, None));
    acc.insert_under(clone_key(&custom), row(2, Some("elsewhere"), None));
    assert_eq!(acc.pending(&custom), 2);
    assert_eq!(acc.pending(&key("elsewhere", "unknown", "unknown", "unknown")), 0);
    assert_eq!(ids(&acc.maybe_flush(&custom).unwrap()), vec![1, 2]);
}

#[test]
fn keys_are_told_apart_by_every_component() {
    let mut acc = PartitionAccumulator::new(9);
    let base = key("a", "b", "c", "d");
    acc.insert_under(clone_key(&base), row(0, None, None));
    acc.insert_under(key("x", "b", "c", "d"), row(1, None, None));
    acc.insert_under(key("a", "x", "c", "d"), row(2, None, None));
    acc.insert_under(key("a", "b", "x", "d"), row(3, None, None));
    acc.insert_under(key("a", "b", "c", "x"), row(4, None, None));
    acc.insert_under(key("ab", "", "c", "d"), row(5, None, None));
    acc.insert_under(key("a", "b", "c", "d"), row(6, None, None));
    assert_eq!(acc.pending(&base), 2);
    let drained = acc.drain_all();
    assert_eq!(drained.len(), 6);
    assert_eq!(ids(&drained[0].1), vec![0, 6]);
    for (i, (_, rows)) in drained.iter().enumerate().skip(1) {
        assert_eq!(ids(rows), vec![i as i32]);
    }
}

#[test]
fn partition_records_groups_a_batch_by_key() {
    let rows = vec![
        row(1, Some("science"), Some("fast")),
        row(2, Some("engineering"), Some("fast")),
        row(3, Some("science"), Some("fast")),
        row(4, None, None),
        row(5, Some("science"), Some("robust")),
        row(6, None, None),
    ];
    let parts = partition_records(rows.clone());
    assert_eq!(parts.len(), 4);
    assert_eq!(parts[0].0, key("science", "fast", "unknown", "unknown"));
    assert_eq!(parts[0].1, vec![rows[0].clone(), rows[2].clone()]);
    assert_eq!(parts[1].0, key("engineering", "fast", "unknown", "unknown"));
    assert_eq!(ids(&parts[1].1), vec![2]);
    assert_eq!(parts[2].0, key("unknown", "unknown", "unknown", "unknown"));
    assert_eq!(ids(&parts[2].1), vec![4, 6]);
    assert_eq!(parts[3].0, key("science", "robust", "unknown", "unknown"));
    assert_eq!(ids(&parts[3].1), vec![5]);
    assert_eq!(partition_records(Vec::new()), Vec::new());
    assert_eq!(partition_records(rows.clone()), partition_records(rows));
}

#[test]
fn partition_segments_name_the_directory_levels() {
    let k = key("Temperature", "tag1", "US", "8f283082080");
    assert_eq!(
        partition_segments(&k),
        vec!["category=Temperature", "tag=tag1", "country_code=US", "h3_cell=8f283082080"]
    );
    let unknown = assign(&FlatRow::new());
    assert_eq!(
        partition_segments(&unknown),
        vec!["category=unknown", "tag=unknown", "country_code=unknown", "h3_cell=unknown"]
    );
    assert_eq!(partition_segments(&key("", "", "", "")).join("/"), "category=/tag=/country_code=/h3_cell=");
}

#[test]
fn shared_accumulator_behaves_like_the_plain_one_on_one_thread() {
    let acc = SharedAccumulator::new(2);
    assert_eq!(acc.threshold(), 2);
    let k = acc.insert(row(1, Some("x"), None));
    assert_eq!(k, key("x", "unknown", "unknown", "unknown"));
    assert_eq!(acc.pending(&k), 1);
    assert_eq!(acc.maybe_flush(&k), None);
    acc.insert(row(2, Some("y"), None));
    acc.insert(row(3, Some("x"), None));
    assert_eq!(ids(&acc.maybe_flush(&k).unwrap()), vec![1, 3]);
    assert_eq!(acc.pending(&k), 0);
    let drained = acc.drain_all();
    assert_eq!(drained.len(), 1);
    assert_eq!(drained[0].0, key("y", "unknown", "unknown", "unknown"));
    assert_eq!(ids(&drained[0].1), vec![2]);
    assert_eq!(acc.drain_all(), Vec::new());
}

#[test]
fn shared_accumulator_loses_no_row_under_concurrent_inserts() {
    let acc = SharedAccumulator::new(50);
    let flushed: std::sync::Mutex<Vec<i32>> = std::sync::Mutex::new(Vec::new());
    rayon::scope(|s| {
        for t in 0..8 {
            let acc = &acc;
            let flushed = &flushed;
            s.spawn(move |_| {
                let categories = ["a", "b", "c"];
                for i in 0..500 {
                    let id = t * 500 + i;
                    let k = acc.insert(row(id, Some(categories[(id % 3) as usize]), None));
                    if let Some(rows) = acc.maybe_flush(&k) {
                        assert!(rows.len() >= 50);
                        for r in rows.iter() {
                            assert_eq!(assign(r), k);
                        }
                        flushed.lock().unwrap().extend(ids(&rows));
                    }
                }
            });
        }
    });
    let mut all = flushed.into_inner().unwrap();
    let drained = acc.drain_all();
    assert!(drained.len() <= 3);
    for (k, rows) in drained {
        assert!(!rows.is_empty());
        for r in rows.iter() {
            assert_eq!(assign(r), k);
        }
        all.extend(ids(&rows));
    }
    all.sort();
    assert_eq!(all, (0..4000).collect::<Vec<i32>>());
    assert_eq!(acc.drain_all(), Vec::new());
}

#[test]
fn insert_and_flush_returns_the_buffer_that_ends_with_the_row() {
    let acc = SharedAccumulator::new(3);
    let (k1, f1) = acc.insert_and_flush(row(1, Some("x"), None));
    assert_eq!(k1, key("x", "unknown", "unknown", "unknown"));
    assert_eq!(f1, None);
    let (_, f2) = acc.insert_and_flush(row(2, Some("y"), None));
    assert_eq!(f2, None);
    let (_, f3) = acc.insert_and_flush(row(3, Some("x"), None));
    assert_eq!(f3, None);
    let (k4, f4) = acc.insert_and_flush(row(4, Some("x"), None));
    assert_eq!(k4, k1);
    let rows = f4.unwrap();
    assert_eq!(ids(&rows), vec![1, 3, 4]);
    assert_eq!(rows.last(), Some(&row(4, Some("x"), None)));
    assert_eq!(acc.pending(&k1), 0);
    assert_eq!(acc.pending(&key("y", "unknown", "unknown", "unknown")), 1);
}

#[test]
fn insert_and_flush_with_a_threshold_of_at_most_one_always_returns_a_buffer() {
    for threshold in [0, 1] {
        let acc = SharedAccumulator::new(threshold);
        for i in 0..5 {
            let given = row(i, Some("x"), None);
            let (k, flushed) = acc.insert_and_flush(given.clone());
            assert_eq!(k, assign(&given));
            assert_eq!(flushed, Some(vec![given]));
        }
        // a row that was inserted without a flush comes off with the next
        acc.insert(row(10, Some("x"), None));
        let (_, flushed) = acc.insert_and_flush(row(11, Some("x"), None));
        assert_eq!(ids(&flushed.unwrap()), vec![10, 11]);
        assert_eq!(acc.drain_all(), Vec::new());
    }
}
