use flatrows::expand::Flatten;
use flatrows::index::PartitionKey;
use flatrows::partition::{assign, PartitionAccumulator};
use flatrows::pipeline::{finish, finish_shared, ingest, ingest_shared, order_batches};
use flatrows::row::FlatRow;
use flatrows::shared::SharedAccumulator;
use flatrows::tree::{Location, Reading, Record, Region};
use flatrows::zorder::{row_z_key, z_order_records};
use rayon::iter::{IntoParallelIterator, ParallelIterator};

fn text(s: &str) -> Option<String> {
    Some(s.to_string())
}

fn record(id: i32, category: &str, cells: &[&str]) -> Record {
    Record {
        id: Some(vec![id]),
        name: None,
        value: None,
        category: Some(vec![category.to_string()]),
        tags: None,
        meta_created: None,
        meta_updated: None,
        readings: Some(vec![Reading { timestamp: text("t"), sensor: None, value: None }]),
        measurements: None,
        locations: Some(
            cells
                .iter()
                .map(|c| Location {
                    lat: None,
                    lon: None,
                    region: Some(vec![Region {
                        h3_cell: text(c),
                        country_code: text("US"),
                        region_ID: None,
                    }]),
                })
                .collect(),
        ),
        statistics: None,
    }
}

fn check_ready(key: &PartitionKey, rows: &[FlatRow]) {
    assert!(!rows.is_empty());
    for r in rows {
        assert_eq!(&assign(r), key);
        assert_eq!(r.z_key, Some(row_z_key(r)));
    }
    for pair in rows.windows(2) {
        assert!(pair[0].z_key <= pair[1].z_key);
    }
}

fn tokened(id: i32, token: &str, date: u64) -> FlatRow {
    let mut r = FlatRow::new();
    r.id = Some(id);
    r.h3_res3 = Some(token.to_string());
    r.date_id = Some(date);
    r
}

#[test]
fn order_batches_orders_each_batch_on_its_own() {
    let k1: PartitionKey = ("a".into(), "b".into(), "c".into(), "d".into());
    let k2: PartitionKey = ("e".into(), "f".into(), "g".into(), "h".into());
    let b1 = vec![tokened(1, "3", 3), tokened(2, "0", 0), tokened(3, "1", 1)];
    let b2 = vec![tokened(4, "2", 0), tokened(5, "0", 1)];
    let out = order_batches(vec![(k1.clone(), b1.clone()), (k2.clone(), b2.clone())]);
    assert_eq!(out.len(), 2);
    assert_eq!(out[0].0, k1);
    assert_eq!(out[1].0, k2);
    assert_eq!(out[0].1, z_order_records(b1));
    assert_eq!(out[1].1, z_order_records(b2));
    let ids: Vec<Option<i32>> = out[0].1.iter().map(|r| r.id).collect();
    assert_eq!(ids, vec![Some(2), Some(3), Some(1)]);
    let ids: Vec<Option<i32>> = out[1].1.iter().map(|r| r.id).collect();
    assert_eq!(ids, vec![Some(5), Some(4)]);
    assert_eq!(order_batches(Vec::new()), Vec::new());
}

#[test]
fn ingest_hands_out_a_buffer_as_soon_as_it_is_due() {
    let mut acc = PartitionAccumulator::new(2);
    let rec = record(1, "x", &["8a", "8b", "8a", "8a", "8b", "8c"]);
    let ready = ingest(&mut acc, &rec);
    // 8a is due after its second row, 8b after its second; the third 8a and 8c wait
    assert_eq!(ready.len(), 2);
    assert_eq!(ready[0].0 .3, "8a");
    assert_eq!(ready[1].0 .3, "8b");
    assert_eq!(ready[0].1.len(), 2);
    assert_eq!(ready[1].1.len(), 2);
    for (k, rows) in ready.iter() {
        check_ready(k, rows);
        assert_eq!(k.0, "x");
        assert_eq!(k.2, "US");
    }
    let k8a = ready[0].0.clone();
    assert_eq!(acc.pending(&k8a), 1);
    let rest = finish(&mut acc);
    assert_eq!(rest.len(), 2);
    assert_eq!(rest[0].0 .3, "8a");
    assert_eq!(rest[1].0 .3, "8c");
    for (k, rows) in rest.iter() {
        check_ready(k, rows);
        assert_eq!(rows.len(), 1);
    }
    assert_eq!(finish(&mut acc), Vec::new());
}

#[test]
fn ingest_with_a_high_threshold_leaves_everything_for_the_end() {
    let mut acc = PartitionAccumulator::new(1000);
    let mut total = 0;
    for i in 0..10 {
        let rec = record(i, if i % 2 == 0 { "even" } else { "odd" }, &["8a", "8b"]);
        assert_eq!(ingest(&mut acc, &rec), Vec::new());
        total += 2;
    }
    let ready = finish(&mut acc);
    assert_eq!(ready.len(), 4);
    assert_eq!(ready.iter().map(|(_, rows)| rows.len()).sum::<usize>(), total);
    for (k, rows) in ready.iter() {
        check_ready(k, rows);
        assert_eq!(rows.len(), 5);
    }
    let keys: Vec<(String, String)> =
        ready.iter().map(|(k, _)| (k.0.clone(), k.3.clone())).collect();
    assert_eq!(
        keys,
        vec![
            ("even".to_string(), "8a".to_string()),
            ("even".to_string(), "8b".to_string()),
            ("odd".to_string(), "8a".to_string()),
            ("odd".to_string(), "8b".to_string()),
        ]
    );
}

#[test]
fn ingest_of_an_empty_record_inserts_its_one_blank_row() {
    let mut acc = PartitionAccumulator::new(1);
    let rec = Record {
        id: None,
        name: None,
        value: None,
        category: None,
        tags: None,
        meta_created: None,
        meta_updated: None,
        readings: None,
        measurements: None,
        locations: None,
        statistics: None,
    };
    let ready = ingest(&mut acc, &rec);
    assert_eq!(ready.len(), 1);
    assert_eq!(ready[0].0, assign(&FlatRow::new()));
    assert_eq!(ready[0].1.len(), 1);
    assert_eq!(ready[0].1[0].z_key, Some(row_z_key(&FlatRow::new())));
    assert_eq!(finish(&mut acc), Vec::new());
}

#[test]
fn shared_pipeline_emits_every_row_once() {
    let acc = SharedAccumulator::new(64);
    let emitted: std::sync::Mutex<Vec<i32>> = std::sync::Mutex::new(Vec::new());
    (0..400).into_par_iter().for_each(|i| {
        let rec = record(i, if i % 3 == 0 { "x" } else { "y" }, &["8a", "8b", "8c"]);
        for (k, rows) in ingest_shared(&acc, &rec) {
            check_ready(&k, &rows);
            assert!(rows.len() >= 64);
            emitted.lock().unwrap().extend(rows.iter().map(|r| r.id.unwrap()));
        }
    });
    let mut all = emitted.into_inner().unwrap();
    let last = finish_shared(&acc);
    assert!(last.len() <= 6);
    for (i, (k, rows)) in last.iter().enumerate() {
        check_ready(k, rows);
        for (other, _) in last.iter().skip(i + 1) {
            assert_ne!(k, other);
        }
        all.extend(rows.iter().map(|r| r.id.unwrap()));
    }
    all.sort();
    let expected: Vec<i32> = (0..400).flat_map(|i| [i, i, i]).collect();
    assert_eq!(all, expected);
    assert_eq!(finish_shared(&acc), Vec::new());
}

#[test]
fn shared_ingest_with_a_threshold_of_one_answers_every_row() {
    for threshold in [0, 1] {
        let acc = SharedAccumulator::new(threshold);
        let rec = record(9, "x", &["8a", "8b", "8a"]);
        let rows = rec.flatten();
        let ready = ingest_shared(&acc, &rec);
        assert_eq!(ready.len(), rows.len());
        assert_eq!(ready.len(), 3);
        for (i, (k, batch)) in ready.iter().enumerate() {
            check_ready(k, batch);
            assert_eq!(k, &assign(&rows[i]));
            let mut keyed = rows[i].clone();
            keyed.z_key = Some(row_z_key(&rows[i]));
            assert_eq!(batch, &vec![keyed]);
        }
        assert_eq!(finish_shared(&acc), Vec::new());
    }
}

#[test]
fn shared_ingest_hands_out_only_batches_that_its_own_rows_set_off() {
    let acc = SharedAccumulator::new(2);
    let rec = record(1, "x", &["8a", "8b", "8a", "8a", "8b", "8c"]);
    let rows = rec.flatten();
    let ready = ingest_shared(&acc, &rec);
    assert!(ready.len() <= rows.len());
    assert_eq!(ready.len(), 2);
    assert_eq!(ready[0].0 .3, "8a");
    assert_eq!(ready[1].0 .3, "8b");
    for (k, batch) in ready.iter() {
        check_ready(k, batch);
        assert!(batch.len() >= 2);
        let set_off = rows.iter().any(|r| {
            let mut keyed = r.clone();
            keyed.z_key = Some(row_z_key(r));
            &assign(r) == k && batch.contains(&keyed)
        });
        assert!(set_off);
    }
    let rest = finish_shared(&acc);
    assert_eq!(rest.len(), 2);
    assert_eq!(rest[0].0 .3, "8a");
    assert_eq!(rest[1].0 .3, "8c");
}
