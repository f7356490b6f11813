use flatrows::expand::{cross_rows, flatten_group, Flatten};
use flatrows::row::{FlatRow, FloatBits};
use flatrows::tree::{
    expand_ids, expand_texts, expand_values, Business, History, Location, Measurement, Method,
    Physics, Reading, Record, Region, RegionID, RootText, Stat,
};

fn text(s: &str) -> Option<String> {
    Some(s.to_string())
}

fn num(x: f64) -> Option<FloatBits> {
    Some(FloatBits { bits: x.to_bits() })
}

fn empty_record() -> Record {
    Record {
        id: None,
        name: None,
        value: None,
        category: None,
        tags: None,
        meta_created: None,
        meta_updated: None,
        readings: None,
        measurements: None,
        locations: None,
        statistics: None,
    }
}

fn empty_stat() -> Stat {
    Stat { mean: None, mode: None, range: None, physics: None, history: None, business: None }
}

fn reading(n: u32) -> Reading {
    Reading {
        timestamp: text(&format!("2025-11-01T00:{:02}:00Z", n)),
        sensor: text(&format!("therm-{:02}", n)),
        value: num(20.0 + n as f64),
    }
}

#[test]
fn empty_record_gives_one_blank_row() {
    let rows = empty_record().flatten();
    assert_eq!(rows.len(), 1);
    assert_eq!(rows[0], FlatRow::new());
    assert_eq!(rows[0], FlatRow::default());
}

#[test]
fn empty_groups_count_as_absent() {
    let mut record = empty_record();
    record.id = Some(vec![]);
    record.tags = Some(vec![]);
    record.readings = Some(vec![]);
    record.statistics = Some(vec![]);
    let rows = record.flatten();
    assert_eq!(rows.len(), 1);
    assert_eq!(rows[0], FlatRow::new());
}

#[test]
fn two_ids_one_tag_one_reading_give_two_rows() {
    let mut record = empty_record();
    record.id = Some(vec![1, 2]);
    record.tags = Some(vec!["x".to_string()]);
    record.readings = Some(vec![reading(7)]);
    let rows = record.flatten();
    assert_eq!(rows.len(), 2);
    assert_eq!(rows[0].id, Some(1));
    assert_eq!(rows[1].id, Some(2));
    for row in rows.iter() {
        assert_eq!(row.tag, text("x"));
        assert_eq!(row.reading_timestamp, text("2025-11-01T00:07:00Z"));
        assert_eq!(row.reading_sensor, text("therm-07"));
        assert_eq!(row.reading_value, num(27.0));
        assert_eq!(row.measurement_type, None);
        assert_eq!(row.lat, None);
        assert_eq!(row.stat_mean, None);
        assert_eq!(row.name, None);
    }
    let mut second = rows[1].clone();
    second.id = Some(1);
    assert_eq!(rows[0], second);
}

#[test]
fn two_ids_three_tags_two_readings_give_twelve_rows() {
    let mut record = empty_record();
    record.id = Some(vec![10, 20]);
    record.tags = Some(vec!["a".to_string(), "b".to_string(), "c".to_string()]);
    record.readings = Some(vec![reading(0), reading(1)]);
    let rows = record.flatten();
    assert_eq!(rows.len(), 12);
    let ids = [10, 20];
    let tags = ["a", "b", "c"];
    for i in 0..2 {
        for t in 0..3 {
            for r in 0..2 {
                let row = &rows[(i * 3 + t) * 2 + r];
                assert_eq!(row.id, Some(ids[i]));
                assert_eq!(row.tag, text(tags[t]));
                assert_eq!(row.reading_sensor, text(&format!("therm-{:02}", r)));
            }
        }
    }
}

#[test]
fn record_groups_multiply_in_declared_order() {
    let record = Record {
        id: Some(vec![1, 2]),
        name: Some(vec!["n".to_string()]),
        value: Some(vec![5, 6, 7]),
        category: Some(vec!["c".to_string()]),
        tags: None,
        meta_created: Some(vec!["2025-10-23".to_string()]),
        meta_updated: Some(vec!["2025-10-24".to_string(), "2025-10-25".to_string()]),
        readings: None,
        measurements: Some(vec![Measurement {
            kind: text("MType"),
            data: text("MData"),
            method: Some(vec![
                Method { max: Some(100), min: Some(0), hash: num(0.0) },
                Method { max: Some(101), min: Some(1), hash: num(0.5) },
            ]),
        }]),
        locations: None,
        statistics: None,
    };
    let rows = record.flatten();
    assert_eq!(rows.len(), 2 * 3 * 2 * 2);
    assert_eq!(rows[0].id, Some(1));
    assert_eq!(rows[0].value, Some(5));
    assert_eq!(rows[0].meta_updated, text("2025-10-24"));
    assert_eq!(rows[0].method_max, Some(100));
    assert_eq!(rows[1].method_max, Some(101));
    assert_eq!(rows[1].meta_updated, text("2025-10-24"));
    assert_eq!(rows[2].meta_updated, text("2025-10-25"));
    assert_eq!(rows[2].method_max, Some(100));
    assert_eq!(rows[4].value, Some(6));
    assert_eq!(rows[12].id, Some(2));
    assert_eq!(rows[23].id, Some(2));
    assert_eq!(rows[23].value, Some(7));
    assert_eq!(rows[23].method_min, Some(1));
    for row in rows.iter() {
        assert_eq!(row.name, text("n"));
        assert_eq!(row.category, text("c"));
        assert_eq!(row.meta_created, text("2025-10-23"));
        assert_eq!(row.measurement_type, text("MType"));
        assert_eq!(row.measurement_data, text("MData"));
        assert_eq!(row.tag, None);
        assert_eq!(row.z_key, None);
    }
}

#[test]
fn leaves_flatten_into_one_row() {
    let b = Business { revenue: num(1000.0), outlook: text("good") };
    let rows = b.flatten();
    assert_eq!(rows.len(), 1);
    assert_eq!(rows[0].business_revenue, num(1000.0));
    assert_eq!(rows[0].business_outlook, text("good"));
    assert_eq!(rows[0].history_trend, None);

    let h = History { previous: text("prev"), trend: None };
    let rows = h.flatten();
    assert_eq!(rows.len(), 1);
    assert_eq!(rows[0].history_previous, text("prev"));
    assert_eq!(rows[0].history_trend, None);

    let p = Physics { velocity: num(1.0), acceleration: num(0.1), mass: num(5.0) };
    let rows = p.flatten();
    assert_eq!(rows.len(), 1);
    assert_eq!(rows[0].physics_velocity, num(1.0));
    assert_eq!(rows[0].physics_acceleration, num(0.1));
    assert_eq!(rows[0].physics_mass, num(5.0));

    let m = Method { max: Some(9), min: Some(1), hash: num(0.25) };
    let rows = m.flatten();
    assert_eq!(rows.len(), 1);
    assert_eq!((rows[0].method_max, rows[0].method_min), (Some(9), Some(1)));
    assert_eq!(rows[0].method_hash, num(0.25));

    let r = RegionID { region_hash: text("hash0"), region_id: text("RID0") };
    let rows = r.flatten();
    assert_eq!(rows.len(), 1);
    assert_eq!(rows[0].region_hash, text("hash0"));
    assert_eq!(rows[0].region_id, text("RID0"));

    let rows = reading(3).flatten();
    assert_eq!(rows.len(), 1);
    assert_eq!(rows[0].reading_sensor, text("therm-03"));
    let mut expected = FlatRow::new();
    expected.reading_timestamp = text("2025-11-01T00:03:00Z");
    expected.reading_sensor = text("therm-03");
    expected.reading_value = num(23.0);
    assert_eq!(rows[0], expected);
}

#[test]
fn stat_multiplies_its_three_groups() {
    let stat = Stat {
        mean: Some(10),
        mode: Some(20),
        range: None,
        physics: Some(vec![
            Physics { velocity: num(1.0), acceleration: None, mass: None },
            Physics { velocity: num(2.0), acceleration: None, mass: None },
            Physics { velocity: num(3.0), acceleration: None, mass: None },
        ]),
        history: Some(vec![
            History { previous: text("prev0"), trend: text("trend0") },
            History { previous: text("prev1"), trend: text("trend1") },
        ]),
        business: Some(vec![
            Business { revenue: num(1000.0), outlook: text("outlook0") },
            Business { revenue: num(1500.0), outlook: text("outlook1") },
        ]),
    };
    let rows = stat.flatten();
    assert_eq!(rows.len(), 12);
    for p in 0..3 {
        for h in 0..2 {
            for b in 0..2 {
                let row = &rows[(p * 2 + h) * 2 + b];
                assert_eq!(row.stat_mean, Some(10));
                assert_eq!(row.stat_mode, Some(20));
                assert_eq!(row.stat_range, None);
                assert_eq!(row.physics_velocity, num(1.0 + p as f64));
                assert_eq!(row.history_previous, text(&format!("prev{}", h)));
                assert_eq!(row.business_outlook, text(&format!("outlook{}", b)));
            }
        }
    }
}

#[test]
fn stat_without_children_keeps_its_own_fields() {
    let mut stat = empty_stat();
    stat.mean = Some(4);
    stat.history = Some(vec![]);
    let rows = stat.flatten();
    assert_eq!(rows.len(), 1);
    let mut expected = FlatRow::new();
    expected.stat_mean = Some(4);
    assert_eq!(rows[0], expected);
    assert_eq!(empty_stat().flatten(), vec![FlatRow::new()]);
}

#[test]
fn region_lays_its_fields_over_each_identifier() {
    let region = Region {
        h3_cell: text("8f28308208"),
        country_code: text("US"),
        region_ID: Some(vec![
            RegionID { region_hash: text("hash0"), region_id: text("RID0") },
            RegionID { region_hash: text("hash1"), region_id: None },
        ]),
    };
    let rows = region.flatten();
    assert_eq!(rows.len(), 2);
    assert_eq!(rows[0].region_id, text("RID0"));
    assert_eq!(rows[1].region_hash, text("hash1"));
    assert_eq!(rows[1].region_id, None);
    for row in rows.iter() {
        assert_eq!(row.h3_cell, text("8f28308208"));
        assert_eq!(row.country_code, text("US"));
    }
    let bare = Region { h3_cell: text("8f"), country_code: None, region_ID: None };
    let rows = bare.flatten();
    assert_eq!(rows.len(), 1);
    assert_eq!(rows[0].h3_cell, text("8f"));
    assert_eq!(rows[0].country_code, None);
    assert_eq!(rows[0].region_id, None);
}

#[test]
fn location_concatenates_the_rows_of_its_regions() {
    let location = Location {
        lat: num(40.0),
        lon: num(-105.0),
        region: Some(vec![
            Region {
                h3_cell: text("a"),
                country_code: text("US"),
                region_ID: Some(vec![
                    RegionID { region_hash: text("h0"), region_id: text("r0") },
                    RegionID { region_hash: text("h1"), region_id: text("r1") },
                ]),
            },
            Region { h3_cell: text("b"), country_code: text("CA"), region_ID: None },
        ]),
    };
    let rows = location.flatten();
    assert_eq!(rows.len(), 3);
    assert_eq!(rows[0].h3_cell, text("a"));
    assert_eq!(rows[0].region_id, text("r0"));
    assert_eq!(rows[1].h3_cell, text("a"));
    assert_eq!(rows[1].region_id, text("r1"));
    assert_eq!(rows[2].h3_cell, text("b"));
    assert_eq!(rows[2].country_code, text("CA"));
    assert_eq!(rows[2].region_id, None);
    for row in rows.iter() {
        assert_eq!(row.lat, num(40.0));
        assert_eq!(row.lon, num(-105.0));
    }
}

#[test]
fn measurement_without_methods_gives_one_row() {
    let m = Measurement { kind: text("T"), data: text("D"), method: None };
    let rows = m.flatten();
    assert_eq!(rows.len(), 1);
    assert_eq!(rows[0].measurement_type, text("T"));
    assert_eq!(rows[0].measurement_data, text("D"));
    assert_eq!(rows[0].method_max, None);
}

#[test]
fn full_record_has_the_product_of_its_group_sizes() {
    let record = Record {
        id: Some(vec![42]),
        name: Some(vec!["SensorClusterA".to_string()]),
        value: Some(vec![1]),
        category: Some(vec!["Temperature".to_string()]),
        tags: Some(vec!["tag1".to_string(), "tag2".to_string(), "tag3".to_string()]),
        meta_created: Some(vec!["2025-11-01T00:00Z".to_string()]),
        meta_updated: Some(vec!["2025-11-01T12:00Z".to_string()]),
        readings: Some((0..4).map(reading).collect()),
        measurements: Some(
            (0..3)
                .map(|i| Measurement {
                    kind: text(&format!("MType{}", i)),
                    data: text(&format!("MData{}", i)),
                    method: Some(
                        (0..2u64)
                            .map(|j| Method { max: Some(100 + j), min: Some(j), hash: None })
                            .collect(),
                    ),
                })
                .collect(),
        ),
        locations: Some(
            (0..2)
                .map(|i| Location {
                    lat: num(40.0 + i as f64 * 0.1),
                    lon: num(-105.0),
                    region: Some(vec![Region {
                        h3_cell: text(&format!("8f28308208{}", i)),
                        country_code: text("US"),
                        region_ID: Some(vec![RegionID {
                            region_hash: text(&format!("hash{}", i)),
                            region_id: text(&format!("RID{}", i)),
                        }]),
                    }]),
                })
                .collect(),
        ),
        statistics: Some(vec![Stat {
            mean: Some(10),
            mode: Some(20),
            range: Some(5),
            physics: Some(vec![
                Physics { velocity: num(1.0), acceleration: num(0.0), mass: num(5.0) },
                Physics { velocity: num(2.0), acceleration: num(0.1), mass: num(6.0) },
            ]),
            history: None,
            business: Some(vec![Business { revenue: num(1000.0), outlook: text("o") }]),
        }]),
    };
    let rows = record.flatten();
    // tags 3, readings 4, measurements 3 * 2, locations 2, statistics 2 * 1 * 1
    assert_eq!(rows.len(), 3 * 4 * 6 * 2 * 2);
    for row in rows.iter() {
        assert_eq!(row.id, Some(42));
        assert_eq!(row.name, text("SensorClusterA"));
        assert_eq!(row.stat_range, Some(5));
        assert_eq!(row.business_outlook, text("o"));
        assert_eq!(row.country_code, text("US"));
        assert!(row.tag.is_some());
        assert!(row.reading_sensor.is_some());
        assert!(row.method_max.is_some());
        assert!(row.region_id.is_some());
        assert!(row.physics_mass.is_some());
        assert_eq!(row.history_trend, None);
    }
    let last = &rows[rows.len() - 1];
    assert_eq!(last.tag, text("tag3"));
    assert_eq!(last.reading_sensor, text("therm-03"));
    assert_eq!(last.measurement_type, text("MType2"));
    assert_eq!(last.method_max, Some(101));
    assert_eq!(last.region_id, text("RID1"));
    assert_eq!(last.physics_velocity, num(2.0));
}

#[test]
fn flatten_twice_gives_the_same_rows() {
    let mut record = empty_record();
    record.id = Some(vec![3, 1, 2]);
    record.tags = Some(vec!["b".to_string(), "a".to_string()]);
    record.readings = Some(vec![reading(2), reading(1)]);
    let first = record.flatten();
    let second = record.flatten();
    assert_eq!(first, second);
    assert_eq!(first, record.clone().flatten());
    assert_eq!(first.len(), 12);
}

#[test]
fn flatten_group_substitutes_one_blank_row() {
    let none: Option<Vec<Reading>> = None;
    assert_eq!(flatten_group(&none), vec![FlatRow::new()]);
    let empty: Option<Vec<Reading>> = Some(vec![]);
    assert_eq!(flatten_group(&empty), vec![FlatRow::new()]);
    let two = Some(vec![reading(0), reading(1)]);
    let rows = flatten_group(&two);
    assert_eq!(rows.len(), 2);
    assert_eq!(rows[0].reading_sensor, text("therm-00"));
    assert_eq!(rows[1].reading_sensor, text("therm-01"));
}

#[test]
fn scalar_fields_expand_to_one_row_each() {
    assert_eq!(expand_ids(&None), vec![FlatRow::new()]);
    assert_eq!(expand_ids(&Some(vec![])), vec![FlatRow::new()]);
    let rows = expand_ids(&Some(vec![7, -1]));
    assert_eq!(rows.len(), 2);
    assert_eq!(rows[0].id, Some(7));
    assert_eq!(rows[1].id, Some(-1));
    assert_eq!(rows[1].value, None);

    assert_eq!(expand_values(&None), vec![FlatRow::new()]);
    let rows = expand_values(&Some(vec![u64::MAX]));
    assert_eq!(rows.len(), 1);
    assert_eq!(rows[0].value, Some(u64::MAX));
    assert_eq!(rows[0].id, None);

    let texts = Some(vec!["p".to_string(), "q".to_string()]);
    let rows = expand_texts(&texts, RootText::Name);
    assert_eq!((rows[0].name.clone(), rows[1].name.clone()), (text("p"), text("q")));
    let rows = expand_texts(&texts, RootText::Category);
    assert_eq!(rows[1].category, text("q"));
    assert_eq!(rows[1].name, None);
    let rows = expand_texts(&texts, RootText::Tag);
    assert_eq!(rows[0].tag, text("p"));
    let rows = expand_texts(&texts, RootText::MetaCreated);
    assert_eq!(rows[0].meta_created, text("p"));
    let rows = expand_texts(&texts, RootText::MetaUpdated);
    assert_eq!(rows[1].meta_updated, text("q"));
    assert_eq!(expand_texts(&None, RootText::Tag), vec![FlatRow::new()]);
}

#[test]
fn cross_rows_merges_every_pair_in_row_major_order() {
    let a = expand_ids(&Some(vec![1, 2]));
    let b = expand_values(&Some(vec![10, 20, 30]));
    let rows = cross_rows(&a, &b);
    assert_eq!(rows.len(), 6);
    let pairs: Vec<(Option<i32>, Option<u64>)> = rows.iter().map(|r| (r.id, r.value)).collect();
    assert_eq!(
        pairs,
        vec![
            (Some(1), Some(10)),
            (Some(1), Some(20)),
            (Some(1), Some(30)),
            (Some(2), Some(10)),
            (Some(2), Some(20)),
            (Some(2), Some(30)),
        ]
    );
    assert_eq!(cross_rows(&a, &Vec::new()).len(), 0);
    assert_eq!(cross_rows(&Vec::new(), &b).len(), 0);
    assert_eq!(cross_rows(&a, &vec![FlatRow::new()]), a);
    assert_eq!(cross_rows(&vec![FlatRow::new()], &b), b);
}

#[test]
fn merge_takes_the_left_value_where_both_are_present() {
    let mut left = FlatRow::new();
    left.id = Some(1);
    left.name = text("left");
    let mut right = FlatRow::new();
    right.id = Some(2);
    right.tag = text("right");
    right.lat = num(1.5);
    let merged = left.merge(&right);
    assert_eq!(merged.id, Some(1));
    assert_eq!(merged.name, text("left"));
    assert_eq!(merged.tag, text("right"));
    assert_eq!(merged.lat, num(1.5));
    assert_eq!(merged.lon, None);
    assert_eq!(left.merge(&FlatRow::new()), left);
    assert_eq!(FlatRow::new().merge(&right), right);
}
