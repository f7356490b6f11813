use flatrows::column::{read_column, Cell, Column, ColumnKind, COLUMN_COUNT};
use flatrows::row::{FlatRow, FloatBits};

fn sample() -> FlatRow {
    let mut r = FlatRow::new();
    r.id = Some(-7);
    r.name = Some("n".to_string());
    r.value = Some(9);
    r.reading_value = Some(FloatBits { bits: 21.5f64.to_bits() });
    r.lat = Some(FloatBits { bits: (-105.25f64).to_bits() });
    r.h3_res3 = Some("89283082813ffff".to_string());
    r.date_id = Some(20251105);
    r.z_key = Some(1);
    r
}

#[test]
fn there_are_thirty_four_columns_in_declared_order() {
    let all = Column::all();
    assert_eq!(all.len(), COLUMN_COUNT);
    assert_eq!(all.len(), 34);
    assert_eq!(all[0], Column::Id);
    assert_eq!(all[1], Column::Name);
    assert_eq!(all[4], Column::Tag);
    assert_eq!(all[9], Column::ReadingValue);
    assert_eq!(all[30], Column::BusinessOutlook);
    assert_eq!(all[33], Column::ZKey);
    for (i, a) in all.iter().enumerate() {
        for b in all.iter().skip(i + 1) {
            assert_ne!(a, b);
            assert_ne!(a.label(), b.label());
        }
    }
}

#[test]
fn columns_are_named_like_the_fields() {
    assert_eq!(Column::Id.label(), "id");
    assert_eq!(Column::MetaCreated.label(), "meta_created");
    assert_eq!(Column::ReadingTimestamp.label(), "reading_timestamp");
    assert_eq!(Column::MeasurementType.label(), "measurement_type");
    assert_eq!(Column::H3Cell.label(), "h3_cell");
    assert_eq!(Column::CountryCode.label(), "country_code");
    assert_eq!(Column::PhysicsAcceleration.label(), "physics_acceleration");
    assert_eq!(Column::BusinessRevenue.label(), "business_revenue");
    assert_eq!(Column::H3Res3.label(), "h3_res3");
    assert_eq!(Column::DateId.label(), "date_id");
    assert_eq!(Column::ZKey.label(), "z_key");
}

#[test]
fn columns_have_the_types_of_the_fields() {
    assert_eq!(Column::Id.value_kind(), ColumnKind::Int32);
    assert_eq!(Column::Value.value_kind(), ColumnKind::UInt64);
    assert_eq!(Column::Name.value_kind(), ColumnKind::Text);
    assert_eq!(Column::ReadingValue.value_kind(), ColumnKind::Float64);
    assert_eq!(Column::MethodHash.value_kind(), ColumnKind::Float64);
    assert_eq!(Column::MethodMax.value_kind(), ColumnKind::UInt64);
    assert_eq!(Column::Lat.value_kind(), ColumnKind::Float64);
    assert_eq!(Column::StatRange.value_kind(), ColumnKind::UInt64);
    assert_eq!(Column::HistoryTrend.value_kind(), ColumnKind::Text);
    assert_eq!(Column::ZKey.value_kind(), ColumnKind::UInt64);
    let kinds: Vec<ColumnKind> = Column::all().iter().map(|c| c.value_kind()).collect();
    assert_eq!(kinds.iter().filter(|k| **k == ColumnKind::Int32).count(), 1);
    assert_eq!(kinds.iter().filter(|k| **k == ColumnKind::UInt64).count(), 8);
    assert_eq!(kinds.iter().filter(|k| **k == ColumnKind::Float64).count(), 8);
    assert_eq!(kinds.iter().filter(|k| **k == ColumnKind::Text).count(), 17);
}

#[test]
fn every_column_of_a_blank_row_is_absent() {
    let blank = FlatRow::new();
    for c in Column::all() {
        assert_eq!(blank.cell(c), Cell::Absent);
    }
}

#[test]
fn cell_reads_what_the_row_holds() {
    let r = sample();
    assert_eq!(r.cell(Column::Id), Cell::Int(-7));
    assert_eq!(r.cell(Column::Name), Cell::Text("n".to_string()));
    assert_eq!(r.cell(Column::Value), Cell::Count(9));
    assert_eq!(r.cell(Column::ReadingValue), Cell::Float(FloatBits { bits: 21.5f64.to_bits() }));
    assert_eq!(r.cell(Column::Lat), Cell::Float(FloatBits { bits: (-105.25f64).to_bits() }));
    assert_eq!(r.cell(Column::Lon), Cell::Absent);
    assert_eq!(r.cell(Column::H3Res3), Cell::Text("89283082813ffff".to_string()));
    assert_eq!(r.cell(Column::DateId), Cell::Count(20251105));
    assert_eq!(r.cell(Column::ZKey), Cell::Count(1));
    assert_eq!(r.cell(Column::Tag), Cell::Absent);
}

#[test]
fn every_cell_has_the_type_of_its_column() {
    let mut full = FlatRow::new();
    let t = || Some("t".to_string());
    let f = || Some(FloatBits { bits: 1.0f64.to_bits() });
    full.id = Some(1);
    full.name = t();
    full.value = Some(2);
    full.category = t();
    full.tag = t();
    full.meta_created = t();
    full.meta_updated = t();
    full.reading_timestamp = t();
    full.reading_sensor = t();
    full.reading_value = f();
    full.measurement_type = t();
    full.measurement_data = t();
    full.method_max = Some(3);
    full.method_min = Some(4);
    full.method_hash = f();
    full.lat = f();
    full.lon = f();
    full.h3_cell = t();
    full.country_code = t();
    full.region_hash = t();
    full.region_id = t();
    full.stat_mean = Some(5);
    full.stat_mode = Some(6);
    full.stat_range = Some(7);
    full.physics_velocity = f();
    full.physics_acceleration = f();
    full.physics_mass = f();
    full.history_previous = t();
    full.history_trend = t();
    full.business_revenue = f();
    full.business_outlook = t();
    full.h3_res3 = t();
    full.date_id = Some(8);
    full.z_key = Some(9);
    for c in Column::all() {
        let cell = full.cell(c);
        let kind = match cell {
            Cell::Absent => panic!("column {} has no value", c.label()),
            Cell::Int(_) => ColumnKind::Int32,
            Cell::Count(_) => ColumnKind::UInt64,
            Cell::Text(_) => ColumnKind::Text,
            Cell::Float(_) => ColumnKind::Float64,
        };
        assert_eq!(kind, c.value_kind());
    }
}

#[test]
fn read_column_reads_one_cell_from_each_row() {
    let mut second = FlatRow::new();
    second.id = Some(2);
    let rows = vec![sample(), second, FlatRow::new()];
    assert_eq!(read_column(&rows, Column::Id), vec![Cell::Int(-7), Cell::Int(2), Cell::Absent]);
    assert_eq!(
        read_column(&rows, Column::Name),
        vec![Cell::Text("n".to_string()), Cell::Absent, Cell::Absent]
    );
    assert_eq!(read_column(&Vec::new(), Column::Id), Vec::new());
    for c in Column::all() {
        assert_eq!(read_column(&rows, c).len(), 3);
    }
}
