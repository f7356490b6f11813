//! The columns of a row, by name: what a sink needs to lay rows out as a
//! table, one column after the other.

use crate::row::{FlatRow, FloatBits};
use vstd::prelude::*;

verus! {

/// The types of value that a column can hold.
#[derive(Clone, Copy, Debug, PartialEq, Eq, Structural)]
pub enum ColumnKind {
    Int32,
    UInt64,
    Text,
    Float64,
}

/// The columns of a row, in the order in which the row declares them.
#[derive(Clone, Copy, Debug, PartialEq, Eq, Structural)]
pub enum Column {
    Id,
    Name,
    Value,
    Category,
    Tag,
    MetaCreated,
    MetaUpdated,
    ReadingTimestamp,
    ReadingSensor,
    ReadingValue,
    MeasurementType,
    MeasurementData,
    MethodMax,
    MethodMin,
    MethodHash,
    Lat,
    Lon,
    H3Cell,
    CountryCode,
    RegionHash,
    RegionId,
    StatMean,
    StatMode,
    StatRange,
    PhysicsVelocity,
    PhysicsAcceleration,
    PhysicsMass,
    HistoryPrevious,
    HistoryTrend,
    BusinessRevenue,
    BusinessOutlook,
    H3Res3,
    DateId,
    ZKey,
}

/// What a row holds in one column: a value of the column's type, or the
/// marker that says that there is no value.
#[derive(Clone, Debug, PartialEq, Eq)]
pub enum Cell {
    Absent,
    Int(i32),
    Count(u64),
    Text(String),
    Float(FloatBits),
}

/// The cell of an optional signed number.
pub open spec fn int_cell(value: Option<i32>) -> Cell {
    match value {
        Some(v) => Cell::Int(v),
        None => Cell::Absent,
    }
}

/// The cell of an optional unsigned number.
pub open spec fn count_cell(value: Option<u64>) -> Cell {
    match value {
        Some(v) => Cell::Count(v),
        None => Cell::Absent,
    }
}

/// The cell of an optional text.
pub open spec fn text_cell(value: Option<String>) -> Cell {
    match value {
        Some(v) => Cell::Text(v),
        None => Cell::Absent,
    }
}

/// The cell of an optional floating-point number.
pub open spec fn float_cell(value: Option<FloatBits>) -> Cell {
    match value {
        Some(v) => Cell::Float(v),
        None => Cell::Absent,
    }
}

impl Cell {
    /// Whether the cell may stand in a column of the given type: it holds
    /// no value, or a value of that type.
    pub open spec fn fits(self, kind: ColumnKind) -> bool {
        match self {
            Cell::Absent => true,
            Cell::Int(_) => kind == ColumnKind::Int32,
            Cell::Count(_) => kind == ColumnKind::UInt64,
            Cell::Text(_) => kind == ColumnKind::Text,
            Cell::Float(_) => kind == ColumnKind::Float64,
        }
    }
}

/// The number of columns.
pub const COLUMN_COUNT: usize = 34;

impl Column {
    /// The type of the values that the column holds.
    pub open spec fn kind(self) -> ColumnKind {
        match self {
            Column::Id => ColumnKind::Int32,
            Column::Name => ColumnKind::Text,
            Column::Value => ColumnKind::UInt64,
            Column::Category => ColumnKind::Text,
            Column::Tag => ColumnKind::Text,
            Column::MetaCreated => ColumnKind::Text,
            Column::MetaUpdated => ColumnKind::Text,
            Column::ReadingTimestamp => ColumnKind::Text,
            Column::ReadingSensor => ColumnKind::Text,
            Column::ReadingValue => ColumnKind::Float64,
            Column::MeasurementType => ColumnKind::Text,
            Column::MeasurementData => ColumnKind::Text,
            Column::MethodMax => ColumnKind::UInt64,
            Column::MethodMin => ColumnKind::UInt64,
            Column::MethodHash => ColumnKind::Float64,
            Column::Lat => ColumnKind::Float64,
            Column::Lon => ColumnKind::Float64,
            Column::H3Cell => ColumnKind::Text,
            Column::CountryCode => ColumnKind::Text,
            Column::RegionHash => ColumnKind::Text,
            Column::RegionId => ColumnKind::Text,
            Column::StatMean => ColumnKind::UInt64,
            Column::StatMode => ColumnKind::UInt64,
            Column::StatRange => ColumnKind::UInt64,
            Column::PhysicsVelocity => ColumnKind::Float64,
            Column::PhysicsAcceleration => ColumnKind::Float64,
            Column::PhysicsMass => ColumnKind::Float64,
            Column::HistoryPrevious => ColumnKind::Text,
            Column::HistoryTrend => ColumnKind::Text,
            Column::BusinessRevenue => ColumnKind::Float64,
            Column::BusinessOutlook => ColumnKind::Text,
            Column::H3Res3 => ColumnKind::Text,
            Column::DateId => ColumnKind::UInt64,
            Column::ZKey => ColumnKind::UInt64,
        }
    }

    /// The column's name.
    pub open spec fn name(self) -> Seq<char> {
        match self {
            Column::Id => "id"@,
            Column::Name => "name"@,
            Column::Value => "value"@,
            Column::Category => "category"@,
            Column::Tag => "tag"@,
            Column::MetaCreated => "meta_created"@,
            Column::MetaUpdated => "meta_updated"@,
            Column::ReadingTimestamp => "reading_timestamp"@,
            Column::ReadingSensor => "reading_sensor"@,
            Column::ReadingValue => "reading_value"@,
            Column::MeasurementType => "measurement_type"@,
            Column::MeasurementData => "measurement_data"@,
            Column::MethodMax => "method_max"@,
            Column::MethodMin => "method_min"@,
            Column::MethodHash => "method_hash"@,
            Column::Lat => "lat"@,
            Column::Lon => "lon"@,
            Column::H3Cell => "h3_cell"@,
            Column::CountryCode => "country_code"@,
            Column::RegionHash => "region_hash"@,
            Column::RegionId => "region_id"@,
            Column::StatMean => "stat_mean"@,
            Column::StatMode => "stat_mode"@,
            Column::StatRange => "stat_range"@,
            Column::PhysicsVelocity => "physics_velocity"@,
            Column::PhysicsAcceleration => "physics_acceleration"@,
            Column::PhysicsMass => "physics_mass"@,
            Column::HistoryPrevious => "history_previous"@,
            Column::HistoryTrend => "history_trend"@,
            Column::BusinessRevenue => "business_revenue"@,
            Column::BusinessOutlook => "business_outlook"@,
            Column::H3Res3 => "h3_res3"@,
            Column::DateId => "date_id"@,
            Column::ZKey => "z_key"@,
        }
    }

    /// The column's place among the columns, counted from zero.
    pub open spec fn position(self) -> nat {
        match self {
            Column::Id => 0,
            Column::Name => 1,
            Column::Value => 2,
            Column::Category => 3,
            Column::Tag => 4,
            Column::MetaCreated => 5,
            Column::MetaUpdated => 6,
            Column::ReadingTimestamp => 7,
            Column::ReadingSensor => 8,
            Column::ReadingValue => 9,
            Column::MeasurementType => 10,
            Column::MeasurementData => 11,
            Column::MethodMax => 12,
            Column::MethodMin => 13,
            Column::MethodHash => 14,
            Column::Lat => 15,
            Column::Lon => 16,
            Column::H3Cell => 17,
            Column::CountryCode => 18,
            Column::RegionHash => 19,
            Column::RegionId => 20,
            Column::StatMean => 21,
            Column::StatMode => 22,
            Column::StatRange => 23,
            Column::PhysicsVelocity => 24,
            Column::PhysicsAcceleration => 25,
            Column::PhysicsMass => 26,
            Column::HistoryPrevious => 27,
            Column::HistoryTrend => 28,
            Column::BusinessRevenue => 29,
            Column::BusinessOutlook => 30,
            Column::H3Res3 => 31,
            Column::DateId => 32,
            Column::ZKey => 33,
        }
    }

    /// The type of the values that the column holds.
    pub fn value_kind(self) -> (kind: ColumnKind)
        ensures
            kind == self.kind(),
    {
        match self {
            Column::Id => ColumnKind::Int32,
            Column::Name => ColumnKind::Text,
            Column::Value => ColumnKind::UInt64,
            Column::Category => ColumnKind::Text,
            Column::Tag => ColumnKind::Text,
            Column::MetaCreated => ColumnKind::Text,
            Column::MetaUpdated => ColumnKind::Text,
            Column::ReadingTimestamp => ColumnKind::Text,
            Column::ReadingSensor => ColumnKind::Text,
            Column::ReadingValue => ColumnKind::Float64,
            Column::MeasurementType => ColumnKind::Text,
            Column::MeasurementData => ColumnKind::Text,
            Column::MethodMax => ColumnKind::UInt64,
            Column::MethodMin => ColumnKind::UInt64,
            Column::MethodHash => ColumnKind::Float64,
            Column::Lat => ColumnKind::Float64,
            Column::Lon => ColumnKind::Float64,
            Column::H3Cell => ColumnKind::Text,
            Column::CountryCode => ColumnKind::Text,
            Column::RegionHash => ColumnKind::Text,
            Column::RegionId => ColumnKind::Text,
            Column::StatMean => ColumnKind::UInt64,
            Column::StatMode => ColumnKind::UInt64,
            Column::StatRange => ColumnKind::UInt64,
            Column::PhysicsVelocity => ColumnKind::Float64,
            Column::PhysicsAcceleration => ColumnKind::Float64,
            Column::PhysicsMass => ColumnKind::Float64,
            Column::HistoryPrevious => ColumnKind::Text,
            Column::HistoryTrend => ColumnKind::Text,
            Column::BusinessRevenue => ColumnKind::Float64,
            Column::BusinessOutlook => ColumnKind::Text,
            Column::H3Res3 => ColumnKind::Text,
            Column::DateId => ColumnKind::UInt64,
            Column::ZKey => ColumnKind::UInt64,
        }
    }

    /// The column's name, as the row's field is called.
    pub fn label(self) -> (label: &'static str)
        ensures
            label@ == self.name(),
    {
        match self {
            Column::Id => "id",
            Column::Name => "name",
            Column::Value => "value",
            Column::Category => "category",
            Column::Tag => "tag",
            Column::MetaCreated => "meta_created",
            Column::MetaUpdated => "meta_updated",
            Column::ReadingTimestamp => "reading_timestamp",
            Column::ReadingSensor => "reading_sensor",
            Column::ReadingValue => "reading_value",
            Column::MeasurementType => "measurement_type",
            Column::MeasurementData => "measurement_data",
            Column::MethodMax => "method_max",
            Column::MethodMin => "method_min",
            Column::MethodHash => "method_hash",
            Column::Lat => "lat",
            Column::Lon => "lon",
            Column::H3Cell => "h3_cell",
            Column::CountryCode => "country_code",
            Column::RegionHash => "region_hash",
            Column::RegionId => "region_id",
            Column::StatMean => "stat_mean",
            Column::StatMode => "stat_mode",
            Column::StatRange => "stat_range",
            Column::PhysicsVelocity => "physics_velocity",
            Column::PhysicsAcceleration => "physics_acceleration",
            Column::PhysicsMass => "physics_mass",
            Column::HistoryPrevious => "history_previous",
            Column::HistoryTrend => "history_trend",
            Column::BusinessRevenue => "business_revenue",
            Column::BusinessOutlook => "business_outlook",
            Column::H3Res3 => "h3_res3",
            Column::DateId => "date_id",
            Column::ZKey => "z_key",
        }
    }

    /// All columns, in order.
    pub fn all() -> (columns: Vec<Column>)
        ensures
            columns@.len() == COLUMN_COUNT,
            forall|i: int| 0 <= i < columns@.len() ==> (#[trigger] columns@[i]).position() == i,
            forall|c: Column| #[trigger] columns@[c.position() as int] == c,
    {
        vec![
            Column::Id,
            Column::Name,
            Column::Value,
            Column::Category,
            Column::Tag,
            Column::MetaCreated,
            Column::MetaUpdated,
            Column::ReadingTimestamp,
            Column::ReadingSensor,
            Column::ReadingValue,
            Column::MeasurementType,
            Column::MeasurementData,
            Column::MethodMax,
            Column::MethodMin,
            Column::MethodHash,
            Column::Lat,
            Column::Lon,
            Column::H3Cell,
            Column::CountryCode,
            Column::RegionHash,
            Column::RegionId,
            Column::StatMean,
            Column::StatMode,
            Column::StatRange,
            Column::PhysicsVelocity,
            Column::PhysicsAcceleration,
            Column::PhysicsMass,
            Column::HistoryPrevious,
            Column::HistoryTrend,
            Column::BusinessRevenue,
            Column::BusinessOutlook,
            Column::H3Res3,
            Column::DateId,
            Column::ZKey,
        ]
    }
}

impl FlatRow {
    /// What the row holds in a column.
    pub open spec fn cell_at(self, column: Column) -> Cell {
        match column {
            Column::Id => int_cell(self.id),
            Column::Name => text_cell(self.name),
            Column::Value => count_cell(self.value),
            Column::Category => text_cell(self.category),
            Column::Tag => text_cell(self.tag),
            Column::MetaCreated => text_cell(self.meta_created),
            Column::MetaUpdated => text_cell(self.meta_updated),
            Column::ReadingTimestamp => text_cell(self.reading_timestamp),
            Column::ReadingSensor => text_cell(self.reading_sensor),
            Column::ReadingValue => float_cell(self.reading_value),
            Column::MeasurementType => text_cell(self.measurement_type),
            Column::MeasurementData => text_cell(self.measurement_data),
            Column::MethodMax => count_cell(self.method_max),
            Column::MethodMin => count_cell(self.method_min),
            Column::MethodHash => float_cell(self.method_hash),
            Column::Lat => float_cell(self.lat),
            Column::Lon => float_cell(self.lon),
            Column::H3Cell => text_cell(self.h3_cell),
            Column::CountryCode => text_cell(self.country_code),
            Column::RegionHash => text_cell(self.region_hash),
            Column::RegionId => text_cell(self.region_id),
            Column::StatMean => count_cell(self.stat_mean),
            Column::StatMode => count_cell(self.stat_mode),
            Column::StatRange => count_cell(self.stat_range),
            Column::PhysicsVelocity => float_cell(self.physics_velocity),
            Column::PhysicsAcceleration => float_cell(self.physics_acceleration),
            Column::PhysicsMass => float_cell(self.physics_mass),
            Column::HistoryPrevious => text_cell(self.history_previous),
            Column::HistoryTrend => text_cell(self.history_trend),
            Column::BusinessRevenue => float_cell(self.business_revenue),
            Column::BusinessOutlook => text_cell(self.business_outlook),
            Column::H3Res3 => text_cell(self.h3_res3),
            Column::DateId => count_cell(self.date_id),
            Column::ZKey => count_cell(self.z_key),
        }
    }

    /// Reads one column of the row. Every column can be read in every row:
    /// where the row has no value, the cell says so.
    pub fn cell(&self, column: Column) -> (cell: Cell)
        ensures
            cell == self.cell_at(column),
            cell.fits(column.kind()),
    {
        match column {
            Column::Id => read_int(self.id),
            Column::Name => read_text(&self.name),
            Column::Value => read_count(self.value),
            Column::Category => read_text(&self.category),
            Column::Tag => read_text(&self.tag),
            Column::MetaCreated => read_text(&self.meta_created),
            Column::MetaUpdated => read_text(&self.meta_updated),
            Column::ReadingTimestamp => read_text(&self.reading_timestamp),
            Column::ReadingSensor => read_text(&self.reading_sensor),
            Column::ReadingValue => read_float(self.reading_value),
            Column::MeasurementType => read_text(&self.measurement_type),
            Column::MeasurementData => read_text(&self.measurement_data),
            Column::MethodMax => read_count(self.method_max),
            Column::MethodMin => read_count(self.method_min),
            Column::MethodHash => read_float(self.method_hash),
            Column::Lat => read_float(self.lat),
            Column::Lon => read_float(self.lon),
            Column::H3Cell => read_text(&self.h3_cell),
            Column::CountryCode => read_text(&self.country_code),
            Column::RegionHash => read_text(&self.region_hash),
            Column::RegionId => read_text(&self.region_id),
            Column::StatMean => read_count(self.stat_mean),
            Column::StatMode => read_count(self.stat_mode),
            Column::StatRange => read_count(self.stat_range),
            Column::PhysicsVelocity => read_float(self.physics_velocity),
            Column::PhysicsAcceleration => read_float(self.physics_acceleration),
            Column::PhysicsMass => read_float(self.physics_mass),
            Column::HistoryPrevious => read_text(&self.history_previous),
            Column::HistoryTrend => read_text(&self.history_trend),
            Column::BusinessRevenue => read_float(self.business_revenue),
            Column::BusinessOutlook => read_text(&self.business_outlook),
            Column::H3Res3 => read_text(&self.h3_res3),
            Column::DateId => read_count(self.date_id),
            Column::ZKey => read_count(self.z_key),
        }
    }
}

/// Wraps an optional signed number as a cell.
pub fn read_int(value: Option<i32>) -> (cell: Cell)
    ensures
        cell == int_cell(value),
{
    match value {
        Some(v) => Cell::Int(v),
        None => Cell::Absent,
    }
}

/// Wraps an optional unsigned number as a cell.
pub fn read_count(value: Option<u64>) -> (cell: Cell)
    ensures
        cell == count_cell(value),
{
    match value {
        Some(v) => Cell::Count(v),
        None => Cell::Absent,
    }
}

/// Copies an optional text into a cell.
pub fn read_text(value: &Option<String>) -> (cell: Cell)
    ensures
        cell == text_cell(*value),
{
    match value {
        Some(v) => Cell::Text(v.clone()),
        None => Cell::Absent,
    }
}

/// Wraps an optional floating-point number as a cell.
pub fn read_float(value: Option<FloatBits>) -> (cell: Cell)
    ensures
        cell == float_cell(value),
{
    match value {
        Some(v) => Cell::Float(v),
        None => Cell::Absent,
    }
}

/// One column of a batch: the cells that the rows hold there, in the rows'
/// order.
pub open spec fn column_cells(rows: Seq<FlatRow>, column: Column) -> Seq<Cell> {
    rows.map_values(|row: FlatRow| row.cell_at(column))
}

/// Reads one column out of a batch of rows.
pub fn read_column(rows: &Vec<FlatRow>, column: Column) -> (cells: Vec<Cell>)
    ensures
        cells@ == column_cells(rows@, column),
        cells@.len() == rows@.len(),
{
    let mut cells: Vec<Cell> = Vec::new();
    let n: usize = rows.len();
    let mut i: usize = 0;
    while i < n
        invariant
            i <= n,
            n == rows@.len(),
            cells@.len() == i,
            forall|k: int| 0 <= k < i ==> #[trigger] cells@[k] == rows@[k].cell_at(column),
        decreases n - i,
    {
        cells.push(rows[i].cell(column));
        i += 1;
    }
    assert(cells@ =~= column_cells(rows@, column));
    cells
}

/// Column completeness: every row has, in every column, either a value of
/// the column's type or the marker for "no value". No column is missing
/// from any row, and none holds a value of another type.
pub proof fn every_cell_fits(row: FlatRow, column: Column)
    ensures
        row.cell_at(column).fits(column.kind()),
{
}

/// The blank row has no value in any column.
pub proof fn blank_row_is_absent_everywhere(column: Column)
    ensures
        FlatRow::blank().cell_at(column) == Cell::Absent,
{
}

/// Two rows that agree in every column are the same row.
pub proof fn rows_are_their_cells(a: FlatRow, b: FlatRow)
    requires
        forall|column: Column| a.cell_at(column) == b.cell_at(column),
    ensures
        a == b,
{
    assert(a.cell_at(Column::Id) == b.cell_at(Column::Id));
    assert(a.cell_at(Column::Name) == b.cell_at(Column::Name));
    assert(a.cell_at(Column::Value) == b.cell_at(Column::Value));
    assert(a.cell_at(Column::Category) == b.cell_at(Column::Category));
    assert(a.cell_at(Column::Tag) == b.cell_at(Column::Tag));
    assert(a.cell_at(Column::MetaCreated) == b.cell_at(Column::MetaCreated));
    assert(a.cell_at(Column::MetaUpdated) == b.cell_at(Column::MetaUpdated));
    assert(a.cell_at(Column::ReadingTimestamp) == b.cell_at(Column::ReadingTimestamp));
    assert(a.cell_at(Column::ReadingSensor) == b.cell_at(Column::ReadingSensor));
    assert(a.cell_at(Column::ReadingValue) == b.cell_at(Column::ReadingValue));
    assert(a.cell_at(Column::MeasurementType) == b.cell_at(Column::MeasurementType));
    assert(a.cell_at(Column::MeasurementData) == b.cell_at(Column::MeasurementData));
    assert(a.cell_at(Column::MethodMax) == b.cell_at(Column::MethodMax));
    assert(a.cell_at(Column::MethodMin) == b.cell_at(Column::MethodMin));
    assert(a.cell_at(Column::MethodHash) == b.cell_at(Column::MethodHash));
    assert(a.cell_at(Column::Lat) == b.cell_at(Column::Lat));
    assert(a.cell_at(Column::Lon) == b.cell_at(Column::Lon));
    assert(a.cell_at(Column::H3Cell) == b.cell_at(Column::H3Cell));
    assert(a.cell_at(Column::CountryCode) == b.cell_at(Column::CountryCode));
    assert(a.cell_at(Column::RegionHash) == b.cell_at(Column::RegionHash));
    assert(a.cell_at(Column::RegionId) == b.cell_at(Column::RegionId));
    assert(a.cell_at(Column::StatMean) == b.cell_at(Column::StatMean));
    assert(a.cell_at(Column::StatMode) == b.cell_at(Column::StatMode));
    assert(a.cell_at(Column::StatRange) == b.cell_at(Column::StatRange));
    assert(a.cell_at(Column::PhysicsVelocity) == b.cell_at(Column::PhysicsVelocity));
    assert(a.cell_at(Column::PhysicsAcceleration) == b.cell_at(Column::PhysicsAcceleration));
    assert(a.cell_at(Column::PhysicsMass) == b.cell_at(Column::PhysicsMass));
    assert(a.cell_at(Column::HistoryPrevious) == b.cell_at(Column::HistoryPrevious));
    assert(a.cell_at(Column::HistoryTrend) == b.cell_at(Column::HistoryTrend));
    assert(a.cell_at(Column::BusinessRevenue) == b.cell_at(Column::BusinessRevenue));
    assert(a.cell_at(Column::BusinessOutlook) == b.cell_at(Column::BusinessOutlook));
    assert(a.cell_at(Column::H3Res3) == b.cell_at(Column::H3Res3));
    assert(a.cell_at(Column::DateId) == b.cell_at(Column::DateId));
    assert(a.cell_at(Column::ZKey) == b.cell_at(Column::ZKey));
}

} // verus!
