//! The nested record tree and its flattening.
//!
//! A record holds multi-valued scalar fields and four repeated groups of
//! children: readings, measurements with their methods, locations with their
//! regions and region ids, and statistics with physics, history and business.
//! Flattening a node takes the rows of each of its groups (one blank row where
//! a group is absent or empty), forms their product in the order in which the
//! groups are declared, and lays the node's own scalar fields over every row.

use crate::expand::{
    cross, cross_len, cross_rows, flatten_group, group_rows, group_rows_nonempty, group_size,
    Flatten,
};
use crate::row::{clone_text, FlatRow, FloatBits};
use vstd::prelude::*;

verus! {

/// Business figures of a statistic.
#[derive(Clone, Debug, PartialEq, Eq)]
pub struct Business {
    pub revenue: Option<FloatBits>,
    pub outlook: Option<String>,
}

/// History of a statistic.
#[derive(Clone, Debug, PartialEq, Eq)]
pub struct History {
    pub previous: Option<String>,
    pub trend: Option<String>,
}

/// Physical quantities of a statistic.
#[derive(Clone, Debug, PartialEq, Eq)]
pub struct Physics {
    pub velocity: Option<FloatBits>,
    pub acceleration: Option<FloatBits>,
    pub mass: Option<FloatBits>,
}

/// A statistic with its three repeated groups.
#[derive(Clone, Debug, PartialEq, Eq)]
pub struct Stat {
    pub mean: Option<u64>,
    pub mode: Option<u64>,
    pub range: Option<u64>,
    pub physics: Option<Vec<Physics>>,
    pub history: Option<Vec<History>>,
    pub business: Option<Vec<Business>>,
}

/// An identifier of a region.
#[derive(Clone, Debug, PartialEq, Eq)]
pub struct RegionID {
    pub region_hash: Option<String>,
    pub region_id: Option<String>,
}

/// A region of a location, with its identifiers.
#[allow(non_snake_case)]
#[derive(Clone, Debug, PartialEq, Eq)]
pub struct Region {
    pub h3_cell: Option<String>,
    pub country_code: Option<String>,
    pub region_ID: Option<Vec<RegionID>>,
}

/// A location, with its regions.
#[derive(Clone, Debug, PartialEq, Eq)]
pub struct Location {
    pub lat: Option<FloatBits>,
    pub lon: Option<FloatBits>,
    pub region: Option<Vec<Region>>,
}

/// A method of a measurement.
#[derive(Clone, Debug, PartialEq, Eq)]
pub struct Method {
    pub max: Option<u64>,
    pub min: Option<u64>,
    pub hash: Option<FloatBits>,
}

/// A measurement, with its methods.
#[derive(Clone, Debug, PartialEq, Eq)]
pub struct Measurement {
    pub kind: Option<String>,
    pub data: Option<String>,
    pub method: Option<Vec<Method>>,
}

/// A sensor reading.
#[derive(Clone, Debug, PartialEq, Eq)]
pub struct Reading {
    pub timestamp: Option<String>,
    pub sensor: Option<String>,
    pub value: Option<FloatBits>,
}

/// The root of the tree.
#[derive(Clone, Debug, PartialEq, Eq)]
pub struct Record {
    pub id: Option<Vec<i32>>,
    pub name: Option<Vec<String>>,
    pub value: Option<Vec<u64>>,
    pub category: Option<Vec<String>>,
    pub tags: Option<Vec<String>>,
    pub meta_created: Option<Vec<String>>,
    pub meta_updated: Option<Vec<String>>,
    pub readings: Option<Vec<Reading>>,
    pub measurements: Option<Vec<Measurement>>,
    pub locations: Option<Vec<Location>>,
    pub statistics: Option<Vec<Stat>>,
}

/// The text columns that the root's multi-valued text fields fill.
#[derive(Clone, Copy, Debug, PartialEq, Eq, Structural)]
pub enum RootText {
    Name,
    Category,
    Tag,
    MetaCreated,
    MetaUpdated,
}

impl Business {
    /// The row that holds this node's own fields and nothing else.
    pub open spec fn own(&self) -> FlatRow {
        FlatRow {
            business_revenue: self.revenue,
            business_outlook: self.outlook,
            ..FlatRow::blank()
        }
    }

    /// Builds the row of this node's own fields.
    pub fn own_row(&self) -> (row: FlatRow)
        ensures
            row == self.own(),
    {
        FlatRow {
            business_revenue: self.revenue,
            business_outlook: clone_text(&self.outlook),
            ..FlatRow::new()
        }
    }
}

impl Flatten for Business {
    type Row = FlatRow;

    open spec fn rows(&self) -> Seq<FlatRow> {
        seq![self.own()]
    }

    proof fn rows_nonempty(&self) {
    }

    fn flatten(&self) -> (out: Vec<FlatRow>) {
        vec![self.own_row()]
    }
}

impl History {
    /// The row that holds this node's own fields and nothing else.
    pub open spec fn own(&self) -> FlatRow {
        FlatRow {
            history_previous: self.previous,
            history_trend: self.trend,
            ..FlatRow::blank()
        }
    }

    /// Builds the row of this node's own fields.
    pub fn own_row(&self) -> (row: FlatRow)
        ensures
            row == self.own(),
    {
        FlatRow {
            history_previous: clone_text(&self.previous),
            history_trend: clone_text(&self.trend),
            ..FlatRow::new()
        }
    }
}

impl Flatten for History {
    type Row = FlatRow;

    open spec fn rows(&self) -> Seq<FlatRow> {
        seq![self.own()]
    }

    proof fn rows_nonempty(&self) {
    }

    fn flatten(&self) -> (out: Vec<FlatRow>) {
        vec![self.own_row()]
    }
}

impl Physics {
    /// The row that holds this node's own fields and nothing else.
    pub open spec fn own(&self) -> FlatRow {
        FlatRow {
            physics_velocity: self.velocity,
            physics_acceleration: self.acceleration,
            physics_mass: self.mass,
            ..FlatRow::blank()
        }
    }

    /// Builds the row of this node's own fields.
    pub fn own_row(&self) -> (row: FlatRow)
        ensures
            row == self.own(),
    {
        FlatRow {
            physics_velocity: self.velocity,
            physics_acceleration: self.acceleration,
            physics_mass: self.mass,
            ..FlatRow::new()
        }
    }
}

impl Flatten for Physics {
    type Row = FlatRow;

    open spec fn rows(&self) -> Seq<FlatRow> {
        seq![self.own()]
    }

    proof fn rows_nonempty(&self) {
    }

    fn flatten(&self) -> (out: Vec<FlatRow>) {
        vec![self.own_row()]
    }
}

impl Stat {
    /// The row that holds this node's own fields and nothing else.
    pub open spec fn own(&self) -> FlatRow {
        FlatRow {
            stat_mean: self.mean,
            stat_mode: self.mode,
            stat_range: self.range,
            ..FlatRow::blank()
        }
    }

    /// The product of the three groups, before the statistic's own fields
    /// are laid over it: physics varies slowest, business fastest.
    pub open spec fn group_product(&self) -> Seq<FlatRow> {
        cross(cross(group_rows(self.physics), group_rows(self.history)), group_rows(self.business))
    }

    /// Builds the row of this node's own fields.
    pub fn own_row(&self) -> (row: FlatRow)
        ensures
            row == self.own(),
    {
        FlatRow {
            stat_mean: self.mean,
            stat_mode: self.mode,
            stat_range: self.range,
            ..FlatRow::new()
        }
    }
}

impl Flatten for Stat {
    type Row = FlatRow;

    open spec fn rows(&self) -> Seq<FlatRow> {
        cross(seq![self.own()], self.group_product())
    }

    proof fn rows_nonempty(&self) {
        stat_cardinality(*self);
    }

    fn flatten(&self) -> (out: Vec<FlatRow>) {
        let physics = flatten_group(&self.physics);
        let history = flatten_group(&self.history);
        let business = flatten_group(&self.business);
        let product = cross_rows(&cross_rows(&physics, &history), &business);
        let own = vec![self.own_row()];
        proof {
            assert(own@ == seq![self.own()]);
            self.rows_nonempty();
        }
        cross_rows(&own, &product)
    }
}

impl RegionID {
    /// The row that holds this node's own fields and nothing else.
    pub open spec fn own(&self) -> FlatRow {
        FlatRow { region_hash: self.region_hash, region_id: self.region_id, ..FlatRow::blank() }
    }

    /// Builds the row of this node's own fields.
    pub fn own_row(&self) -> (row: FlatRow)
        ensures
            row == self.own(),
    {
        FlatRow {
            region_hash: clone_text(&self.region_hash),
            region_id: clone_text(&self.region_id),
            ..FlatRow::new()
        }
    }
}

impl Flatten for RegionID {
    type Row = FlatRow;

    open spec fn rows(&self) -> Seq<FlatRow> {
        seq![self.own()]
    }

    proof fn rows_nonempty(&self) {
    }

    fn flatten(&self) -> (out: Vec<FlatRow>) {
        vec![self.own_row()]
    }
}

impl Region {
    /// The row that holds this node's own fields and nothing else.
    pub open spec fn own(&self) -> FlatRow {
        FlatRow { h3_cell: self.h3_cell, country_code: self.country_code, ..FlatRow::blank() }
    }

    /// Builds the row of this node's own fields.
    pub fn own_row(&self) -> (row: FlatRow)
        ensures
            row == self.own(),
    {
        FlatRow {
            h3_cell: clone_text(&self.h3_cell),
            country_code: clone_text(&self.country_code),
            ..FlatRow::new()
        }
    }
}

impl Flatten for Region {
    type Row = FlatRow;

    open spec fn rows(&self) -> Seq<FlatRow> {
        cross(seq![self.own()], group_rows(self.region_ID))
    }

    proof fn rows_nonempty(&self) {
        region_cardinality(*self);
    }

    fn flatten(&self) -> (out: Vec<FlatRow>) {
        let ids = flatten_group(&self.region_ID);
        let own = vec![self.own_row()];
        proof {
            assert(own@ == seq![self.own()]);
            self.rows_nonempty();
        }
        cross_rows(&own, &ids)
    }
}

impl Location {
    /// The row that holds this node's own fields and nothing else.
    pub open spec fn own(&self) -> FlatRow {
        FlatRow { lat: self.lat, lon: self.lon, ..FlatRow::blank() }
    }

    /// Builds the row of this node's own fields.
    pub fn own_row(&self) -> (row: FlatRow)
        ensures
            row == self.own(),
    {
        FlatRow { lat: self.lat, lon: self.lon, ..FlatRow::new() }
    }
}

impl Flatten for Location {
    type Row = FlatRow;

    open spec fn rows(&self) -> Seq<FlatRow> {
        cross(seq![self.own()], group_rows(self.region))
    }

    proof fn rows_nonempty(&self) {
        location_cardinality(*self);
    }

    fn flatten(&self) -> (out: Vec<FlatRow>) {
        let regions = flatten_group(&self.region);
        let own = vec![self.own_row()];
        proof {
            assert(own@ == seq![self.own()]);
            self.rows_nonempty();
        }
        cross_rows(&own, &regions)
    }
}

impl Method {
    /// The row that holds this node's own fields and nothing else.
    pub open spec fn own(&self) -> FlatRow {
        FlatRow {
            method_max: self.max,
            method_min: self.min,
            method_hash: self.hash,
            ..FlatRow::blank()
        }
    }

    /// Builds the row of this node's own fields.
    pub fn own_row(&self) -> (row: FlatRow)
        ensures
            row == self.own(),
    {
        FlatRow {
            method_max: self.max,
            method_min: self.min,
            method_hash: self.hash,
            ..FlatRow::new()
        }
    }
}

impl Flatten for Method {
    type Row = FlatRow;

    open spec fn rows(&self) -> Seq<FlatRow> {
        seq![self.own()]
    }

    proof fn rows_nonempty(&self) {
    }

    fn flatten(&self) -> (out: Vec<FlatRow>) {
        vec![self.own_row()]
    }
}

impl Measurement {
    /// The row that holds this node's own fields and nothing else.
    pub open spec fn own(&self) -> FlatRow {
        FlatRow { measurement_type: self.kind, measurement_data: self.data, ..FlatRow::blank() }
    }

    /// Builds the row of this node's own fields.
    pub fn own_row(&self) -> (row: FlatRow)
        ensures
            row == self.own(),
    {
        FlatRow {
            measurement_type: clone_text(&self.kind),
            measurement_data: clone_text(&self.data),
            ..FlatRow::new()
        }
    }
}

impl Flatten for Measurement {
    type Row = FlatRow;

    open spec fn rows(&self) -> Seq<FlatRow> {
        cross(seq![self.own()], group_rows(self.method))
    }

    proof fn rows_nonempty(&self) {
        measurement_cardinality(*self);
    }

    fn flatten(&self) -> (out: Vec<FlatRow>) {
        let methods = flatten_group(&self.method);
        let own = vec![self.own_row()];
        proof {
            assert(own@ == seq![self.own()]);
            self.rows_nonempty();
        }
        cross_rows(&own, &methods)
    }
}

impl Reading {
    /// The row that holds this node's own fields and nothing else.
    pub open spec fn own(&self) -> FlatRow {
        FlatRow {
            reading_timestamp: self.timestamp,
            reading_sensor: self.sensor,
            reading_value: self.value,
            ..FlatRow::blank()
        }
    }

    /// Builds the row of this node's own fields.
    pub fn own_row(&self) -> (row: FlatRow)
        ensures
            row == self.own(),
    {
        FlatRow {
            reading_timestamp: clone_text(&self.timestamp),
            reading_sensor: clone_text(&self.sensor),
            reading_value: self.value,
            ..FlatRow::new()
        }
    }
}

impl Flatten for Reading {
    type Row = FlatRow;

    open spec fn rows(&self) -> Seq<FlatRow> {
        seq![self.own()]
    }

    proof fn rows_nonempty(&self) {
    }

    fn flatten(&self) -> (out: Vec<FlatRow>) {
        vec![self.own_row()]
    }
}

/// The row in which only the identifier has a value.
pub open spec fn id_row(id: i32) -> FlatRow {
    FlatRow { id: Some(id), ..FlatRow::blank() }
}

/// The row in which only the root's value column has a value.
pub open spec fn value_row(value: u64) -> FlatRow {
    FlatRow { value: Some(value), ..FlatRow::blank() }
}

/// The row in which only the given text column of the root has a value.
pub open spec fn text_row(column: RootText, text: String) -> FlatRow {
    match column {
        RootText::Name => FlatRow { name: Some(text), ..FlatRow::blank() },
        RootText::Category => FlatRow { category: Some(text), ..FlatRow::blank() },
        RootText::Tag => FlatRow { tag: Some(text), ..FlatRow::blank() },
        RootText::MetaCreated => FlatRow { meta_created: Some(text), ..FlatRow::blank() },
        RootText::MetaUpdated => FlatRow { meta_updated: Some(text), ..FlatRow::blank() },
    }
}

/// The rows of one multi-valued scalar field: one row for each of its
/// elements, or a single blank row where the field is absent or empty.
pub open spec fn scalar_rows<T>(values: Option<Vec<T>>, place: spec_fn(T) -> FlatRow) -> Seq<
    FlatRow,
> {
    match values {
        Some(v) => if v@.len() == 0 {
            seq![FlatRow::blank()]
        } else {
            v@.map_values(place)
        },
        None => seq![FlatRow::blank()],
    }
}

/// The rows of the root's identifiers.
pub open spec fn id_rows(ids: Option<Vec<i32>>) -> Seq<FlatRow> {
    scalar_rows(ids, |id: i32| id_row(id))
}

/// The rows of the root's values.
pub open spec fn value_rows(values: Option<Vec<u64>>) -> Seq<FlatRow> {
    scalar_rows(values, |value: u64| value_row(value))
}

/// The rows of one of the root's multi-valued text fields.
pub open spec fn text_rows(texts: Option<Vec<String>>, column: RootText) -> Seq<FlatRow> {
    scalar_rows(texts, |text: String| text_row(column, text))
}

/// The number of rows that a multi-valued scalar field contributes: its
/// length, or one where it is absent or empty.
pub open spec fn scalar_size<T>(values: Option<Vec<T>>) -> nat {
    match values {
        Some(v) => if v@.len() == 0 {
            1
        } else {
            v@.len()
        },
        None => 1,
    }
}

/// Builds the row in which only the given text column has a value.
pub fn place_text(column: RootText, text: &String) -> (row: FlatRow)
    ensures
        row == text_row(column, *text),
{
    match column {
        RootText::Name => FlatRow { name: Some(text.clone()), ..FlatRow::new() },
        RootText::Category => FlatRow { category: Some(text.clone()), ..FlatRow::new() },
        RootText::Tag => FlatRow { tag: Some(text.clone()), ..FlatRow::new() },
        RootText::MetaCreated => FlatRow { meta_created: Some(text.clone()), ..FlatRow::new() },
        RootText::MetaUpdated => FlatRow { meta_updated: Some(text.clone()), ..FlatRow::new() },
    }
}

/// Expands the root's identifiers into rows.
pub fn expand_ids(ids: &Option<Vec<i32>>) -> (out: Vec<FlatRow>)
    ensures
        out@ == id_rows(*ids),
        out@.len() == scalar_size(*ids),
{
    let mut out: Vec<FlatRow> = Vec::new();
    if let Some(v) = ids {
        let n: usize = v.len();
        let mut i: usize = 0;
        while i < n
            invariant
                i <= n,
                n == v@.len(),
                out@.len() == i,
                forall|k: int| 0 <= k < i ==> #[trigger] out@[k] == id_row(v@[k]),
            decreases n - i,
        {
            out.push(FlatRow { id: Some(v[i]), ..FlatRow::new() });
            i += 1;
        }
        assert(n > 0 ==> out@ =~= v@.map_values(|id: i32| id_row(id)));
    }
    if out.len() == 0 {
        out.push(FlatRow::new());
    }
    out
}

/// Expands the root's values into rows.
pub fn expand_values(values: &Option<Vec<u64>>) -> (out: Vec<FlatRow>)
    ensures
        out@ == value_rows(*values),
        out@.len() == scalar_size(*values),
{
    let mut out: Vec<FlatRow> = Vec::new();
    if let Some(v) = values {
        let n: usize = v.len();
        let mut i: usize = 0;
        while i < n
            invariant
                i <= n,
                n == v@.len(),
                out@.len() == i,
                forall|k: int| 0 <= k < i ==> #[trigger] out@[k] == value_row(v@[k]),
            decreases n - i,
        {
            out.push(FlatRow { value: Some(v[i]), ..FlatRow::new() });
            i += 1;
        }
        assert(n > 0 ==> out@ =~= v@.map_values(|value: u64| value_row(value)));
    }
    if out.len() == 0 {
        out.push(FlatRow::new());
    }
    out
}

/// Expands one of the root's multi-valued text fields into rows.
pub fn expand_texts(texts: &Option<Vec<String>>, column: RootText) -> (out: Vec<FlatRow>)
    ensures
        out@ == text_rows(*texts, column),
        out@.len() == scalar_size(*texts),
{
    let mut out: Vec<FlatRow> = Vec::new();
    if let Some(v) = texts {
        let n: usize = v.len();
        let mut i: usize = 0;
        while i < n
            invariant
                i <= n,
                n == v@.len(),
                out@.len() == i,
                forall|k: int| 0 <= k < i ==> #[trigger] out@[k] == text_row(column, v@[k]),
            decreases n - i,
        {
            out.push(place_text(column, &v[i]));
            i += 1;
        }
        assert(n > 0 ==> out@ =~= v@.map_values(|text: String| text_row(column, text)));
    }
    if out.len() == 0 {
        out.push(FlatRow::new());
    }
    out
}

impl Record {
    /// The product of the seven multi-valued scalar fields, in the order
    /// identifiers, names, values, categories, tags, creation stamps, update
    /// stamps. The identifiers vary slowest.
    pub open spec fn scalar_product(&self) -> Seq<FlatRow> {
        cross(
            cross(
                cross(
                    cross(
                        cross(
                            cross(id_rows(self.id), text_rows(self.name, RootText::Name)),
                            value_rows(self.value),
                        ),
                        text_rows(self.category, RootText::Category),
                    ),
                    text_rows(self.tags, RootText::Tag),
                ),
                text_rows(self.meta_created, RootText::MetaCreated),
            ),
            text_rows(self.meta_updated, RootText::MetaUpdated),
        )
    }
}

impl Flatten for Record {
    type Row = FlatRow;

    /// The product of all eleven groups: the scalar fields first, then
    /// readings, measurements, locations and statistics. The statistics vary
    /// fastest.
    open spec fn rows(&self) -> Seq<FlatRow> {
        cross(
            cross(
                cross(
                    cross(self.scalar_product(), group_rows(self.readings)),
                    group_rows(self.measurements),
                ),
                group_rows(self.locations),
            ),
            group_rows(self.statistics),
        )
    }

    proof fn rows_nonempty(&self) {
        record_cardinality(*self);
    }

    fn flatten(&self) -> (out: Vec<FlatRow>) {
        let ids = expand_ids(&self.id);
        let names = expand_texts(&self.name, RootText::Name);
        let values = expand_values(&self.value);
        let categories = expand_texts(&self.category, RootText::Category);
        let tags = expand_texts(&self.tags, RootText::Tag);
        let created = expand_texts(&self.meta_created, RootText::MetaCreated);
        let updated = expand_texts(&self.meta_updated, RootText::MetaUpdated);
        let mut acc = cross_rows(&ids, &names);
        acc = cross_rows(&acc, &values);
        acc = cross_rows(&acc, &categories);
        acc = cross_rows(&acc, &tags);
        acc = cross_rows(&acc, &created);
        acc = cross_rows(&acc, &updated);
        assert(acc@ == self.scalar_product());
        let readings = flatten_group(&self.readings);
        acc = cross_rows(&acc, &readings);
        let measurements = flatten_group(&self.measurements);
        acc = cross_rows(&acc, &measurements);
        let locations = flatten_group(&self.locations);
        acc = cross_rows(&acc, &locations);
        let statistics = flatten_group(&self.statistics);
        acc = cross_rows(&acc, &statistics);
        proof {
            self.rows_nonempty();
        }
        acc
    }
}

/// A statistic flattens into as many rows as the sizes of its three groups
/// multiplied.
pub proof fn stat_cardinality(stat: Stat)
    ensures
        stat.rows().len() == group_size(stat.physics) * group_size(stat.history) * group_size(
            stat.business,
        ),
        stat.rows().len() >= 1,
{
    let p = group_rows(stat.physics);
    let h = group_rows(stat.history);
    let b = group_rows(stat.business);
    group_rows_nonempty(stat.physics);
    group_rows_nonempty(stat.history);
    group_rows_nonempty(stat.business);
    cross_len(p, h);
    cross_len(cross(p, h), b);
    cross_len(seq![stat.own()], stat.group_product());
    assert(1 * stat.group_product().len() == stat.group_product().len()) by (nonlinear_arith);
}

/// A region flattens into as many rows as its identifiers' group holds.
pub proof fn region_cardinality(region: Region)
    ensures
        region.rows().len() == group_size(region.region_ID),
        region.rows().len() >= 1,
{
    let ids = group_rows(region.region_ID);
    group_rows_nonempty(region.region_ID);
    cross_len(seq![region.own()], ids);
    assert(1 * ids.len() == ids.len()) by (nonlinear_arith);
}

/// A location flattens into as many rows as its regions' group holds.
pub proof fn location_cardinality(location: Location)
    ensures
        location.rows().len() == group_size(location.region),
        location.rows().len() >= 1,
{
    let regions = group_rows(location.region);
    group_rows_nonempty(location.region);
    cross_len(seq![location.own()], regions);
    assert(1 * regions.len() == regions.len()) by (nonlinear_arith);
}

/// A measurement flattens into as many rows as its methods' group holds.
pub proof fn measurement_cardinality(measurement: Measurement)
    ensures
        measurement.rows().len() == group_size(measurement.method),
        measurement.rows().len() >= 1,
{
    let methods = group_rows(measurement.method);
    group_rows_nonempty(measurement.method);
    cross_len(seq![measurement.own()], methods);
    assert(1 * methods.len() == methods.len()) by (nonlinear_arith);
}

/// A multi-valued scalar field contributes as many rows as its size says.
pub proof fn scalar_rows_len<T>(values: Option<Vec<T>>, place: spec_fn(T) -> FlatRow)
    ensures
        scalar_rows(values, place).len() == scalar_size(values),
        scalar_size(values) >= 1,
{
}

/// A record flattens into as many rows as the sizes of its eleven groups
/// multiplied, each group counted as one where it is absent or empty.
pub proof fn record_cardinality(record: Record)
    ensures
        record.rows().len() == scalar_size(record.id) * scalar_size(record.name) * scalar_size(
            record.value,
        ) * scalar_size(record.category) * scalar_size(record.tags) * scalar_size(
            record.meta_created,
        ) * scalar_size(record.meta_updated) * group_size(record.readings) * group_size(
            record.measurements,
        ) * group_size(record.locations) * group_size(record.statistics),
        record.rows().len() >= 1,
{
    let ids = id_rows(record.id);
    let names = text_rows(record.name, RootText::Name);
    let values = value_rows(record.value);
    let categories = text_rows(record.category, RootText::Category);
    let tags = text_rows(record.tags, RootText::Tag);
    let created = text_rows(record.meta_created, RootText::MetaCreated);
    let updated = text_rows(record.meta_updated, RootText::MetaUpdated);
    let with_names = cross(ids, names);
    let with_values = cross(with_names, values);
    let with_categories = cross(with_values, categories);
    let with_tags = cross(with_categories, tags);
    let with_created = cross(with_tags, created);
    let with_updated = cross(with_created, updated);
    let with_readings = cross(with_updated, group_rows(record.readings));
    let with_measurements = cross(with_readings, group_rows(record.measurements));
    let with_locations = cross(with_measurements, group_rows(record.locations));
    group_rows_nonempty(record.readings);
    group_rows_nonempty(record.measurements);
    group_rows_nonempty(record.locations);
    group_rows_nonempty(record.statistics);
    cross_len(ids, names);
    cross_len(with_names, values);
    cross_len(with_values, categories);
    cross_len(with_categories, tags);
    cross_len(with_tags, created);
    cross_len(with_created, updated);
    cross_len(with_updated, group_rows(record.readings));
    cross_len(with_readings, group_rows(record.measurements));
    cross_len(with_measurements, group_rows(record.locations));
    cross_len(with_locations, group_rows(record.statistics));
}

} // verus!
