//! The flat row: one denormalized record over a fixed, wide set of columns.
//!
//! Every column is optional. `None` is the explicit "no value" marker, so a
//! row is always structurally complete: rows that come from different
//! branches of a tree can be written to the same table.

use crate::expand::Row;
use vstd::prelude::*;

verus! {

/// A 64-bit binary floating-point number, carried as its bit pattern.
///
/// The library moves such numbers from the tree into rows and never computes
/// with them, so the bits are all it needs. Callers convert at the edge.
#[derive(Clone, Copy, Debug, PartialEq, Eq, Structural)]
pub struct FloatBits {
    pub bits: u64,
}

/// One fully denormalized output record.
///
/// The first seven columns come from the root record, the next groups from
/// readings, measurements and their methods, locations with regions and region
/// ids, and statistics with physics, history and business. The last three
/// carry the ordering data: the spatial cell token and the date identifier
/// that the ordering key is computed from, and the key itself.
#[derive(Clone, Debug, PartialEq, Eq)]
pub struct FlatRow {
    pub id: Option<i32>,
    pub name: Option<String>,
    pub value: Option<u64>,
    pub category: Option<String>,
    pub tag: Option<String>,
    pub meta_created: Option<String>,
    pub meta_updated: Option<String>,
    pub reading_timestamp: Option<String>,
    pub reading_sensor: Option<String>,
    pub reading_value: Option<FloatBits>,
    pub measurement_type: Option<String>,
    pub measurement_data: Option<String>,
    pub method_max: Option<u64>,
    pub method_min: Option<u64>,
    pub method_hash: Option<FloatBits>,
    pub lat: Option<FloatBits>,
    pub lon: Option<FloatBits>,
    pub h3_cell: Option<String>,
    pub country_code: Option<String>,
    pub region_hash: Option<String>,
    pub region_id: Option<String>,
    pub stat_mean: Option<u64>,
    pub stat_mode: Option<u64>,
    pub stat_range: Option<u64>,
    pub physics_velocity: Option<FloatBits>,
    pub physics_acceleration: Option<FloatBits>,
    pub physics_mass: Option<FloatBits>,
    pub history_previous: Option<String>,
    pub history_trend: Option<String>,
    pub business_revenue: Option<FloatBits>,
    pub business_outlook: Option<String>,
    pub h3_res3: Option<String>,
    pub date_id: Option<u64>,
    pub z_key: Option<u64>,
}

/// The first of two optional values that is present.
pub open spec fn first_present<T>(a: Option<T>, b: Option<T>) -> Option<T> {
    if a is Some {
        a
    } else {
        b
    }
}

/// What a sequence of texts holds.
pub open spec fn texts_view(texts: Seq<String>) -> Seq<Seq<char>> {
    texts.map_values(|t: String| t@)
}

/// A copy of an optional text.
pub fn clone_text(text: &Option<String>) -> (copy: Option<String>)
    ensures
        copy == *text,
{
    match text {
        Some(s) => Some(s.clone()),
        None => None,
    }
}

/// The first present of two optional texts, copied.
pub fn first_text(a: &Option<String>, b: &Option<String>) -> (r: Option<String>)
    ensures
        r == first_present(*a, *b),
{
    match a {
        Some(s) => Some(s.clone()),
        None => clone_text(b),
    }
}

/// The first present of two optional plain values.
pub fn first_plain<T: Copy>(a: Option<T>, b: Option<T>) -> (r: Option<T>)
    ensures
        r == first_present(a, b),
{
    match a {
        Some(_) => a,
        None => b,
    }
}

impl FlatRow {
    /// The row in which every column holds "no value".
    pub open spec fn blank() -> FlatRow {
        FlatRow {
            id: None,
            name: None,
            value: None,
            category: None,
            tag: None,
            meta_created: None,
            meta_updated: None,
            reading_timestamp: None,
            reading_sensor: None,
            reading_value: None,
            measurement_type: None,
            measurement_data: None,
            method_max: None,
            method_min: None,
            method_hash: None,
            lat: None,
            lon: None,
            h3_cell: None,
            country_code: None,
            region_hash: None,
            region_id: None,
            stat_mean: None,
            stat_mode: None,
            stat_range: None,
            physics_velocity: None,
            physics_acceleration: None,
            physics_mass: None,
            history_previous: None,
            history_trend: None,
            business_revenue: None,
            business_outlook: None,
            h3_res3: None,
            date_id: None,
            z_key: None,
        }
    }

    /// The row that takes each column from `self` where `self` has a value
    /// there, and from `other` where it has none.
    ///
    /// The groups of one node fill disjoint columns, so for rows of different
    /// groups this is the row that holds what both contribute.
    #[verifier::opaque]
    pub open spec fn merged(self, other: FlatRow) -> FlatRow {
        FlatRow {
            id: first_present(self.id, other.id),
            name: first_present(self.name, other.name),
            value: first_present(self.value, other.value),
            category: first_present(self.category, other.category),
            tag: first_present(self.tag, other.tag),
            meta_created: first_present(self.meta_created, other.meta_created),
            meta_updated: first_present(self.meta_updated, other.meta_updated),
            reading_timestamp: first_present(self.reading_timestamp, other.reading_timestamp),
            reading_sensor: first_present(self.reading_sensor, other.reading_sensor),
            reading_value: first_present(self.reading_value, other.reading_value),
            measurement_type: first_present(self.measurement_type, other.measurement_type),
            measurement_data: first_present(self.measurement_data, other.measurement_data),
            method_max: first_present(self.method_max, other.method_max),
            method_min: first_present(self.method_min, other.method_min),
            method_hash: first_present(self.method_hash, other.method_hash),
            lat: first_present(self.lat, other.lat),
            lon: first_present(self.lon, other.lon),
            h3_cell: first_present(self.h3_cell, other.h3_cell),
            country_code: first_present(self.country_code, other.country_code),
            region_hash: first_present(self.region_hash, other.region_hash),
            region_id: first_present(self.region_id, other.region_id),
            stat_mean: first_present(self.stat_mean, other.stat_mean),
            stat_mode: first_present(self.stat_mode, other.stat_mode),
            stat_range: first_present(self.stat_range, other.stat_range),
            physics_velocity: first_present(self.physics_velocity, other.physics_velocity),
            physics_acceleration: first_present(
                self.physics_acceleration,
                other.physics_acceleration,
            ),
            physics_mass: first_present(self.physics_mass, other.physics_mass),
            history_previous: first_present(self.history_previous, other.history_previous),
            history_trend: first_present(self.history_trend, other.history_trend),
            business_revenue: first_present(self.business_revenue, other.business_revenue),
            business_outlook: first_present(self.business_outlook, other.business_outlook),
            h3_res3: first_present(self.h3_res3, other.h3_res3),
            date_id: first_present(self.date_id, other.date_id),
            z_key: first_present(self.z_key, other.z_key),
        }
    }

    /// A row with no value in any column.
    pub fn new() -> (row: FlatRow)
        ensures
            row == FlatRow::blank(),
    {
        FlatRow {
            id: None,
            name: None,
            value: None,
            category: None,
            tag: None,
            meta_created: None,
            meta_updated: None,
            reading_timestamp: None,
            reading_sensor: None,
            reading_value: None,
            measurement_type: None,
            measurement_data: None,
            method_max: None,
            method_min: None,
            method_hash: None,
            lat: None,
            lon: None,
            h3_cell: None,
            country_code: None,
            region_hash: None,
            region_id: None,
            stat_mean: None,
            stat_mode: None,
            stat_range: None,
            physics_velocity: None,
            physics_acceleration: None,
            physics_mass: None,
            history_previous: None,
            history_trend: None,
            business_revenue: None,
            business_outlook: None,
            h3_res3: None,
            date_id: None,
            z_key: None,
        }
    }

    /// Merges two rows column by column; `self` wins where both have a value.
    pub fn merge(&self, other: &FlatRow) -> (row: FlatRow)
        ensures
            row == self.merged(*other),
    {
        reveal(FlatRow::merged);
        FlatRow {
            id: first_plain(self.id, other.id),
            name: first_text(&self.name, &other.name),
            value: first_plain(self.value, other.value),
            category: first_text(&self.category, &other.category),
            tag: first_text(&self.tag, &other.tag),
            meta_created: first_text(&self.meta_created, &other.meta_created),
            meta_updated: first_text(&self.meta_updated, &other.meta_updated),
            reading_timestamp: first_text(&self.reading_timestamp, &other.reading_timestamp),
            reading_sensor: first_text(&self.reading_sensor, &other.reading_sensor),
            reading_value: first_plain(self.reading_value, other.reading_value),
            measurement_type: first_text(&self.measurement_type, &other.measurement_type),
            measurement_data: first_text(&self.measurement_data, &other.measurement_data),
            method_max: first_plain(self.method_max, other.method_max),
            method_min: first_plain(self.method_min, other.method_min),
            method_hash: first_plain(self.method_hash, other.method_hash),
            lat: first_plain(self.lat, other.lat),
            lon: first_plain(self.lon, other.lon),
            h3_cell: first_text(&self.h3_cell, &other.h3_cell),
            country_code: first_text(&self.country_code, &other.country_code),
            region_hash: first_text(&self.region_hash, &other.region_hash),
            region_id: first_text(&self.region_id, &other.region_id),
            stat_mean: first_plain(self.stat_mean, other.stat_mean),
            stat_mode: first_plain(self.stat_mode, other.stat_mode),
            stat_range: first_plain(self.stat_range, other.stat_range),
            physics_velocity: first_plain(self.physics_velocity, other.physics_velocity),
            physics_acceleration: first_plain(
                self.physics_acceleration,
                other.physics_acceleration,
            ),
            physics_mass: first_plain(self.physics_mass, other.physics_mass),
            history_previous: first_text(&self.history_previous, &other.history_previous),
            history_trend: first_text(&self.history_trend, &other.history_trend),
            business_revenue: first_plain(self.business_revenue, other.business_revenue),
            business_outlook: first_text(&self.business_outlook, &other.business_outlook),
            h3_res3: first_text(&self.h3_res3, &other.h3_res3),
            date_id: first_plain(self.date_id, other.date_id),
            z_key: first_plain(self.z_key, other.z_key),
        }
    }
}

impl Row for FlatRow {
    open spec fn blank() -> FlatRow {
        FlatRow::blank()
    }

    open spec fn merged(self, other: FlatRow) -> FlatRow {
        FlatRow::merged(self, other)
    }

    proof fn blank_is_neutral(row: FlatRow) {
        merge_blank_is_neutral(row);
    }

    fn blank_row() -> (row: FlatRow) {
        FlatRow::new()
    }

    fn merge_with(&self, other: &FlatRow) -> (row: FlatRow) {
        self.merge(other)
    }
}

impl Default for FlatRow {
    fn default() -> (row: FlatRow)
        ensures
            row == FlatRow::blank(),
    {
        FlatRow::new()
    }
}

/// Merging with the blank row on either side changes nothing.
pub proof fn merge_blank_is_neutral(row: FlatRow)
    ensures
        row.merged(FlatRow::blank()) == row,
        FlatRow::blank().merged(row) == row,
{
    reveal(FlatRow::merged);
}

} // verus!
