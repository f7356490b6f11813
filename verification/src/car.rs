//! A second, smaller tree, flattened with the same two operations: a car
//! with its engines, interiors and exteriors, and rows of its own kind.

use crate::expand::{
    cross, cross_len, cross_rows, flatten_group, group_rows, group_rows_nonempty, group_size,
    Flatten, Row,
};
use crate::row::{clone_text, first_plain, first_present, first_text, FloatBits};
use vstd::prelude::*;

verus! {

/// One fully denormalized row about a car.
#[derive(Clone, Debug, PartialEq, Eq)]
pub struct CarRow {
    pub color: Option<String>,
    pub top_speed: Option<u64>,
    pub price: Option<FloatBits>,
    pub horsepower: Option<u64>,
    pub mpg: Option<u64>,
    pub engine_price: Option<FloatBits>,
    pub interior_color: Option<String>,
    pub seat_material: Option<String>,
    pub heated_seats: Option<bool>,
    pub paint_id: Option<u64>,
    pub insured: Option<bool>,
}

/// The outside of a car.
#[derive(Clone, Debug, PartialEq, Eq)]
pub struct Exterior {
    pub paint_id: Option<u64>,
    pub insured: Option<bool>,
}

/// The inside of a car.
#[derive(Clone, Debug, PartialEq, Eq)]
pub struct Interior {
    pub interior_color: Option<String>,
    pub seat_material: Option<String>,
    pub heated_seats: Option<bool>,
}

/// An engine of a car.
#[derive(Clone, Debug, PartialEq, Eq)]
pub struct Engine {
    pub horsepower: Option<u64>,
    pub mpg: Option<u64>,
    pub engine_price: Option<FloatBits>,
}

/// A car with its three repeated groups.
#[derive(Clone, Debug, PartialEq, Eq)]
pub struct Car {
    pub color: Option<String>,
    pub top_speed: Option<u64>,
    pub price: Option<FloatBits>,
    pub engine: Option<Vec<Engine>>,
    pub interior: Option<Vec<Interior>>,
    pub exterior: Option<Vec<Exterior>>,
}

impl CarRow {
    /// The row in which every column holds "no value".
    pub open spec fn empty() -> CarRow {
        CarRow {
            color: None,
            top_speed: None,
            price: None,
            horsepower: None,
            mpg: None,
            engine_price: None,
            interior_color: None,
            seat_material: None,
            heated_seats: None,
            paint_id: None,
            insured: None,
        }
    }

    /// A row with no value in any column.
    pub fn new() -> (row: CarRow)
        ensures
            row == CarRow::empty(),
    {
        CarRow {
            color: None,
            top_speed: None,
            price: None,
            horsepower: None,
            mpg: None,
            engine_price: None,
            interior_color: None,
            seat_material: None,
            heated_seats: None,
            paint_id: None,
            insured: None,
        }
    }
}

impl Row for CarRow {
    open spec fn blank() -> CarRow {
        CarRow::empty()
    }

    open spec fn merged(self, other: CarRow) -> CarRow {
        CarRow {
            color: first_present(self.color, other.color),
            top_speed: first_present(self.top_speed, other.top_speed),
            price: first_present(self.price, other.price),
            horsepower: first_present(self.horsepower, other.horsepower),
            mpg: first_present(self.mpg, other.mpg),
            engine_price: first_present(self.engine_price, other.engine_price),
            interior_color: first_present(self.interior_color, other.interior_color),
            seat_material: first_present(self.seat_material, other.seat_material),
            heated_seats: first_present(self.heated_seats, other.heated_seats),
            paint_id: first_present(self.paint_id, other.paint_id),
            insured: first_present(self.insured, other.insured),
        }
    }

    proof fn blank_is_neutral(row: CarRow) {
    }

    fn blank_row() -> (row: CarRow) {
        CarRow::new()
    }

    fn merge_with(&self, other: &CarRow) -> (row: CarRow) {
        CarRow {
            color: first_text(&self.color, &other.color),
            top_speed: first_plain(self.top_speed, other.top_speed),
            price: first_plain(self.price, other.price),
            horsepower: first_plain(self.horsepower, other.horsepower),
            mpg: first_plain(self.mpg, other.mpg),
            engine_price: first_plain(self.engine_price, other.engine_price),
            interior_color: first_text(&self.interior_color, &other.interior_color),
            seat_material: first_text(&self.seat_material, &other.seat_material),
            heated_seats: first_plain(self.heated_seats, other.heated_seats),
            paint_id: first_plain(self.paint_id, other.paint_id),
            insured: first_plain(self.insured, other.insured),
        }
    }
}

impl Exterior {
    /// The row that holds this node's own fields and nothing else.
    pub open spec fn own(&self) -> CarRow {
        CarRow { paint_id: self.paint_id, insured: self.insured, ..CarRow::empty() }
    }
}

impl Flatten for Exterior {
    type Row = CarRow;

    open spec fn rows(&self) -> Seq<CarRow> {
        seq![self.own()]
    }

    proof fn rows_nonempty(&self) {
    }

    fn flatten(&self) -> (out: Vec<CarRow>) {
        vec![CarRow { paint_id: self.paint_id, insured: self.insured, ..CarRow::new() }]
    }
}

impl Interior {
    /// The row that holds this node's own fields and nothing else.
    pub open spec fn own(&self) -> CarRow {
        CarRow {
            interior_color: self.interior_color,
            seat_material: self.seat_material,
            heated_seats: self.heated_seats,
            ..CarRow::empty()
        }
    }
}

impl Flatten for Interior {
    type Row = CarRow;

    open spec fn rows(&self) -> Seq<CarRow> {
        seq![self.own()]
    }

    proof fn rows_nonempty(&self) {
    }

    fn flatten(&self) -> (out: Vec<CarRow>) {
        vec![
            CarRow {
                interior_color: clone_text(&self.interior_color),
                seat_material: clone_text(&self.seat_material),
                heated_seats: self.heated_seats,
                ..CarRow::new()
            },
        ]
    }
}

impl Engine {
    /// The row that holds this node's own fields and nothing else.
    pub open spec fn own(&self) -> CarRow {
        CarRow {
            horsepower: self.horsepower,
            mpg: self.mpg,
            engine_price: self.engine_price,
            ..CarRow::empty()
        }
    }
}

impl Flatten for Engine {
    type Row = CarRow;

    open spec fn rows(&self) -> Seq<CarRow> {
        seq![self.own()]
    }

    proof fn rows_nonempty(&self) {
    }

    fn flatten(&self) -> (out: Vec<CarRow>) {
        vec![
            CarRow {
                horsepower: self.horsepower,
                mpg: self.mpg,
                engine_price: self.engine_price,
                ..CarRow::new()
            },
        ]
    }
}

impl Car {
    /// The row that holds this node's own fields and nothing else.
    pub open spec fn own(&self) -> CarRow {
        CarRow { color: self.color, top_speed: self.top_speed, price: self.price, ..CarRow::empty() }
    }

    /// The product of the three groups, before the car's own fields are laid
    /// over it: engines vary slowest, exteriors fastest.
    pub open spec fn group_product(&self) -> Seq<CarRow> {
        cross(cross(group_rows(self.engine), group_rows(self.interior)), group_rows(self.exterior))
    }
}

impl Flatten for Car {
    type Row = CarRow;

    open spec fn rows(&self) -> Seq<CarRow> {
        cross(seq![self.own()], self.group_product())
    }

    proof fn rows_nonempty(&self) {
        car_cardinality(*self);
    }

    fn flatten(&self) -> (out: Vec<CarRow>) {
        let engines = flatten_group(&self.engine);
        let interiors = flatten_group(&self.interior);
        let exteriors = flatten_group(&self.exterior);
        let product = cross_rows(&cross_rows(&engines, &interiors), &exteriors);
        let own = vec![
            CarRow {
                color: clone_text(&self.color),
                top_speed: self.top_speed,
                price: self.price,
                ..CarRow::new()
            },
        ];
        proof {
            assert(own@ == seq![self.own()]);
            self.rows_nonempty();
        }
        cross_rows(&own, &product)
    }
}

/// A car flattens into as many rows as the sizes of its three groups
/// multiplied, each group counted as one where it is absent or empty.
pub proof fn car_cardinality(car: Car)
    ensures
        car.rows().len() == group_size(car.engine) * group_size(car.interior) * group_size(
            car.exterior,
        ),
        car.rows().len() >= 1,
{
    let engines = group_rows(car.engine);
    let interiors = group_rows(car.interior);
    let exteriors = group_rows(car.exterior);
    group_rows_nonempty(car.engine);
    group_rows_nonempty(car.interior);
    group_rows_nonempty(car.exterior);
    cross_len(engines, interiors);
    cross_len(cross(engines, interiors), exteriors);
    cross_len(seq![car.own()], car.group_product());
    assert(1 * car.group_product().len() == car.group_product().len()) by (nonlinear_arith);
}

} // verus!
