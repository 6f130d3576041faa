//! Split layouts: the direction in which a split lays out its children, and
//! which coordinate of a 2-vector that direction makes primary.

use vstd::prelude::*;

verus! {

/// The direction along which a split places its children one after the other.
#[derive(Clone, Copy, Debug, PartialEq, Eq, Structural)]
pub enum SplitDirection {
    Horizontal,
    Vertical,
}

/// How a split shares its zone between its children.
#[derive(Clone, Copy, Debug, PartialEq, Eq, Structural)]
pub enum SplitMode {
    EqualArea,
    EqualSide,
}

/// One coordinate of a 2-vector.
#[derive(Clone, Copy, Debug, PartialEq, Eq, Structural)]
pub enum Axis {
    X,
    Y,
}

/// A 2-vector of any coordinate type.
#[derive(Debug)]
pub struct Vec2<T> {
    pub x: T,
    pub y: T,
}

impl<T> Vec2<T> {
    /// The coordinate of `v` along `axis`.
    pub open spec fn at(self, axis: Axis) -> T {
        match axis {
            Axis::X => self.x,
            Axis::Y => self.y,
        }
    }

    /// `v` with its coordinate along `axis` replaced by `value`.
    pub open spec fn with(self, axis: Axis, value: T) -> Vec2<T> {
        match axis {
            Axis::X => Vec2 { x: value, y: self.y },
            Axis::Y => Vec2 { x: self.x, y: value },
        }
    }
}

impl SplitDirection {
    /// The primary axis: the one perpendicular to the separators, along which
    /// the children follow each other.
    pub open spec fn primary_axis(self) -> Axis {
        match self {
            SplitDirection::Horizontal => Axis::X,
            SplitDirection::Vertical => Axis::Y,
        }
    }

    /// The secondary axis: the one along the separators.
    pub open spec fn secondary_axis(self) -> Axis {
        match self {
            SplitDirection::Horizontal => Axis::Y,
            SplitDirection::Vertical => Axis::X,
        }
    }

    /// The primary coordinate of `vector`.
    pub fn p<'a, T>(&self, vector: &'a Vec2<T>) -> (r: &'a T)
        ensures
            *r == vector.at(self.primary_axis()),
    {
        if *self == SplitDirection::Horizontal {
            &vector.x
        } else {
            &vector.y
        }
    }

    /// The secondary coordinate of `vector`.
    pub fn s<'a, T>(&self, vector: &'a Vec2<T>) -> (r: &'a T)
        ensures
            *r == vector.at(self.secondary_axis()),
    {
        if *self == SplitDirection::Horizontal {
            &vector.y
        } else {
            &vector.x
        }
    }

    /// The primary coordinate of `vector`, to write; the other coordinate stays.
    pub fn pm<'a, T>(&self, vector: &'a mut Vec2<T>) -> (r: &'a mut T)
        ensures
            *r == old(vector).at(self.primary_axis()),
            *final(vector) == old(vector).with(self.primary_axis(), *final(r)),
    {
        if *self == SplitDirection::Horizontal {
            &mut vector.x
        } else {
            &mut vector.y
        }
    }

    /// The secondary coordinate of `vector`, to write; the other coordinate stays.
    pub fn sm<'a, T>(&self, vector: &'a mut Vec2<T>) -> (r: &'a mut T)
        ensures
            *r == old(vector).at(self.secondary_axis()),
            *final(vector) == old(vector).with(self.secondary_axis(), *final(r)),
    {
        if *self == SplitDirection::Horizontal {
            &mut vector.y
        } else {
            &mut vector.x
        }
    }
}

/// The primary and the secondary axis of a direction are the two different
/// axes: every coordinate of a vector is exactly one of the two.
pub proof fn axes_partition(direction: SplitDirection, axis: Axis)
    ensures
        direction.primary_axis() != direction.secondary_axis(),
        axis == direction.primary_axis() || axis == direction.secondary_axis(),
{
}

/// A coordinate written through an axis is read back through that axis, and
/// the other axis keeps its value.
pub proof fn write_then_read<T>(v: Vec2<T>, axis: Axis, other: Axis, value: T)
    ensures
        v.with(axis, value).at(axis) == value,
        other != axis ==> v.with(axis, value).at(other) == v.at(other),
{
}

} // verus!
