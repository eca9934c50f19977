//! Points over any machine number, with a fixed or a chosen number of
//! coordinates.

use vstd::prelude::*;
use vstd::std_specs::convert::IntoSpec;
use vstd::string::{to_string_from_display_ensures, StringExecFns};
use crate::numeric::{filled, Numeric};

verus! {

/// The numbers that a point's coordinates can be made of.
pub trait Coordinate: Numeric {

}

impl Coordinate for i8 {

}

impl Coordinate for i16 {

}

impl Coordinate for i32 {

}

impl Coordinate for i64 {

}

impl Coordinate for i128 {

}

impl Coordinate for u8 {

}

impl Coordinate for u16 {

}

impl Coordinate for u32 {

}

impl Coordinate for u64 {

}

impl Coordinate for u128 {

}

impl Coordinate for usize {

}

/// A point with a fixed number of coordinates, held in place.
#[derive(Debug, PartialEq, PartialOrd)]
pub struct Point<T: Coordinate, const DIMS: usize> {
    coords: [T; DIMS],
}

pub type Point1D<T> = Point<T, 1>;

pub type Point2D<T> = Point<T, 2>;

pub type Point3D<T> = Point<T, 3>;

impl<T: Coordinate, const DIMS: usize> View for Point<T, DIMS> {
    type V = Seq<T>;

    /// The coordinates in order; there are `DIMS` of them.
    closed spec fn view(&self) -> Seq<T> {
        self.coords@
    }
}

impl<T: Coordinate> Point1D<T> {
    pub fn x(&self) -> (r: T)
        ensures
            r == self@[0],
    {
        self.coords[0]
    }
}

impl<T: Coordinate> Point2D<T> {
    pub fn x(&self) -> (r: T)
        ensures
            r == self@[0],
    {
        self.coords[0]
    }

    pub fn y(&self) -> (r: T)
        ensures
            r == self@[1],
    {
        self.coords[1]
    }
}

impl<T: Coordinate> Point3D<T> {
    pub fn x(&self) -> (r: T)
        ensures
            r == self@[0],
    {
        self.coords[0]
    }

    pub fn y(&self) -> (r: T)
        ensures
            r == self@[1],
    {
        self.coords[1]
    }

    pub fn z(&self) -> (r: T)
        ensures
            r == self@[2],
    {
        self.coords[2]
    }
}

impl<T: Coordinate, const DIMS: usize> Point<T, DIMS> {
    /// The coordinates as the array that holds them.
    pub closed spec fn array(&self) -> [T; DIMS] {
        self.coords
    }

    /// Whether every coordinate is zero.
    pub open spec fn is_origin(&self) -> bool {
        forall|i: int| 0 <= i < DIMS ==> (#[trigger] self@[i]).value() == 0
    }

    /// The point with every coordinate at its type's default, which for a
    /// number is zero.
    pub fn new() -> (p: Self)
        ensures
            p@.len() == DIMS,
            p.is_origin(),
    {
        Point { coords: [T::zero();DIMS] }
    }

    /// The point with every coordinate zero.
    pub fn origin() -> (p: Self)
        ensures
            p@.len() == DIMS,
            p.is_origin(),
    {
        Point { coords: [T::zero();DIMS] }
    }

    /// The point with the given coordinates.
    pub fn from_array(coords: [T; DIMS]) -> (p: Self)
        ensures
            p@ == coords@,
            p.array() == coords,
    {
        Point { coords }
    }

    /// The point with the given coordinates, from anything that converts
    /// into an array of them: the point holds the array that the conversion
    /// gave.
    pub fn from<I: Into<[T; DIMS]>>(coords: I) -> (p: Self)
        ensures
            p@.len() == DIMS,
            call_ensures(<I as Into<[T; DIMS]>>::into, (coords,), p.array()),
            I::obeys_into_spec() ==> p@ == coords.into_spec()@,
    {
        Point::from_array(coords.into())
    }

    /// Replaces the coordinate at `index`.
    pub fn set(&mut self, index: usize, value: T)
        requires
            index < DIMS,
        ensures
            final(self)@ == old(self)@.update(index as int, value),
    {
        self.coords[index] = value;
    }

    /// The coordinates as an array.
    pub fn to_array(&self) -> (a: [T; DIMS])
        ensures
            a@ == self@,
            a == self.array(),
    {
        self.coords
    }
}

impl<T: Coordinate, const DIMS: usize> Point<T, DIMS> {
    /// Whether each coordinate of `self` is the sum of those of `a` and `b`.
    pub open spec fn is_sum_of(self, a: Self, b: Self) -> bool {
        forall|i: int|
            0 <= i < DIMS ==> (#[trigger] self@[i]).value() == a@[i].value() + b@[i].value()
    }

    /// Whether each coordinate of `self` is that of `a` less that of `b`.
    pub open spec fn is_difference_of(self, a: Self, b: Self) -> bool {
        forall|i: int|
            0 <= i < DIMS ==> (#[trigger] self@[i]).value() == a@[i].value() - b@[i].value()
    }

    /// Whether every sum of two coordinates fits the coordinate type.
    pub open spec fn sums_fit(self, rhs: Self) -> bool {
        forall|i: int|
            0 <= i < DIMS ==> T::representable((#[trigger] self@[i]).value() + rhs@[i].value())
    }

    /// Whether every difference of two coordinates fits the coordinate type.
    pub open spec fn differences_fit(self, rhs: Self) -> bool {
        forall|i: int|
            0 <= i < DIMS ==> T::representable((#[trigger] self@[i]).value() - rhs@[i].value())
    }

    /// The point that is the sum of `self` and `rhs`.
    pub open spec fn sum(self, rhs: Self) -> Self {
        choose|p: Self| p.is_sum_of(self, rhs)
    }

    /// The point that is `self` less `rhs`.
    pub open spec fn difference(self, rhs: Self) -> Self {
        choose|p: Self| p.is_difference_of(self, rhs)
    }

    /// Two points whose coordinates stand for the same integers are one
    /// point.
    pub proof fn lemma_same_values(p: Self, q: Self)
        requires
            forall|i: int| 0 <= i < DIMS ==> (#[trigger] p@[i]).value() == q@[i].value(),
        ensures
            p == q,
    {
        assert forall|i: int| 0 <= i < DIMS implies p.coords[i] == q.coords[i] by {
            T::lemma_value_injective(p@[i], q@[i]);
        }
        assert(p.coords =~= q.coords);
    }
}

impl<T: Coordinate, const DIMS: usize> vstd::std_specs::ops::AddSpecImpl for Point<T, DIMS> {
    open spec fn obeys_add_spec() -> bool {
        true
    }

    open spec fn add_req(self, rhs: Self) -> bool {
        self.sums_fit(rhs)
    }

    open spec fn add_spec(self, rhs: Self) -> Self {
        self.sum(rhs)
    }
}

impl<T: Coordinate, const DIMS: usize> core::ops::Add for Point<T, DIMS> {
    type Output = Self;

    /// The sum, coordinate by coordinate.
    fn add(self, rhs: Self) -> (r: Self)
        ensures
            r.is_sum_of(self, rhs),
    {
        let mut coords = [T::zero();DIMS];
        let mut i: usize = 0;
        while i < DIMS
            invariant
                i <= DIMS,
                self.sums_fit(rhs),
                forall|k: int|
                    0 <= k < i ==> (#[trigger] coords@[k]).value() == self@[k].value()
                        + rhs@[k].value(),
            decreases DIMS - i,
        {
            assert(T::representable(self@[i as int].value() + rhs@[i as int].value()));
            coords[i] = self.coords[i].plus(rhs.coords[i]);
            i = i + 1;
        }
        let r = Point { coords };
        proof {
            let chosen = self.sum(rhs);
            assert(r.is_sum_of(self, rhs));
            Self::lemma_same_values(r, chosen);
        }
        r
    }
}

impl<T: Coordinate, const DIMS: usize> vstd::std_specs::ops::SubSpecImpl for Point<T, DIMS> {
    open spec fn obeys_sub_spec() -> bool {
        true
    }

    open spec fn sub_req(self, rhs: Self) -> bool {
        self.differences_fit(rhs)
    }

    open spec fn sub_spec(self, rhs: Self) -> Self {
        self.difference(rhs)
    }
}

impl<T: Coordinate, const DIMS: usize> core::ops::Sub for Point<T, DIMS> {
    type Output = Self;

    /// The difference, coordinate by coordinate.
    fn sub(self, rhs: Self) -> (r: Self)
        ensures
            r.is_difference_of(self, rhs),
    {
        let mut coords = [T::zero();DIMS];
        let mut i: usize = 0;
        while i < DIMS
            invariant
                i <= DIMS,
                self.differences_fit(rhs),
                forall|k: int|
                    0 <= k < i ==> (#[trigger] coords@[k]).value() == self@[k].value()
                        - rhs@[k].value(),
            decreases DIMS - i,
        {
            assert(T::representable(self@[i as int].value() - rhs@[i as int].value()));
            coords[i] = self.coords[i].minus(rhs.coords[i]);
            i = i + 1;
        }
        let r = Point { coords };
        proof {
            let chosen = self.difference(rhs);
            assert(r.is_difference_of(self, rhs));
            Self::lemma_same_values(r, chosen);
        }
        r
    }
}

impl<T: Coordinate, const DIMS: usize> vstd::std_specs::core::IndexSpecImpl<usize> for Point<T, DIMS> {
    open spec fn index_req(&self, index: &usize) -> bool {
        *index < DIMS
    }
}

impl<T: Coordinate, const DIMS: usize> core::ops::Index<usize> for Point<T, DIMS> {
    type Output = T;

    fn index(&self, index: usize) -> (r: &T)
        ensures
            *r == self@[index as int],
    {
        &self.coords[index]
    }
}

/// The first `n` texts, each two separated by a comma and a space.
pub open spec fn joined(texts: Seq<Seq<char>>, n: nat) -> Seq<char>
    decreases n,
{
    if n == 0 {
        Seq::empty()
    } else if n == 1 {
        texts[0]
    } else {
        joined(texts, (n - 1) as nat) + ", "@ + texts[n - 1]
    }
}

/// Whether `text` lists the coordinates between round brackets, each
/// written as its type displays it and each two separated by a comma and a
/// space.
pub open spec fn lists_coordinates<T: Coordinate + core::fmt::Display>(
    coords: Seq<T>,
    text: Seq<char>,
) -> bool {
    exists|texts: Seq<String>|
        {
            &&& texts.len() == coords.len()
            &&& forall|i: int|
                0 <= i < coords.len() ==> to_string_from_display_ensures(
                    &coords[i],
                    #[trigger] texts[i],
                )
            &&& text == "("@ + joined(texts.map_values(|t: String| t@), coords.len()) + ")"@
        }
}

/// Writes the coordinates between round brackets.
fn coordinate_list<T: Coordinate + core::fmt::Display>(coords: &[T]) -> (text: String)
    ensures
        lists_coordinates(coords@, text@),
{
    let mut text = String::from_str("(");
    let ghost mut texts: Seq<String> = Seq::empty();
    let n: usize = coords.len();
    let mut i: usize = 0;
    while i < n
        invariant
            i <= n,
            n == coords@.len(),
            texts.len() == i,
            forall|k: int|
                0 <= k < i ==> to_string_from_display_ensures(&coords@[k], #[trigger] texts[k]),
            text@ == "("@ + joined(texts.map_values(|t: String| t@), i as nat),
        decreases n - i,
    {
        let piece = coords[i].to_string();
        if i > 0 {
            text.append(", ");
        }
        text.append(piece.as_str());
        proof {
            let before = texts.map_values(|t: String| t@);
            texts = texts.push(piece);
            let after = texts.map_values(|t: String| t@);
            assert(after =~= before.push(piece@));
            lemma_joined_prefix(before, after, i as nat);
            assert(text@ =~= "("@ + joined(after, (i + 1) as nat));
        }
        i = i + 1;
    }
    text.append(")");
    text
}

/// `joined` reads only the texts it joins.
proof fn lemma_joined_prefix(a: Seq<Seq<char>>, b: Seq<Seq<char>>, n: nat)
    requires
        n <= a.len(),
        n <= b.len(),
        forall|k: int| 0 <= k < n ==> a[k] == b[k],
    ensures
        joined(a, n) == joined(b, n),
    decreases n,
{
    if n > 1 {
        lemma_joined_prefix(a, b, (n - 1) as nat);
    }
}

impl<T: Coordinate + core::fmt::Display, const DIMS: usize> Point<T, DIMS> {
    /// The point as text: `(1, 2, 3)`.
    pub fn to_text(&self) -> (text: String)
        ensures
            lists_coordinates(self@, text@),
    {
        coordinate_list(&self.coords)
    }
}

impl<T: Coordinate + core::fmt::Display> DynamicPoint<T> {
    /// The point as text: `(1, 2, 3)`.
    pub fn to_text(&self) -> (text: String)
        ensures
            lists_coordinates(self@, text@),
    {
        coordinate_list(self.coords.as_slice())
    }
}

/// A point whose number of coordinates is chosen when it is made.
#[derive(Debug, PartialEq, PartialOrd)]
pub struct DynamicPoint<T: Coordinate> {
    coords: Vec<T>,
}

impl<T: Coordinate> View for DynamicPoint<T> {
    type V = Seq<T>;

    /// The coordinates in order.
    closed spec fn view(&self) -> Seq<T> {
        self.coords@
    }
}

impl<T: Coordinate> DynamicPoint<T> {
    /// Whether every coordinate is zero.
    pub open spec fn is_origin(&self) -> bool {
        forall|i: int| 0 <= i < self@.len() ==> (#[trigger] self@[i]).value() == 0
    }

    /// The point of the given number of coordinates, each at its type's
    /// default, which for a number is zero.
    pub fn new(dimensions: usize) -> (p: Self)
        ensures
            p@.len() == dimensions,
            p.is_origin(),
    {
        DynamicPoint { coords: filled(T::zero(), dimensions) }
    }

    /// The point of the given number of coordinates, each zero.
    pub fn origin(dimensions: usize) -> (p: Self)
        ensures
            p@.len() == dimensions,
            p.is_origin(),
    {
        DynamicPoint { coords: filled(T::zero(), dimensions) }
    }

    /// The point with the given coordinates.
    pub fn from_vec(coords: Vec<T>) -> (p: Self)
        ensures
            p@ == coords@,
    {
        DynamicPoint { coords }
    }

    /// The point with the given coordinates, from anything that converts
    /// into a vector of them: the point holds the vector that the conversion
    /// gave.
    pub fn from<I: Into<Vec<T>>>(coords: I) -> (p: Self)
        ensures
            exists|v: Vec<T>|
                #[trigger] call_ensures(<I as Into<Vec<T>>>::into, (coords,), v) && p@ == v@,
            I::obeys_into_spec() ==> p@ == coords.into_spec()@,
    {
        DynamicPoint::from_vec(coords.into())
    }

    /// The number of coordinates.
    pub fn dimensions(&self) -> (n: usize)
        ensures
            n == self@.len(),
    {
        self.coords.len()
    }

    /// Replaces the coordinate at `index`.
    pub fn set(&mut self, index: usize, value: T)
        requires
            index < old(self)@.len(),
        ensures
            final(self)@ == old(self)@.update(index as int, value),
    {
        self.coords[index] = value;
    }

    /// The coordinates as a slice of the vector that holds them.
    pub fn as_vec(&self) -> (v: &Vec<T>)
        ensures
            v@ == self@,
    {
        &self.coords
    }
}

impl<T: Coordinate> vstd::std_specs::core::IndexSpecImpl<usize> for DynamicPoint<T> {
    open spec fn index_req(&self, index: &usize) -> bool {
        *index < self@.len()
    }
}

impl<T: Coordinate> core::ops::Index<usize> for DynamicPoint<T> {
    type Output = T;

    fn index(&self, index: usize) -> (r: &T)
        ensures
            *r == self@[index as int],
    {
        &self.coords[index]
    }
}

} // verus!
