//! Coordinate transforms.
//!
//! Distances are whole numbers of twips, a twentieth of a pixel. A matrix is
//! a 2x3 affine transform whose four factors are 16.16 fixed-point numbers
//! and whose offset is in twips.
//!
//! A point is transformed by `swf`: each product of a factor and a
//! coordinate is rounded down to a whole number, and products and sums wrap
//! at 32 bits. Two transforms are composed by transforming the columns of
//! the second with the first. The inverse is computed here, in whole
//! numbers: every quotient is rounded once and limited to the 32-bit range.
//! `swf`'s own `invert` is not used: it works in single precision and, in
//! the version at hand, does not undo a transform that scales.

use vstd::prelude::*;
use vstd::arithmetic::div_mod::*;
use crate::depth::wrap32;
use swf::{Fixed16, Twips};

verus! {

/// One, as a 16.16 fixed-point number.
pub const FIXED_ONE: i32 = 0x1_0000;

/// `x`, limited to the signed 32-bit range.
pub open spec fn sat32(x: int) -> int {
    if x < i32::MIN {
        i32::MIN as int
    } else if x > i32::MAX {
        i32::MAX as int
    } else {
        x
    }
}

/// The product of a 16.16 fixed-point factor and a whole number, rounded down
/// to a whole number and reduced to 32 bits.
pub open spec fn fixed_times(factor: int, x: int) -> int {
    wrap32((factor * x) / 0x1_0000)
}

/// The sum of two such products and an offset, each sum reduced to 32 bits.
pub open spec fn fixed_dot(a: int, x: int, c: int, y: int, offset: int) -> int {
    wrap32(wrap32(fixed_times(a, x) + fixed_times(c, y)) + offset)
}

/// The quotient of `n` by a divisor that is not zero, rounded down after the
/// sign of the divisor has been moved to `n`.
pub open spec fn signed_quotient(n: int, d: int) -> int {
    if d > 0 {
        n / d
    } else {
        (-n) / (-d)
    }
}

/// A point, in twips.
#[derive(Clone, Copy, Debug, PartialEq, Eq)]
pub struct Point {
    pub x: i32,
    pub y: i32,
}

/// An axis-aligned box, in twips. A box that is not `valid` holds no point.
#[derive(Clone, Copy, Debug, PartialEq, Eq)]
pub struct Rectangle {
    pub x_min: i32,
    pub x_max: i32,
    pub y_min: i32,
    pub y_max: i32,
    pub valid: bool,
}

/// A 2x3 affine transform: a point `(x, y)` goes to
/// `(a*x + c*y + tx, b*x + d*y + ty)`.
#[derive(Clone, Copy, Debug, PartialEq, Eq)]
pub struct Matrix {
    pub a: i32,
    pub b: i32,
    pub c: i32,
    pub d: i32,
    pub tx: i32,
    pub ty: i32,
}

/// Multipliers and offsets applied to the four colour channels of a node.
#[derive(Clone, Copy, Debug, PartialEq, Eq)]
pub struct ColorTransform {
    pub r_mult: i16,
    pub g_mult: i16,
    pub b_mult: i16,
    pub a_mult: i16,
    pub r_add: i16,
    pub g_add: i16,
    pub b_add: i16,
    pub a_add: i16,
}

/// The smaller of two numbers.
pub open spec fn min2(a: int, b: int) -> int {
    if a <= b {
        a
    } else {
        b
    }
}

/// The larger of two numbers.
pub open spec fn max2(a: int, b: int) -> int {
    if a >= b {
        a
    } else {
        b
    }
}

fn lower(a: i32, b: i32) -> (r: i32)
    ensures
        r == min2(a as int, b as int),
{
    if a <= b {
        a
    } else {
        b
    }
}

fn upper(a: i32, b: i32) -> (r: i32)
    ensures
        r == max2(a as int, b as int),
{
    if a >= b {
        a
    } else {
        b
    }
}

/// Divides by a positive divisor, rounding down.
fn floor_div(n: i128, d: i128) -> (q: i128)
    requires
        d > 0,
        n > i128::MIN,
    ensures
        q == n as int / d as int,
{
    if n >= 0 {
        let q = (n as u128) / (d as u128);
        q as i128
    } else {
        let m: u128 = (-n) as u128;
        let du: u128 = d as u128;
        let q = m / du;
        let r = m % du;
        proof {
            lemma_fundamental_div_mod(m as int, d as int);
        }
        if r == 0 {
            proof {
                assert(n as int == (d as int) * (-(q as int)) + 0) by (nonlinear_arith)
                    requires
                        m as int == (d as int) * (q as int) + (r as int),
                        r == 0,
                        n as int == -(m as int),
                ;
                lemma_fundamental_div_mod_converse(n as int, d as int, -(q as int), 0);
            }
            -(q as i128)
        } else {
            proof {
                assert(n as int == (d as int) * (-(q as int) - 1) + (d as int - r as int))
                    by (nonlinear_arith)
                    requires
                        m as int == (d as int) * (q as int) + (r as int),
                        n as int == -(m as int),
                ;
                lemma_fundamental_div_mod_converse(
                    n as int,
                    d as int,
                    -(q as int) - 1,
                    d as int - r as int,
                );
            }
            -(q as i128) - 1
        }
    }
}

/// Limits a number to the signed 32-bit range.
fn saturate(x: i128) -> (r: i32)
    ensures
        r == sat32(x as int),
{
    if x < i32::MIN as i128 {
        i32::MIN
    } else if x > i32::MAX as i128 {
        i32::MAX
    } else {
        x as i32
    }
}

/// The product of two 32-bit numbers.
fn product(a: i32, x: i32) -> (p: i128)
    ensures
        p == a as int * x as int,
        -0x4000_0000_0000_0000 <= p <= 0x4000_0000_0000_0000,
{
    assert(-0x4000_0000_0000_0000 <= a as int * x as int <= 0x4000_0000_0000_0000)
        by (nonlinear_arith)
        requires
            -0x8000_0000 <= a as int <= 0x7fff_ffff,
            -0x8000_0000 <= x as int <= 0x7fff_ffff,
    ;
    (a as i128) * (x as i128)
}

/// Calls the product of a `swf::Matrix` and a `swf::Point<Twips>`
/// (`Mul<Point<Twips>> for Matrix`), on a matrix and a point with the fields
/// given. Trusted: each coordinate of the result is the sum of two products
/// and the offset of its row, where a product of a factor and a coordinate is
/// formed in 64 bits, shifted down by 16 bits and cut to 32 bits, and both
/// additions wrap at 32 bits.
#[verifier::external_body]
fn transform_point(m: &Matrix, p: Point) -> (q: Point)
    ensures
        q == m.spec_apply(p),
{
    let outside = swf::Matrix {
        a: Fixed16::from_bits(m.a),
        b: Fixed16::from_bits(m.b),
        c: Fixed16::from_bits(m.c),
        d: Fixed16::from_bits(m.d),
        tx: Twips::new(m.tx),
        ty: Twips::new(m.ty),
    };
    let q = outside * swf::Point::new(Twips::new(p.x), Twips::new(p.y));
    Point { x: q.x.get(), y: q.y.get() }
}

/// Composing a transform with the identity, on either side, gives the
/// transform again: nothing is lost to rounding.
pub proof fn lemma_compose_identity(m: Matrix)
    ensures
        m.spec_compose(Matrix::spec_identity()) == m,
        Matrix::spec_identity().spec_compose(m) == m,
{
    lemma_scaled_by_one(m.a as int);
    lemma_scaled_by_one(m.b as int);
    lemma_scaled_by_one(m.c as int);
    lemma_scaled_by_one(m.d as int);
    lemma_scaled_by_one(m.tx as int);
    lemma_scaled_by_one(m.ty as int);
    assert(0int / 0x1_0000 == 0);
}

/// A whole number times one in 16.16 fixed point, divided by the weight of
/// one, is the number.
proof fn lemma_scaled_by_one(x: int)
    ensures
        (x * 0x1_0000) / 0x1_0000 == x,
        (0x1_0000 * x) / 0x1_0000 == x,
        x * 0 == 0,
        0 * x == 0,
{
    lemma_div_multiples_vanish(x, 0x1_0000);
    assert(x * 0x1_0000 == 0x1_0000 * x);
}

impl ColorTransform {
    /// The transform that leaves every colour as it is: multipliers of one,
    /// in 8.8 fixed point, and offsets of zero.
    pub open spec fn spec_identity() -> ColorTransform {
        ColorTransform {
            r_mult: 0x100,
            g_mult: 0x100,
            b_mult: 0x100,
            a_mult: 0x100,
            r_add: 0,
            g_add: 0,
            b_add: 0,
            a_add: 0,
        }
    }

    /// The transform that leaves every colour as it is.
    pub fn identity() -> (t: ColorTransform)
        ensures
            t == ColorTransform::spec_identity(),
    {
        ColorTransform {
            r_mult: 0x100,
            g_mult: 0x100,
            b_mult: 0x100,
            a_mult: 0x100,
            r_add: 0,
            g_add: 0,
            b_add: 0,
            a_add: 0,
        }
    }
}

impl Rectangle {
    /// Whether the box holds the point.
    pub open spec fn spec_contains(self, p: Point) -> bool {
        self.valid && self.x_min <= p.x <= self.x_max && self.y_min <= p.y <= self.y_max
    }

    /// Whether two boxes have a point in common.
    pub open spec fn spec_intersects(self, other: Rectangle) -> bool {
        &&& self.valid
        &&& other.valid
        &&& self.x_min <= other.x_max
        &&& self.x_max >= other.x_min
        &&& self.y_min <= other.y_max
        &&& self.y_max >= other.y_min
    }

    /// The box that holds nothing.
    pub open spec fn spec_empty() -> Rectangle {
        Rectangle { x_min: 0, x_max: 0, y_min: 0, y_max: 0, valid: false }
    }

    /// The box spanned by the images of the four corners of this box under
    /// `m`. This is the box of the corners, not of the transformed content.
    pub open spec fn spec_transform(self, m: Matrix) -> Rectangle {
        if !self.valid {
            Rectangle::spec_empty()
        } else {
            let nw = m.spec_apply(Point { x: self.x_min, y: self.y_min });
            let sw = m.spec_apply(Point { x: self.x_min, y: self.y_max });
            let ne = m.spec_apply(Point { x: self.x_max, y: self.y_min });
            let se = m.spec_apply(Point { x: self.x_max, y: self.y_max });
            Rectangle {
                x_min: min2(min2(nw.x as int, sw.x as int), min2(ne.x as int, se.x as int)) as i32,
                x_max: max2(max2(nw.x as int, sw.x as int), max2(ne.x as int, se.x as int)) as i32,
                y_min: min2(min2(nw.y as int, sw.y as int), min2(ne.y as int, se.y as int)) as i32,
                y_max: max2(max2(nw.y as int, sw.y as int), max2(ne.y as int, se.y as int)) as i32,
                valid: true,
            }
        }
    }

    /// The box that holds nothing.
    pub fn empty() -> (r: Rectangle)
        ensures
            r == Rectangle::spec_empty(),
    {
        Rectangle { x_min: 0, x_max: 0, y_min: 0, y_max: 0, valid: false }
    }

    /// Tells whether the box holds the point.
    pub fn contains(&self, p: Point) -> (r: bool)
        ensures
            r == self.spec_contains(p),
    {
        self.valid && self.x_min <= p.x && p.x <= self.x_max && self.y_min <= p.y && p.y
            <= self.y_max
    }

    /// Tells whether two boxes have a point in common.
    pub fn intersects(&self, other: &Rectangle) -> (r: bool)
        ensures
            r == self.spec_intersects(*other),
    {
        self.valid && other.valid && self.x_min <= other.x_max && self.x_max >= other.x_min
            && self.y_min <= other.y_max && self.y_max >= other.y_min
    }

    /// Transforms the four corners of the box and returns the box they span.
    pub fn transform(&self, m: &Matrix) -> (r: Rectangle)
        ensures
            r == self.spec_transform(*m),
    {
        if !self.valid {
            return Rectangle::empty();
        }
        let nw = m.apply(Point { x: self.x_min, y: self.y_min });
        let sw = m.apply(Point { x: self.x_min, y: self.y_max });
        let ne = m.apply(Point { x: self.x_max, y: self.y_min });
        let se = m.apply(Point { x: self.x_max, y: self.y_max });
        Rectangle {
            x_min: lower(lower(nw.x, sw.x), lower(ne.x, se.x)),
            x_max: upper(upper(nw.x, sw.x), upper(ne.x, se.x)),
            y_min: lower(lower(nw.y, sw.y), lower(ne.y, se.y)),
            y_max: upper(upper(nw.y, sw.y), upper(ne.y, se.y)),
            valid: true,
        }
    }
}

impl Matrix {
    /// The transform that leaves every point where it is.
    pub open spec fn spec_identity() -> Matrix {
        Matrix { a: FIXED_ONE, b: 0, c: 0, d: FIXED_ONE, tx: 0, ty: 0 }
    }

    /// The transform without its offset.
    pub open spec fn spec_linear(self) -> Matrix {
        Matrix { tx: 0, ty: 0, ..self }
    }

    /// The image of a point.
    pub open spec fn spec_apply(self, p: Point) -> Point {
        Point {
            x: fixed_dot(self.a as int, p.x as int, self.c as int, p.y as int, self.tx as int)
                as i32,
            y: fixed_dot(self.b as int, p.x as int, self.d as int, p.y as int, self.ty as int)
                as i32,
        }
    }

    /// The transform that applies `rhs` first and `self` second: its columns
    /// are the columns of `rhs`, transformed by `self`; only the last of
    /// them, the offset, is moved by the offset of `self`.
    pub open spec fn spec_compose(self, rhs: Matrix) -> Matrix {
        Matrix {
            a: fixed_dot(self.a as int, rhs.a as int, self.c as int, rhs.b as int, 0) as i32,
            b: fixed_dot(self.b as int, rhs.a as int, self.d as int, rhs.b as int, 0) as i32,
            c: fixed_dot(self.a as int, rhs.c as int, self.c as int, rhs.d as int, 0) as i32,
            d: fixed_dot(self.b as int, rhs.c as int, self.d as int, rhs.d as int, 0) as i32,
            tx: fixed_dot(
                self.a as int,
                rhs.tx as int,
                self.c as int,
                rhs.ty as int,
                self.tx as int,
            ) as i32,
            ty: fixed_dot(
                self.b as int,
                rhs.tx as int,
                self.d as int,
                rhs.ty as int,
                self.ty as int,
            ) as i32,
        }
    }

    /// The determinant `a*d - b*c`, in units of 2^-32.
    pub open spec fn determinant(self) -> int {
        self.a as int * self.d as int - self.b as int * self.c as int
    }

    /// The transform that undoes this one, up to rounding. A transform whose
    /// determinant is zero cannot be undone; its inverse is taken to be the
    /// identity.
    pub open spec fn spec_invert(self) -> Matrix {
        let det = self.determinant();
        if det == 0 {
            Matrix::spec_identity()
        } else {
            Matrix {
                a: sat32(signed_quotient(self.d as int * 0x1_0000_0000, det)) as i32,
                b: sat32(signed_quotient(-(self.b as int) * 0x1_0000_0000, det)) as i32,
                c: sat32(signed_quotient(-(self.c as int) * 0x1_0000_0000, det)) as i32,
                d: sat32(signed_quotient(self.a as int * 0x1_0000_0000, det)) as i32,
                tx: sat32(
                    signed_quotient(
                        (self.c as int * self.ty as int - self.d as int * self.tx as int)
                            * 0x1_0000,
                        det,
                    ),
                ) as i32,
                ty: sat32(
                    signed_quotient(
                        (self.b as int * self.tx as int - self.a as int * self.ty as int)
                            * 0x1_0000,
                        det,
                    ),
                ) as i32,
            }
        }
    }

    /// The transform that leaves every point where it is.
    pub fn identity() -> (m: Matrix)
        ensures
            m == Matrix::spec_identity(),
    {
        Matrix { a: FIXED_ONE, b: 0, c: 0, d: FIXED_ONE, tx: 0, ty: 0 }
    }

    /// Transforms a point.
    pub fn apply(&self, p: Point) -> (q: Point)
        ensures
            q == self.spec_apply(p),
    {
        transform_point(self, p)
    }

    /// Composes two transforms: the result applies `rhs` first and `self`
    /// second. The columns of `rhs` are transformed by `self`.
    pub fn compose(&self, rhs: &Matrix) -> (m: Matrix)
        ensures
            m == self.spec_compose(*rhs),
    {
        let linear = Matrix { a: self.a, b: self.b, c: self.c, d: self.d, tx: 0, ty: 0 };
        let first = transform_point(&linear, Point { x: rhs.a, y: rhs.b });
        let second = transform_point(&linear, Point { x: rhs.c, y: rhs.d });
        let offset = transform_point(self, Point { x: rhs.tx, y: rhs.ty });
        Matrix { a: first.x, b: first.y, c: second.x, d: second.y, tx: offset.x, ty: offset.y }
    }

    /// Inverts the transform; the identity where the determinant is zero.
    pub fn invert(&self) -> (m: Matrix)
        ensures
            m == self.spec_invert(),
    {
        let det: i128 = product(self.a, self.d) - product(self.b, self.c);
        if det == 0 {
            return Matrix::identity();
        }
        let nx: i128 = product(self.c, self.ty) - product(self.d, self.tx);
        let ny: i128 = product(self.b, self.tx) - product(self.a, self.ty);
        Matrix {
            a: saturate(quotient((self.d as i128) * 0x1_0000_0000, det)),
            b: saturate(quotient(-(self.b as i128) * 0x1_0000_0000, det)),
            c: saturate(quotient(-(self.c as i128) * 0x1_0000_0000, det)),
            d: saturate(quotient((self.a as i128) * 0x1_0000_0000, det)),
            tx: saturate(quotient(nx * 0x1_0000, det)),
            ty: saturate(quotient(ny * 0x1_0000, det)),
        }
    }
}

/// Divides by a divisor that is not zero, rounding down after the sign of
/// the divisor has been moved to the dividend.
fn quotient(n: i128, d: i128) -> (q: i128)
    requires
        d != 0,
        -0x1_0000_0000_0000_0000_0000 <= n <= 0x1_0000_0000_0000_0000_0000,
        -0x1_0000_0000_0000_0000 <= d <= 0x1_0000_0000_0000_0000,
    ensures
        q == signed_quotient(n as int, d as int),
{
    if d > 0 {
        floor_div(n, d)
    } else {
        floor_div(-n, -d)
    }
}

} // verus!
