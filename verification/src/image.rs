//! The storage-agnostic pixel-surface contract: the minimal interface a
//! drawing routine needs, implemented by every backing store.

use vstd::prelude::*;

use crate::vector::Vector;

verus! {

/// The set of valid coordinates of a `w` by `h` surface is exactly
/// `0 <= x < w` and `0 <= y < h`; all other coordinates, negative ones
/// included, are invalid.
pub open spec fn image_in_bounds(w: int, h: int, x: int, y: int) -> bool {
    0 <= x < w && 0 <= y < h
}

/// Position of the pixel `(x, y)` in the row-major pixel sequence of a
/// surface `w` pixels wide.
pub open spec fn image_index(w: int, x: int, y: int) -> int {
    x + w * y
}

/// A valid coordinate's row-major position lies within the surface's
/// `w * h` pixels.
pub proof fn lemma_index_in_range(w: int, h: int, x: int, y: int)
    requires
        image_in_bounds(w, h, x, y),
    ensures
        0 <= image_index(w, x, y) < w * h,
{
    assert(0 <= x + w * y < w * h) by (nonlinear_arith)
        requires
            0 <= x < w,
            0 <= y < h,
    ;
}

/// A row-major position splits back into its coordinates by division and
/// remainder: the row is `index / w` and the column is `index % w`.
pub proof fn lemma_flat_round_trip(w: int, x: int, y: int)
    requires
        0 <= x < w,
        0 <= y,
    ensures
        image_index(w, x, y) / w == y,
        image_index(w, x, y) % w == x,
{
    vstd::arithmetic::mul::lemma_mul_is_commutative(w, y);
    vstd::arithmetic::div_mod::lemma_fundamental_div_mod_converse(x + w * y, w, y, x);
}

/// The pixel-surface contract.
///
/// A surface has a fixed width and height and a row-major sequence of
/// `width * height` pixels. Checked access returns `None` outside the
/// valid coordinate range and never faults; unchecked access trusts the
/// caller's bounds obligation, stated here as a precondition rather than
/// a runtime check.
pub trait Image {
    /// The pixel value stored at each coordinate.
    type Pixel;

    /// Width of the surface, in pixels.
    spec fn spec_width(&self) -> int;

    /// Height of the surface, in pixels.
    spec fn spec_height(&self) -> int;

    /// The pixel contents in row-major order: all columns of one row are
    /// contiguous before the next row begins.
    spec fn contents(&self) -> Seq<Self::Pixel>;

    /// The backing store's structural invariant; constructors establish
    /// it and every operation preserves it.
    spec fn inv(&self) -> bool;

    /// The invariant pins the shape of the surface: dimensions fit the
    /// signed interface and the contents hold exactly `width * height`
    /// pixels.
    proof fn lemma_inv(&self)
        requires
            self.inv(),
        ensures
            0 <= self.spec_width() <= i32::MAX,
            0 <= self.spec_height() <= i32::MAX,
            self.contents().len() == self.spec_width() * self.spec_height(),
    ;

    /// Checked read: `Some` of the pixel at `position` when it is in
    /// bounds, `None` otherwise; never a runtime fault.
    fn pixel(&self, position: Vector<i32>) -> (r: Option<&Self::Pixel>)
        requires
            self.inv(),
        ensures
            image_in_bounds(self.spec_width(), self.spec_height(), position.x as int, position.y as int)
                ==> r is Some && *r.unwrap() == self.contents()[image_index(
                self.spec_width(),
                position.x as int,
                position.y as int,
            )],
            !image_in_bounds(self.spec_width(), self.spec_height(), position.x as int, position.y as int)
                ==> r is None,
    ;

    /// Checked write access: `Some` of a mutable reference to the pixel at
    /// `position` when it is in bounds, `None` otherwise. The surface
    /// afterwards differs from the old one exactly at that pixel, which
    /// holds whatever the caller wrote through the reference.
    fn pixel_mut(&mut self, position: Vector<i32>) -> (r: Option<&mut Self::Pixel>)
        requires
            old(self).inv(),
        ensures
            final(self).inv(),
            final(self).spec_width() == old(self).spec_width(),
            final(self).spec_height() == old(self).spec_height(),
            image_in_bounds(
                old(self).spec_width(),
                old(self).spec_height(),
                position.x as int,
                position.y as int,
            ) ==> r is Some && *r.unwrap() == old(self).contents()[image_index(
                old(self).spec_width(),
                position.x as int,
                position.y as int,
            )] && final(self).contents() == old(self).contents().update(
                image_index(old(self).spec_width(), position.x as int, position.y as int),
                *final(r.unwrap()),
            ),
            !image_in_bounds(
                old(self).spec_width(),
                old(self).spec_height(),
                position.x as int,
                position.y as int,
            ) ==> r is None && final(self).contents() == old(self).contents(),
    ;

    /// Unchecked read. The caller owes the bounds precondition; in return
    /// the read is direct, with no validation. Returns the same pixel the
    /// checked read wraps in `Some`.
    fn unsafe_pixel(&self, position: Vector<i32>) -> (r: &Self::Pixel)
        requires
            self.inv(),
            image_in_bounds(self.spec_width(), self.spec_height(), position.x as int, position.y as int),
        ensures
            *r == self.contents()[image_index(self.spec_width(), position.x as int, position.y as int)],
    ;

    /// Unchecked write access, under the same bounds obligation as
    /// `unsafe_pixel`. The surface afterwards differs from the old one
    /// exactly at the addressed pixel.
    fn unsafe_pixel_mut(&mut self, position: Vector<i32>) -> (r: &mut Self::Pixel)
        requires
            old(self).inv(),
            image_in_bounds(
                old(self).spec_width(),
                old(self).spec_height(),
                position.x as int,
                position.y as int,
            ),
        ensures
            final(self).inv(),
            final(self).spec_width() == old(self).spec_width(),
            final(self).spec_height() == old(self).spec_height(),
            *r == old(self).contents()[image_index(
                old(self).spec_width(),
                position.x as int,
                position.y as int,
            )],
            final(self).contents() == old(self).contents().update(
                image_index(old(self).spec_width(), position.x as int, position.y as int),
                *final(r),
            ),
    ;

    /// Width as a signed value, so downstream coordinate arithmetic that
    /// transiently goes negative composes naturally.
    fn width(&self) -> (r: i32)
        requires
            self.inv(),
        ensures
            r as int == self.spec_width(),
    ;

    /// Height as a signed value.
    fn height(&self) -> (r: i32)
        requires
            self.inv(),
        ensures
            r as int == self.spec_height(),
    ;

    /// Reset every pixel to `color`; the dimensions are unaffected.
    fn clear(&mut self, color: Self::Pixel)
        requires
            old(self).inv(),
        ensures
            final(self).inv(),
            final(self).spec_width() == old(self).spec_width(),
            final(self).spec_height() == old(self).spec_height(),
            final(self).contents().len() == old(self).contents().len(),
            forall|i: int|
                0 <= i < final(self).contents().len() ==> final(self).contents()[i] == color,
    ;
}

/// For every in-bounds position, the checked and the unchecked read
/// return the same value: any result the `pixel` contract admits is
/// `Some` of exactly the value any result the `unsafe_pixel` contract
/// admits.
pub proof fn lemma_checked_unchecked_agree<I: Image>(
    s: &I,
    position: Vector<i32>,
    checked: Option<&I::Pixel>,
    unchecked: &I::Pixel,
)
    requires
        s.inv(),
        image_in_bounds(s.spec_width(), s.spec_height(), position.x as int, position.y as int),
        call_ensures(I::pixel, (s, position), checked),
        call_ensures(I::unsafe_pixel, (s, position), unchecked),
    ensures
        checked is Some,
        *checked.unwrap() == *unchecked,
{
}

/// For every position with a negative coordinate or a coordinate at or
/// past the surface's extent, the checked read returns absent.
pub proof fn lemma_out_of_bounds_absent<I: Image>(
    s: &I,
    position: Vector<i32>,
    checked: Option<&I::Pixel>,
)
    requires
        s.inv(),
        !image_in_bounds(s.spec_width(), s.spec_height(), position.x as int, position.y as int),
        call_ensures(I::pixel, (s, position), checked),
    ensures
        checked is None,
{
}

/// After `clear(c)`, the checked read returns `Some(c)` at every
/// in-bounds position: a surface meeting `clear`'s postcondition holds
/// `c` at every valid coordinate's row-major position, which is exactly
/// the value `pixel`'s postcondition makes it return.
pub proof fn lemma_clear_then_pixel<I: Image>(s: I, color: I::Pixel, x: int, y: int)
    requires
        s.inv(),
        forall|i: int| 0 <= i < s.contents().len() ==> s.contents()[i] == color,
        image_in_bounds(s.spec_width(), s.spec_height(), x, y),
    ensures
        s.contents()[image_index(s.spec_width(), x, y)] == color,
{
    s.lemma_inv();
    lemma_index_in_range(s.spec_width(), s.spec_height(), x, y);
}

} // verus!
