//! Sprite: a pixel surface with compile-time fixed dimensions, backed by
//! an inline two-dimensional array, plus its row-major pixel iterator.

use vstd::prelude::*;

use crate::image::{image_in_bounds, image_index, lemma_index_in_range, Image};
use crate::vector::Vector;

verus! {

broadcast use vstd::array::group_array_axioms;

/// Sprite of fixed dimensions: `W` columns by `H` rows, stored inline
/// and indexed as `data[y][x]`.
#[derive(Clone, Copy, Debug)]
pub struct Sprite<P, const W: usize, const H: usize> {
    data: [[P; W]; H],
}

impl<P, const W: usize, const H: usize> Sprite<P, W, H> where P: Copy {
    /// Every entry of the row-major contents, written back in terms of
    /// the stored rows: entry `i` is column `i % W` of row `i / W`.
    proof fn lemma_contents_entry(&self, i: int)
        requires
            0 <= i < W * H,
        ensures
            0 <= i / (W as int) < H as int,
            0 <= i % (W as int) < W as int,
            self.contents()[i] == self.data@[i / (W as int)]@[i % (W as int)],
    {
        assert(W > 0);
        vstd::arithmetic::div_mod::lemma_div_pos_is_pos(i, W as int);
        vstd::arithmetic::div_mod::lemma_multiply_divide_lt(i, W as int, H as int);
        vstd::arithmetic::div_mod::lemma_mod_division_less_than_divisor(i, W as int);
    }

    /// A change of one cell of one row is, seen flat, a change of one
    /// entry of the row-major contents.
    proof fn lemma_cell_update_is_flat_update(pre: Self, post: Self, x: int, y: int, v: P)
        requires
            image_in_bounds(W as int, H as int, x, y),
            forall|yy: int| 0 <= yy < H && yy != y ==> post.data@[yy] == pre.data@[yy],
            forall|xx: int| 0 <= xx < W && xx != x ==> post.data@[y]@[xx] == pre.data@[y]@[xx],
            post.data@[y]@[x] == v,
        ensures
            post.contents() == pre.contents().update(image_index(W as int, x, y), v),
    {
        lemma_index_in_range(W as int, H as int, x, y);
        crate::image::lemma_flat_round_trip(W as int, x, y);
        let flat = image_index(W as int, x, y);
        assert forall|i: int| 0 <= i < W * H implies post.contents()[i]
            == pre.contents().update(flat, v)[i] by {
            pre.lemma_contents_entry(i);
            post.lemma_contents_entry(i);
            vstd::arithmetic::div_mod::lemma_fundamental_div_mod(i, W as int);
        }
        assert(post.contents() =~= pre.contents().update(flat, v));
    }

    /// An `H` by `W` array holding `color` in every cell.
    fn filled_data(color: P) -> (r: [[P; W]; H])
        ensures
            forall|y: int, x: int|
                0 <= y < H && 0 <= x < W ==> #[trigger] r@[y]@[x] == color,
    {
        let row: [P; W] = vstd::array::array_fill_for_copy_types(color);
        let data: [[P; W]; H] = vstd::array::array_fill_for_copy_types(row);
        data
    }

    /// Create new Sprite with given color for each pixel.
    ///
    /// The bounds on `W` and `H` are the machine limits the signed
    /// interface and the flat pixel count force.
    pub fn with_color(color: P) -> (r: Self)
        requires
            W <= i32::MAX as usize,
            H <= i32::MAX as usize,
            W * H <= usize::MAX,
        ensures
            r.inv(),
            r.contents().len() == W * H,
            forall|i: int| 0 <= i < r.contents().len() ==> r.contents()[i] == color,
    {
        let r = Self { data: Self::filled_data(color) };
        proof {
            assert forall|i: int| 0 <= i < r.contents().len() implies r.contents()[i]
                == color by {
                r.lemma_contents_entry(i);
            }
        }
        r
    }

    /// Create new Sprite with given data, an `H`-row by `W`-column array
    /// in row-major order; the shape is enforced by the types alone.
    pub fn with_data(data: [[P; W]; H]) -> (r: Self)
        requires
            W <= i32::MAX as usize,
            H <= i32::MAX as usize,
            W * H <= usize::MAX,
        ensures
            r.inv(),
            r.contents().len() == W * H,
            forall|x: int, y: int|
                image_in_bounds(W as int, H as int, x, y) ==> r.contents()[image_index(
                    W as int,
                    x,
                    y,
                )] == data@[y]@[x],
    {
        let r = Self { data };
        proof {
            assert forall|x: int, y: int|
                image_in_bounds(W as int, H as int, x, y) implies r.contents()[image_index(
                W as int,
                x,
                y,
            )] == data@[y]@[x] by {
                lemma_index_in_range(W as int, H as int, x, y);
                r.lemma_contents_entry(image_index(W as int, x, y));
                crate::image::lemma_flat_round_trip(W as int, x, y);
            }
        }
        r
    }

    /// Iterator over this sprite's pixels, left to right, top to bottom,
    /// starting at the first pixel. Restartable: each call returns a
    /// fresh iterator over the same contents, so two full walks yield
    /// identical sequences.
    pub fn pixels(&self) -> (r: SpriteIter<'_, P, W, H>)
        requires
            self.inv(),
        ensures
            r.sprite_view() == *self,
            r.position() == 0,
            r.inv(),
    {
        SpriteIter { sprite: self, index: 0 }
    }

    /// A full row-major walk of this sprite's iterator, collected: it
    /// yields exactly `W * H` pixels, entry `k` of the result being
    /// entry `k` of the row-major contents. The walk is determined by
    /// the contents alone, so iterating twice yields identical
    /// sequences.
    pub fn pixels_vec(&self) -> (r: Vec<P>)
        requires
            self.inv(),
        ensures
            r@ == self.contents(),
            r@.len() == W * H,
    {
        proof {
            self.lemma_inv();
        }
        let mut out: Vec<P> = Vec::new();
        let mut it = self.pixels();
        loop
            invariant
                it.inv(),
                it.sprite_view() == *self,
                self.inv(),
                0 <= it.position() <= W * H,
                out@ == self.contents().take(it.position()),
            decreases W * H - it.position(),
        {
            let ghost pos = it.position();
            match it.next() {
                Some(p) => {
                    out.push(*p);
                    proof {
                        assert(out@ =~= self.contents().take(pos + 1));
                    }
                },
                None => {
                    proof {
                        assert(out@ =~= self.contents());
                    }
                    return out;
                },
            }
        }
    }
}

impl<P, const W: usize, const H: usize> Image for Sprite<P, W, H> where P: Copy {
    type Pixel = P;

    open spec fn spec_width(&self) -> int {
        W as int
    }

    open spec fn spec_height(&self) -> int {
        H as int
    }

    closed spec fn contents(&self) -> Seq<P> {
        Seq::new((W * H) as nat, |i: int| self.data@[i / (W as int)]@[i % (W as int)])
    }

    open spec fn inv(&self) -> bool {
        &&& W <= i32::MAX
        &&& H <= i32::MAX
        &&& W * H <= usize::MAX
    }

    proof fn lemma_inv(&self) {
    }

    fn pixel(&self, position: Vector<i32>) -> (r: Option<&P>) {
        if position.x < 0 || position.y < 0 {
            return None;
        }
        let x = position.x as usize;
        let y = position.y as usize;
        if x >= W || y >= H {
            None
        } else {
            proof {
                lemma_index_in_range(W as int, H as int, x as int, y as int);
                self.lemma_contents_entry(image_index(W as int, x as int, y as int));
                crate::image::lemma_flat_round_trip(W as int, x as int, y as int);
            }
            Some(&self.data[y][x])
        }
    }

    fn pixel_mut(&mut self, position: Vector<i32>) -> (r: Option<&mut P>) {
        if position.x < 0 || position.y < 0 {
            return None;
        }
        let x = position.x as usize;
        let y = position.y as usize;
        if x >= W || y >= H {
            None
        } else {
            proof {
                lemma_index_in_range(W as int, H as int, x as int, y as int);
                self.lemma_contents_entry(image_index(W as int, x as int, y as int));
                crate::image::lemma_flat_round_trip(W as int, x as int, y as int);
            }
            let r = &mut self.data[y][x];
            proof {
                Self::lemma_cell_update_is_flat_update(
                    *old(self),
                    after_borrow(*self),
                    x as int,
                    y as int,
                    *final(r),
                );
            }
            Some(r)
        }
    }

    fn unsafe_pixel(&self, position: Vector<i32>) -> (r: &P) {
        proof {
            lemma_index_in_range(W as int, H as int, position.x as int, position.y as int);
            self.lemma_contents_entry(image_index(W as int, position.x as int, position.y as int));
            crate::image::lemma_flat_round_trip(W as int, position.x as int, position.y as int);
        }
        let x = position.x as usize;
        let y = position.y as usize;
        &self.data[y][x]
    }

    fn unsafe_pixel_mut(&mut self, position: Vector<i32>) -> (r: &mut P) {
        proof {
            lemma_index_in_range(W as int, H as int, position.x as int, position.y as int);
            self.lemma_contents_entry(image_index(W as int, position.x as int, position.y as int));
            crate::image::lemma_flat_round_trip(W as int, position.x as int, position.y as int);
        }
        let x = position.x as usize;
        let y = position.y as usize;
        let r = &mut self.data[y][x];
        proof {
            Self::lemma_cell_update_is_flat_update(
                *old(self),
                after_borrow(*self),
                x as int,
                y as int,
                *final(r),
            );
        }
        r
    }

    fn width(&self) -> (r: i32) {
        W as i32
    }

    fn height(&self) -> (r: i32) {
        H as i32
    }

    fn clear(&mut self, color: P) {
        self.data = Self::filled_data(color);
        proof {
            assert forall|i: int| 0 <= i < self.contents().len() implies self.contents()[i]
                == color by {
                self.lemma_contents_entry(i);
            }
        }
    }
}

impl<P, const W: usize, const H: usize> Default for Sprite<P, W, H> where P: Default + Copy {
    /// When the pixel type has a natural default value, the default
    /// sprite holds that value in every cell: one value the component
    /// type's own `default` can return fills the whole sprite.
    fn default() -> (r: Self)
        ensures
            (W <= i32::MAX && H <= i32::MAX && W * H <= usize::MAX) ==> r.inv(),
            r.contents().len() == W * H,
            exists|d: P|
                #[trigger] call_ensures(P::default, (), d) && forall|i: int|
                    0 <= i < r.contents().len() ==> r.contents()[i] == d,
    {
        let d = P::default();
        let r = Self { data: Self::filled_data(d) };
        proof {
            assert forall|i: int| 0 <= i < r.contents().len() implies r.contents()[i] == d by {
                r.lemma_contents_entry(i);
            }
        }
        r
    }
}

/// An iterator over pixels in a sprite, left to right, top to bottom:
/// it walks a single increasing index from `0` to `W * H - 1` and maps
/// it to row `index / W`, column `index % W`.
pub struct SpriteIter<'a, P, const W: usize, const H: usize> {
    sprite: &'a Sprite<P, W, H>,
    index: usize,
}

impl<'a, P, const W: usize, const H: usize> SpriteIter<'a, P, W, H> where P: Copy {
    /// The sprite being walked.
    pub closed spec fn sprite_view(&self) -> Sprite<P, W, H> {
        *self.sprite
    }

    /// How many pixels have been yielded so far.
    pub closed spec fn position(&self) -> int {
        self.index as int
    }

    /// A sprite iterator is valid while its sprite is and its position
    /// has not run past the pixel count.
    pub closed spec fn inv(&self) -> bool {
        &&& self.sprite.inv()
        &&& 0 <= self.index <= W * H
    }

    /// Yield the next pixel in row-major order: the `position()`-th entry
    /// of the sprite's contents, or `None` once all `W * H` pixels have
    /// been yielded.
    pub fn next(&mut self) -> (r: Option<&'a P>)
        requires
            old(self).inv(),
        ensures
            final(self).inv(),
            final(self).sprite_view() == old(self).sprite_view(),
            old(self).position() < W * H ==> r is Some && *r.unwrap()
                == old(self).sprite_view().contents()[old(self).position()] && final(self).position()
                == old(self).position() + 1,
            old(self).position() >= W * H ==> r is None && final(self).position() == old(
                self,
            ).position(),
    {
        let current = self.index;
        if current < W * H {
            proof {
                assert(W > 0);
                self.sprite.lemma_contents_entry(current as int);
            }
            self.index = current + 1;
            Some(&self.sprite.data[current / W][current % W])
        } else {
            None
        }
    }
}

} // verus!
