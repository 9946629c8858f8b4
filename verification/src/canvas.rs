//! Canvas: a pixel surface whose resolution is chosen at run time,
//! backed by a heap-allocated contiguous buffer.

use vstd::prelude::*;

use crate::image::{lemma_index_in_range, Image};
use crate::vector::Vector;

verus! {

broadcast use vstd::std_specs::vec::axiom_spec_len;

/// Canvas based on a heap-allocated buffer of pixel data.
/// The canvas size is not known at compile time.
///
/// The pixel at `(x, y)` lives at index `x + width * y` of the buffer,
/// which always holds exactly `width * height` pixels.
#[derive(Clone, Debug)]
pub struct Canvas<P> {
    data: Vec<P>,
    width: usize,
    height: usize,
}

/// A buffer of `n` copies of `color`.
fn filled_vec<P: Copy>(color: P, n: usize) -> (r: Vec<P>)
    ensures
        r@.len() == n,
        forall|i: int| 0 <= i < n ==> r@[i] == color,
{
    let mut data: Vec<P> = Vec::new();
    let mut i: usize = 0;
    while i < n
        invariant
            i <= n,
            data@.len() == i,
            forall|j: int| 0 <= j < i ==> data@[j] == color,
        decreases n - i,
    {
        data.push(color);
        i = i + 1;
    }
    data
}

impl<P> Canvas<P> where P: Copy {
    /// The buffer's length is a `usize`, so the row-major position of any
    /// valid coordinate fits the machine's index arithmetic.
    proof fn lemma_buffer_len_fits(&self)
        ensures
            self.data@.len() <= usize::MAX,
    {
        assert(self.data@.len() == self.data.len());
    }

    /// Create new canvas with given color and resolution.
    ///
    /// Every one of the `width * height` pixels starts out as `color`.
    /// A zero-width or zero-height canvas is legal and has no valid
    /// coordinates. The bounds on the arguments are the machine limits
    /// the signed interface and the buffer length force.
    pub fn with_resolution(color: P, width: usize, height: usize) -> (r: Self)
        requires
            width <= i32::MAX as usize,
            height <= i32::MAX as usize,
            width * height <= usize::MAX,
        ensures
            r.inv(),
            r.spec_width() == width,
            r.spec_height() == height,
            r.contents().len() == width * height,
            forall|i: int| 0 <= i < r.contents().len() ==> r.contents()[i] == color,
    {
        let data = filled_vec(color, width * height);
        Self { data, width, height }
    }

    /// The full pixel contents in row-major order: index 0 upward,
    /// matching storage order. A display backend copies a finished frame
    /// out in one pass over this slice; walking it twice yields the same
    /// sequence both times.
    pub fn pixels(&self) -> (r: &[P])
        requires
            self.inv(),
        ensures
            r@ == self.contents(),
            r@.len() == self.spec_width() * self.spec_height(),
    {
        proof {
            self.lemma_inv();
        }
        self.data.as_slice()
    }
}

impl<P> Image for Canvas<P> where P: Copy {
    type Pixel = P;

    closed spec fn spec_width(&self) -> int {
        self.width as int
    }

    closed spec fn spec_height(&self) -> int {
        self.height as int
    }

    closed spec fn contents(&self) -> Seq<P> {
        self.data@
    }

    closed spec fn inv(&self) -> bool {
        &&& self.data@.len() == self.width * self.height
        &&& self.width <= i32::MAX
        &&& self.height <= i32::MAX
    }

    proof fn lemma_inv(&self) {
    }

    fn pixel(&self, position: Vector<i32>) -> (r: Option<&P>) {
        if position.x < 0 || position.y < 0 {
            return None;
        }
        let x = position.x as usize;
        let y = position.y as usize;
        if x >= self.width || y >= self.height {
            None
        } else {
            proof {
                self.lemma_buffer_len_fits();
                lemma_index_in_range(self.width as int, self.height as int, x as int, y as int);
            }
            Some(&self.data[x + self.width * y])
        }
    }

    fn pixel_mut(&mut self, position: Vector<i32>) -> (r: Option<&mut P>) {
        if position.x < 0 || position.y < 0 {
            return None;
        }
        let x = position.x as usize;
        let y = position.y as usize;
        if x >= self.width || y >= self.height {
            None
        } else {
            proof {
                self.lemma_buffer_len_fits();
                lemma_index_in_range(self.width as int, self.height as int, x as int, y as int);
            }
            Some(&mut self.data[x + self.width * y])
        }
    }

    fn unsafe_pixel(&self, position: Vector<i32>) -> (r: &P) {
        proof {
            self.lemma_buffer_len_fits();
            lemma_index_in_range(
                self.width as int,
                self.height as int,
                position.x as int,
                position.y as int,
            );
        }
        let x = position.x as usize;
        let y = position.y as usize;
        &self.data[x + self.width * y]
    }

    fn unsafe_pixel_mut(&mut self, position: Vector<i32>) -> (r: &mut P) {
        proof {
            self.lemma_buffer_len_fits();
            lemma_index_in_range(
                self.width as int,
                self.height as int,
                position.x as int,
                position.y as int,
            );
        }
        let x = position.x as usize;
        let y = position.y as usize;
        &mut self.data[x + self.width * y]
    }

    fn width(&self) -> (r: i32) {
        self.width as i32
    }

    fn height(&self) -> (r: i32) {
        self.height as i32
    }

    fn clear(&mut self, color: P) {
        let n = self.data.len();
        self.data = filled_vec(color, n);
    }
}

} // verus!
