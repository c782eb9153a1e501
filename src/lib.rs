//! Zero-copy windowed access into a two-dimensional row-major buffer:
//! bounds-checked sub-views, views that may overhang the buffer's edges, and
//! splittable iterators over their cells.
use vstd::prelude::*;

pub mod image_ref;
pub mod iter;
pub mod overlap;
pub mod physical_image;
pub mod pixel_iter;

use crate::image_ref::{ImageRef, ImageRefMut, ImageRefOverhang, ImageRefOverhangMut};
use crate::iter::PixelProducer;
use crate::pixel_iter::{PixIter, SerializePixIter};

verus! {

/// An axis-aligned rectangle `[x, x + w) x [y, y + h)`.
#[derive(Debug, Clone, Copy, PartialEq, Eq, Structural)]
pub struct Rectangle {
    pub x: usize,
    pub y: usize,
    pub w: usize,
    pub h: usize,
}

impl Rectangle {
    /// Whether the point `(px, py)` lies in this rectangle.
    pub open spec fn contains_spec(self, px: int, py: int) -> bool {
        self.x <= px < self.x + self.w && self.y <= py < self.y + self.h
    }

    /// Whether every point of the rectangle `[x, x + w) x [y, y + h)` lies in
    /// this rectangle.
    pub open spec fn contains_rect(self, x: int, y: int, w: int, h: int) -> bool {
        w == 0 || h == 0 || (self.x <= x && x + w <= self.x + self.w && self.y <= y && y + h
            <= self.y + self.h)
    }

    /// Whether the point `(x, y)` lies in this rectangle.
    pub fn contains(&self, x: usize, y: usize) -> (r: bool)
        ensures
            r == self.contains_spec(x as int, y as int),
    {
        self.x <= x && x - self.x < self.w && self.y <= y && y - self.y < self.h
    }
}

/// Index of `(x, y)` in row-major storage whose rows hold `w` cells.
pub open spec fn row_major(x: int, y: int, w: int) -> int {
    y * w + x
}

/// A rank `k` of a `w x h` frame names the cell `(k % w, k / w)` of it.
pub proof fn lemma_rank_in_frame(k: int, w: int, h: int)
    requires
        0 <= k < w * h,
        0 <= h,
    ensures
        w > 0,
        0 <= k % w < w,
        0 <= k / w < h,
{
    if w <= 0 {
        assert(w * h <= 0) by (nonlinear_arith)
            requires
                w <= 0,
                0 <= h,
        ;
    }
    vstd::arithmetic::div_mod::lemma_fundamental_div_mod(k, w);
    vstd::arithmetic::div_mod::lemma_div_pos_is_pos(k, w);
    if k / w >= h {
        vstd::arithmetic::mul::lemma_mul_inequality(h, k / w, w);
        assert(w * h == h * w) by (nonlinear_arith);
        assert((k / w) * w == w * (k / w)) by (nonlinear_arith);
        assert(false);
    }
}

/// `v` clamped to `[lo, hi]` (with `lo <= hi`).
pub open spec fn clamp(v: int, lo: int, hi: int) -> int {
    if v < lo {
        lo
    } else if v > hi {
        hi
    } else {
        v
    }
}

/// Read access to the cells of an image-like value.
///
/// Every position of `valid_rect_spec()` maps to a real cell, whose value is
/// `pixel(x, y)`.
pub trait ReadPixel: Sized {
    /// The type of a cell.
    type Item;

    /// Well-formedness of the value.
    spec fn inv(&self) -> bool;

    spec fn width_spec(&self) -> usize;

    spec fn height_spec(&self) -> usize;

    /// The positions, in this value's own frame, that map to real cells.
    spec fn valid_rect_spec(&self) -> Rectangle;

    /// The value of the cell at a valid position.
    spec fn pixel(&self, x: int, y: int) -> Self::Item;

    /// Width of the image.
    fn width(&self) -> (r: usize)
        ensures
            r == self.width_spec(),
    ;

    /// Height of the image.
    fn height(&self) -> (r: usize)
        ensures
            r == self.height_spec(),
    ;

    /// The valid area of the image.
    fn valid_rect(&self) -> (r: Rectangle)
        requires
            self.inv(),
        ensures
            r == self.valid_rect_spec(),
    ;

    /// Whether the cell at `(x, y)` is valid.
    fn is_valid(&self, x: usize, y: usize) -> (r: bool)
        requires
            self.inv(),
        ensures
            r == self.valid_rect_spec().contains_spec(x as int, y as int),
    {
        self.valid_rect().contains(x, y)
    }

    /// The cell at `(x, y)`, or `None` exactly when `(x, y)` is not valid.
    fn get(&self, x: usize, y: usize) -> (r: Option<&Self::Item>)
        requires
            self.inv(),
        ensures
            r.is_some() == self.valid_rect_spec().contains_spec(x as int, y as int),
            r.is_some() ==> *r.unwrap() == self.pixel(x as int, y as int),
    {
        if self.is_valid(x, y) {
            Some(self.get_unchecked(x, y))
        } else {
            None
        }
    }

    /// The cell at a position known to be valid.
    fn get_unchecked(&self, x: usize, y: usize) -> (r: &Self::Item)
        requires
            self.inv(),
            self.valid_rect_spec().contains_spec(x as int, y as int),
        ensures
            *r == self.pixel(x as int, y as int),
    ;
}

/// Write access to the cells of an image-like value.
pub trait WritePixel: ReadPixel {
    /// The part of the value that stays fixed while cells are written or
    /// sub-views are taken: its size, its valid area and its placement.
    spec fn same_frame(&self, other: &Self) -> bool;

    /// The whole storage that the cells live in, as it is now.
    spec fn storage(&self) -> Seq<Self::Item>;

    /// Where in `storage()` the cell at `(x, y)` lives.
    spec fn storage_index(&self, x: int, y: int) -> int;

    /// Every valid cell lives in the storage at its index.
    proof fn lemma_storage(&self)
        requires
            self.inv(),
        ensures
            forall|x: int, y: int|
                #![trigger self.storage_index(x, y)]
                self.valid_rect_spec().contains_spec(x, y) ==> 0 <= self.storage_index(x, y)
                    < self.storage().len() && self.pixel(x, y) == self.storage()[self.storage_index(
                    x,
                    y,
                )],
    ;

    /// The mutable cell at `(x, y)`, or `None` exactly when `(x, y)` is not
    /// valid. What is written through it lands at `(x, y)` and nowhere else.
    fn get_mut(&mut self, x: usize, y: usize) -> (r: Option<&mut Self::Item>)
        requires
            old(self).inv(),
        ensures
            r.is_some() == old(self).valid_rect_spec().contains_spec(x as int, y as int),
            r.is_some() ==> *r.unwrap() == old(self).pixel(x as int, y as int),
            r.is_none() ==> *final(self) == *old(self),
            r.is_some() ==> {
                &&& final(self).inv()
                &&& old(self).same_frame(&*final(self))
                &&& final(self).width_spec() == old(self).width_spec()
                &&& final(self).height_spec() == old(self).height_spec()
                &&& final(self).valid_rect_spec() == old(self).valid_rect_spec()
                &&& final(self).pixel(x as int, y as int) == *final(r.unwrap())
                &&& forall|a: int, b: int|
                    #![trigger final(self).pixel(a, b)]
                    old(self).valid_rect_spec().contains_spec(a, b) && (a != x || b != y)
                        ==> final(self).pixel(a, b) == old(self).pixel(a, b)
            },
    {
        if self.is_valid(x, y) {
            Some(self.get_unchecked_mut(x, y))
        } else {
            None
        }
    }

    /// The mutable cell at a position known to be valid.
    fn get_unchecked_mut(&mut self, x: usize, y: usize) -> (r: &mut Self::Item)
        requires
            old(self).inv(),
            old(self).valid_rect_spec().contains_spec(x as int, y as int),
        ensures
            *r == old(self).pixel(x as int, y as int),
            final(self).inv(),
            old(self).same_frame(&*final(self)),
            final(self).width_spec() == old(self).width_spec(),
            final(self).height_spec() == old(self).height_spec(),
            final(self).valid_rect_spec() == old(self).valid_rect_spec(),
            final(self).pixel(x as int, y as int) == *final(r),
            forall|a: int, b: int|
                #![trigger final(self).pixel(a, b)]
                old(self).valid_rect_spec().contains_spec(a, b) && (a != x || b != y)
                    ==> final(self).pixel(a, b) == old(self).pixel(a, b),
    ;
}


/// Sub-rectangle views of an image-like value.
pub trait AreaView: ReadPixel {
    /// Whether `[x, x + w) x [y, y + h)` lies inside the valid area.
    spec fn view_is_valid_spec(&self, x: int, y: int, w: int, h: int) -> bool;

    /// Whether `[x, x + w) x [y, y + h)` lies inside the valid area.
    fn view_is_valid(&self, x: usize, y: usize, w: usize, h: usize) -> (r: bool)
        requires
            self.inv(),
        ensures
            r == self.view_is_valid_spec(x as int, y as int, w as int, h as int),
    ;

    /// The `w x h` window whose top-left cell is `(x, y)`, or `None` exactly
    /// when that window is not valid.
    fn view(&self, x: usize, y: usize, w: usize, h: usize) -> (r: Option<ImageRef<'_, Self::Item>>)
        requires
            self.inv(),
        ensures
            r.is_some() == self.view_is_valid_spec(x as int, y as int, w as int, h as int),
            r.is_some() ==> r.unwrap().inv(),
            r.is_some() ==> r.unwrap().width_spec() == w,
            r.is_some() ==> r.unwrap().height_spec() == h,
            r.is_some() ==> self.valid_rect_spec().contains_rect(x as int, y as int, w as int, h as int),
            r.is_some() ==> forall|a: int, b: int|
                #![trigger r.unwrap().pixel(a, b)]
                0 <= a < w && 0 <= b < h ==> r.unwrap().pixel(a, b) == self.pixel(x + a, y + b),
    {
        if self.view_is_valid(x, y, w, h) {
            let v = self.view_unchecked(x, y, w, h);
            let r = Some(v);
            assert forall|a: int, b: int|
                0 <= a < w && 0 <= b < h implies #[trigger] r.unwrap().pixel(a, b) == self.pixel(x + a, y + b) by {
                assert(v.pixel(a, b) == self.pixel(x + a, y + b));
            }
            r
        } else {
            None
        }
    }

    /// The `w x h` window whose top-left cell is `(x, y)`, known to be valid.
    fn view_unchecked(&self, x: usize, y: usize, w: usize, h: usize) -> (r: ImageRef<'_, Self::Item>)
        requires
            self.inv(),
            self.view_is_valid_spec(x as int, y as int, w as int, h as int),
        ensures
            r.inv(),
            r.width_spec() == w,
            r.height_spec() == h,
            self.valid_rect_spec().contains_rect(x as int, y as int, w as int, h as int),
            forall|a: int, b: int|
                #![trigger r.pixel(a, b)]
                0 <= a < w && 0 <= b < h ==> r.pixel(a, b) == self.pixel(x + a, y + b),
    ;

    /// The `w x h` window whose top-left cell is `(x, y)`, which may reach
    /// past the valid area: a cell of it is valid exactly when the cell it
    /// stands for here is valid, and then holds the same value.
    fn view_overhang(&self, x: isize, y: isize, w: usize, h: usize) -> (r: ImageRefOverhang<'_, Self::Item>)
        requires
            self.inv(),
            x - self.valid_rect_spec().x >= isize::MIN,
            y - self.valid_rect_spec().y >= isize::MIN,
        ensures
            r.inv(),
            r.width_spec() == w,
            r.height_spec() == h,
            forall|a: int, b: int|
                #![trigger r.valid_rect_spec().contains_spec(a, b)]
                r.valid_rect_spec().contains_spec(a, b) <==> (0 <= a < w && 0 <= b < h
                    && self.valid_rect_spec().contains_spec(x + a, y + b)),
            forall|a: int, b: int|
                #![trigger r.pixel(a, b)]
                r.valid_rect_spec().contains_spec(a, b) ==> r.pixel(a, b) == self.pixel(x + a, y + b),
    ;
}

/// Mutable sub-rectangle views of an image-like value. A mutable view
/// writes to its parent's storage: once it is dropped, the parent's storage
/// is what the view's storage then holds.
pub trait AreaViewMut: AreaView + WritePixel {
    /// The mutable `w x h` window whose top-left cell is `(x, y)`, or `None`
    /// exactly when that window is not valid.
    fn view_mut(&mut self, x: usize, y: usize, w: usize, h: usize) -> (r: Option<
        ImageRefMut<'_, Self::Item>,
    >)
        requires
            old(self).inv(),
        ensures
            r.is_some() == old(self).view_is_valid_spec(x as int, y as int, w as int, h as int),
            r.is_none() ==> *final(self) == *old(self),
            r.is_some() ==> r.unwrap().inv(),
            r.is_some() ==> r.unwrap().width_spec() == w,
            r.is_some() ==> r.unwrap().height_spec() == h,
            r.is_some() ==> old(self).valid_rect_spec().contains_rect(x as int, y as int, w as int, h as int),
            r.is_some() ==> forall|a: int, b: int|
                #![trigger r.unwrap().pixel(a, b)]
                0 <= a < w && 0 <= b < h ==> r.unwrap().pixel(a, b) == old(self).pixel(x + a, y + b),
            r.is_some() ==> old(self).same_frame(&*final(self)),
            r.is_some() ==> r.unwrap().backing()@ == old(self).storage(),
            r.is_some() ==> final(r.unwrap().backing())@ == final(self).storage(),
            r.is_some() ==> forall|a: int, b: int|
                #![trigger r.unwrap().storage_index(a, b)]
                0 <= a < w && 0 <= b < h ==> r.unwrap().storage_index(a, b) == old(
                    self,
                ).storage_index(x + a, y + b),
    {
        if self.view_is_valid(x, y, w, h) {
            let v = self.view_unchecked_mut(x, y, w, h);
            let r = Some(v);
            assert forall|a: int, b: int|
                0 <= a < w && 0 <= b < h implies #[trigger] r.unwrap().pixel(a, b) == old(self).pixel(x + a, y + b) by {
                assert(v.pixel(a, b) == old(self).pixel(x + a, y + b));
            }
            assert forall|a: int, b: int|
                0 <= a < w && 0 <= b < h implies #[trigger] r.unwrap().storage_index(a, b) == old(self).storage_index(x + a, y + b) by {
                assert(v.storage_index(a, b) == old(self).storage_index(x + a, y + b));
            }
            r
        } else {
            None
        }
    }

    /// The mutable `w x h` window whose top-left cell is `(x, y)`, known to
    /// be valid.
    fn view_unchecked_mut(&mut self, x: usize, y: usize, w: usize, h: usize) -> (r: ImageRefMut<
        '_,
        Self::Item,
    >)
        requires
            old(self).inv(),
            old(self).view_is_valid_spec(x as int, y as int, w as int, h as int),
        ensures
            r.inv(),
            r.width_spec() == w,
            r.height_spec() == h,
            old(self).valid_rect_spec().contains_rect(x as int, y as int, w as int, h as int),
            forall|a: int, b: int|
                #![trigger r.pixel(a, b)]
                0 <= a < w && 0 <= b < h ==> r.pixel(a, b) == old(self).pixel(x + a, y + b),
            old(self).same_frame(&*final(self)),
            r.backing()@ == old(self).storage(),
            final(r.backing())@ == final(self).storage(),
            forall|a: int, b: int|
                #![trigger r.storage_index(a, b)]
                0 <= a < w && 0 <= b < h ==> r.storage_index(a, b) == old(self).storage_index(
                    x + a,
                    y + b,
                ),
    ;

    /// The mutable `w x h` window whose top-left cell is `(x, y)`, which may
    /// reach past the valid area, as `AreaView::view_overhang` describes.
    fn view_overhang_mut(&mut self, x: isize, y: isize, w: usize, h: usize) -> (r:
        ImageRefOverhangMut<'_, Self::Item>)
        requires
            old(self).inv(),
            x - old(self).valid_rect_spec().x >= isize::MIN,
            y - old(self).valid_rect_spec().y >= isize::MIN,
        ensures
            r.inv(),
            r.width_spec() == w,
            r.height_spec() == h,
            forall|a: int, b: int|
                #![trigger r.valid_rect_spec().contains_spec(a, b)]
                r.valid_rect_spec().contains_spec(a, b) <==> (0 <= a < w && 0 <= b < h
                    && old(self).valid_rect_spec().contains_spec(x + a, y + b)),
            forall|a: int, b: int|
                #![trigger r.pixel(a, b)]
                r.valid_rect_spec().contains_spec(a, b) ==> r.pixel(a, b) == old(self).pixel(
                    x + a,
                    y + b,
                ),
            old(self).same_frame(&*final(self)),
            r.backing()@ == old(self).storage(),
            final(r.backing())@ == final(self).storage(),
            forall|a: int, b: int|
                #![trigger r.storage_index(a, b)]
                r.valid_rect_spec().contains_spec(a, b) ==> r.storage_index(a, b) == old(
                    self,
                ).storage_index(x + a, y + b),
    ;
}

/// Image-like values that can be given up for an iterator over their
/// positions in row-major order.
pub trait IntoPixelIterator: ReadPixel {
    /// The producer of the positions.
    type Iter: PixelProducer;

    /// What the producer yields, in order.
    spec fn pixel_values(&self) -> Seq<<Self::Iter as PixelProducer>::Value>;

    /// The positions in row-major order, for parallel consumption.
    fn into_pix_iter(self) -> (r: PixIter<Self::Iter>)
        requires
            self.inv(),
            self.width_spec() * self.height_spec() <= usize::MAX,
        ensures
            r.width_spec() == self.width_spec(),
            r.height_spec() == self.height_spec(),
            r.inner().inv(),
            r.inner().values() == self.pixel_values(),
    ;
}

/// Image-like values that can be given up for an iterator over their
/// positions in row-major order, consumed front to back.
pub trait IntoSerializedPixelIterator: IntoPixelIterator {
    /// The positions in row-major order, for sequential consumption.
    fn into_pix_iter_serialized(self) -> (r: SerializePixIter<Self::Iter>)
        requires
            self.inv(),
            self.width_spec() * self.height_spec() <= usize::MAX,
        ensures
            r.width_spec() == self.width_spec(),
            r.height_spec() == self.height_spec(),
            r.inner().inv(),
            r.inner().values() == self.pixel_values(),
    ;
}

/// The cells of `p`'s `width x height` frame in row-major order: rank `k`
/// is the cell `(k % width, k / width)`.
pub open spec fn logical_order<P: ReadPixel>(p: &P) -> Seq<P::Item> {
    let w = p.width_spec() as int;
    Seq::new((w * p.height_spec()) as nat, |k: int| p.pixel(k % w, k / w))
}

/// The positions of `p`'s `width x height` frame in row-major order, each
/// holding its cell where it is valid and `None` elsewhere.
pub open spec fn logical_order_overhang<P: ReadPixel>(p: &P) -> Seq<Option<P::Item>> {
    let w = p.width_spec() as int;
    Seq::new(
        (w * p.height_spec()) as nat,
        |k: int|
            if p.valid_rect_spec().contains_spec(k % w, k / w) {
                Some(p.pixel(k % w, k / w))
            } else {
                None
            },
    )
}

} // verus!
