//! The owning buffer: `width * height` cells stored row-major.
use vstd::prelude::*;

use crate::image_ref::{window_fits, ImageRef, ImageRefMut, ImageRefOverhang, ImageRefOverhangMut};
use crate::iter::{IntoIter, Iter, IterMut, PixelProducer};
use crate::pixel_iter::{PixIter, SerializePixIter};
use crate::{
    lemma_rank_in_frame, logical_order, row_major, AreaView, AreaViewMut, IntoPixelIterator,
    IntoSerializedPixelIterator, ReadPixel, Rectangle, WritePixel,
};

verus! {

/// A buffer that owns its cells, stored row by row.
#[derive(Debug)]
pub struct PhysicalImage<T> {
    width: usize,
    height: usize,
    data: Vec<T>,
}

impl<T> PhysicalImage<T> {
    /// The storage, row-major.
    pub closed spec fn cells(&self) -> Seq<T> {
        self.data@
    }

    /// Index of `(x, y)` in the storage.
    pub open spec fn index_of(&self, x: int, y: int) -> int {
        row_major(x, y, self.width_spec() as int)
    }

    /// An image of the given size whose every cell holds `T::default()`.
    pub fn new(width: usize, height: usize) -> (r: Self) where T: Default
        requires
            width * height <= usize::MAX,
        ensures
            r.inv(),
            r.width_spec() == width,
            r.height_spec() == height,
    {
        let n = width * height;
        let mut data: Vec<T> = Vec::with_capacity(n);
        let mut i: usize = 0;
        while i < n
            invariant
                i <= n,
                data@.len() == i,
            decreases n - i,
        {
            data.push(T::default());
            i += 1;
        }
        PhysicalImage { width, height, data }
    }

    /// An image of the given size whose every cell is a clone of `default`.
    pub fn with_default(width: usize, height: usize, default: T) -> (r: Self) where T: Clone
        requires
            width * height <= usize::MAX,
        ensures
            r.inv(),
            r.width_spec() == width,
            r.height_spec() == height,
            forall|i: int| 0 <= i < r.cells().len() ==> cloned(default, #[trigger] r.cells()[i]),
    {
        let data = vec![default; width * height];
        PhysicalImage { width, height, data }
    }

    /// An image over the given row-major cells, or `None` when there are not
    /// exactly `width * height` of them.
    pub fn with_data(width: usize, height: usize, data: Vec<T>) -> (r: Option<Self>)
        ensures
            r.is_some() == (data@.len() == width * height),
            r matches Some(img) ==> img.inv() && img.width_spec() == width && img.height_spec()
                == height && img.cells() == data@,
    {
        if height == 0 {
            if data.len() == 0 {
                Some(PhysicalImage { width, height, data })
            } else {
                None
            }
        } else if data.len() % height == 0 && data.len() / height == width {
            proof {
                vstd::arithmetic::div_mod::lemma_fundamental_div_mod(data@.len() as int, height as int);
                vstd::arithmetic::mul::lemma_mul_is_commutative(width as int, height as int);
            }
            Some(PhysicalImage { width, height, data })
        } else {
            proof {
                if data@.len() == width * height {
                    vstd::arithmetic::mul::lemma_mul_is_commutative(width as int, height as int);
                    vstd::arithmetic::div_mod::lemma_div_multiples_vanish(width as int, height as int);
                    vstd::arithmetic::div_mod::lemma_mod_multiples_basic(width as int, height as int);
                }
            }
            None
        }
    }

    /// The cells, row-major.
    pub fn data(&self) -> (r: &Vec<T>)
        ensures
            r@ == self.cells(),
    {
        &self.data
    }

    /// Gives up the image and returns its cells, row-major.
    pub fn into_data(self) -> (r: Vec<T>)
        ensures
            r@ == self.cells(),
    {
        self.data
    }
}

impl<T> ReadPixel for PhysicalImage<T> {
    type Item = T;

    open spec fn inv(&self) -> bool {
        self.cells().len() == self.width_spec() * self.height_spec()
    }

    closed spec fn width_spec(&self) -> usize {
        self.width
    }

    closed spec fn height_spec(&self) -> usize {
        self.height
    }

    open spec fn valid_rect_spec(&self) -> Rectangle {
        Rectangle { x: 0, y: 0, w: self.width_spec(), h: self.height_spec() }
    }

    open spec fn pixel(&self, x: int, y: int) -> T {
        self.cells()[self.index_of(x, y)]
    }

    fn width(&self) -> (r: usize) {
        self.width
    }

    fn height(&self) -> (r: usize) {
        self.height
    }

    fn valid_rect(&self) -> (r: Rectangle) {
        Rectangle { x: 0, y: 0, w: self.width, h: self.height }
    }

    fn is_valid(&self, x: usize, y: usize) -> (r: bool) {
        x < self.width && y < self.height
    }

    fn get_unchecked(&self, x: usize, y: usize) -> (r: &T) {
        proof {
            assert(self.data@.len() == self.data.len());
            lemma_cell_in_bounds(x as int, y as int, self.width as int, self.height as int);
        }
        &self.data[y * self.width + x]
    }
}

impl<T> WritePixel for PhysicalImage<T> {
    open spec fn same_frame(&self, other: &Self) -> bool {
        self.width_spec() == other.width_spec() && self.height_spec() == other.height_spec()
    }

    open spec fn storage(&self) -> Seq<T> {
        self.cells()
    }

    open spec fn storage_index(&self, x: int, y: int) -> int {
        self.index_of(x, y)
    }

    proof fn lemma_storage(&self) {
        assert forall|x: int, y: int|
            #![trigger self.storage_index(x, y)]
            self.valid_rect_spec().contains_spec(x, y) implies 0 <= self.storage_index(x, y)
                < self.storage().len() by {
            lemma_cell_in_bounds(x, y, self.width as int, self.height as int);
        }
    }

    fn get_unchecked_mut(&mut self, x: usize, y: usize) -> (r: &mut T) {
        let n = self.data.len();
        proof {
            lemma_cell_in_bounds(x as int, y as int, self.width as int, self.height as int);
        }
        let i = y * self.width + x;
        proof {
            assert forall|a: int, b: int|
                0 <= a < self.width && 0 <= b < self.height && (a != x || b != y) implies #[trigger] row_major(a, b, self.width as int) != i && 0 <= row_major(a, b, self.width as int) < n by {
                lemma_cells_distinct(a, b, x as int, y as int, self.width as int);
                lemma_cell_in_bounds(a, b, self.width as int, self.height as int);
            }
        }
        let r = &mut self.data[i];
        r
    }
}

impl<T> PhysicalImage<T> {
    proof fn lemma_window_fits(&self, x: int, y: int, w: int, h: int)
        requires
            self.inv(),
            0 <= x,
            0 <= y,
            0 <= w,
            0 <= h,
            x + w <= self.width_spec(),
            y + h <= self.height_spec(),
        ensures
            window_fits(self.width_spec() as int, self.cells().len() as int, x, y, w, h),
    {
        vstd::arithmetic::mul::lemma_mul_inequality(y + h, self.height_spec() as int, self.width_spec() as int);
        vstd::arithmetic::mul::lemma_mul_is_commutative(y + h, self.width_spec() as int);
        vstd::arithmetic::mul::lemma_mul_is_commutative(self.height_spec() as int, self.width_spec() as int);
    }
}

impl<T> AreaView for PhysicalImage<T> {
    open spec fn view_is_valid_spec(&self, x: int, y: int, w: int, h: int) -> bool {
        x + w <= self.width_spec() && y + h <= self.height_spec()
    }

    fn view_is_valid(&self, x: usize, y: usize, w: usize, h: usize) -> (r: bool) {
        w <= self.width && x <= self.width - w && h <= self.height && y <= self.height - h
    }

    fn view_unchecked(&self, x: usize, y: usize, w: usize, h: usize) -> (r: ImageRef<'_, T>) {
        proof {
            self.lemma_window_fits(x as int, y as int, w as int, h as int);
        }
        ImageRef::new(self.width, self.data.as_slice(), x, y, w, h)
    }

    fn view_overhang(&self, x: isize, y: isize, w: usize, h: usize) -> (r: ImageRefOverhang<'_, T>) {
        let whole = self.view_unchecked(0, 0, self.width, self.height);
        whole.into_overhang(x, y, w, h)
    }
}

impl<T> AreaViewMut for PhysicalImage<T> {
    fn view_unchecked_mut(&mut self, x: usize, y: usize, w: usize, h: usize) -> (r: ImageRefMut<'_, T>) {
        proof {
            self.lemma_window_fits(x as int, y as int, w as int, h as int);
        }
        let width = self.width;
        ImageRefMut::new(width, self.data.as_mut_slice(), x, y, w, h)
    }

    fn view_overhang_mut(&mut self, x: isize, y: isize, w: usize, h: usize) -> (r: ImageRefOverhangMut<'_, T>) {
        let width = self.width;
        let height = self.height;
        proof {
            self.lemma_window_fits(0, 0, width as int, height as int);
        }
        let whole = ImageRefMut::new(width, self.data.as_mut_slice(), 0, 0, width, height);
        proof {
            assert forall|a: int, b: int| 0 <= a < width && 0 <= b < height implies #[trigger] whole.pixel(a, b) == old(self).pixel(a, b) by {
                assert(whole.pixel(a, b) == old(self).pixel(a, b));
            }
        }
        whole.into_overhang_mut(x, y, w, h)
    }
}

impl<T> PhysicalImage<T> {
    /// The view of the whole image.
    fn whole(&self) -> (r: ImageRef<'_, T>)
        requires
            self.inv(),
        ensures
            r.inv(),
            r.width_spec() == self.width_spec(),
            r.height_spec() == self.height_spec(),
            logical_order(&r) == logical_order(self),
    {
        let r = self.view_unchecked(0, 0, self.width, self.height);
        proof {
            assert forall|k: int| 0 <= k < logical_order(self).len() implies logical_order(&r)[k]
                == logical_order(self)[k] by {
                lemma_rank_in_frame(k, self.width as int, self.height as int);
            }
            assert(logical_order(&r) =~= logical_order(self));
        }
        r
    }

    /// The cells in row-major order, for parallel consumption.
    pub fn pix_iter(&self) -> (r: PixIter<Iter<'_, T>>)
        requires
            self.inv(),
        ensures
            r.width_spec() == self.width_spec(),
            r.height_spec() == self.height_spec(),
            r.inner().inv(),
            r.inner().values() == logical_order(self),
    {
        self.whole().pix_iter()
    }

    /// The cells in row-major order, for sequential consumption.
    pub fn pix_iter_serialized(&self) -> (r: SerializePixIter<Iter<'_, T>>)
        requires
            self.inv(),
        ensures
            r.width_spec() == self.width_spec(),
            r.height_spec() == self.height_spec(),
            r.inner().inv(),
            r.inner().values() == logical_order(self),
    {
        self.whole().pix_iter_serialized()
    }
}

impl<T> PhysicalImage<T> {
    /// The mutable view of the whole image.
    fn whole_mut(&mut self) -> (r: ImageRefMut<'_, T>)
        requires
            old(self).inv(),
        ensures
            r.inv(),
            r.width_spec() == old(self).width_spec(),
            r.height_spec() == old(self).height_spec(),
            logical_order(&r) == logical_order(&*old(self)),
    {
        let width = self.width;
        let height = self.height;
        proof {
            self.lemma_window_fits(0, 0, width as int, height as int);
        }
        let r = ImageRefMut::new(width, self.data.as_mut_slice(), 0, 0, width, height);
        proof {
            assert forall|k: int| 0 <= k < logical_order(&*old(self)).len() implies logical_order(&r)[k]
                == logical_order(&*old(self))[k] by {
                lemma_rank_in_frame(k, width as int, height as int);
            }
            assert(logical_order(&r) =~= logical_order(&*old(self)));
        }
        r
    }

    /// The mutable cells in row-major order, for parallel consumption.
    pub fn pix_iter_mut(&mut self) -> (r: PixIter<IterMut<'_, T>>)
        requires
            old(self).inv(),
        ensures
            r.width_spec() == old(self).width_spec(),
            r.height_spec() == old(self).height_spec(),
            r.inner().inv(),
            r.inner().values() == logical_order(&*old(self)),
    {
        proof {
            assert(self.data@.len() == self.data.len());
        }
        self.whole_mut().into_pix_iter()
    }

    /// The mutable cells in row-major order, for sequential consumption.
    pub fn pix_iter_serialized_mut(&mut self) -> (r: SerializePixIter<IterMut<'_, T>>)
        requires
            old(self).inv(),
        ensures
            r.width_spec() == old(self).width_spec(),
            r.height_spec() == old(self).height_spec(),
            r.inner().inv(),
            r.inner().values() == logical_order(&*old(self)),
    {
        proof {
            assert(self.data@.len() == self.data.len());
        }
        self.whole_mut().into_pix_iter_serialized()
    }
}

impl<T> PhysicalImage<T> {
    /// Row-major order of the image is its storage order.
    proof fn lemma_storage_order(&self)
        requires
            self.inv(),
        ensures
            logical_order(self) == self.cells(),
    {
        assert forall|k: int| 0 <= k < self.cells().len() implies logical_order(self)[k]
            == self.cells()[k] by {
            lemma_rank_in_frame(k, self.width as int, self.height as int);
            vstd::arithmetic::div_mod::lemma_fundamental_div_mod(k, self.width as int);
            assert(row_major(k % (self.width as int), k / (self.width as int), self.width as int) == k)
                by (nonlinear_arith)
                requires
                    k == (self.width as int) * (k / (self.width as int)) + k % (self.width as int),
            ;
        }
        assert(logical_order(self) =~= self.cells());
    }
}

impl<T> IntoPixelIterator for PhysicalImage<T> {
    type Iter = IntoIter<T>;

    open spec fn pixel_values(&self) -> Seq<T> {
        logical_order(self)
    }

    fn into_pix_iter(self) -> (r: PixIter<IntoIter<T>>) {
        proof {
            self.lemma_storage_order();
        }
        let PhysicalImage { width, height, data } = self;
        PixIter::new(IntoIter::new(data), width, height)
    }
}

impl<T> IntoSerializedPixelIterator for PhysicalImage<T> {
    fn into_pix_iter_serialized(self) -> (r: SerializePixIter<IntoIter<T>>) {
        proof {
            self.lemma_storage_order();
        }
        let PhysicalImage { width, height, data } = self;
        SerializePixIter::new(IntoIter::new(data), width, height)
    }
}

/// A position inside a `w x h` grid has a row-major index below `w * h`.
pub proof fn lemma_cell_in_bounds(x: int, y: int, w: int, h: int)
    requires
        0 <= x < w,
        0 <= y < h,
    ensures
        0 <= y * w + x < w * h,
{
    assert(y * w + x < w * h) by (nonlinear_arith)
        requires
            0 <= x < w,
            0 <= y < h,
    ;
    assert(0 <= y * w) by (nonlinear_arith)
        requires
            0 <= x < w,
            0 <= y < h,
    ;
}

/// Two distinct positions of a row of width `w` have distinct indices.
pub proof fn lemma_cells_distinct(a: int, b: int, x: int, y: int, w: int)
    requires
        0 <= a < w,
        0 <= x < w,
        a != x || b != y,
    ensures
        b * w + a != y * w + x,
{
    if b == y {
    } else if b < y {
        assert(b * w + a < y * w + x) by (nonlinear_arith)
            requires
                0 <= a < w,
                0 <= x,
                b < y,
        ;
    } else {
        assert(b * w + a > y * w + x) by (nonlinear_arith)
            requires
                0 <= a,
                0 <= x < w,
                b > y,
        ;
    }
}

} // verus!
