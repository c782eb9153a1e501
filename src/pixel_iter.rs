//! A producer together with the size of the image it enumerates.
use vstd::prelude::*;

use crate::iter::PixelProducer;
use crate::physical_image::PhysicalImage;
use crate::{logical_order, row_major, ReadPixel};

verus! {

/// The cells of a `width x height` image in row-major order, as a producer
/// that can be split for parallel consumption.
pub struct PixIter<I> {
    width: usize,
    height: usize,
    iter: I,
}

/// The cells of a `width x height` image in row-major order, as a producer
/// consumed front to back.
pub struct SerializePixIter<I> {
    width: usize,
    height: usize,
    iter: I,
}

/// What collecting `values` into a `width x height` image gives: the image
/// holds, at each position, an item standing for the value of the same
/// row-major rank.
pub open spec fn collected<I: PixelProducer>(
    image: PhysicalImage<I::Item>,
    width: usize,
    height: usize,
    values: Seq<I::Value>,
) -> bool {
    &&& image.inv()
    &&& image.width_spec() == width
    &&& image.height_spec() == height
    &&& image.cells().len() == values.len()
    &&& forall|k: int| 0 <= k < values.len() ==> I::value_of(#[trigger] image.cells()[k]) == values[k]
}

/// Pulls every item of `iter`, in order, into a `width x height` image.
fn collect_items<I: PixelProducer>(width: usize, height: usize, iter: I) -> (r: PhysicalImage<I::Item>)
    requires
        iter.inv(),
        iter.values().len() == width * height,
    ensures
        collected::<I>(r, width, height, iter.values()),
{
    let mut iter = iter;
    let ghost all = iter.values();
    let n = iter.len();
    let mut data: Vec<I::Item> = Vec::with_capacity(n);
    let mut i: usize = 0;
    while i < n
        invariant
            iter.inv(),
            all.len() == n,
            i <= n,
            data@.len() == i,
            iter.values() == all.skip(i as int),
            forall|k: int| 0 <= k < i ==> I::value_of(#[trigger] data@[k]) == all[k],
        decreases n - i,
    {
        let item = iter.next().unwrap();
        proof {
            assert(all.skip(i as int).drop_first() =~= all.skip(i + 1));
        }
        data.push(item);
        i += 1;
    }
    PhysicalImage::with_data(width, height, data).unwrap()
}

/// Collecting the row-major cells of any image-like value into a new image
/// of the same size reproduces every cell at its own position.
pub proof fn lemma_collect_round_trip<P: ReadPixel, I: PixelProducer<Value = P::Item>>(
    source: &P,
    image: PhysicalImage<I::Item>,
)
    requires
        collected::<I>(image, source.width_spec(), source.height_spec(), logical_order(source)),
    ensures
        forall|x: int, y: int|
            0 <= x < source.width_spec() && 0 <= y < source.height_spec() ==> I::value_of(
                #[trigger] image.pixel(x, y),
            ) == source.pixel(x, y),
{
    let w = source.width_spec() as int;
    let h = source.height_spec() as int;
    assert forall|x: int, y: int| 0 <= x < w && 0 <= y < h implies I::value_of(
        #[trigger] image.pixel(x, y),
    ) == source.pixel(x, y) by {
        let k = row_major(x, y, w);
        crate::physical_image::lemma_cell_in_bounds(x, y, w, h);
        vstd::arithmetic::div_mod::lemma_fundamental_div_mod_converse(k, w, y, x);
    }
}

impl<I> PixIter<I> {
    pub closed spec fn width_spec(&self) -> usize {
        self.width
    }

    pub closed spec fn height_spec(&self) -> usize {
        self.height
    }

    pub closed spec fn inner(&self) -> I {
        self.iter
    }

    pub(crate) fn new(iter: I, width: usize, height: usize) -> (r: Self)
        ensures
            r.inner() == iter,
            r.width_spec() == width,
            r.height_spec() == height,
    {
        PixIter { width, height, iter }
    }

    /// Width of the image enumerated.
    pub fn width(&self) -> (r: usize)
        ensures
            r == self.width_spec(),
    {
        self.width
    }

    /// Height of the image enumerated.
    pub fn height(&self) -> (r: usize)
        ensures
            r == self.height_spec(),
    {
        self.height
    }

    /// The producer.
    pub fn into_inner(self) -> (r: I)
        ensures
            r == self.inner(),
    {
        self.iter
    }
}

impl<I: PixelProducer> PixIter<I> {
    /// A new image holding the items, in order.
    pub fn collect_image(self) -> (r: PhysicalImage<I::Item>)
        requires
            self.inner().inv(),
            self.inner().values().len() == self.width_spec() * self.height_spec(),
        ensures
            collected::<I>(r, self.width_spec(), self.height_spec(), self.inner().values()),
    {
        collect_items(self.width, self.height, self.iter)
    }
}

impl<I> SerializePixIter<I> {
    pub closed spec fn width_spec(&self) -> usize {
        self.width
    }

    pub closed spec fn height_spec(&self) -> usize {
        self.height
    }

    pub closed spec fn inner(&self) -> I {
        self.iter
    }

    pub(crate) fn new(iter: I, width: usize, height: usize) -> (r: Self)
        ensures
            r.inner() == iter,
            r.width_spec() == width,
            r.height_spec() == height,
    {
        SerializePixIter { width, height, iter }
    }

    /// Width of the image enumerated.
    pub fn width(&self) -> (r: usize)
        ensures
            r == self.width_spec(),
    {
        self.width
    }

    /// Height of the image enumerated.
    pub fn height(&self) -> (r: usize)
        ensures
            r == self.height_spec(),
    {
        self.height
    }

    /// The producer.
    pub fn into_inner(self) -> (r: I)
        ensures
            r == self.inner(),
    {
        self.iter
    }
}

impl<I: PixelProducer> SerializePixIter<I> {
    /// A new image holding the items, in order.
    pub fn collect_image(self) -> (r: PhysicalImage<I::Item>)
        requires
            self.inner().inv(),
            self.inner().values().len() == self.width_spec() * self.height_spec(),
        ensures
            collected::<I>(r, self.width_spec(), self.height_spec(), self.inner().values()),
    {
        collect_items(self.width, self.height, self.iter)
    }
}

} // verus!
