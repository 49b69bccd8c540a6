//! Indexing functions for the [Image] struct.

use crate::colors::{lemma_bytes_of_from_bytes, lemma_color_bytes_len, Color, ColorType};
use crate::error::Error;
use crate::image::{chunk, lemma_chunk_inside, lemma_chunk_write, write_at, Image, ImageView};
use core::ops::{Range, RangeFrom, RangeFull, RangeInclusive, RangeTo, RangeToInclusive};
use vstd::prelude::*;

verus! {

#[verifier::external_type_specification]
#[verifier::reject_recursive_types(Idx)]
pub struct ExRangeFrom<Idx>(RangeFrom<Idx>);

#[verifier::external_type_specification]
#[verifier::reject_recursive_types(Idx)]
pub struct ExRangeTo<Idx>(RangeTo<Idx>);

#[verifier::external_type_specification]
#[verifier::reject_recursive_types(Idx)]
pub struct ExRangeToInclusive<Idx>(RangeToInclusive<Idx>);

#[verifier::external_type_specification]
pub struct ExRangeFull(RangeFull);

/// The lower bound of an inclusive range; wraps `RangeInclusive::start`,
/// which returns the bound the range was made with.
#[verifier::external_body]
fn inclusive_start(r: &RangeInclusive<usize>) -> (s: usize)
    ensures
        s == r@.start,
{
    *r.start()
}

/// The upper bound of an inclusive range; wraps `RangeInclusive::end`,
/// which returns the bound the range was made with.
#[verifier::external_body]
fn inclusive_end(r: &RangeInclusive<usize>) -> (e: usize)
    ensures
        e == r@.end,
{
    *r.end()
}

/// Trait for specifying the part of the image in set functions.
pub trait ImageSetIndex {
    /// The first index of the part (inclusive).
    spec fn spec_start(&self) -> int;

    /// One past the last index of the part, or `None` when the part runs to the end.
    spec fn spec_end(&self) -> Option<int>;

    /// Returns the start index of the range (inclusive).
    fn start(&self) -> (s: usize)
        ensures
            s == self.spec_start(),
    ;

    /// Returns the end index of the range (exclusive). If there is no end, returns [None].
    fn end(&self) -> (e: Option<usize>)
        requires
            self.spec_end() matches Some(v) ==> v <= usize::MAX,
        ensures
            e matches Some(v) ==> self.spec_end() == Some(v as int),
            e is None ==> self.spec_end() is None,
    ;
}

impl ImageSetIndex for usize {
    open spec fn spec_start(&self) -> int {
        *self as int
    }

    open spec fn spec_end(&self) -> Option<int> {
        Some(*self + 1)
    }

    fn start(&self) -> (s: usize) {
        *self
    }

    fn end(&self) -> (e: Option<usize>) {
        Some(*self + 1)
    }
}

impl ImageSetIndex for Range<usize> {
    open spec fn spec_start(&self) -> int {
        self.start as int
    }

    open spec fn spec_end(&self) -> Option<int> {
        Some(self.end as int)
    }

    fn start(&self) -> (s: usize) {
        self.start
    }

    fn end(&self) -> (e: Option<usize>) {
        Some(self.end)
    }
}

impl ImageSetIndex for RangeFrom<usize> {
    open spec fn spec_start(&self) -> int {
        self.start as int
    }

    open spec fn spec_end(&self) -> Option<int> {
        None
    }

    fn start(&self) -> (s: usize) {
        self.start
    }

    fn end(&self) -> (e: Option<usize>) {
        None
    }
}

impl ImageSetIndex for RangeFull {
    open spec fn spec_start(&self) -> int {
        0
    }

    open spec fn spec_end(&self) -> Option<int> {
        None
    }

    fn start(&self) -> (s: usize) {
        0
    }

    fn end(&self) -> (e: Option<usize>) {
        None
    }
}

impl ImageSetIndex for RangeInclusive<usize> {
    open spec fn spec_start(&self) -> int {
        self@.start as int
    }

    open spec fn spec_end(&self) -> Option<int> {
        Some(self@.end + 1)
    }

    fn start(&self) -> (s: usize) {
        inclusive_start(self)
    }

    fn end(&self) -> (e: Option<usize>) {
        Some(inclusive_end(self) + 1)
    }
}

impl ImageSetIndex for RangeTo<usize> {
    open spec fn spec_start(&self) -> int {
        0
    }

    open spec fn spec_end(&self) -> Option<int> {
        Some(self.end as int)
    }

    fn start(&self) -> (s: usize) {
        0
    }

    fn end(&self) -> (e: Option<usize>) {
        Some(self.end)
    }
}

impl ImageSetIndex for RangeToInclusive<usize> {
    open spec fn spec_start(&self) -> int {
        0
    }

    open spec fn spec_end(&self) -> Option<int> {
        Some(self.end + 1)
    }

    fn start(&self) -> (s: usize) {
        0
    }

    fn end(&self) -> (e: Option<usize>) {
        Some(self.end + 1)
    }
}

/// The end of a part fits in a `usize`.
pub open spec fn end_fits<R: ImageSetIndex>(r: R) -> bool {
    r.spec_end() matches Some(e) ==> e <= usize::MAX
}

/// One past the last index of a part, where `bound` stands for "to the end".
pub open spec fn upper<R: ImageSetIndex>(r: R, bound: nat) -> int {
    match r.spec_end() {
        Some(e) => e,
        None => bound as int,
    }
}

/// The error that setting the part `(rx, ry)` of an image to `color` is refused with, if any.
pub open spec fn set_error<RX: ImageSetIndex, RY: ImageSetIndex>(
    v: ImageView,
    rx: RX,
    ry: RY,
    color: Color,
) -> Option<Error> {
    if rx.spec_start() >= v.width || ry.spec_start() >= v.height {
        Some(Error::IndexOutOfBounds)
    } else if rx.spec_end() matches Some(e) && e > v.width {
        Some(Error::IndexOutOfBounds)
    } else if ry.spec_end() matches Some(e) && e > v.height {
        Some(Error::IndexOutOfBounds)
    } else if color.spec_color_type() != v.color_type {
        Some(Error::WrongColor)
    } else {
        None
    }
}

/// What setting a part needs so as not to overflow: the ends that are read fit in a `usize`,
/// and a part that is not refused does not run backwards along x.
pub open spec fn set_defined<RX: ImageSetIndex, RY: ImageSetIndex>(
    v: ImageView,
    rx: RX,
    ry: RY,
    color: Color,
) -> bool {
    &&& (rx.spec_start() < v.width && ry.spec_start() < v.height) ==> end_fits(rx)
    &&& (rx.spec_start() < v.width && ry.spec_start() < v.height && !(rx.spec_end() matches Some(
        e,
    ) && e > v.width)) ==> end_fits(ry)
    &&& set_error(v, rx, ry, color) is None ==> rx.spec_start() <= upper(rx, v.width)
}

/// `new` is `old` with the pixels of columns `xl..xh` and rows `yl..yh` set to `color`.
pub open spec fn painted(old: ImageView, new: ImageView, xl: int, xh: int, yl: int, yh: int, color: Color) -> bool {
    &&& new.wf()
    &&& new == (ImageView { data: new.data, ..old })
    &&& forall|x: int, y: int|
        #![trigger new.pixel_bytes(new.pixel_index(x, y))]
        old.in_bounds(x, y) ==> new.pixel_bytes(new.pixel_index(x, y)) == if xl <= x < xh && yl
            <= y < yh {
            color.spec_bytes()
        } else {
            old.pixel_bytes(old.pixel_index(x, y))
        }
}

/// The pixel index of an in-bounds pixel lies among the pixels.
pub proof fn lemma_pixel_index_bounds(v: ImageView, x: int, y: int)
    requires
        v.in_bounds(x, y),
    ensures
        0 <= v.pixel_index(x, y) < v.num_pixels(),
        v.pixel_index(x, y) == (v.height - 1 - y) * v.width + x,
{
    let w = v.width as int;
    let h = v.height as int;
    assert(0 <= (h - 1 - y) * w + x < w * h) by (nonlinear_arith)
        requires
            0 <= x < w,
            0 <= y < h,
    ;
}

/// Distinct in-bounds pixels have distinct pixel indices.
pub proof fn lemma_pixel_index_injective(v: ImageView, x1: int, y1: int, x2: int, y2: int)
    requires
        v.in_bounds(x1, y1),
        v.in_bounds(x2, y2),
        v.pixel_index(x1, y1) == v.pixel_index(x2, y2),
    ensures
        x1 == x2 && y1 == y2,
{
    let w = v.width as int;
    let h = v.height as int;
    let r1 = h - 1 - y1;
    let r2 = h - 1 - y2;
    assert(r1 == r2) by (nonlinear_arith)
        requires
            r1 * w + x1 == r2 * w + x2,
            0 <= x1 < w,
            0 <= x2 < w,
    ;
}

/// The bytes of an in-bounds pixel decode to the pixel and lie inside the data.
pub proof fn lemma_pixel_bytes(v: ImageView, x: int, y: int)
    requires
        v.wf(),
        v.in_bounds(x, y),
    ensures
        0 <= v.byte_index(x, y),
        v.byte_index(x, y) + v.bpp() <= v.data.len(),
        v.pixel_bytes(v.pixel_index(x, y)).len() == v.bpp(),
{
    lemma_pixel_index_bounds(v, x, y);
    lemma_chunk_inside(v.pixel_index(x, y), v.num_pixels() as int, v.bpp());
}

impl Image {
    /// Returns the index of the first byte of the pixel at the given coordinates.
    /// # Errors
    /// * [Error::IndexOutOfBounds] - If the index is out of bounds.
    pub fn index(&self, index: (usize, usize)) -> (r: Result<usize, Error>)
        requires
            self.wf(),
        ensures
            self@.in_bounds(index.0 as int, index.1 as int) ==> r == Ok::<usize, Error>(
                self@.byte_index(index.0 as int, index.1 as int) as usize,
            ),
            !self@.in_bounds(index.0 as int, index.1 as int) ==> r == Err::<usize, Error>(
                Error::IndexOutOfBounds,
            ),
    {
        if index.0 >= self.width || index.1 >= self.height {
            Err(Error::IndexOutOfBounds)
        } else {
            proof {
                lemma_pixel_bytes(self@, index.0 as int, index.1 as int);
                assert(self.data.len() == self@.data.len());
            }
            Ok(self.index_unchecked(index))
        }
    }

    /// Returns the index of the first byte of the pixel at the given coordinates without performing checks.
    pub fn index_unchecked(&self, index: (usize, usize)) -> (r: usize)
        requires
            index.1 < self@.height,
            0 <= self@.byte_index(index.0 as int, index.1 as int) <= usize::MAX,
        ensures
            r == self@.byte_index(index.0 as int, index.1 as int),
    {
        let bpp = self.color_type.bytes_per_pixel();
        let row = self.height - index.1 - 1;
        let w = self.width;
        let x = index.0;
        proof {
            let p = row * w + x;
            assert(row * w <= p * bpp && p <= p * bpp) by (nonlinear_arith)
                requires
                    p == row * w + x,
                    0 <= x,
                    0 <= row * w,
                    bpp >= 1,
            ;
            assert(0 <= row * w) by (nonlinear_arith)
                requires
                    0 <= row,
                    0 <= w,
            ;
        }
        (row * w + x) * bpp
    }

    /// Returns the value of the pixel at the given coordinates.
    /// # Errors
    /// * [Error::IndexOutOfBounds] - If the index is out of bounds.
    pub fn get(&self, index: (usize, usize)) -> (r: Result<Color, Error>)
        requires
            self.wf(),
        ensures
            self@.in_bounds(index.0 as int, index.1 as int) ==> r == Ok::<Color, Error>(
                self@.pixel(index.0 as int, index.1 as int),
            ),
            !self@.in_bounds(index.0 as int, index.1 as int) ==> r == Err::<Color, Error>(
                Error::IndexOutOfBounds,
            ),
    {
        if index.0 >= self.width || index.1 >= self.height {
            Err(Error::IndexOutOfBounds)
        } else {
            proof {
                lemma_pixel_bytes(self@, index.0 as int, index.1 as int);
            }
            Ok(self.get_unchecked(index))
        }
    }

    /// Returns the value of the pixel at the given coordinates without performing checks.
    pub fn get_unchecked(&self, index: (usize, usize)) -> (c: Color)
        requires
            self.wf(),
            index.1 < self@.height,
            0 <= self@.byte_index(index.0 as int, index.1 as int),
            self@.byte_index(index.0 as int, index.1 as int) + self@.bpp() <= self@.data.len(),
        ensures
            c == self@.pixel(index.0 as int, index.1 as int),
    {
        proof {
            assert(self.data.len() == self@.data.len());
        }
        let i = self.index_unchecked(index);
        let bpp = self.color_type.bytes_per_pixel();
        let bytes = slice_from(self.data.as_slice(), i);
        let c = Color::from_bytes(self.color_type, bytes);
        proof {
            let b = self@.pixel_bytes(self@.pixel_index(index.0 as int, index.1 as int));
            assert forall|k: int| 0 <= k < bpp implies #[trigger] b[k] == bytes@[k] by {}
            assert(Color::spec_from_bytes(self@.color_type, b) == Color::spec_from_bytes(
                self@.color_type,
                bytes@,
            ));
        }
        c
    }

    /// Works out the part `(xl..xh, yl..yh)` that setting `index` to `color` covers,
    /// or the error it is refused with.
    /// # Errors
    /// * [Error::IndexOutOfBounds] - If the index is out of bounds.
    /// * [Error::WrongColor] - If the color type of the image does not match the color type of the color.
    pub fn region_bounds<RX: ImageSetIndex, RY: ImageSetIndex>(
        &self,
        index: &(RX, RY),
        color: Color,
    ) -> (r: Result<(usize, usize, usize, usize), Error>)
        requires
            self.wf(),
            set_defined(self@, index.0, index.1, color),
        ensures
            set_error(self@, index.0, index.1, color) matches Some(e) ==> r == Err::<
                (usize, usize, usize, usize),
                Error,
            >(e),
            set_error(self@, index.0, index.1, color) is None ==> (r matches Ok(t) && t.0
                == index.0.spec_start() && t.1 == upper(index.0, self@.width) && t.2
                == index.1.spec_start() && t.3 == upper(index.1, self@.height)),
    {
        let xs = index.0.start();
        let ys = index.1.start();
        if xs >= self.width || ys >= self.height {
            return Err(Error::IndexOutOfBounds);
        }
        let xe = match index.0.end() {
            Some(x) => {
                if x > self.width {
                    return Err(Error::IndexOutOfBounds);
                }
                x
            },
            None => self.width,
        };
        let ye = match index.1.end() {
            Some(y) => {
                if y > self.height {
                    return Err(Error::IndexOutOfBounds);
                }
                y
            },
            None => self.height,
        };
        if color.color_type() != self.color_type {
            return Err(Error::WrongColor);
        }
        Ok((xs, xe, ys, ye))
    }

    /// Sets the color of the pixels at the given locations.
    /// # Arguments
    /// * ```index``` - The tuple with the coordinates ```(x, y)```. The coordinates can be ```usize```, ```Range<usize>```, ```RangeFrom<usize>```, ```RangeFull```, ```RangeInclusive<usize>```, ```RangeTo<usize>```, ```RangeToInclusive<usize>```.
    /// * ```color``` - The color to set.
    /// # Errors
    /// * [Error::IndexOutOfBounds] - If the index is out of bounds.
    /// * [Error::WrongColor] - If the color type of the image does not match the color type of the color.
    pub fn set<RX: ImageSetIndex, RY: ImageSetIndex>(&mut self, index: (RX, RY), color: Color) -> (r: Result<(), Error>)
        requires
            old(self).wf(),
            set_defined(old(self)@, index.0, index.1, color),
        ensures
            final(self).wf(),
            set_error(old(self)@, index.0, index.1, color) matches Some(e) ==> r == Err::<(), Error>(e)
                && final(self)@ == old(self)@,
            set_error(old(self)@, index.0, index.1, color) is None ==> r == Ok::<(), Error>(())
                && painted(
                old(self)@,
                final(self)@,
                index.0.spec_start(),
                upper(index.0, old(self)@.width),
                index.1.spec_start(),
                upper(index.1, old(self)@.height),
                color,
            ),
    {
        match self.region_bounds(&index, color) {
            Err(e) => Err(e),
            Ok((xl, xh, yl, yh)) => {
                self.paint(xl, xh, yl, yh, color);
                Ok(())
            },
        }
    }

    /// Sets the color of the pixels at the given locations without performing checks.
    /// # Arguments
    /// * ```index``` - The tuple with the coordinates ```(x, y)```. The coordinates can be ```usize```, ```Range<usize>```, ```RangeFrom<usize>```, ```RangeFull```, ```RangeInclusive<usize>```, ```RangeTo<usize>```, ```RangeToInclusive<usize>```.
    /// * ```color``` - The color to set.
    pub fn set_unchecked<RX: ImageSetIndex, RY: ImageSetIndex>(&mut self, index: (RX, RY), color: Color)
        requires
            old(self).wf(),
            end_fits(index.0),
            end_fits(index.1),
            color.spec_color_type() == old(self)@.color_type,
            index.0.spec_start() <= upper(index.0, old(self)@.width) <= old(self)@.width,
            upper(index.1, old(self)@.height) <= old(self)@.height,
        ensures
            painted(
                old(self)@,
                final(self)@,
                index.0.spec_start(),
                upper(index.0, old(self)@.width),
                index.1.spec_start(),
                upper(index.1, old(self)@.height),
                color,
            ),
    {
        let xl = index.0.start();
        let xh = match index.0.end() {
            Some(x) => x,
            None => self.width,
        };
        let yl = index.1.start();
        let yh = match index.1.end() {
            Some(y) => y,
            None => self.height,
        };
        self.paint(xl, xh, yl, yh, color);
    }

    /// Sets the pixels of columns `xl..xh` and rows `yl..yh` to `color`.
    fn paint(&mut self, xl: usize, xh: usize, yl: usize, yh: usize, color: Color)
        requires
            old(self).wf(),
            color.spec_color_type() == old(self)@.color_type,
            xl <= xh <= old(self)@.width,
            yh <= old(self)@.height,
        ensures
            painted(old(self)@, final(self)@, xl as int, xh as int, yl as int, yh as int, color),
    {
        let ghost v0 = self@;
        let bytes = color.as_bytes();
        let bpp = self.color_type.bytes_per_pixel();
        proof {
            lemma_color_bytes_len(color);
        }
        let mut y = yl;
        while y < yh
            invariant
                v0.wf(),
                self.wf(),
                self@ == (ImageView { data: self@.data, ..v0 }),
                bytes@ == color.spec_bytes(),
                bytes@.len() == bpp,
                bpp == v0.bpp(),
                xl <= xh <= v0.width,
                yh <= v0.height,
                yl <= yh ==> yl <= y <= yh,
                yl > yh ==> y == yl,
                forall|x: int, y2: int|
                    #![trigger self@.pixel_bytes(self@.pixel_index(x, y2))]
                    v0.in_bounds(x, y2) ==> self@.pixel_bytes(self@.pixel_index(x, y2)) == if xl
                        <= x < xh && yl <= y2 < y {
                        color.spec_bytes()
                    } else {
                        v0.pixel_bytes(v0.pixel_index(x, y2))
                    },
            decreases yh - y,
        {
            let mut x = xl;
            while x < xh
                invariant
                    v0.wf(),
                    self.wf(),
                    self@ == (ImageView { data: self@.data, ..v0 }),
                    bytes@ == color.spec_bytes(),
                    bytes@.len() == bpp,
                    bpp == v0.bpp(),
                    xl <= x <= xh <= v0.width,
                    yl <= y < yh <= v0.height,
                    forall|x2: int, y2: int|
                        #![trigger self@.pixel_bytes(self@.pixel_index(x2, y2))]
                        v0.in_bounds(x2, y2) ==> self@.pixel_bytes(self@.pixel_index(x2, y2))
                            == if (xl <= x2 < xh && yl <= y2 < y) || (xl <= x2 < x && y2 == y) {
                            color.spec_bytes()
                        } else {
                            v0.pixel_bytes(v0.pixel_index(x2, y2))
                        },
                decreases xh - x,
            {
                proof {
                    lemma_pixel_bytes(self@, x as int, y as int);
                    assert(self.data.len() == self@.data.len());
                }
                let i = self.index_unchecked((x, y));
                let ghost p = self@.pixel_index(x as int, y as int);
                let ghost d0 = self@.data;
                let ghost vb = self@;
                write_at(&mut self.data, i, &bytes);
                proof {
                    lemma_pixel_index_bounds(v0, x as int, y as int);
                    lemma_chunk_write(d0, bpp as nat, v0.num_pixels() as int, p, bytes@);
                    assert(self@.data == d0.subrange(0, p * bpp) + bytes@ + d0.subrange(
                        p * bpp + bpp,
                        d0.len() as int,
                    ));
                    assert forall|x2: int, y2: int|
                        #![trigger self@.pixel_bytes(self@.pixel_index(x2, y2))]
                        v0.in_bounds(x2, y2) implies self@.pixel_bytes(self@.pixel_index(x2, y2))
                            == if (xl <= x2 < xh && yl <= y2 < y) || (xl <= x2 < x + 1 && y2
                            == y) {
                            color.spec_bytes()
                        } else {
                            v0.pixel_bytes(v0.pixel_index(x2, y2))
                        } by {
                        lemma_pixel_index_bounds(v0, x2, y2);
                        assert(vb.pixel_bytes(vb.pixel_index(x2, y2)) == chunk(d0, bpp as nat, v0.pixel_index(x2, y2)));
                        if x2 == x && y2 == y {
                        } else {
                            if v0.pixel_index(x2, y2) == p {
                                lemma_pixel_index_injective(v0, x2, y2, x as int, y as int);
                            }
                            assert(chunk(self@.data, bpp as nat, v0.pixel_index(x2, y2)) == chunk(
                                d0,
                                bpp as nat,
                                v0.pixel_index(x2, y2),
                            ));
                        }
                    }
                }
                x = x + 1;
            }
            y = y + 1;
        }
    }
}

/// The bytes of `s` from `start` on.
fn slice_from(s: &[u8], start: usize) -> (r: &[u8])
    requires
        start <= s@.len(),
    ensures
        r@ == s@.subrange(start as int, s@.len() as int),
{
    vstd::slice::slice_subrange(s, start, s.len())
}

/// Law: after setting a part of an image to a color, reading a pixel of the part gives
/// that color and reading any other pixel gives what it was.
pub proof fn law_get_after_set(
    old: ImageView,
    new: ImageView,
    xl: int,
    xh: int,
    yl: int,
    yh: int,
    color: Color,
    x: int,
    y: int,
)
    requires
        old.wf(),
        color.spec_color_type() == old.color_type,
        painted(old, new, xl, xh, yl, yh, color),
        old.in_bounds(x, y),
    ensures
        new.pixel(x, y) == if xl <= x < xh && yl <= y < yh {
            color
        } else {
            old.pixel(x, y)
        },
{
    assert(new.pixel_bytes(new.pixel_index(x, y)) == if xl <= x < xh && yl <= y < yh {
        color.spec_bytes()
    } else {
        old.pixel_bytes(old.pixel_index(x, y))
    });
    crate::colors::lemma_from_bytes_of_bytes(color);
}

/// Law: in an image whose pixels all have one color, reading any pixel gives that color.
pub proof fn law_get_of_filled(v: ImageView, color: Color, x: int, y: int)
    requires
        v.wf(),
        color.spec_color_type() == v.color_type,
        v.all_pixels(color),
        v.in_bounds(x, y),
    ensures
        v.pixel(x, y) == color,
{
    lemma_pixel_index_bounds(v, x, y);
    assert(v.pixel_bytes(v.pixel_index(x, y)) == color.spec_bytes());
    crate::colors::lemma_from_bytes_of_bytes(color);
}

/// Law: every stored pixel is the pixel of exactly one pair of in-bounds coordinates.
pub proof fn law_pixel_index_bijective(v: ImageView, p: int)
    requires
        0 <= p < v.num_pixels(),
    ensures
        v.in_bounds(p % (v.width as int), v.height - 1 - p / (v.width as int)),
        v.pixel_index(p % (v.width as int), v.height - 1 - p / (v.width as int)) == p,
        forall|x: int, y: int| v.in_bounds(x, y) && #[trigger] v.pixel_index(x, y) == p ==> x == p % (
            v.width as int) && y == v.height - 1 - p / (v.width as int),
{
    let w = v.width as int;
    let h = v.height as int;
    assert(w > 0) by (nonlinear_arith)
        requires
            0 <= p < w * h,
            h >= 0,
    ;
    let x0 = p % w;
    let r = p / w;
    assert(p == r * w + x0 && 0 <= x0 < w) by (nonlinear_arith)
        requires
            w > 0,
            x0 == p % w,
            r == p / w,
    ;
    assert(0 <= r < h) by (nonlinear_arith)
        requires
            p == r * w + x0,
            0 <= x0 < w,
            0 <= p < w * h,
    ;
    assert forall|x: int, y: int| v.in_bounds(x, y) && #[trigger] v.pixel_index(x, y) == p implies x
        == x0 && y == h - 1 - r by {
        lemma_pixel_index_injective(v, x, y, x0, h - 1 - r);
    }
}

/// Law: the pixel at `(x, y)` is the color read from the bytes of the image from
/// `byte_index(x, y)`, the index that [Image::index] returns, on.
pub proof fn law_pixel_at_index(v: ImageView, x: int, y: int)
    requires
        v.wf(),
        v.in_bounds(x, y),
    ensures
        v.pixel(x, y) == Color::spec_from_bytes(
            v.color_type,
            v.data.subrange(v.byte_index(x, y), v.data.len() as int),
        ),
{
    lemma_pixel_bytes(v, x, y);
    crate::io::lemma_from_bytes_prefix(
        v.color_type,
        v.pixel_bytes(v.pixel_index(x, y)),
        v.data.subrange(v.byte_index(x, y), v.data.len() as int),
    );
}

/// Law: the rows of an image are stored from the top one down, each from left to right:
/// the top row starts at byte 0, the next pixel to the right is one pixel width further,
/// and the pixel below is one row of bytes further.
pub proof fn law_byte_index_layout(v: ImageView, x: int, y: int)
    requires
        v.in_bounds(x, y),
    ensures
        v.byte_index(x, v.height - 1) == x * v.bpp(),
        x + 1 < v.width ==> v.byte_index(x + 1, y) == v.byte_index(x, y) + v.bpp(),
        y + 1 < v.height ==> v.byte_index(x, y) == v.byte_index(x, y + 1) + v.width * v.bpp(),
{
    let w = v.width as int;
    let h = v.height as int;
    let b = v.bpp() as int;
    assert(((h - 1 - (h - 1)) * w + x) * b == x * b) by (nonlinear_arith);
    assert(((h - 1 - y) * w + x + 1) * b == ((h - 1 - y) * w + x) * b + b) by (nonlinear_arith);
    assert(((h - 1 - y) * w + x) * b == ((h - 1 - (y + 1)) * w + x) * b + w * b) by (nonlinear_arith);
}

/// Law: channel `k` of pixel `(x, y)` is byte `byte_index(x, y) + k` of the image (8-bit
/// types), or bytes `byte_index(x, y) + 2k` and `+ 2k + 1` read in native byte order
/// (16-bit types).
pub proof fn law_pixel_channels(v: ImageView, x: int, y: int)
    requires
        v.wf(),
        v.in_bounds(x, y),
    ensures
        crate::colors::channels(v.pixel(x, y)).len() == crate::colors::channel_count(v.color_type),
        !v.color_type.is_wide() ==> forall|k: int|
            0 <= k < crate::colors::channel_count(v.color_type) ==> #[trigger] crate::colors::channels(
                v.pixel(x, y),
            )[k] == v.data[v.byte_index(x, y) + k],
        v.color_type.is_wide() ==> forall|k: int|
            0 <= k < crate::colors::channel_count(v.color_type) ==> #[trigger] crate::colors::channels(
                v.pixel(x, y),
            )[k] == crate::colors::from_ne_bytes(
                v.data[v.byte_index(x, y) + 2 * k],
                v.data[v.byte_index(x, y) + 2 * k + 1],
            ),
{
    lemma_pixel_bytes(v, x, y);
    let b = v.pixel_bytes(v.pixel_index(x, y));
    crate::colors::law_from_bytes_layout(v.color_type, b);
    assert forall|k: int| 0 <= k < v.bpp() implies #[trigger] b[k] == v.data[v.byte_index(x, y) + k] by {}
    if v.color_type.is_wide() {
        assert forall|k: int| 0 <= k < crate::colors::channel_count(v.color_type) implies #[trigger] crate::colors::channels(
            v.pixel(x, y),
        )[k] == crate::colors::from_ne_bytes(
            v.data[v.byte_index(x, y) + 2 * k],
            v.data[v.byte_index(x, y) + 2 * k + 1],
        ) by {
            assert(b[2 * k] == v.data[v.byte_index(x, y) + 2 * k]);
            assert(b[2 * k + 1] == v.data[v.byte_index(x, y) + 2 * k + 1]);
        }
    }
}

} // verus!
