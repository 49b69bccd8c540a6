//! The [Image] struct, its model and the functions that fill it.

use crate::colors::{Color, ColorType};
use crate::error::Error;
use crate::text::{bytes_as_nats, debug_list, decimal, push_byte_list, push_decimal};
use vstd::prelude::*;
use vstd::string::StringExecFns;

verus! {

/// A struct that holds an image.
#[derive(Debug, Clone, PartialEq, Eq, Hash)]
pub struct Image {
    /// The image pixel data
    pub(crate) data: Vec<u8>,
    /// The width of the image
    pub(crate) width: usize,
    /// The height of the image
    pub(crate) height: usize,
    /// The color type of the image
    pub(crate) color_type: ColorType,
    /// The background color of the image, None if not set
    pub(crate) background_color: Option<Color>,
}

/// The mathematical model of an [Image].
pub struct ImageView {
    /// The bytes of the pixels: the top row first, each row from left to right.
    pub data: Seq<u8>,
    pub width: nat,
    pub height: nat,
    pub color_type: ColorType,
    pub background_color: Option<Color>,
}

/// The `p`-th block of `size` bytes of `data`.
pub open spec fn chunk(data: Seq<u8>, size: nat, p: int) -> Seq<u8> {
    data.subrange(p * size, p * size + size)
}

/// `data` is `n` blocks of `size` bytes, each equal to `b`.
pub open spec fn is_filled(data: Seq<u8>, size: nat, n: nat, b: Seq<u8>) -> bool {
    &&& data.len() == n * size
    &&& forall|p: int| 0 <= p < n ==> #[trigger] chunk(data, size, p) == b
}

impl ImageView {
    /// The number of pixels.
    pub open spec fn num_pixels(self) -> nat {
        self.width * self.height
    }

    /// The number of bytes one pixel takes.
    pub open spec fn bpp(self) -> nat {
        self.color_type.bpp()
    }

    /// The invariant of an image: as many bytes as its pixels take, and a
    /// background color, if any, of the image's type.
    pub open spec fn wf(self) -> bool {
        &&& self.data.len() == self.num_pixels() * self.bpp()
        &&& (self.background_color matches Some(c) ==> c.spec_color_type() == self.color_type)
    }

    /// Whether `(x, y)` is a pixel of the image.
    pub open spec fn in_bounds(self, x: int, y: int) -> bool {
        0 <= x < self.width && 0 <= y < self.height
    }

    /// The position of pixel `(x, y)` among the pixels: rows are stored from
    /// the top one (`y == height - 1`) down.
    pub open spec fn pixel_index(self, x: int, y: int) -> int {
        (self.height - 1 - y) * self.width + x
    }

    /// The index of the first byte of pixel `(x, y)`.
    pub open spec fn byte_index(self, x: int, y: int) -> int {
        self.pixel_index(x, y) * self.bpp()
    }

    /// The bytes of the `p`-th stored pixel.
    pub open spec fn pixel_bytes(self, p: int) -> Seq<u8> {
        chunk(self.data, self.bpp(), p)
    }

    /// The color of pixel `(x, y)`.
    pub open spec fn pixel(self, x: int, y: int) -> Color {
        Color::spec_from_bytes(self.color_type, self.pixel_bytes(self.pixel_index(x, y)))
    }

    /// The text of the image, as the original `Display` output writes it.
    pub open spec fn spec_display(self) -> Seq<char> {
        "Image { width: "@ + decimal(self.width) + ", height: "@ + decimal(self.height)
            + ", color_type: "@ + self.color_type.spec_name() + ", background_color: "@
            + match self.background_color {
            Some(c) => c.spec_display(),
            None => "None"@,
        } + ", data: "@ + debug_list(bytes_as_nats(self.data)) + " }"@
    }

    /// Every pixel of the image has the color `c`.
    pub open spec fn all_pixels(self, c: Color) -> bool {
        is_filled(self.data, self.bpp(), self.num_pixels(), c.spec_bytes())
    }
}

impl View for Image {
    type V = ImageView;

    open(crate) spec fn view(&self) -> ImageView {
        ImageView {
            data: self.data@,
            width: self.width as nat,
            height: self.height as nat,
            color_type: self.color_type,
            background_color: self.background_color,
        }
    }
}

/// `a * b <= c` for naturals with `b >= 1` gives `a <= c`.
pub proof fn lemma_mul_le_bound(a: nat, b: nat, c: nat)
    requires
        b >= 1,
        a * b <= c,
    ensures
        a <= c,
{
    assert(a <= a * b) by (nonlinear_arith)
        requires
            b >= 1,
    ;
}

/// Block `q` ends where block `p` starts, or before, when `q < p`.
pub proof fn lemma_chunk_order(q: int, p: int, size: nat)
    requires
        0 <= q < p,
    ensures
        q * size + size <= p * size,
{
    assert(q * size + size <= p * size) by (nonlinear_arith)
        requires
            q + 1 <= p,
            size >= 0,
    ;
}

/// Block `p` lies inside `n` blocks when `p < n`.
pub proof fn lemma_chunk_inside(p: int, n: int, size: nat)
    requires
        0 <= p < n,
    ensures
        0 <= p * size,
        p * size + size <= n * size,
{
    assert(0 <= p * size) by (nonlinear_arith)
        requires
            0 <= p,
    ;
    lemma_chunk_order(p, n, size);
}

/// Appending a block after `p` blocks keeps the first `p` blocks and makes the block `p`.
pub proof fn lemma_chunk_push(data: Seq<u8>, size: nat, p: int, b: Seq<u8>)
    requires
        0 <= p,
        data.len() == p * size,
        b.len() == size,
    ensures
        forall|q: int| 0 <= q < p ==> #[trigger] chunk(data + b, size, q) == chunk(data, size, q),
        chunk(data + b, size, p) == b,
{
    assert forall|q: int| 0 <= q < p implies #[trigger] chunk(data + b, size, q) == chunk(
        data,
        size,
        q,
    ) by {
        lemma_chunk_inside(q, p, size);
        assert(chunk(data + b, size, q) =~= chunk(data, size, q));
    }
    assert(chunk(data + b, size, p) =~= b);
}

/// Overwriting block `p` with `b` keeps every other block.
pub proof fn lemma_chunk_write(data: Seq<u8>, size: nat, n: int, p: int, b: Seq<u8>)
    requires
        0 <= p < n,
        data.len() == n * size,
        b.len() == size,
    ensures
        p * size + size <= data.len(),
        ({
            let d2 = data.subrange(0, p * size) + b + data.subrange(p * size + size, data.len() as int);
            &&& d2.len() == data.len()
            &&& chunk(d2, size, p) == b
            &&& forall|q: int| 0 <= q < n && q != p ==> #[trigger] chunk(d2, size, q) == chunk(data, size, q)
        }),
{
    lemma_chunk_inside(p, n, size);
    let d2 = data.subrange(0, p * size) + b + data.subrange(p * size + size, data.len() as int);
    assert(chunk(d2, size, p) =~= b);
    assert forall|q: int| 0 <= q < n && q != p implies #[trigger] chunk(d2, size, q) == chunk(data, size, q) by {
        lemma_chunk_inside(q, n, size);
        if q < p {
            lemma_chunk_order(q, p, size);
        } else {
            lemma_chunk_order(p, q, size);
        }
        assert(chunk(d2, size, q) =~= chunk(data, size, q));
    }
}

/// Appends the bytes of `b` to `out`.
pub(crate) fn push_all(out: &mut Vec<u8>, b: &Vec<u8>)
    ensures
        final(out)@ == old(out)@ + b@,
{
    let mut i: usize = 0;
    while i < b.len()
        invariant
            i <= b.len(),
            out@ == old(out)@ + b@.subrange(0, i as int),
        decreases b.len() - i,
    {
        out.push(b[i]);
        i = i + 1;
        assert(out@ =~= old(out)@ + b@.subrange(0, i as int));
    }
    assert(b@.subrange(0, b.len() as int) =~= b@);
}

/// Overwrites the bytes of `data` from `at` on with the bytes of `b`.
pub(crate) fn write_at(data: &mut Vec<u8>, at: usize, b: &Vec<u8>)
    requires
        at + b.len() <= old(data).len(),
    ensures
        final(data)@ == old(data)@.subrange(0, at as int) + b@ + old(data)@.subrange(
            at + b.len(),
            old(data).len() as int,
        ),
{
    let ghost d0 = data@;
    let mut i: usize = 0;
    while i < b.len()
        invariant
            i <= b.len(),
            at + b.len() <= d0.len(),
            data.len() == d0.len(),
            data@ == d0.subrange(0, at as int) + b@.subrange(0, i as int) + d0.subrange(
                at + i,
                d0.len() as int,
            ),
        decreases b.len() - i,
    {
        data.set(at + i, b[i as usize]);
        i = i + 1;
        assert(data@ =~= d0.subrange(0, at as int) + b@.subrange(0, i as int) + d0.subrange(
            at + i,
            d0.len() as int,
        ));
    }
    assert(b@.subrange(0, b.len() as int) =~= b@);
}

/// `n` copies of the bytes of `b`, one after another.
pub(crate) fn repeat_bytes(b: &Vec<u8>, n: usize) -> (out: Vec<u8>)
    requires
        n * b.len() <= usize::MAX,
    ensures
        is_filled(out@, b.len() as nat, n as nat, b@),
{
    let mut out: Vec<u8> = Vec::new();
    let mut p: usize = 0;
    while p < n
        invariant
            p <= n,
            n * b.len() <= usize::MAX,
            is_filled(out@, b.len() as nat, p as nat, b@),
        decreases n - p,
    {
        proof {
            lemma_chunk_inside(p as int, n as int, b.len() as nat);
            lemma_chunk_push(out@, b.len() as nat, p as int, b@);
        }
        push_all(&mut out, b);
        p = p + 1;
        assert(out@.len() == p * b.len()) by (nonlinear_arith)
            requires
                out@.len() == (p - 1) * b.len() + b.len(),
        ;
    }
    out
}

impl Image {
    /// The invariant of an image.
    pub open spec fn wf(&self) -> bool {
        self@.wf()
    }

    /// Creates a new image with the given width, height, and filled with the background color.
    /// # Arguments
    /// * `width` - The width of the image.
    /// * `height` - The height of the image.
    /// * `background_color` - The background color of the image.
    /// # Returns
    /// * The new image.
    pub fn new(width: usize, height: usize, background_color: Color) -> (image: Self)
        requires
            width * height * background_color.spec_color_type().bpp() <= usize::MAX,
        ensures
            image.wf(),
            image@.width == width,
            image@.height == height,
            image@.color_type == background_color.spec_color_type(),
            image@.background_color == Some(background_color),
            image@.all_pixels(background_color),
    {
        let bpp = background_color.bytes_per_pixel();
        proof {
            crate::colors::lemma_color_bytes_len(background_color);
            lemma_mul_le_bound((width * height) as nat, bpp as nat, usize::MAX as nat);
        }
        let n = width * height;
        let bytes = background_color.as_bytes();
        let data = repeat_bytes(&bytes, n);
        Image {
            data,
            width,
            height,
            color_type: background_color.color_type(),
            background_color: Some(background_color),
        }
    }

    /// Returns the width of the image.
    pub fn width(&self) -> (w: usize)
        ensures
            w == self@.width,
    {
        self.width
    }

    /// Returns the height of the image.
    pub fn height(&self) -> (h: usize)
        ensures
            h == self@.height,
    {
        self.height
    }

    /// Returns the type of the image.
    pub fn color_type(&self) -> (t: ColorType)
        ensures
            t == self@.color_type,
    {
        self.color_type
    }

    /// Returns the bytes of the image as a native endian slice.
    pub fn as_bytes(&self) -> (b: &[u8])
        ensures
            b@ == self@.data,
    {
        self.data.as_slice()
    }

    /// Returns the bytes of the image as a mutable native endian slice.
    pub fn as_bytes_mut(&mut self) -> (b: &mut [u8])
        requires
            old(self).wf(),
        ensures
            final(b)@.len() == b@.len() ==> final(self).wf(),
            b@ == old(self)@.data,
            final(self)@ == (ImageView { data: final(b)@, ..old(self)@ }),
    {
        self.data.as_mut_slice()
    }

    /// Returns the background color of the image.
    pub fn background_color(&self) -> (c: Option<Color>)
        ensures
            c == self@.background_color,
    {
        self.background_color
    }

    /// Sets the background color of the image.
    /// # Errors
    /// * [Error::WrongColor] if the color is not compatible with the image type.
    pub fn set_background_color(&mut self, color: Color) -> (r: Result<(), Error>)
        requires
            old(self).wf(),
        ensures
            final(self).wf(),
            color.spec_color_type() == old(self)@.color_type ==> r == Ok::<(), Error>(())
                && final(self)@ == (ImageView { background_color: Some(color), ..old(self)@ }),
            color.spec_color_type() != old(self)@.color_type ==> r == Err::<(), Error>(
                Error::WrongColor,
            ) && final(self)@ == old(self)@,
    {
        if color.color_type() == self.color_type {
            self.background_color = Some(color);
            Ok(())
        } else {
            Err(Error::WrongColor)
        }
    }

    /// Replaces every pixel with the bytes of `color`, which is of the image's type.
    fn fill_with(&mut self, color: Color)
        requires
            old(self).wf(),
            color.spec_color_type() == old(self)@.color_type,
        ensures
            final(self).wf(),
            final(self)@ == (ImageView { data: final(self)@.data, ..old(self)@ }),
            final(self)@.all_pixels(color),
    {
        let bytes = color.as_bytes();
        proof {
            crate::colors::lemma_color_bytes_len(color);
            lemma_mul_le_bound(
                (self.width * self.height) as nat,
                color.spec_color_type().bpp(),
                self.data.len() as nat,
            );
        }
        let n = self.width * self.height;
        self.data = repeat_bytes(&bytes, n);
    }

    /// Reset the image to the background color.
    /// If the background color is not set, this is a no-op.
    pub fn clear(&mut self)
        requires
            old(self).wf(),
        ensures
            final(self).wf(),
            old(self)@.background_color is None ==> final(self)@ == old(self)@,
            old(self)@.background_color matches Some(c) ==> {
                &&& final(self)@ == (ImageView { data: final(self)@.data, ..old(self)@ })
                &&& final(self)@.all_pixels(c)
            },
    {
        if let Some(color) = self.background_color {
            self.fill_with(color);
        }
    }

    /// Fill the image with the given color.
    /// # Errors
    /// * [Error::WrongColor] if the color is not compatible with the image type.
    pub fn fill_image(&mut self, color: Color) -> (r: Result<(), Error>)
        requires
            old(self).wf(),
        ensures
            final(self).wf(),
            color.spec_color_type() == old(self)@.color_type ==> {
                &&& r == Ok::<(), Error>(())
                &&& final(self)@ == (ImageView { data: final(self)@.data, ..old(self)@ })
                &&& final(self)@.all_pixels(color)
            },
            color.spec_color_type() != old(self)@.color_type ==> r == Err::<(), Error>(
                Error::WrongColor,
            ) && final(self)@ == old(self)@,
    {
        if color.color_type() == self.color_type {
            self.fill_with(color);
            Ok(())
        } else {
            Err(Error::WrongColor)
        }
    }
}

impl Image {
    /// Returns the text of the image: its size, color type, background color and bytes.
    pub fn to_string(&self) -> (s: String)
        ensures
            s@ == self@.spec_display(),
    {
        let mut s = String::from_str("Image { width: ");
        push_decimal(&mut s, self.width as u64);
        s.append(", height: ");
        push_decimal(&mut s, self.height as u64);
        s.append(", color_type: ");
        let name = self.color_type.to_string();
        s.append(name.as_str());
        s.append(", background_color: ");
        match self.background_color {
            Some(c) => {
                let text = c.to_string();
                s.append(text.as_str());
            },
            None => {
                s.append("None");
            },
        }
        s.append(", data: ");
        push_byte_list(&mut s, self.data.as_slice());
        s.append(" }");
        assert(s@ =~= self@.spec_display());
        s
    }
}

} // verus!
