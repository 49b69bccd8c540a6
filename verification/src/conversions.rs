//! Functions for converting between different color/image types.

use crate::colors::{
    channels, lemma_bytes_of_from_bytes, lemma_color_bytes_len, lemma_from_bytes_of_bytes, Color, ColorType,
};
use crate::image::{
    chunk, lemma_chunk_inside, lemma_chunk_push, lemma_mul_le_bound, push_all, Image, ImageView,
};
use vstd::prelude::*;

verus! {

/// The 16-bit value of an 8-bit channel value: `v * 257`, which maps 0 to 0 and 255 to 65535.
pub open spec fn widen(v: int) -> int {
    v * 257
}

/// The 8-bit value nearest to `v / 257` for a 16-bit channel value `v`.
pub open spec fn narrow(v: int) -> int {
    (v + 128) / 257
}

/// The integer nearest to the average of three channel values.
pub open spec fn avg3(a: int, b: int, c: int) -> int {
    (a + b + c + 1) / 3
}

/// A channel value moved from one depth (8 or 16 bits) to another.
pub open spec fn to_depth(v: int, from_wide: bool, to_wide: bool) -> int {
    if from_wide == to_wide {
        v
    } else if to_wide {
        widen(v)
    } else {
        narrow(v)
    }
}

/// The largest channel value of a depth: full opacity for an alpha channel.
pub open spec fn max_channel(wide: bool) -> int {
    if wide {
        65535
    } else {
        255
    }
}

/// The gray level of a color at its own depth: the gray channel, or the
/// rounded average of the red, green and blue channels.
pub open spec fn gray_level(c: Color) -> int {
    match c {
        Color::GRAY8(v) => v as int,
        Color::GRAYA8(a) => a[0] as int,
        Color::GRAY16(v) => v as int,
        Color::GRAYA16(a) => a[0] as int,
        Color::RGB8(a) => avg3(a[0] as int, a[1] as int, a[2] as int),
        Color::RGBA8(a) => avg3(a[0] as int, a[1] as int, a[2] as int),
        Color::RGB16(a) => avg3(a[0] as int, a[1] as int, a[2] as int),
        Color::RGBA16(a) => avg3(a[0] as int, a[1] as int, a[2] as int),
    }
}

/// The red (`i == 0`), green (`i == 1`) or blue (`i == 2`) channel of a color at its
/// own depth; a gray color has its gray level in each.
pub open spec fn rgb_channel(c: Color, i: int) -> int {
    match c {
        Color::GRAY8(v) => v as int,
        Color::GRAYA8(a) => a[0] as int,
        Color::GRAY16(v) => v as int,
        Color::GRAYA16(a) => a[0] as int,
        Color::RGB8(a) => a[i] as int,
        Color::RGBA8(a) => a[i] as int,
        Color::RGB16(a) => a[i] as int,
        Color::RGBA16(a) => a[i] as int,
    }
}

/// The alpha channel of a color at its own depth; a color without one is fully opaque.
pub open spec fn alpha_channel(c: Color) -> int {
    match c {
        Color::GRAYA8(a) => a[1] as int,
        Color::GRAYA16(a) => a[1] as int,
        Color::RGBA8(a) => a[3] as int,
        Color::RGBA16(a) => a[3] as int,
        _ => max_channel(c.spec_color_type().is_wide()),
    }
}

/// The color `c` converted to the color type `t`: each channel of `t` is taken from
/// the matching channel of `c` (the gray level for a gray type, the gray level in each
/// of red, green and blue from a gray color, full opacity where `c` has no alpha) and
/// moved to the depth of `t`.
pub open spec fn convert_color(c: Color, t: ColorType) -> Color {
    let fw = c.spec_color_type().is_wide();
    let tw = t.is_wide();
    let g = to_depth(gray_level(c), fw, tw);
    let r = to_depth(rgb_channel(c, 0), fw, tw);
    let gr = to_depth(rgb_channel(c, 1), fw, tw);
    let b = to_depth(rgb_channel(c, 2), fw, tw);
    let a = to_depth(alpha_channel(c), fw, tw);
    match t {
        ColorType::GRAY8 => Color::GRAY8(g as u8),
        ColorType::GRAYA8 => Color::GRAYA8([g as u8, a as u8]),
        ColorType::GRAY16 => Color::GRAY16(g as u16),
        ColorType::GRAYA16 => Color::GRAYA16([g as u16, a as u16]),
        ColorType::RGB8 => Color::RGB8([r as u8, gr as u8, b as u8]),
        ColorType::RGBA8 => Color::RGBA8([r as u8, gr as u8, b as u8, a as u8]),
        ColorType::RGB16 => Color::RGB16([r as u16, gr as u16, b as u16]),
        ColorType::RGBA16 => Color::RGBA16([r as u16, gr as u16, b as u16, a as u16]),
    }
}

/// Converting from `t1` to `t2` keeps every channel of `t1` at its depth or wider.
pub open spec fn spec_lossless(t1: ColorType, t2: ColorType) -> bool {
    &&& t1.has_alpha() ==> t2.has_alpha()
    &&& t1.is_wide() ==> t2.is_wide()
    &&& t1.is_rgb() ==> t2.is_rgb()
}

/// `new` is the image `old` converted to the color type `t`: every pixel, and the
/// background color, converted by [convert_color].
pub open spec fn is_conversion(old: ImageView, new: ImageView, t: ColorType) -> bool {
    &&& new.width == old.width
    &&& new.height == old.height
    &&& new.color_type == t
    &&& new.background_color == match old.background_color {
        Some(c) => Some(convert_color(c, t)),
        None => None,
    }
    &&& new.data.len() == old.num_pixels() * t.bpp()
    &&& forall|p: int|
        0 <= p < old.num_pixels() ==> #[trigger] chunk(new.data, t.bpp(), p) == convert_color(
            Color::spec_from_bytes(old.color_type, old.pixel_bytes(p)),
            t,
        ).spec_bytes()
}

/// Converts a u8 color value to a u16 color value.
pub fn val_u8_to_u16(value: u8) -> (r: u16)
    ensures
        r == widen(value as int),
{
    value as u16 * 257u16
}

/// Converts a u16 color value to a u8 color value, rounding to the nearest.
pub fn val_u16_to_u8(value: u16) -> (r: u8)
    ensures
        r == narrow(value as int),
        257 * r - 128 <= value <= 257 * r + 128,
{
    ((value as u32 + 128) / 257) as u8
}

/// The average of three channel values, rounded to the nearest integer.
pub fn average(a: u16, b: u16, c: u16) -> (r: u16)
    ensures
        r == avg3(a as int, b as int, c as int),
        3 * r - 1 <= a + b + c <= 3 * r + 1,
        a <= b <= c ==> a <= r <= c,
{
    ((a as u32 + b as u32 + c as u32 + 1) / 3) as u16
}

/// Moves a channel value between depths.
fn to_depth_exec(v: u16, from_wide: bool, to_wide: bool) -> (r: u16)
    requires
        v <= max_channel(from_wide),
    ensures
        r == to_depth(v as int, from_wide, to_wide),
        r <= max_channel(to_wide),
{
    if from_wide == to_wide {
        v
    } else if to_wide {
        val_u8_to_u16(v as u8)
    } else {
        val_u16_to_u8(v) as u16
    }
}

/// Converts a color to the color type `t`.
fn convert_color_exec(c: Color, t: ColorType) -> (r: Color)
    ensures
        r == convert_color(c, t),
{
    let (fw, g, r, gr, b, a): (bool, u16, u16, u16, u16, u16) = match c {
        Color::GRAY8(v) => (false, v as u16, v as u16, v as u16, v as u16, 255),
        Color::GRAYA8(x) => (false, x[0] as u16, x[0] as u16, x[0] as u16, x[0] as u16, x[1] as u16),
        Color::GRAY16(v) => (true, v, v, v, v, 65535),
        Color::GRAYA16(x) => (true, x[0], x[0], x[0], x[0], x[1]),
        Color::RGB8(x) => (
            false,
            average(x[0] as u16, x[1] as u16, x[2] as u16),
            x[0] as u16,
            x[1] as u16,
            x[2] as u16,
            255,
        ),
        Color::RGBA8(x) => (
            false,
            average(x[0] as u16, x[1] as u16, x[2] as u16),
            x[0] as u16,
            x[1] as u16,
            x[2] as u16,
            x[3] as u16,
        ),
        Color::RGB16(x) => (true, average(x[0], x[1], x[2]), x[0], x[1], x[2], 65535),
        Color::RGBA16(x) => (true, average(x[0], x[1], x[2]), x[0], x[1], x[2], x[3]),
    };
    let tw = is_wide_exec(t);
    let g = to_depth_exec(g, fw, tw);
    let r = to_depth_exec(r, fw, tw);
    let gr = to_depth_exec(gr, fw, tw);
    let b = to_depth_exec(b, fw, tw);
    let a = to_depth_exec(a, fw, tw);
    match t {
        ColorType::GRAY8 => Color::GRAY8(g as u8),
        ColorType::GRAYA8 => Color::GRAYA8([g as u8, a as u8]),
        ColorType::GRAY16 => Color::GRAY16(g),
        ColorType::GRAYA16 => Color::GRAYA16([g, a]),
        ColorType::RGB8 => Color::RGB8([r as u8, gr as u8, b as u8]),
        ColorType::RGBA8 => Color::RGBA8([r as u8, gr as u8, b as u8, a as u8]),
        ColorType::RGB16 => Color::RGB16([r, gr, b]),
        ColorType::RGBA16 => Color::RGBA16([r, gr, b, a]),
    }
}

/// Whether the channels of `t` are 16 bits wide.
fn is_wide_exec(t: ColorType) -> (r: bool)
    ensures
        r == t.is_wide(),
{
    match t {
        ColorType::GRAY16 | ColorType::GRAYA16 | ColorType::RGB16 | ColorType::RGBA16 => true,
        _ => false,
    }
}

/// A converted color has the type it was converted to.
pub proof fn lemma_convert_color_type(c: Color, t: ColorType)
    ensures
        convert_color(c, t).spec_color_type() == t,
{
}

impl Image {
    /// Checks if conversion to the specified color type is lossless.
    /// # Example
    /// ```
    /// use tinydraw::{Image, ColorType};
    ///
    /// assert!(Image::is_lossless_conversion(ColorType::GRAY8, ColorType::RGB8));
    /// assert!(!Image::is_lossless_conversion(ColorType::RGB8, ColorType::GRAY8));
    /// ```
    pub fn is_lossless_conversion(image_type1: ColorType, image_type2: ColorType) -> (r: bool)
        ensures
            r == spec_lossless(image_type1, image_type2),
    {
        match image_type1 {
            ColorType::GRAY8 => true,
            ColorType::GRAYA8 => matches!(
                image_type2,
                ColorType::GRAYA8 | ColorType::GRAYA16 | ColorType::RGBA8 | ColorType::RGBA16
            ),
            ColorType::GRAY16 => matches!(
                image_type2,
                ColorType::GRAY16 | ColorType::GRAYA16 | ColorType::RGB16 | ColorType::RGBA16
            ),
            ColorType::GRAYA16 => matches!(image_type2, ColorType::GRAYA16 | ColorType::RGBA16),
            ColorType::RGB8 => matches!(
                image_type2,
                ColorType::RGB8 | ColorType::RGBA8 | ColorType::RGB16 | ColorType::RGBA16
            ),
            ColorType::RGBA8 => matches!(image_type2, ColorType::RGBA8 | ColorType::RGBA16),
            ColorType::RGB16 => matches!(image_type2, ColorType::RGB16 | ColorType::RGBA16),
            ColorType::RGBA16 => matches!(image_type2, ColorType::RGBA16),
        }
    }

    /// Converts the image to the specified color type.
    /// If the image is already in the specified color type, this function does nothing.
    /// # Arguments
    /// * ```color_type``` - The color type to which the image will be converted.
    pub fn convert(&mut self, color_type: ColorType)
        requires
            old(self).wf(),
            old(self)@.num_pixels() * color_type.bpp() <= usize::MAX,
        ensures
            final(self).wf(),
            is_conversion(old(self)@, final(self)@, color_type),
            old(self)@.color_type == color_type ==> final(self)@ == old(self)@,
    {
        if self.color_type == color_type {
            proof {
                lemma_convert_same_image(self@);
            }
            return;
        }
        let ghost v0 = self@;
        let bpp_old = self.color_type.bytes_per_pixel();
        let bpp_new = color_type.bytes_per_pixel();
        proof {
            lemma_mul_le_bound(v0.num_pixels(), bpp_old as nat, self.data@.len());
            assert(self.data.len() == self.data@.len());
        }
        let n = self.width * self.height;
        let mut out: Vec<u8> = Vec::with_capacity(n * bpp_new);
        let mut p: usize = 0;
        let mut at: usize = 0;
        while p < n
            invariant
                v0 == self@,
                v0.wf(),
                n == v0.num_pixels(),
                bpp_old == v0.bpp(),
                bpp_new == color_type.bpp(),
                n * bpp_new <= usize::MAX,
                self.data@.len() <= usize::MAX,
                p <= n,
                at == p * bpp_old,
                out@.len() == p * bpp_new,
                forall|q: int|
                    0 <= q < p ==> #[trigger] chunk(out@, bpp_new as nat, q) == convert_color(
                        Color::spec_from_bytes(v0.color_type, v0.pixel_bytes(q)),
                        color_type,
                    ).spec_bytes(),
            decreases n - p,
        {
            proof {
                lemma_chunk_inside(p as int, n as int, bpp_old as nat);
            }
            let bytes = vstd::slice::slice_subrange(self.data.as_slice(), at, at + bpp_old);
            let c = Color::from_bytes(self.color_type, bytes);
            let c2 = convert_color_exec(c, color_type);
            let b = c2.as_bytes();
            proof {
                assert(bytes@ == v0.pixel_bytes(p as int));
                lemma_color_bytes_len(c2);
                lemma_convert_color_type(c, color_type);
                lemma_chunk_push(out@, bpp_new as nat, p as int, b@);
                lemma_chunk_inside(p as int, n as int, bpp_new as nat);
            }
            push_all(&mut out, &b);
            p = p + 1;
            at = at + bpp_old;
            assert(at == p * bpp_old && out@.len() == p * bpp_new) by (nonlinear_arith)
                requires
                    at == (p - 1) * bpp_old + bpp_old,
                    out@.len() == (p - 1) * bpp_new + bpp_new,
            ;
        }
        let background_color = match self.background_color {
            Some(c) => Some(convert_color_exec(c, color_type)),
            None => None,
        };
        self.data = out;
        self.color_type = color_type;
        self.background_color = background_color;
    }
}

/// Converting a color to its own type gives the color back.
pub proof fn lemma_convert_same(c: Color)
    ensures
        convert_color(c, c.spec_color_type()) == c,
{
    broadcast use vstd::array::group_array_axioms;

    match c {
        Color::GRAYA8(a) => assert(convert_color(c, c.spec_color_type())->GRAYA8_0 =~= a),
        Color::GRAYA16(a) => assert(convert_color(c, c.spec_color_type())->GRAYA16_0 =~= a),
        Color::RGB8(a) => assert(convert_color(c, c.spec_color_type())->RGB8_0 =~= a),
        Color::RGBA8(a) => assert(convert_color(c, c.spec_color_type())->RGBA8_0 =~= a),
        Color::RGB16(a) => assert(convert_color(c, c.spec_color_type())->RGB16_0 =~= a),
        Color::RGBA16(a) => assert(convert_color(c, c.spec_color_type())->RGBA16_0 =~= a),
        _ => {},
    }
}

/// Two byte strings made of the same `n` blocks of `size` bytes are equal.
pub proof fn lemma_chunks_ext(d1: Seq<u8>, d2: Seq<u8>, size: nat, n: nat)
    requires
        size >= 1,
        d1.len() == n * size,
        d2.len() == n * size,
        forall|p: int| 0 <= p < n ==> #[trigger] chunk(d1, size, p) == chunk(d2, size, p),
    ensures
        d1 == d2,
{
    assert forall|k: int| 0 <= k < d1.len() implies d1[k] == d2[k] by {
        let p = k / size as int;
        let j = k % size as int;
        assert(k == p * size + j && 0 <= j < size) by (nonlinear_arith)
            requires
                size >= 1,
                p == k / size as int,
                j == k % size as int,
                k >= 0,
        ;
        assert(0 <= p < n) by (nonlinear_arith)
            requires
                k == p * size + j,
                0 <= j < size,
                0 <= k < n * size,
        ;
        lemma_chunk_inside(p, n as int, size);
        assert(chunk(d1, size, p)[j] == d1[k]);
        assert(chunk(d2, size, p)[j] == d2[k]);
    }
    assert(d1 =~= d2);
}

/// Converting an image to its own type leaves it as it is.
pub proof fn lemma_convert_same_image(v: ImageView)
    requires
        v.wf(),
    ensures
        is_conversion(v, v, v.color_type),
{
    if let Some(c) = v.background_color {
        lemma_convert_same(c);
    }
    assert forall|p: int| 0 <= p < v.num_pixels() implies #[trigger] chunk(v.data, v.bpp(), p)
        == convert_color(Color::spec_from_bytes(v.color_type, v.pixel_bytes(p)), v.color_type).spec_bytes() by {
        lemma_chunk_inside(p, v.num_pixels() as int, v.bpp());
        lemma_bytes_of_from_bytes(v.color_type, v.pixel_bytes(p));
        lemma_convert_same(Color::spec_from_bytes(v.color_type, v.pixel_bytes(p)));
    }
}

/// A channel value moved to a depth at least as wide and back is unchanged.
pub proof fn lemma_depth_round_trip(v: int, from_wide: bool, to_wide: bool)
    requires
        0 <= v <= max_channel(from_wide),
        from_wide ==> to_wide,
    ensures
        to_depth(to_depth(v, from_wide, to_wide), to_wide, from_wide) == v,
{
}

/// Law: converting a color to a type for which [Image::is_lossless_conversion] holds,
/// and back to its own type, gives the color back.
pub proof fn law_lossless_color_round_trip(c: Color, t: ColorType)
    requires
        spec_lossless(c.spec_color_type(), t),
    ensures
        convert_color(convert_color(c, t), c.spec_color_type()) == c,
{
    broadcast use vstd::array::group_array_axioms;

    let t1 = c.spec_color_type();
    let fw = t1.is_wide();
    let tw = t.is_wide();
    lemma_depth_round_trip(gray_level(c), fw, tw);
    lemma_depth_round_trip(rgb_channel(c, 0), fw, tw);
    lemma_depth_round_trip(rgb_channel(c, 1), fw, tw);
    lemma_depth_round_trip(rgb_channel(c, 2), fw, tw);
    lemma_depth_round_trip(alpha_channel(c), fw, tw);
    let back = convert_color(convert_color(c, t), t1);
    match c {
        Color::GRAYA8(a) => assert(back->GRAYA8_0 =~= a),
        Color::GRAYA16(a) => assert(back->GRAYA16_0 =~= a),
        Color::RGB8(a) => assert(back->RGB8_0 =~= a),
        Color::RGBA8(a) => assert(back->RGBA8_0 =~= a),
        Color::RGB16(a) => assert(back->RGB16_0 =~= a),
        Color::RGBA16(a) => assert(back->RGBA16_0 =~= a),
        _ => {},
    }
}

/// Law: when [Image::is_lossless_conversion] does not hold, some color of the first
/// type does not survive the conversion to the second type and back.
pub proof fn law_lossy_has_witness(t1: ColorType, t2: ColorType)
    requires
        !spec_lossless(t1, t2),
    ensures
        exists|c: Color|
            c.spec_color_type() == t1 && #[trigger] convert_color(convert_color(c, t2), t1) != c,
{
    let c = match t1 {
        ColorType::GRAY8 => Color::GRAY8(0),
        ColorType::GRAYA8 => Color::GRAYA8([0, 0]),
        ColorType::GRAY16 => Color::GRAY16(1),
        ColorType::GRAYA16 => Color::GRAYA16([1, 0]),
        ColorType::RGB8 => Color::RGB8([0, 0, 3]),
        ColorType::RGBA8 => Color::RGBA8([0, 0, 3, 0]),
        ColorType::RGB16 => Color::RGB16([0, 0, 3]),
        ColorType::RGBA16 => Color::RGBA16([0, 0, 3, 0]),
    };
    let back = convert_color(convert_color(c, t2), t1);
    match t1 {
        ColorType::GRAYA8 => assert(back->GRAYA8_0[1] != c->GRAYA8_0[1]),
        ColorType::GRAY16 => assert(back->GRAY16_0 != c->GRAY16_0),
        ColorType::GRAYA16 => assert(back->GRAYA16_0[0] != c->GRAYA16_0[0] || back->GRAYA16_0[1]
            != c->GRAYA16_0[1]),
        ColorType::RGB8 => assert(back->RGB8_0[0] != c->RGB8_0[0]),
        ColorType::RGBA8 => assert(back->RGBA8_0[0] != c->RGBA8_0[0] || back->RGBA8_0[3]
            != c->RGBA8_0[3]),
        ColorType::RGB16 => assert(back->RGB16_0[0] != c->RGB16_0[0] || back->RGB16_0[2]
            != c->RGB16_0[2]),
        ColorType::RGBA16 => assert(back->RGBA16_0[0] != c->RGBA16_0[0] || back->RGBA16_0[2]
            != c->RGBA16_0[2] || back->RGBA16_0[3] != c->RGBA16_0[3]),
        _ => {},
    }
    assert(c.spec_color_type() == t1 && convert_color(convert_color(c, t2), t1) != c);
}

/// Law: an image converted to a type for which [Image::is_lossless_conversion] holds,
/// and converted back, is the image it was.
pub proof fn law_lossless_image_round_trip(
    v0: ImageView,
    v1: ImageView,
    v2: ImageView,
    t: ColorType,
)
    requires
        v0.wf(),
        spec_lossless(v0.color_type, t),
        is_conversion(v0, v1, t),
        is_conversion(v1, v2, v0.color_type),
    ensures
        v2 == v0,
{
    let t0 = v0.color_type;
    if let Some(c) = v0.background_color {
        law_lossless_color_round_trip(c, t);
    }
    assert forall|p: int| 0 <= p < v0.num_pixels() implies #[trigger] chunk(v2.data, t0.bpp(), p)
        == chunk(v0.data, t0.bpp(), p) by {
        let c0 = Color::spec_from_bytes(t0, v0.pixel_bytes(p));
        lemma_chunk_inside(p, v0.num_pixels() as int, t0.bpp());
        lemma_bytes_of_from_bytes(t0, v0.pixel_bytes(p));
        let c1 = convert_color(c0, t);
        assert(v1.pixel_bytes(p) == c1.spec_bytes());
        lemma_from_bytes_of_bytes(c1);
        law_lossless_color_round_trip(c0, t);
    }
    lemma_chunks_ext(v2.data, v0.data, t0.bpp(), v0.num_pixels());
}

/// Law: every pixel of a converted image is the converted pixel of the image it was made from.
pub proof fn law_convert_pixels(old: ImageView, new: ImageView, t: ColorType, x: int, y: int)
    requires
        old.wf(),
        is_conversion(old, new, t),
        old.in_bounds(x, y),
    ensures
        new.pixel(x, y) == convert_color(old.pixel(x, y), t),
{
    crate::indexing::lemma_pixel_index_bounds(old, x, y);
    let p = old.pixel_index(x, y);
    assert(new.pixel_index(x, y) == p);
    let c1 = convert_color(Color::spec_from_bytes(old.color_type, old.pixel_bytes(p)), t);
    assert(new.pixel_bytes(p) == c1.spec_bytes());
    lemma_from_bytes_of_bytes(c1);
}

/// Moving a channel value from one depth to another: the same value at the same depth,
/// times 257 from 8 to 16 bits, and the nearest 8-bit value (`dst * 257` within 128 of
/// `src`) from 16 to 8 bits.
pub open spec fn depth_rel(src: int, dst: int, from_wide: bool, to_wide: bool) -> bool {
    if from_wide == to_wide {
        dst == src
    } else if to_wide {
        dst == 257 * src
    } else {
        257 * dst - 128 <= src <= 257 * dst + 128
    }
}

/// What converting the color `c` to the color type `t` must give, channel by channel:
/// color channels from color channels, or each from the gray channel; a gray channel
/// from the gray channel, or from the mean of red, green and blue rounded to the
/// nearest integer; alpha from alpha, or full opacity; each value moved to the new depth.
pub open spec fn conversion_relation(c: Color, d: Color, t: ColorType) -> bool {
    let s = channels(c);
    let o = channels(d);
    let fw = c.spec_color_type().is_wide();
    let tw = t.is_wide();
    &&& d.spec_color_type() == t
    &&& (t.is_rgb() && c.spec_color_type().is_rgb()) ==> depth_rel(s[0], o[0], fw, tw)
        && depth_rel(s[1], o[1], fw, tw) && depth_rel(s[2], o[2], fw, tw)
    &&& (t.is_rgb() && !c.spec_color_type().is_rgb()) ==> depth_rel(s[0], o[0], fw, tw)
        && depth_rel(s[0], o[1], fw, tw) && depth_rel(s[0], o[2], fw, tw)
    &&& (!t.is_rgb() && !c.spec_color_type().is_rgb()) ==> depth_rel(s[0], o[0], fw, tw)
    &&& (!t.is_rgb() && c.spec_color_type().is_rgb()) ==> exists|m: int|
        3 * m - 1 <= s[0] + s[1] + s[2] <= 3 * m + 1 && #[trigger] depth_rel(m, o[0], fw, tw)
    &&& (t.has_alpha() && c.spec_color_type().has_alpha()) ==> depth_rel(
        s[s.len() - 1],
        o[o.len() - 1],
        fw,
        tw,
    )
    &&& (t.has_alpha() && !c.spec_color_type().has_alpha()) ==> o[o.len() - 1] == if tw {
        65535int
    } else {
        255int
    }
}

/// Moving a channel value between depths meets [depth_rel] and stays in range.
proof fn lemma_to_depth_rel(v: int, from_wide: bool, to_wide: bool)
    requires
        0 <= v <= max_channel(from_wide),
    ensures
        depth_rel(v, to_depth(v, from_wide, to_wide), from_wide, to_wide),
        0 <= to_depth(v, from_wide, to_wide) <= max_channel(to_wide),
{
}

/// The rounded average of three channel values is their nearest mean and stays in range.
proof fn lemma_avg3(a: int, b: int, c: int, hi: int)
    requires
        0 <= a <= hi,
        0 <= b <= hi,
        0 <= c <= hi,
    ensures
        3 * avg3(a, b, c) - 1 <= a + b + c <= 3 * avg3(a, b, c) + 1,
        0 <= avg3(a, b, c) <= hi,
{
}

/// Law: converting a color to a color type gives a color that meets
/// [conversion_relation]: every channel of the result is the matching channel of the
/// color (the rounded mean of red, green and blue for gray from color) at the new depth,
/// 16-bit channels narrowed to the nearest 8-bit value, the alpha channel included.
pub proof fn law_convert_channels(c: Color, t: ColorType)
    ensures
        conversion_relation(c, convert_color(c, t), t),
{
    let fw = c.spec_color_type().is_wide();
    let tw = t.is_wide();
    let hi = max_channel(fw);
    let s = channels(c);
    crate::colors::law_channels_shape(c);
    if c.spec_color_type().is_rgb() {
        assert(0 <= s[0] <= hi && 0 <= s[1] <= hi && 0 <= s[2] <= hi);
        lemma_avg3(s[0], s[1], s[2], hi);
    }
    lemma_to_depth_rel(gray_level(c), fw, tw);
    lemma_to_depth_rel(rgb_channel(c, 0), fw, tw);
    lemma_to_depth_rel(rgb_channel(c, 1), fw, tw);
    lemma_to_depth_rel(rgb_channel(c, 2), fw, tw);
    lemma_to_depth_rel(alpha_channel(c), fw, tw);
    let d = convert_color(c, t);
    let o = channels(d);
    if !t.is_rgb() && c.spec_color_type().is_rgb() {
        let m = gray_level(c);
        assert(3 * m - 1 <= s[0] + s[1] + s[2] <= 3 * m + 1 && depth_rel(m, o[0], fw, tw));
    }
}

/// Law: every pixel of a converted image meets [conversion_relation] with the pixel it
/// was converted from, and so does the background color.
pub proof fn law_convert_image_channels(
    old: ImageView,
    new: ImageView,
    t: ColorType,
    x: int,
    y: int,
)
    requires
        old.wf(),
        is_conversion(old, new, t),
        old.in_bounds(x, y),
    ensures
        conversion_relation(old.pixel(x, y), new.pixel(x, y), t),
        old.background_color matches Some(c) ==> new.background_color matches Some(d)
            && conversion_relation(c, d, t),
{
    law_convert_pixels(old, new, t, x, y);
    law_convert_channels(old.pixel(x, y), t);
    if let Some(c) = old.background_color {
        law_convert_channels(c, t);
    }
}

} // verus!
