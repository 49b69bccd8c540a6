//! Making images from bytes.

use crate::colors::{lemma_from_bytes_of_bytes, Color, ColorType};
use crate::error::Error;
use crate::image::{chunk, is_filled, lemma_chunk_inside, lemma_mul_le_bound, Image, ImageView};
use vstd::prelude::*;

verus! {

/// The `n` blocks of `size` bytes of `data` are all equal to the first one.
pub open spec fn uniform(data: Seq<u8>, size: nat, n: nat) -> bool {
    forall|p: int| 0 <= p < n ==> #[trigger] chunk(data, size, p) == chunk(data, size, 0)
}

/// The image that [Image::from_bytes] makes of valid input: the bytes as they are, and
/// as background color the color of the pixels when they all have the same one.
pub open spec fn from_bytes_view(width: nat, height: nat, color_type: ColorType, data: Seq<u8>) -> ImageView {
    ImageView {
        data,
        width,
        height,
        color_type,
        background_color: if uniform(data, color_type.bpp(), width * height) {
            Some(Color::spec_from_bytes(color_type, data))
        } else {
            None
        },
    }
}

/// Whether the bytes have the size that `width * height` pixels of `color_type` take.
pub open spec fn valid_size(width: nat, height: nat, color_type: ColorType, len: nat) -> bool {
    len == width * height * color_type.bpp() && len != 0
}

/// A color is read from the first bytes only.
pub proof fn lemma_from_bytes_prefix(t: ColorType, b1: Seq<u8>, b2: Seq<u8>)
    requires
        b1.len() >= t.bpp(),
        b2.len() >= t.bpp(),
        forall|k: int| 0 <= k < t.bpp() ==> b1[k] == b2[k],
    ensures
        Color::spec_from_bytes(t, b1) == Color::spec_from_bytes(t, b2),
{
    assert(b1[0] == b2[0]);
    if t.bpp() >= 2 {
        assert(b1[1] == b2[1]);
    }
    if t.bpp() >= 3 {
        assert(b1[2] == b2[2]);
    }
    if t.bpp() >= 4 {
        assert(b1[3] == b2[3]);
    }
    if t.bpp() >= 6 {
        assert(b1[4] == b2[4]);
        assert(b1[5] == b2[5]);
    }
    if t.bpp() >= 8 {
        assert(b1[6] == b2[6]);
        assert(b1[7] == b2[7]);
    }
}

/// Law: the bytes of an image made by [Image::new] make, through [Image::from_bytes],
/// the same image again.
pub proof fn law_new_then_from_bytes(v: ImageView, c: Color)
    requires
        v.wf(),
        v.background_color == Some(c),
        v.all_pixels(c),
        v.num_pixels() > 0,
    ensures
        from_bytes_view(v.width, v.height, v.color_type, v.data) == v,
{
    let size = v.bpp();
    assert(uniform(v.data, size, v.num_pixels()));
    lemma_chunk_inside(0, v.num_pixels() as int, size);
    lemma_from_bytes_prefix(v.color_type, v.data, chunk(v.data, size, 0));
    lemma_from_bytes_of_bytes(c);
}

/// Law: the background color that [Image::from_bytes] finds is the color of every pixel;
/// when it finds none, some pixel differs from the top left one.
pub proof fn law_from_bytes_background(width: nat, height: nat, t: ColorType, data: Seq<u8>)
    requires
        valid_size(width, height, t, data.len()),
    ensures
        from_bytes_view(width, height, t, data).wf(),
        from_bytes_view(width, height, t, data).background_color matches Some(c) ==> forall|
            x: int,
            y: int,
        |
            from_bytes_view(width, height, t, data).in_bounds(x, y) ==> #[trigger] from_bytes_view(
                width,
                height,
                t,
                data,
            ).pixel(x, y) == c,
        from_bytes_view(width, height, t, data).background_color is None ==> exists|x: int, y: int|
            from_bytes_view(width, height, t, data).in_bounds(x, y) && #[trigger] from_bytes_view(
                width,
                height,
                t,
                data,
            ).pixel(x, y) != from_bytes_view(width, height, t, data).pixel(0, height - 1),
{
    let v = from_bytes_view(width, height, t, data);
    let n = width * height;
    let size = t.bpp();
    assert(n > 0) by (nonlinear_arith)
        requires
            data.len() == n * size,
            data.len() != 0,
    ;
    assert(width > 0 && height > 0) by (nonlinear_arith)
        requires
            n == width * height,
            n > 0,
    ;
    lemma_chunk_inside(0, n as int, size);
    lemma_from_bytes_prefix(t, data, chunk(data, size, 0));
    if let Some(c) = v.background_color {
        assert forall|x: int, y: int| v.in_bounds(x, y) implies #[trigger] v.pixel(x, y) == c by {
            crate::indexing::lemma_pixel_index_bounds(v, x, y);
            assert(chunk(data, size, v.pixel_index(x, y)) == chunk(data, size, 0));
        }
    } else {
        let p = choose|p: int| 0 <= p < n && #[trigger] chunk(data, size, p) != chunk(data, size, 0);
        crate::indexing::law_pixel_index_bijective(v, p);
        let x = p % (width as int);
        let y = height - 1 - p / (width as int);
        assert(v.pixel_index(0, height - 1) == 0);
        lemma_chunk_inside(p, n as int, size);
        crate::colors::lemma_bytes_of_from_bytes(t, chunk(data, size, p));
        crate::colors::lemma_bytes_of_from_bytes(t, chunk(data, size, 0));
        assert(v.in_bounds(x, y) && v.pixel(x, y) != v.pixel(0, height - 1));
    }
}

impl Image {
    /// Creates a new image from the given bytes.
    /// # Arguments
    /// * ```width``` - The width of the image.
    /// * ```height``` - The height of the image.
    /// * ```color_type``` - The color type of the image.
    /// * ```bytes``` - The bytes of the image.
    /// # Errors
    /// * [Error::InvalidSize] - If the size of the bytes is not equal to width * height * bytes per pixel, or is zero.
    pub fn from_bytes(width: usize, height: usize, color_type: ColorType, bytes: &[u8]) -> (r: Result<Image, Error>)
        ensures
            !valid_size(width as nat, height as nat, color_type, bytes@.len()) ==> r == Err::<
                Image,
                Error,
            >(Error::InvalidSize),
            valid_size(width as nat, height as nat, color_type, bytes@.len()) ==> (r matches Ok(
                image,
            ) && image.wf() && image@ == from_bytes_view(
                width as nat,
                height as nat,
                color_type,
                bytes@,
            )),
    {
        let bpp = color_type.bytes_per_pixel();
        let n = match width.checked_mul(height) {
            Some(n) => n,
            None => {
                proof {
                    assert(bytes.len() == bytes@.len());
                    if valid_size(width as nat, height as nat, color_type, bytes@.len()) {
                        lemma_mul_le_bound((width * height) as nat, bpp as nat, usize::MAX as nat);
                    }
                }
                return Err(Error::InvalidSize);
            },
        };
        match n.checked_mul(bpp) {
            Some(s) => {
                if s != bytes.len() || bytes.len() == 0 {
                    return Err(Error::InvalidSize);
                }
            },
            None => {
                proof {
                    assert(bytes.len() == bytes@.len());
                }
                return Err(Error::InvalidSize);
            },
        }

        proof {
            assert(bytes.len() == bytes@.len());
        }
        // check if all pixels have the same color
        let mut same_data = true;
        let mut p: usize = 1;
        let mut at: usize = bpp;
        proof {
            lemma_chunk_inside(0, n as int, bpp as nat);
        }
        while p < n
            invariant
                bytes@.len() == n * bpp,
                bytes@.len() <= usize::MAX,
                bpp == color_type.bpp(),
                1 <= p <= n,
                at == p * bpp,
                same_data ==> forall|q: int|
                    0 <= q < p ==> #[trigger] chunk(bytes@, bpp as nat, q) == chunk(
                        bytes@,
                        bpp as nat,
                        0,
                    ),
                !same_data ==> !uniform(bytes@, bpp as nat, n as nat),
            decreases n - p,
        {
            proof {
                lemma_chunk_inside(p as int, n as int, bpp as nat);
                lemma_chunk_inside(0, n as int, bpp as nat);
            }
            let mut j: usize = 0;
            let mut equal = true;
            while j < bpp
                invariant
                    bytes@.len() == n * bpp,
                    bytes@.len() <= usize::MAX,
                    at == p * bpp,
                    at + bpp <= bytes@.len(),
                    j <= bpp,
                    equal ==> forall|k: int| 0 <= k < j ==> bytes@[at + k] == #[trigger] bytes@[k],
                    !equal ==> exists|k: int| 0 <= k < bpp && bytes@[at + k] != #[trigger] bytes@[k],
                decreases bpp - j,
            {
                if bytes[at + j] != bytes[j] {
                    equal = false;
                }
                j = j + 1;
            }
            if !equal {
                same_data = false;
                proof {
                    let k = choose|k: int| 0 <= k < bpp && bytes@[at + k] != #[trigger] bytes@[k];
                    assert(chunk(bytes@, bpp as nat, p as int)[k] != chunk(bytes@, bpp as nat, 0)[k]);
                }
            } else {
                proof {
                    assert(chunk(bytes@, bpp as nat, p as int) =~= chunk(bytes@, bpp as nat, 0));
                }
            }
            p = p + 1;
            at = at + bpp;
            assert(at == p * bpp) by (nonlinear_arith)
                requires
                    at == (p - 1) * bpp + bpp,
            ;
        }

        // if they do, store the background color
        let background_color = if same_data {
            Some(Color::from_bytes(color_type, bytes))
        } else {
            None
        };
        let data = vstd::slice::slice_to_vec(bytes);
        Ok(Image { width, height, color_type, data, background_color })
    }
}

} // verus!
