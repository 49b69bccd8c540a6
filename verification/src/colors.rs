//! The module that holds the color information.

use vstd::endian::{endianness, Endian};
use crate::text::{bytes_as_nats, debug_list, decimal, push_byte_list, push_decimal, push_u16_list, u16s_as_nats};
use vstd::prelude::*;
use vstd::string::StringExecFns;

verus! {

/// An enum that holds the image type information.
#[derive(Debug, Copy, Clone, PartialEq, Eq, Hash, Structural)]
pub enum ColorType {
    /// An image with 8-bit grayscale pixels
    GRAY8,
    /// An image with 8-bit grayscale pixels + 8-bit alpha channel
    GRAYA8,
    /// An image with 16-bit grayscale pixels
    GRAY16,
    /// An image with 16-bit grayscale pixels + 16-bit alpha channel
    GRAYA16,
    /// An image with 8-bit RGB pixels
    RGB8,
    /// An image with 8-bit RGB pixels + 8-bit alpha channel
    RGBA8,
    /// An image with 16-bit RGB pixels
    RGB16,
    /// An image with 16-bit RGB pixels + 16-bit alpha channel
    RGBA16,
}

impl ColorType {
    /// The number of bytes one pixel of this type takes.
    pub open spec fn bpp(self) -> nat {
        match self {
            ColorType::GRAY8 => 1,
            ColorType::GRAYA8 => 2,
            ColorType::GRAY16 => 2,
            ColorType::GRAYA16 => 4,
            ColorType::RGB8 => 3,
            ColorType::RGBA8 => 4,
            ColorType::RGB16 => 6,
            ColorType::RGBA16 => 8,
        }
    }

    /// Whether the channels of this type are 16 bits wide.
    pub open spec fn is_wide(self) -> bool {
        match self {
            ColorType::GRAY16 | ColorType::GRAYA16 | ColorType::RGB16 | ColorType::RGBA16 => true,
            _ => false,
        }
    }

    /// Whether this type carries an alpha channel.
    pub open spec fn has_alpha(self) -> bool {
        match self {
            ColorType::GRAYA8 | ColorType::GRAYA16 | ColorType::RGBA8 | ColorType::RGBA16 => true,
            _ => false,
        }
    }

    /// Whether this type has red, green and blue channels (rather than one gray channel).
    pub open spec fn is_rgb(self) -> bool {
        match self {
            ColorType::RGB8 | ColorType::RGBA8 | ColorType::RGB16 | ColorType::RGBA16 => true,
            _ => false,
        }
    }

    /// Return the number of bytes per pixel.
    pub fn bytes_per_pixel(&self) -> (n: usize)
        ensures
            n == self.bpp(),
    {
        match self {
            ColorType::GRAY8 => 1,
            ColorType::GRAYA8 => 2,
            ColorType::GRAY16 => 2,
            ColorType::GRAYA16 => 4,
            ColorType::RGB8 => 3,
            ColorType::RGBA8 => 4,
            ColorType::RGB16 => 6,
            ColorType::RGBA16 => 8,
        }
    }

    /// The name of the color type, as the original `Display` output writes it.
    pub open spec fn spec_name(self) -> Seq<char> {
        match self {
            ColorType::GRAY8 => "GRAY8"@,
            ColorType::GRAYA8 => "GRAYA8"@,
            ColorType::GRAY16 => "GRAY16"@,
            ColorType::GRAYA16 => "GRAYA16"@,
            ColorType::RGB8 => "RGB8"@,
            ColorType::RGBA8 => "RGBA8"@,
            ColorType::RGB16 => "RGB16"@,
            ColorType::RGBA16 => "RGBA16"@,
        }
    }

    /// Returns the name of the color type, such as `"RGB8"`.
    pub fn to_string(&self) -> (s: String)
        ensures
            s@ == self.spec_name(),
    {
        match self {
            ColorType::GRAY8 => String::from_str("GRAY8"),
            ColorType::GRAYA8 => String::from_str("GRAYA8"),
            ColorType::GRAY16 => String::from_str("GRAY16"),
            ColorType::GRAYA16 => String::from_str("GRAYA16"),
            ColorType::RGB8 => String::from_str("RGB8"),
            ColorType::RGBA8 => String::from_str("RGBA8"),
            ColorType::RGB16 => String::from_str("RGB16"),
            ColorType::RGBA16 => String::from_str("RGBA16"),
        }
    }
}

/// An enum that holds the color information.
#[derive(Debug, Copy, Clone, PartialEq, Eq, Hash)]
pub enum Color {
    /// The 8-bit grayscale color
    GRAY8(u8),
    /// The 8-bit grayscale color + 8-bit alpha channel
    GRAYA8([u8; 2]),
    /// The 16-bit grayscale color
    GRAY16(u16),
    /// The 16-bit grayscale color + 16-bit alpha channel
    GRAYA16([u16; 2]),
    /// The 8-bit RGB color
    RGB8([u8; 3]),
    /// The 8-bit RGB color + 8-bit alpha channel
    RGBA8([u8; 4]),
    /// The 16-bit RGB color
    RGB16([u16; 3]),
    /// The 16-bit RGB color + 16-bit alpha channel
    RGBA16([u16; 4]),
}

/// The two bytes of a 16-bit value in the byte order of the executing machine.
pub open spec fn ne_bytes(v: u16) -> Seq<u8> {
    let lo = (v % 256) as u8;
    let hi = (v / 256) as u8;
    match endianness() {
        Endian::Little => seq![lo, hi],
        Endian::Big => seq![hi, lo],
    }
}

/// The 16-bit value that two bytes hold in the byte order of the executing machine.
pub open spec fn from_ne_bytes(b0: u8, b1: u8) -> u16 {
    match endianness() {
        Endian::Little => (b0 + 256 * b1) as u16,
        Endian::Big => (256 * b0 + b1) as u16,
    }
}

/// The two bytes of `v` in native byte order; wraps `u16::to_ne_bytes`.
/// The contract claims that the bytes are the little-endian encoding on a
/// little-endian machine and the big-endian one otherwise.
#[verifier::external_body]
pub(crate) fn u16_to_ne_bytes(v: u16) -> (r: [u8; 2])
    ensures
        r@ == ne_bytes(v),
{
    v.to_ne_bytes()
}

/// The value of two bytes in native byte order; wraps `u16::from_ne_bytes`.
/// The contract claims the little-endian reading on a little-endian machine
/// and the big-endian one otherwise.
#[verifier::external_body]
pub(crate) fn u16_from_ne_bytes(b: [u8; 2]) -> (r: u16)
    ensures
        r == from_ne_bytes(b[0], b[1]),
{
    u16::from_ne_bytes(b)
}

/// Native-order bytes and values agree both ways.
pub proof fn lemma_ne_bytes(v: u16, b0: u8, b1: u8)
    ensures
        ne_bytes(v).len() == 2,
        from_ne_bytes(ne_bytes(v)[0], ne_bytes(v)[1]) == v,
        ne_bytes(from_ne_bytes(b0, b1)) == seq![b0, b1],
{
    assert((v % 256) as u8 + 256 * ((v / 256) as u8) == v);
    assert(((b0 + 256 * b1) as u16 % 256) as u8 == b0);
    assert(((b0 + 256 * b1) as u16 / 256) as u8 == b1);
    assert(((256 * b0 + b1) as u16 % 256) as u8 == b1);
    assert(((256 * b0 + b1) as u16 / 256) as u8 == b0);
    assert(ne_bytes(from_ne_bytes(b0, b1)) =~= seq![b0, b1]);
}

impl Color {
    /// The color type of a color.
    pub open spec fn spec_color_type(self) -> ColorType {
        match self {
            Color::GRAY8(_) => ColorType::GRAY8,
            Color::GRAYA8(_) => ColorType::GRAYA8,
            Color::GRAY16(_) => ColorType::GRAY16,
            Color::GRAYA16(_) => ColorType::GRAYA16,
            Color::RGB8(_) => ColorType::RGB8,
            Color::RGBA8(_) => ColorType::RGBA8,
            Color::RGB16(_) => ColorType::RGB16,
            Color::RGBA16(_) => ColorType::RGBA16,
        }
    }

    /// The bytes of a color as an image stores them: the channels in order,
    /// each 16-bit channel in native byte order.
    pub open spec fn spec_bytes(self) -> Seq<u8> {
        match self {
            Color::GRAY8(v) => seq![v],
            Color::GRAYA8(a) => seq![a[0], a[1]],
            Color::GRAY16(v) => ne_bytes(v),
            Color::GRAYA16(a) => ne_bytes(a[0]) + ne_bytes(a[1]),
            Color::RGB8(a) => seq![a[0], a[1], a[2]],
            Color::RGBA8(a) => seq![a[0], a[1], a[2], a[3]],
            Color::RGB16(a) => ne_bytes(a[0]) + ne_bytes(a[1]) + ne_bytes(a[2]),
            Color::RGBA16(a) => ne_bytes(a[0]) + ne_bytes(a[1]) + ne_bytes(a[2]) + ne_bytes(a[3]),
        }
    }

    /// The color of type `t` that the bytes `b` (at least `t.bpp()` of them) stand for.
    pub open spec fn spec_from_bytes(t: ColorType, b: Seq<u8>) -> Color {
        match t {
            ColorType::GRAY8 => Color::GRAY8(b[0]),
            ColorType::GRAYA8 => Color::GRAYA8([b[0], b[1]]),
            ColorType::GRAY16 => Color::GRAY16(from_ne_bytes(b[0], b[1])),
            ColorType::GRAYA16 => Color::GRAYA16(
                [from_ne_bytes(b[0], b[1]), from_ne_bytes(b[2], b[3])],
            ),
            ColorType::RGB8 => Color::RGB8([b[0], b[1], b[2]]),
            ColorType::RGBA8 => Color::RGBA8([b[0], b[1], b[2], b[3]]),
            ColorType::RGB16 => Color::RGB16(
                [from_ne_bytes(b[0], b[1]), from_ne_bytes(b[2], b[3]), from_ne_bytes(b[4], b[5])],
            ),
            ColorType::RGBA16 => Color::RGBA16(
                [
                    from_ne_bytes(b[0], b[1]),
                    from_ne_bytes(b[2], b[3]),
                    from_ne_bytes(b[4], b[5]),
                    from_ne_bytes(b[6], b[7]),
                ],
            ),
        }
    }

    /// Return the number of bytes per pixel.
    pub fn bytes_per_pixel(&self) -> (n: usize)
        ensures
            n == self.spec_color_type().bpp(),
    {
        match self {
            Color::GRAY8(_) => 1,
            Color::GRAYA8(_) => 2,
            Color::GRAY16(_) => 2,
            Color::GRAYA16(_) => 4,
            Color::RGB8(_) => 3,
            Color::RGBA8(_) => 4,
            Color::RGB16(_) => 6,
            Color::RGBA16(_) => 8,
        }
    }

    /// Returns the color type of the color.
    pub fn color_type(&self) -> (t: ColorType)
        ensures
            t == self.spec_color_type(),
    {
        match self {
            Color::GRAY8(_) => ColorType::GRAY8,
            Color::GRAYA8(_) => ColorType::GRAYA8,
            Color::GRAY16(_) => ColorType::GRAY16,
            Color::GRAYA16(_) => ColorType::GRAYA16,
            Color::RGB8(_) => ColorType::RGB8,
            Color::RGBA8(_) => ColorType::RGBA8,
            Color::RGB16(_) => ColorType::RGB16,
            Color::RGBA16(_) => ColorType::RGBA16,
        }
    }

    /// Returns the bytes of the color, as an image stores them.
    /// The bytes of a 16-bit channel are in native byte order;
    /// [u16::from_ne_bytes()] gives the channel back.
    pub fn as_bytes(&self) -> (r: Vec<u8>)
        ensures
            r@ == self.spec_bytes(),
    {
        let mut r: Vec<u8> = Vec::new();
        match self {
            Color::GRAY8(v) => {
                r.push(*v);
            },
            Color::GRAYA8(a) => {
                r.push(a[0]);
                r.push(a[1]);
            },
            Color::GRAY16(v) => {
                push_u16(&mut r, *v);
            },
            Color::GRAYA16(a) => {
                push_u16(&mut r, a[0]);
                push_u16(&mut r, a[1]);
            },
            Color::RGB8(a) => {
                r.push(a[0]);
                r.push(a[1]);
                r.push(a[2]);
            },
            Color::RGBA8(a) => {
                r.push(a[0]);
                r.push(a[1]);
                r.push(a[2]);
                r.push(a[3]);
            },
            Color::RGB16(a) => {
                push_u16(&mut r, a[0]);
                push_u16(&mut r, a[1]);
                push_u16(&mut r, a[2]);
            },
            Color::RGBA16(a) => {
                push_u16(&mut r, a[0]);
                push_u16(&mut r, a[1]);
                push_u16(&mut r, a[2]);
                push_u16(&mut r, a[3]);
            },
        }
        assert(r@ =~= self.spec_bytes());
        r
    }

    /// Reads the color of type `color_type` from the first bytes of `bytes`.
    /// The bytes of a 16-bit channel are read in native byte order.
    pub fn from_bytes(color_type: ColorType, bytes: &[u8]) -> (c: Color)
        requires
            bytes@.len() >= color_type.bpp(),
        ensures
            c == Color::spec_from_bytes(color_type, bytes@),
    {
        match color_type {
            ColorType::GRAY8 => Color::GRAY8(bytes[0]),
            ColorType::GRAYA8 => Color::GRAYA8([bytes[0], bytes[1]]),
            ColorType::GRAY16 => Color::GRAY16(u16_from_ne_bytes([bytes[0], bytes[1]])),
            ColorType::GRAYA16 => Color::GRAYA16(
                [u16_from_ne_bytes([bytes[0], bytes[1]]), u16_from_ne_bytes([bytes[2], bytes[3]])],
            ),
            ColorType::RGB8 => Color::RGB8([bytes[0], bytes[1], bytes[2]]),
            ColorType::RGBA8 => Color::RGBA8([bytes[0], bytes[1], bytes[2], bytes[3]]),
            ColorType::RGB16 => Color::RGB16(
                [
                    u16_from_ne_bytes([bytes[0], bytes[1]]),
                    u16_from_ne_bytes([bytes[2], bytes[3]]),
                    u16_from_ne_bytes([bytes[4], bytes[5]]),
                ],
            ),
            ColorType::RGBA16 => Color::RGBA16(
                [
                    u16_from_ne_bytes([bytes[0], bytes[1]]),
                    u16_from_ne_bytes([bytes[2], bytes[3]]),
                    u16_from_ne_bytes([bytes[4], bytes[5]]),
                    u16_from_ne_bytes([bytes[6], bytes[7]]),
                ],
            ),
        }
    }
}

impl Color {
    /// The text of a color, as the original `Display` output writes it: the name of
    /// its type and, in brackets, its channel values as `{:?}` writes them.
    pub open spec fn spec_display(self) -> Seq<char> {
        match self {
            Color::GRAY8(v) => "GRAY8("@ + decimal(v as nat) + ")"@,
            Color::GRAYA8(a) => "GRAYA8("@ + debug_list(bytes_as_nats(a@)) + ")"@,
            Color::GRAY16(v) => "GRAY16("@ + decimal(v as nat) + ")"@,
            Color::GRAYA16(a) => "GRAYA16("@ + debug_list(u16s_as_nats(a@)) + ")"@,
            Color::RGB8(a) => "RGB8("@ + debug_list(bytes_as_nats(a@)) + ")"@,
            Color::RGBA8(a) => "RGBA8("@ + debug_list(bytes_as_nats(a@)) + ")"@,
            Color::RGB16(a) => "RGB16("@ + debug_list(u16s_as_nats(a@)) + ")"@,
            Color::RGBA16(a) => "RGBA16("@ + debug_list(u16s_as_nats(a@)) + ")"@,
        }
    }

    /// Returns the text of the color, such as `"RGB8([255, 0, 0])"`.
    pub fn to_string(&self) -> (s: String)
        ensures
            s@ == self.spec_display(),
    {
        let mut s = String::new();
        match self {
            Color::GRAY8(v) => {
                s.append("GRAY8(");
                push_decimal(&mut s, *v as u64);
            },
            Color::GRAYA8(a) => {
                s.append("GRAYA8(");
                push_byte_list(&mut s, vstd::array::array_as_slice(a));
            },
            Color::GRAY16(v) => {
                s.append("GRAY16(");
                push_decimal(&mut s, *v as u64);
            },
            Color::GRAYA16(a) => {
                s.append("GRAYA16(");
                push_u16_list(&mut s, vstd::array::array_as_slice(a));
            },
            Color::RGB8(a) => {
                s.append("RGB8(");
                push_byte_list(&mut s, vstd::array::array_as_slice(a));
            },
            Color::RGBA8(a) => {
                s.append("RGBA8(");
                push_byte_list(&mut s, vstd::array::array_as_slice(a));
            },
            Color::RGB16(a) => {
                s.append("RGB16(");
                push_u16_list(&mut s, vstd::array::array_as_slice(a));
            },
            Color::RGBA16(a) => {
                s.append("RGBA16(");
                push_u16_list(&mut s, vstd::array::array_as_slice(a));
            },
        }
        s.append(")");
        s
    }
}

/// Appends the native-order bytes of `v`.
fn push_u16(r: &mut Vec<u8>, v: u16)
    ensures
        final(r)@ == old(r)@ + ne_bytes(v),
{
    let b = u16_to_ne_bytes(v);
    r.push(b[0]);
    r.push(b[1]);
    assert(final(r)@ =~= old(r)@ + ne_bytes(v));
}

/// The bytes of a color are as many as its type says.
pub proof fn lemma_color_bytes_len(c: Color)
    ensures
        c.spec_bytes().len() == c.spec_color_type().bpp(),
{
    lemma_ne_bytes(0, 0, 0);
    match c {
        Color::GRAY16(v) => lemma_ne_bytes(v, 0, 0),
        Color::GRAYA16(a) => {
            lemma_ne_bytes(a[0], 0, 0);
            lemma_ne_bytes(a[1], 0, 0);
        },
        Color::RGB16(a) => {
            lemma_ne_bytes(a[0], 0, 0);
            lemma_ne_bytes(a[1], 0, 0);
            lemma_ne_bytes(a[2], 0, 0);
        },
        Color::RGBA16(a) => {
            lemma_ne_bytes(a[0], 0, 0);
            lemma_ne_bytes(a[1], 0, 0);
            lemma_ne_bytes(a[2], 0, 0);
            lemma_ne_bytes(a[3], 0, 0);
        },
        _ => {},
    }
}

/// Reading back the bytes of a color gives the color.
pub proof fn lemma_from_bytes_of_bytes(c: Color)
    ensures
        Color::spec_from_bytes(c.spec_color_type(), c.spec_bytes()) == c,
{
    broadcast use vstd::array::group_array_axioms;

    match c {
        Color::GRAY8(v) => {
            assert(c.spec_bytes() == seq![v]);
            assert(seq![v][0] == v);
            assert(Color::spec_from_bytes(ColorType::GRAY8, seq![v]) == Color::GRAY8(v));
            assert(c == Color::GRAY8(v));
            assert(c.spec_color_type() == ColorType::GRAY8);
        },
        Color::GRAYA8(a) => {
            assert(Color::spec_from_bytes(c.spec_color_type(), c.spec_bytes())->GRAYA8_0 =~= a);
        },
        Color::GRAY16(v) => lemma_ne_bytes(v, 0, 0),
        Color::GRAYA16(a) => {
            lemma_ne_bytes(a[0], 0, 0);
            lemma_ne_bytes(a[1], 0, 0);
            assert(Color::spec_from_bytes(c.spec_color_type(), c.spec_bytes())->GRAYA16_0 =~= a);
        },
        Color::RGB8(a) => {
            assert(Color::spec_from_bytes(c.spec_color_type(), c.spec_bytes())->RGB8_0 =~= a);
        },
        Color::RGBA8(a) => {
            assert(Color::spec_from_bytes(c.spec_color_type(), c.spec_bytes())->RGBA8_0 =~= a);
        },
        Color::RGB16(a) => {
            lemma_ne_bytes(a[0], 0, 0);
            lemma_ne_bytes(a[1], 0, 0);
            lemma_ne_bytes(a[2], 0, 0);
            assert(Color::spec_from_bytes(c.spec_color_type(), c.spec_bytes())->RGB16_0 =~= a);
        },
        Color::RGBA16(a) => {
            lemma_ne_bytes(a[0], 0, 0);
            lemma_ne_bytes(a[1], 0, 0);
            lemma_ne_bytes(a[2], 0, 0);
            lemma_ne_bytes(a[3], 0, 0);
            assert(Color::spec_from_bytes(c.spec_color_type(), c.spec_bytes())->RGBA16_0 =~= a);
        },
    }
}

/// Any `t.bpp()` bytes are the bytes of exactly the color of type `t` read from them.
pub proof fn lemma_bytes_of_from_bytes(t: ColorType, b: Seq<u8>)
    requires
        b.len() == t.bpp(),
    ensures
        Color::spec_from_bytes(t, b).spec_color_type() == t,
        Color::spec_from_bytes(t, b).spec_bytes() == b,
{
    lemma_ne_bytes(0, b[0], b[1]);
    if t.bpp() >= 4 {
        lemma_ne_bytes(0, b[2], b[3]);
    }
    if t.bpp() >= 6 {
        lemma_ne_bytes(0, b[4], b[5]);
    }
    if t.bpp() >= 8 {
        lemma_ne_bytes(0, b[6], b[7]);
    }
    assert(Color::spec_from_bytes(t, b).spec_bytes() =~= b);
}

/// Two colors of one type with the same bytes are the same color.
pub proof fn lemma_bytes_injective(c1: Color, c2: Color)
    requires
        c1.spec_color_type() == c2.spec_color_type(),
        c1.spec_bytes() == c2.spec_bytes(),
    ensures
        c1 == c2,
{
    lemma_from_bytes_of_bytes(c1);
    lemma_from_bytes_of_bytes(c2);
}

/// The channel values of a color, in the order the color lists them:
/// gray (and alpha), or red, green, blue (and alpha).
pub open spec fn channels(c: Color) -> Seq<int> {
    match c {
        Color::GRAY8(v) => seq![v as int],
        Color::GRAYA8(a) => seq![a[0] as int, a[1] as int],
        Color::GRAY16(v) => seq![v as int],
        Color::GRAYA16(a) => seq![a[0] as int, a[1] as int],
        Color::RGB8(a) => seq![a[0] as int, a[1] as int, a[2] as int],
        Color::RGBA8(a) => seq![a[0] as int, a[1] as int, a[2] as int, a[3] as int],
        Color::RGB16(a) => seq![a[0] as int, a[1] as int, a[2] as int],
        Color::RGBA16(a) => seq![a[0] as int, a[1] as int, a[2] as int, a[3] as int],
    }
}

/// The number of channels of a color type: one gray or three color channels, and
/// one more for alpha.
pub open spec fn channel_count(t: ColorType) -> nat {
    (if t.is_rgb() { 3nat } else { 1nat }) + (if t.has_alpha() { 1nat } else { 0nat })
}

/// The width of one channel of a color type in bytes.
pub open spec fn channel_width(t: ColorType) -> nat {
    if t.is_wide() { 2 } else { 1 }
}

/// Law: a color has as many channels as its type says, each within the range of the
/// type's depth, and a pixel of the type takes one channel width per channel.
pub proof fn law_channels_shape(c: Color)
    ensures
        channels(c).len() == channel_count(c.spec_color_type()),
        c.spec_color_type().bpp() == channel_count(c.spec_color_type()) * channel_width(
            c.spec_color_type(),
        ),
        forall|k: int|
            0 <= k < channels(c).len() ==> 0 <= #[trigger] channels(c)[k] <= if c.spec_color_type().is_wide() {
                65535int
            } else {
                255int
            },
{
}

/// Law: the bytes of a color are its channels in order: channel `k` of an 8-bit color is
/// byte `k`, and channel `k` of a 16-bit color is bytes `2k` and `2k + 1` read in native
/// byte order.
pub proof fn law_color_bytes_layout(c: Color)
    ensures
        c.spec_bytes().len() == channels(c).len() * channel_width(c.spec_color_type()),
        !c.spec_color_type().is_wide() ==> forall|k: int|
            0 <= k < channels(c).len() ==> #[trigger] c.spec_bytes()[k] == channels(c)[k],
        c.spec_color_type().is_wide() ==> forall|k: int|
            0 <= k < channels(c).len() ==> from_ne_bytes(
                c.spec_bytes()[2 * k],
                c.spec_bytes()[2 * k + 1],
            ) == #[trigger] channels(c)[k],
{
    lemma_color_bytes_len(c);
    match c {
        Color::GRAY16(v) => {
            lemma_ne_bytes(v, 0, 0);
        },
        Color::GRAYA16(a) => {
            lemma_ne_bytes(a[0], 0, 0);
            lemma_ne_bytes(a[1], 0, 0);
            let b = c.spec_bytes();
            assert forall|k: int| 0 <= k < 2 implies from_ne_bytes(b[2 * k], b[2 * k + 1])
                == #[trigger] channels(c)[k] by {
                if k == 0 {
                    assert(b[0] == ne_bytes(a[0])[0] && b[1] == ne_bytes(a[0])[1]);
                } else {
                    assert(b[2] == ne_bytes(a[1])[0] && b[3] == ne_bytes(a[1])[1]);
                }
            }
        },
        Color::RGB16(a) => {
            lemma_ne_bytes(a[0], 0, 0);
            lemma_ne_bytes(a[1], 0, 0);
            lemma_ne_bytes(a[2], 0, 0);
            let b = c.spec_bytes();
            assert forall|k: int| 0 <= k < 3 implies from_ne_bytes(b[2 * k], b[2 * k + 1])
                == #[trigger] channels(c)[k] by {
                if k == 0 {
                    assert(b[0] == ne_bytes(a[0])[0] && b[1] == ne_bytes(a[0])[1]);
                } else if k == 1 {
                    assert(b[2] == ne_bytes(a[1])[0] && b[3] == ne_bytes(a[1])[1]);
                } else {
                    assert(b[4] == ne_bytes(a[2])[0] && b[5] == ne_bytes(a[2])[1]);
                }
            }
        },
        Color::RGBA16(a) => {
            lemma_ne_bytes(a[0], 0, 0);
            lemma_ne_bytes(a[1], 0, 0);
            lemma_ne_bytes(a[2], 0, 0);
            lemma_ne_bytes(a[3], 0, 0);
            let b = c.spec_bytes();
            assert forall|k: int| 0 <= k < 4 implies from_ne_bytes(b[2 * k], b[2 * k + 1])
                == #[trigger] channels(c)[k] by {
                if k == 0 {
                    assert(b[0] == ne_bytes(a[0])[0] && b[1] == ne_bytes(a[0])[1]);
                } else if k == 1 {
                    assert(b[2] == ne_bytes(a[1])[0] && b[3] == ne_bytes(a[1])[1]);
                } else if k == 2 {
                    assert(b[4] == ne_bytes(a[2])[0] && b[5] == ne_bytes(a[2])[1]);
                } else {
                    assert(b[6] == ne_bytes(a[3])[0] && b[7] == ne_bytes(a[3])[1]);
                }
            }
        },
        _ => {},
    }
}

/// Law: a color read from bytes takes channel `k` from byte `k` (8-bit types) or from
/// bytes `2k` and `2k + 1` in native byte order (16-bit types).
pub proof fn law_from_bytes_layout(t: ColorType, b: Seq<u8>)
    requires
        b.len() >= t.bpp(),
    ensures
        Color::spec_from_bytes(t, b).spec_color_type() == t,
        channels(Color::spec_from_bytes(t, b)).len() == channel_count(t),
        !t.is_wide() ==> forall|k: int|
            0 <= k < channel_count(t) ==> #[trigger] channels(Color::spec_from_bytes(t, b))[k]
                == b[k],
        t.is_wide() ==> forall|k: int|
            0 <= k < channel_count(t) ==> #[trigger] channels(Color::spec_from_bytes(t, b))[k]
                == from_ne_bytes(b[2 * k], b[2 * k + 1]),
{
    let c = Color::spec_from_bytes(t, b);
    assert forall|k: int| 0 <= k < channel_count(t) implies #[trigger] channels(c)[k] == if t.is_wide() {
        from_ne_bytes(b[2 * k], b[2 * k + 1]) as int
    } else {
        b[k] as int
    } by {
        if k == 0 {
        } else if k == 1 {
        } else if k == 2 {
        } else {
        }
    }
}

/// Law: the text of a color is the name of its type followed, in brackets, by its
/// channel value (one channel) or the list of all its channel values.
pub proof fn law_color_display(c: Color)
    ensures
        c.spec_display() == c.spec_color_type().spec_name() + "("@ + (if channels(c).len() == 1 {
            decimal(channels(c)[0] as nat)
        } else {
            debug_list(channels(c).map_values(|v: int| v as nat))
        }) + ")"@,
{
    reveal_strlit("(");
    reveal_strlit("GRAY8");
    reveal_strlit("GRAY8(");
    reveal_strlit("GRAYA8");
    reveal_strlit("GRAYA8(");
    reveal_strlit("GRAY16");
    reveal_strlit("GRAY16(");
    reveal_strlit("GRAYA16");
    reveal_strlit("GRAYA16(");
    reveal_strlit("RGB8");
    reveal_strlit("RGB8(");
    reveal_strlit("RGBA8");
    reveal_strlit("RGBA8(");
    reveal_strlit("RGB16");
    reveal_strlit("RGB16(");
    reveal_strlit("RGBA16");
    reveal_strlit("RGBA16(");
    let ch = channels(c).map_values(|v: int| v as nat);
    match c {
        Color::GRAYA8(a) => {
            assert(bytes_as_nats(a@) =~= ch);
            assert("GRAYA8("@ =~= "GRAYA8"@ + "("@);
        },
        Color::GRAYA16(a) => {
            assert(u16s_as_nats(a@) =~= ch);
            assert("GRAYA16("@ =~= "GRAYA16"@ + "("@);
        },
        Color::RGB8(a) => {
            assert(bytes_as_nats(a@) =~= ch);
            assert("RGB8("@ =~= "RGB8"@ + "("@);
        },
        Color::RGBA8(a) => {
            assert(bytes_as_nats(a@) =~= ch);
            assert("RGBA8("@ =~= "RGBA8"@ + "("@);
        },
        Color::RGB16(a) => {
            assert(u16s_as_nats(a@) =~= ch);
            assert("RGB16("@ =~= "RGB16"@ + "("@);
        },
        Color::RGBA16(a) => {
            assert(u16s_as_nats(a@) =~= ch);
            assert("RGBA16("@ =~= "RGBA16"@ + "("@);
        },
        Color::GRAY8(v) => {
            assert("GRAY8("@ =~= "GRAY8"@ + "("@);
        },
        Color::GRAY16(v) => {
            assert("GRAY16("@ =~= "GRAY16"@ + "("@);
        },
    }
}

/// Law: the name of a color type says what it is: `RGB` or `GRAY`, then `A` when it has
/// alpha, then its depth, `8` or `16`.
pub proof fn law_type_name(t: ColorType)
    ensures
        t.spec_name() == (if t.is_rgb() {
            "RGB"@
        } else {
            "GRAY"@
        }) + (if t.has_alpha() {
            "A"@
        } else {
            ""@
        }) + (if t.is_wide() {
            "16"@
        } else {
            "8"@
        }),
{
    reveal_strlit("RGB");
    reveal_strlit("GRAY");
    reveal_strlit("A");
    reveal_strlit("");
    reveal_strlit("16");
    reveal_strlit("8");
    reveal_strlit("GRAY8");
    reveal_strlit("GRAYA8");
    reveal_strlit("GRAY16");
    reveal_strlit("GRAYA16");
    reveal_strlit("RGB8");
    reveal_strlit("RGBA8");
    reveal_strlit("RGB16");
    reveal_strlit("RGBA16");
    match t {
        ColorType::GRAY8 => assert("GRAY8"@ =~= "GRAY"@ + ""@ + "8"@),
        ColorType::GRAYA8 => assert("GRAYA8"@ =~= "GRAY"@ + "A"@ + "8"@),
        ColorType::GRAY16 => assert("GRAY16"@ =~= "GRAY"@ + ""@ + "16"@),
        ColorType::GRAYA16 => assert("GRAYA16"@ =~= "GRAY"@ + "A"@ + "16"@),
        ColorType::RGB8 => assert("RGB8"@ =~= "RGB"@ + ""@ + "8"@),
        ColorType::RGBA8 => assert("RGBA8"@ =~= "RGB"@ + "A"@ + "8"@),
        ColorType::RGB16 => assert("RGB16"@ =~= "RGB"@ + ""@ + "16"@),
        ColorType::RGBA16 => assert("RGBA16"@ =~= "RGB"@ + "A"@ + "16"@),
    }
}

impl From<Color> for ColorType {
    fn from(color: Color) -> (t: ColorType) {
        color.color_type()
    }
}

impl vstd::std_specs::convert::FromSpecImpl<Color> for ColorType {
    open spec fn obeys_from_spec() -> bool {
        true
    }

    open spec fn from_spec(color: Color) -> ColorType {
        color.spec_color_type()
    }
}

} // verus!
