use vstd::prelude::*;

verus! {

/// An 8-bit-per-channel RGBA color.
#[derive(Clone, Copy, Debug, PartialEq, Eq, Structural)]
pub struct Color {
    pub r: u8,
    pub g: u8,
    pub b: u8,
    pub a: u8,
}

/// The packed `0xAARRGGBB` value of four channels.
pub open spec fn packed_argb(r: u8, g: u8, b: u8, a: u8) -> int {
    a as int * 0x1000000 + r as int * 0x10000 + g as int * 0x100 + b as int
}

/// Byte `k` (0 = least significant) of a 32-bit value.
pub open spec fn byte_of(hex: u32, k: nat) -> u8 {
    ((hex as int / pow256(k)) % 256) as u8
}

pub open spec fn pow256(k: nat) -> int
    decreases k,
{
    if k == 0 {
        1
    } else {
        256 * pow256((k - 1) as nat)
    }
}

impl Color {
    pub fn new(r: u8, g: u8, b: u8, a: u8) -> (c: Color)
        ensures
            c == (Color { r, g, b, a }),
    {
        Color { r, g, b, a }
    }

    /// Unpacks a `0xAARRGGBB` value.
    pub fn from_hex(hex: u32) -> (c: Color)
        ensures
            c.b == byte_of(hex, 0),
            c.g == byte_of(hex, 1),
            c.r == byte_of(hex, 2),
            c.a == byte_of(hex, 3),
    {
        let a32 = (hex >> 24u32) & 0xffu32;
        let r32 = (hex >> 16u32) & 0xffu32;
        let g32 = (hex >> 8u32) & 0xffu32;
        let b32 = hex & 0xffu32;
        assert(b32 == hex % 256 && g32 == (hex / 0x100) % 256 && r32 == (hex / 0x10000) % 256
            && a32 == (hex / 0x1000000) % 256) by (bit_vector)
            requires
                a32 == (hex >> 24u32) & 0xffu32,
                r32 == (hex >> 16u32) & 0xffu32,
                g32 == (hex >> 8u32) & 0xffu32,
                b32 == hex & 0xffu32,
        ;
        proof {
            reveal_with_fuel(pow256, 4);
        }
        let (r, g, b, a) = (r32 as u8, g32 as u8, b32 as u8, a32 as u8);
        Color::new(r, g, b, a)
    }

    /// Packs the color as `0xAARRGGBB`.
    pub fn to_hex(&self) -> (h: u32)
        ensures
            h as int == packed_argb(self.r, self.g, self.b, self.a),
    {
        let (r, g, b, a) = (self.r as u32, self.g as u32, self.b as u32, self.a as u32);
        let h = a << 24u32 | r << 16u32 | g << 8u32 | b;
        assert(h == a * 0x1000000 + r * 0x10000 + g * 0x100 + b) by (bit_vector)
            requires
                h == a << 24u32 | r << 16u32 | g << 8u32 | b,
                a < 256,
                r < 256,
                g < 256,
                b < 256,
        ;
        h
    }
}

/// Unpacking a packed color gives back its channels.
pub proof fn lemma_hex_round_trip(c: Color)
    ensures
        byte_of(packed_argb(c.r, c.g, c.b, c.a) as u32, 0) == c.b,
        byte_of(packed_argb(c.r, c.g, c.b, c.a) as u32, 1) == c.g,
        byte_of(packed_argb(c.r, c.g, c.b, c.a) as u32, 2) == c.r,
        byte_of(packed_argb(c.r, c.g, c.b, c.a) as u32, 3) == c.a,
{
    reveal_with_fuel(pow256, 4);
    let (r, g, b, a) = (c.r as int, c.g as int, c.b as int, c.a as int);
    let h = packed_argb(c.r, c.g, c.b, c.a);
    assert(0 <= h < 0x100000000) by (nonlinear_arith)
        requires
            h == a * 0x1000000 + r * 0x10000 + g * 0x100 + b,
            0 <= a < 256,
            0 <= r < 256,
            0 <= g < 256,
            0 <= b < 256,
    ;
    assert(h % 256 == b && (h / 0x100) % 256 == g && (h / 0x10000) % 256 == r && (h / 0x1000000)
        % 256 == a) by (nonlinear_arith)
        requires
            h == a * 0x1000000 + r * 0x10000 + g * 0x100 + b,
            0 <= a < 256,
            0 <= r < 256,
            0 <= g < 256,
            0 <= b < 256,
    ;
}

/// A row-major buffer of pixels.
#[derive(Clone)]
pub struct ColorBuffer {
    pub buffer: Vec<Color>,
    pub width: u32,
    pub height: u32,
}

/// The position in the buffer that pixel `(x, y)` is stored at: rows are
/// addressed with a fixed stride of four pixels.
pub open spec fn pixel_index(x: u32, y: u32) -> int {
    x as int + y as int * 4
}

/// The colors held in a byte sequence, four bytes (r, g, b, a) per color.
pub open spec fn colors_of_bytes(bytes: Seq<u8>, n: nat) -> Seq<Color> {
    Seq::new(
        n,
        |i: int|
            Color { r: bytes[4 * i], g: bytes[4 * i + 1], b: bytes[4 * i + 2], a: bytes[4 * i + 3] },
    )
}

/// The bytes of a color sequence, four (r, g, b, a) per color.
pub open spec fn bytes_of_colors(cs: Seq<Color>) -> Seq<u8>
    decreases cs.len(),
{
    if cs.len() == 0 {
        Seq::empty()
    } else {
        let c = cs.last();
        bytes_of_colors(cs.drop_last()) + seq![c.r, c.g, c.b, c.a]
    }
}

impl ColorBuffer {
    /// A `width` x `height` buffer filled with one color.
    pub fn new(width: u32, height: u32, color: &Color) -> (cb: ColorBuffer)
        requires
            width as int * height as int <= u32::MAX,
        ensures
            cb.width == width,
            cb.height == height,
            cb.buffer@ == Seq::new((width as int * height as int) as nat, |i: int| *color),
    {
        let n: u32 = width * height;
        let mut color_vec: Vec<Color> = Vec::new();
        let mut i: u32 = 0;
        while i < n
            invariant
                i <= n,
                color_vec@ == Seq::new(i as nat, |k: int| *color),
            decreases n - i,
        {
            color_vec.push(*color);
            i = i + 1;
        }
        ColorBuffer { buffer: color_vec, width, height }
    }

    /// A `width` x `height` buffer read from RGBA bytes.
    pub fn from_byte_vec(width: u32, height: u32, byte_vec: &Vec<u8>) -> (cb: ColorBuffer)
        requires
            4 * (width as int * height as int) <= u32::MAX,
            byte_vec.len() >= 4 * (width as int * height as int),
        ensures
            cb.width == width,
            cb.height == height,
            cb.buffer@ == colors_of_bytes(byte_vec@, (width as int * height as int) as nat),
    {
        let n: u32 = width * height;
        let mut color_vec: Vec<Color> = Vec::new();
        let mut i: u32 = 0;
        while i < n
            invariant
                i <= n,
                n == width as int * height as int,
                4 * n <= u32::MAX,
                byte_vec.len() >= 4 * n,
                color_vec@ == colors_of_bytes(byte_vec@, i as nat),
            decreases n - i,
        {
            let k: usize = (i * 4) as usize;
            color_vec.push(
                Color::new(byte_vec[k], byte_vec[k + 1], byte_vec[k + 2], byte_vec[k + 3]),
            );
            i = i + 1;
            assert(color_vec@ =~= colors_of_bytes(byte_vec@, i as nat));
        }
        ColorBuffer { buffer: color_vec, width, height }
    }

    /// The RGBA bytes of every pixel, in buffer order.
    pub fn to_byte_vec(&self) -> (bytes: Vec<u8>)
        ensures
            bytes@ == bytes_of_colors(self.buffer@),
    {
        let mut result_vec: Vec<u8> = Vec::new();
        let mut i: usize = 0;
        while i < self.buffer.len()
            invariant
                i <= self.buffer.len(),
                result_vec@ == bytes_of_colors(self.buffer@.subrange(0, i as int)),
            decreases self.buffer.len() - i,
        {
            let c = self.buffer[i];
            result_vec.push(c.r);
            result_vec.push(c.g);
            result_vec.push(c.b);
            result_vec.push(c.a);
            assert(self.buffer@.subrange(0, i as int + 1).drop_last() =~= self.buffer@.subrange(
                0,
                i as int,
            ));
            i = i + 1;
        }
        assert(self.buffer@.subrange(0, i as int) =~= self.buffer@);
        result_vec
    }

    pub fn get_color_at_pixel(&self, x: u32, y: u32) -> (c: Color)
        requires
            pixel_index(x, y) < self.buffer.len(),
        ensures
            c == self.buffer@[pixel_index(x, y)],
    {
        self.buffer[x as usize + y as usize * 4]
    }

    pub fn set_color_at_pixel(&mut self, x: u32, y: u32, color: &Color)
        requires
            pixel_index(x, y) < old(self).buffer.len(),
        ensures
            final(self).buffer@ == old(self).buffer@.update(pixel_index(x, y), *color),
            final(self).width == old(self).width,
            final(self).height == old(self).height,
    {
        self.buffer.set(x as usize + y as usize * 4, *color);
    }
}

} // verus!
