//! Colours and brushes, as 32-bit ARGB values.

use crate::text::{hex_byte, push_hex_byte};
use vstd::prelude::*;

verus! {

/// A colour: alpha, red, green and blue, eight bits each, packed in that
/// order from the most significant byte down.
#[derive(Clone, Copy, Debug, PartialEq, Eq, Structural)]
pub struct Color {
    pub argb: u32,
}

/// One colour channel of a packed ARGB value: the byte that starts `shift`
/// bits up.
pub open spec fn channel(argb: u32, shift: u32) -> u8 {
    ((argb >> shift) & 0xff) as u8
}

/// The packed ARGB value of four channels.
pub open spec fn pack_argb(a: u8, r: u8, g: u8, b: u8) -> u32 {
    ((a as u32) << 24) | ((r as u32) << 16) | ((g as u32) << 8) | (b as u32)
}

/// The text of a colour: `#`, then red, green, blue and alpha as two
/// lower-case hexadecimal digits each.
pub open spec fn color_text(c: Color) -> Seq<char> {
    seq!['#'] + hex_byte(c.spec_red()) + hex_byte(c.spec_green()) + hex_byte(c.spec_blue())
        + hex_byte(c.spec_alpha())
}

impl Color {
    /// Fully transparent black.
    pub open spec fn spec_transparent() -> Color {
        Color { argb: 0 }
    }

    pub open spec fn spec_alpha(self) -> u8 {
        channel(self.argb, 24)
    }

    pub open spec fn spec_red(self) -> u8 {
        channel(self.argb, 16)
    }

    pub open spec fn spec_green(self) -> u8 {
        channel(self.argb, 8)
    }

    pub open spec fn spec_blue(self) -> u8 {
        channel(self.argb, 0)
    }

    /// Fully transparent black.
    #[verifier::when_used_as_spec(spec_transparent)]
    pub fn transparent() -> (c: Color)
        ensures
            c == Color::spec_transparent(),
    {
        Color { argb: 0 }
    }

    /// The colour of a packed ARGB value.
    pub fn from_argb_encoded(argb: u32) -> (c: Color)
        ensures
            c.argb == argb,
    {
        Color { argb }
    }

    /// The packed ARGB value of the colour.
    pub fn as_argb_encoded(&self) -> (argb: u32)
        ensures
            argb == self.argb,
    {
        self.argb
    }

    /// The colour of four channels.
    pub fn from_argb_u8(a: u8, r: u8, g: u8, b: u8) -> (c: Color)
        ensures
            c.argb == pack_argb(a, r, g, b),
            c.spec_alpha() == a,
            c.spec_red() == r,
            c.spec_green() == g,
            c.spec_blue() == b,
    {
        let argb: u32 = ((a as u32) << 24) | ((r as u32) << 16) | ((g as u32) << 8) | (b as u32);
        proof {
            lemma_pack_channels(a, r, g, b);
        }
        Color { argb }
    }

    /// The colour of red, green and blue, fully opaque.
    pub fn from_rgb_u8(r: u8, g: u8, b: u8) -> (c: Color)
        ensures
            c.argb == pack_argb(0xff, r, g, b),
    {
        Color::from_argb_u8(0xff, r, g, b)
    }

    #[verifier::when_used_as_spec(spec_alpha)]
    pub fn alpha(self) -> (v: u8)
        ensures
            v == self.spec_alpha(),
    {
        let argb: u32 = self.argb;
        assert((argb >> 24) & 0xff < 256) by (bit_vector);
        ((argb >> 24) & 0xff) as u8
    }

    #[verifier::when_used_as_spec(spec_red)]
    pub fn red(self) -> (v: u8)
        ensures
            v == self.spec_red(),
    {
        let argb: u32 = self.argb;
        assert((argb >> 16) & 0xff < 256) by (bit_vector);
        ((argb >> 16) & 0xff) as u8
    }

    #[verifier::when_used_as_spec(spec_green)]
    pub fn green(self) -> (v: u8)
        ensures
            v == self.spec_green(),
    {
        let argb: u32 = self.argb;
        assert((argb >> 8) & 0xff < 256) by (bit_vector);
        ((argb >> 8) & 0xff) as u8
    }

    #[verifier::when_used_as_spec(spec_blue)]
    pub fn blue(self) -> (v: u8)
        ensures
            v == self.spec_blue(),
    {
        let argb: u32 = self.argb;
        assert((argb >> 0) & 0xff < 256) by (bit_vector);
        ((argb >> 0) & 0xff) as u8
    }

    /// The text of the colour, as `#rrggbbaa`.
    pub fn to_text(self) -> (s: String)
        ensures
            s@ == color_text(self),
    {
        let mut s = String::new();
        s.push('#');
        push_hex_byte(&mut s, self.red());
        push_hex_byte(&mut s, self.green());
        push_hex_byte(&mut s, self.blue());
        push_hex_byte(&mut s, self.alpha());
        assert(s@ =~= color_text(self));
        s
    }
}

/// Packing four channels and taking them out again gives them back.
pub proof fn lemma_pack_channels(a: u8, r: u8, g: u8, b: u8)
    ensures
        channel(pack_argb(a, r, g, b), 24) == a,
        channel(pack_argb(a, r, g, b), 16) == r,
        channel(pack_argb(a, r, g, b), 8) == g,
        channel(pack_argb(a, r, g, b), 0) == b,
{
    let p: u32 = ((a as u32) << 24) | ((r as u32) << 16) | ((g as u32) << 8) | (b as u32);
    assert(((p >> 24u32) & 0xff) as u8 == a) by (bit_vector)
        requires
            p == ((a as u32) << 24) | ((r as u32) << 16) | ((g as u32) << 8) | (b as u32),
    ;
    assert(((p >> 16u32) & 0xff) as u8 == r) by (bit_vector)
        requires
            p == ((a as u32) << 24) | ((r as u32) << 16) | ((g as u32) << 8) | (b as u32),
    ;
    assert(((p >> 8u32) & 0xff) as u8 == g) by (bit_vector)
        requires
            p == ((a as u32) << 24) | ((r as u32) << 16) | ((g as u32) << 8) | (b as u32),
    ;
    assert(((p >> 0u32) & 0xff) as u8 == b) by (bit_vector)
        requires
            p == ((a as u32) << 24) | ((r as u32) << 16) | ((g as u32) << 8) | (b as u32),
    ;
}

/// A brush. Only brushes of one solid colour are held; a gradient stays
/// source text.
#[derive(Clone, Copy, Debug, PartialEq, Eq, Structural)]
pub enum Brush {
    SolidColor(Color),
}

impl Brush {
    /// The brush that paints nothing: fully transparent black.
    pub open spec fn spec_transparent() -> Brush {
        Brush::SolidColor(Color::spec_transparent())
    }

    pub open spec fn spec_color(self) -> Color {
        match self {
            Brush::SolidColor(c) => c,
        }
    }

    /// The brush that paints nothing: fully transparent black.
    #[verifier::when_used_as_spec(spec_transparent)]
    pub fn transparent() -> (b: Brush)
        ensures
            b == Brush::spec_transparent(),
    {
        Brush::SolidColor(Color::transparent())
    }

    /// The colour of the brush.
    #[verifier::when_used_as_spec(spec_color)]
    pub fn color(self) -> (c: Color)
        ensures
            c == self.spec_color(),
    {
        match self {
            Brush::SolidColor(c) => c,
        }
    }
}

/// The channels of a colour as the colour editor shows them, with the
/// colour's text.
#[derive(Debug)]
pub struct ColorData {
    pub a: i32,
    pub r: i32,
    pub g: i32,
    pub b: i32,
    pub text: String,
}

/// Takes a colour apart into its four channels and its text.
pub fn color_to_data(c: Color) -> (d: ColorData)
    ensures
        d.a == c.spec_alpha(),
        d.r == c.spec_red(),
        d.g == c.spec_green(),
        d.b == c.spec_blue(),
        d.text@ == color_text(c),
{
    ColorData {
        a: c.alpha() as i32,
        r: c.red() as i32,
        g: c.green() as i32,
        b: c.blue() as i32,
        text: c.to_text(),
    }
}

/// The colour of four channels given as integers: fully transparent black
/// unless each of them is between 0 and 255.
pub open spec fn rgba_color(r: i32, g: i32, b: i32, a: i32) -> Color {
    if 0 <= r < 256 && 0 <= g < 256 && 0 <= b < 256 && 0 <= a < 256 {
        Color { argb: pack_argb(a as u8, r as u8, g as u8, b as u8) }
    } else {
        Color::spec_transparent()
    }
}

/// Builds a colour from four channels given as integers.
pub fn rgba_to_color(r: i32, g: i32, b: i32, a: i32) -> (c: Color)
    ensures
        c == rgba_color(r, g, b, a),
{
    if 0 <= r && r < 256 && 0 <= g && g < 256 && 0 <= b && b < 256 && 0 <= a && a < 256 {
        Color::from_argb_u8(a as u8, r as u8, g as u8, b as u8)
    } else {
        Color::transparent()
    }
}

} // verus!
