//! Colors with four fixed-point channels.
//!
//! A channel is an exact fraction `v / CHANNEL_ONE` in `[0, 1]`, stored as the
//! numerator `v`. `CHANNEL_ONE` is `255 * 256`, so an 8-bit wire value `b`
//! maps to the exact channel `b / 255` (numerator `b * 256`), and mapping a
//! channel back to 8 bits (`value * 255`, truncated toward zero, per the wire
//! format) is exactly `v / 256`.

use vstd::prelude::*;

verus! {

/// Numerator of a full-intensity channel: the fixed-point value of 1.0.
pub const CHANNEL_ONE: u64 = 255 * 256;

/// Number of 8-bit channels in one wire pixel record.
#[derive(Clone, Copy, PartialEq, Eq, Structural, Debug)]
pub enum ColorMode {
    RGBA,
    RGB,
}

impl ColorMode {
    /// Bytes per pixel record in this mode.
    pub open spec fn spec_size(self) -> int {
        match self {
            ColorMode::RGBA => 4,
            ColorMode::RGB => 3,
        }
    }

    /// Bytes per pixel record in this mode.
    pub fn size(&self) -> (n: usize)
        ensures
            n == self.spec_size(),
    {
        match self {
            ColorMode::RGBA => 4,
            ColorMode::RGB => 3,
        }
    }
}

/// An RGBA color; every channel is a fixed-point fraction over `CHANNEL_ONE`.
#[derive(Clone, Copy, PartialEq, Eq, Structural, Debug)]
pub struct Color {
    pub r: u64,
    pub g: u64,
    pub b: u64,
    pub a: u64,
}

/// The channel numerator that encodes the 8-bit wire value `b`, that is `b / 255`.
pub open spec fn byte_to_channel(b: int) -> int {
    b * 256
}

/// The 8-bit wire value of a channel numerator: `value * 255` truncated,
/// which over denominator `255 * 256` is exactly `v / 256`.
pub open spec fn channel_to_byte(v: int) -> int {
    v / 256
}

/// The square of `CHANNEL_ONE`: the denominator of a product of two channels.
pub open spec fn channel_one_sq() -> int {
    (CHANNEL_ONE as int) * (CHANNEL_ONE as int)
}

/// One channel of the alpha merge: `bg * (1 - f) + fg * f`, where the blend
/// factor `f` is a fraction over `channel_one_sq()`, truncated back onto the
/// `1 / CHANNEL_ONE` grid.
pub open spec fn merge_channel(bg: int, fg: int, f: int) -> int {
    (bg * (channel_one_sq() - f) + fg * f) / channel_one_sq()
}

/// The alpha merge: background `bg`, foreground `fg`, opacity `alpha`; the
/// blend factor is `fg.a * alpha`, and every channel — alpha included —
/// becomes `bg * (1 - factor) + fg * factor`.
pub open spec fn spec_merge_alpha(bg: Color, fg: Color, alpha: int) -> Color {
    Color {
        r: merge_channel(bg.r as int, fg.r as int, (fg.a as int) * alpha) as u64,
        g: merge_channel(bg.g as int, fg.g as int, (fg.a as int) * alpha) as u64,
        b: merge_channel(bg.b as int, fg.b as int, (fg.a as int) * alpha) as u64,
        a: merge_channel(bg.a as int, fg.a as int, (fg.a as int) * alpha) as u64,
    }
}

/// The color a pixel record beginning at `s[0]` decodes to.
pub open spec fn spec_from_slice(s: Seq<u8>, mode: ColorMode) -> Color {
    Color {
        r: byte_to_channel(s[0] as int) as u64,
        g: byte_to_channel(s[1] as int) as u64,
        b: byte_to_channel(s[2] as int) as u64,
        a: match mode {
            ColorMode::RGBA => byte_to_channel(s[3] as int) as u64,
            ColorMode::RGB => CHANNEL_ONE,
        },
    }
}

/// The sixteen lowercase hexadecimal digits, in order of value.
pub open spec fn hex_digits() -> Seq<char> {
    seq!['0', '1', '2', '3', '4', '5', '6', '7', '8', '9', 'a', 'b', 'c', 'd', 'e', 'f']
}

/// The two lowercase hex digits of a byte value.
pub open spec fn byte_hex(b: int) -> Seq<char> {
    seq![hex_digits()[b / 16], hex_digits()[b % 16]]
}

/// The hex encoding of a color: its wire bytes, two digits each.
pub open spec fn spec_to_hex(c: Color, mode: ColorMode) -> Seq<char> {
    let rgb = byte_hex(channel_to_byte(c.r as int)) + byte_hex(channel_to_byte(c.g as int))
        + byte_hex(channel_to_byte(c.b as int));
    match mode {
        ColorMode::RGBA => rgb + byte_hex(channel_to_byte(c.a as int)),
        ColorMode::RGB => rgb,
    }
}

impl Color {
    /// All channels are on the unit interval.
    pub open spec fn valid(self) -> bool {
        self.r <= CHANNEL_ONE && self.g <= CHANNEL_ONE && self.b <= CHANNEL_ONE && self.a
            <= CHANNEL_ONE
    }

    /// The fully transparent black color that blank grid cells hold; merging
    /// it over any background with any opacity leaves the background as it
    /// was, because its alpha is zero.
    pub open spec fn spec_default() -> Color {
        Color { r: 0, g: 0, b: 0, a: 0 }
    }

    pub fn new(r: u64, g: u64, b: u64, a: u64) -> (c: Color)
        requires
            r <= CHANNEL_ONE,
            g <= CHANNEL_ONE,
            b <= CHANNEL_ONE,
            a <= CHANNEL_ONE,
        ensures
            c == (Color { r, g, b, a }),
            c.valid(),
    {
        Color { r, g, b, a }
    }

    /// Decode four 8-bit wire values into exact channels.
    pub fn from_rgba(r: u8, g: u8, b: u8, a: u8) -> (c: Color)
        ensures
            c.r == byte_to_channel(r as int),
            c.g == byte_to_channel(g as int),
            c.b == byte_to_channel(b as int),
            c.a == byte_to_channel(a as int),
            c.valid(),
    {
        Color { r: (r as u64) * 256, g: (g as u64) * 256, b: (b as u64) * 256, a: (a as u64) * 256 }
    }

    /// Decode three 8-bit wire values; the color is fully opaque.
    pub fn from_rgb(r: u8, g: u8, b: u8) -> (c: Color)
        ensures
            c.r == byte_to_channel(r as int),
            c.g == byte_to_channel(g as int),
            c.b == byte_to_channel(b as int),
            c.a == CHANNEL_ONE,
            c.valid(),
    {
        Self::from_rgba(r, g, b, 255)
    }

    /// Decode the pixel record at the head of `buffer`.
    pub fn from_slice(buffer: &[u8], mode: ColorMode) -> (c: Color)
        requires
            buffer@.len() >= mode.spec_size(),
        ensures
            c == spec_from_slice(buffer@, mode),
            c.valid(),
    {
        match mode {
            ColorMode::RGBA => Color::from_rgba(buffer[0], buffer[1], buffer[2], buffer[3]),
            ColorMode::RGB => Color::from_rgb(buffer[0], buffer[1], buffer[2]),
        }
    }

    /// The four 8-bit wire values of this color, truncated toward zero.
    pub fn to_rgba(&self) -> (t: (u8, u8, u8, u8))
        requires
            self.valid(),
        ensures
            t.0 == channel_to_byte(self.r as int),
            t.1 == channel_to_byte(self.g as int),
            t.2 == channel_to_byte(self.b as int),
            t.3 == channel_to_byte(self.a as int),
    {
        ((self.r / 256) as u8, (self.g / 256) as u8, (self.b / 256) as u8, (self.a / 256) as u8)
    }

    /// The three 8-bit wire values of the color channels, alpha dropped.
    pub fn to_rgb(&self) -> (t: (u8, u8, u8))
        requires
            self.valid(),
        ensures
            t.0 == channel_to_byte(self.r as int),
            t.1 == channel_to_byte(self.g as int),
            t.2 == channel_to_byte(self.b as int),
    {
        ((self.r / 256) as u8, (self.g / 256) as u8, (self.b / 256) as u8)
    }

    /// Lowercase hex encoding of the wire bytes: 6 digits for RGB, 8 for RGBA.
    pub fn to_hex(&self, mode: ColorMode) -> (s: String)
        requires
            self.valid(),
        ensures
            s@ == spec_to_hex(*self, mode),
    {
        let bytes = self.to_rgba();
        let mut s = String::new();
        push_byte_hex(&mut s, bytes.0);
        push_byte_hex(&mut s, bytes.1);
        push_byte_hex(&mut s, bytes.2);
        if let ColorMode::RGBA = mode {
            push_byte_hex(&mut s, bytes.3);
        }
        proof {
            assert(s@ =~= spec_to_hex(*self, mode));
        }
        s
    }

    /// Blend `other` over `self` with the given opacity, alpha included.
    pub fn merge_alpha(&self, other: Self, alpha: u64) -> (c: Color)
        requires
            self.valid(),
            other.valid(),
            alpha <= CHANNEL_ONE,
        ensures
            c == spec_merge_alpha(*self, other, alpha as int),
            c.valid(),
    {
        proof {
            assert((other.a as int) * (alpha as int) <= channel_one_sq()) by (nonlinear_arith)
                requires
                    other.a <= CHANNEL_ONE,
                    alpha <= CHANNEL_ONE,
            ;
        }
        let f: u64 = other.a * alpha;
        Color {
            r: merge_channel_exec(self.r, other.r, f),
            g: merge_channel_exec(self.g, other.g, f),
            b: merge_channel_exec(self.b, other.b, f),
            a: merge_channel_exec(self.a, other.a, f),
        }
    }
}

impl Default for Color {
    /// The fully transparent black color.
    fn default() -> (c: Color)
        ensures
            c == Color::spec_default(),
            c.valid(),
    {
        Color { r: 0, g: 0, b: 0, a: 0 }
    }
}

/// Round-trip law of the wire encoding: every 8-bit value decodes to a
/// channel that encodes back to exactly the same value, the truncating
/// direction notwithstanding. Together with the contracts of
/// [`Color::from_rgba`] and [`Color::to_rgba`] this gives
/// `Color::from_rgba(r, g, b, a).to_rgba() == (r, g, b, a)` for all bytes.
pub proof fn lemma_color_byte_roundtrip(r: u8, g: u8, b: u8, a: u8)
    ensures
        channel_to_byte(byte_to_channel(r as int)) == r as int,
        channel_to_byte(byte_to_channel(g as int)) == g as int,
        channel_to_byte(byte_to_channel(b as int)) == b as int,
        channel_to_byte(byte_to_channel(a as int)) == a as int,
{
    lemma_channel_roundtrip(r as int);
    lemma_channel_roundtrip(g as int);
    lemma_channel_roundtrip(b as int);
    lemma_channel_roundtrip(a as int);
}

/// Scaling any value onto the channel grid and truncating back returns it.
proof fn lemma_channel_roundtrip(v: int)
    ensures
        channel_to_byte(byte_to_channel(v)) == v,
{
    vstd::arithmetic::div_mod::lemma_div_multiples_vanish(v, 256);
    assert(v * 256 == 256 * v) by (nonlinear_arith);
}

/// One channel of the alpha merge, on the fixed-point representation.
fn merge_channel_exec(bg: u64, fg: u64, f: u64) -> (v: u64)
    requires
        bg <= CHANNEL_ONE,
        fg <= CHANNEL_ONE,
        f <= channel_one_sq(),
    ensures
        v == merge_channel(bg as int, fg as int, f as int),
        v <= CHANNEL_ONE,
{
    let s2: u64 = CHANNEL_ONE * CHANNEL_ONE;
    proof {
        assert((bg as int) * (s2 - f) + (fg as int) * (f as int) <= (CHANNEL_ONE as int) * (
        s2 as int)) by (nonlinear_arith)
            requires
                bg <= CHANNEL_ONE,
                fg <= CHANNEL_ONE,
                f <= s2,
        ;
    }
    let merged: u64 = bg * (s2 - f) + fg * f;
    proof {
        vstd::arithmetic::div_mod::lemma_div_is_ordered(
            merged as int,
            (CHANNEL_ONE as int) * (s2 as int),
            s2 as int,
        );
        vstd::arithmetic::div_mod::lemma_div_multiples_vanish(CHANNEL_ONE as int, s2 as int);
    }
    merged / s2
}

/// The lowercase hex digit with value `d`, as a one-character string slice.
fn hex_digit_str(d: u8) -> (s: &'static str)
    requires
        d < 16,
    ensures
        s@ =~= seq![hex_digits()[d as int]],
{
    match d {
        0 => {
            proof {
                reveal_strlit("0");
            }
            "0"
        },
        1 => {
            proof {
                reveal_strlit("1");
            }
            "1"
        },
        2 => {
            proof {
                reveal_strlit("2");
            }
            "2"
        },
        3 => {
            proof {
                reveal_strlit("3");
            }
            "3"
        },
        4 => {
            proof {
                reveal_strlit("4");
            }
            "4"
        },
        5 => {
            proof {
                reveal_strlit("5");
            }
            "5"
        },
        6 => {
            proof {
                reveal_strlit("6");
            }
            "6"
        },
        7 => {
            proof {
                reveal_strlit("7");
            }
            "7"
        },
        8 => {
            proof {
                reveal_strlit("8");
            }
            "8"
        },
        9 => {
            proof {
                reveal_strlit("9");
            }
            "9"
        },
        10 => {
            proof {
                reveal_strlit("a");
            }
            "a"
        },
        11 => {
            proof {
                reveal_strlit("b");
            }
            "b"
        },
        12 => {
            proof {
                reveal_strlit("c");
            }
            "c"
        },
        13 => {
            proof {
                reveal_strlit("d");
            }
            "d"
        },
        14 => {
            proof {
                reveal_strlit("e");
            }
            "e"
        },
        _ => {
            proof {
                reveal_strlit("f");
            }
            "f"
        },
    }
}

/// Append the two hex digits of `b` to `s`.
fn push_byte_hex(s: &mut String, b: u8)
    ensures
        final(s)@ == old(s)@ + byte_hex(b as int),
{
    let hi = hex_digit_str(b / 16);
    s.append(hi);
    let lo = hex_digit_str(b % 16);
    s.append(lo);
    proof {
        assert(s@ =~= old(s)@ + byte_hex(b as int));
    }
}

} // verus!