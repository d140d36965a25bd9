//! An 8-bit packed colour with the layout `RRRGGBBB`.

use vstd::prelude::*;

verus! {

pub type ColorType = u8;

pub const RED_BITS: usize = 3;
pub const GREEN_BITS: usize = 2;
pub const BLUE_BITS: usize = 3;

/// Largest red level, `2^RED_BITS - 1`.
pub const RED_MAX: u8 = 7;
/// Largest green level, `2^GREEN_BITS - 1`.
pub const GREEN_MAX: u8 = 3;
/// Largest blue level, `2^BLUE_BITS - 1`.
pub const BLUE_MAX: u8 = 7;

/// The number whose binary form is `bits` ones.
pub open spec fn all_ones(bits: nat) -> nat
    decreases bits,
{
    if bits == 0 {
        0
    } else {
        2 * all_ones((bits - 1) as nat) + 1
    }
}

proof fn lemma_all_ones_monotone(a: nat, b: nat)
    requires
        a <= b,
    ensures
        all_ones(a) <= all_ones(b),
    decreases b,
{
    if a < b {
        lemma_all_ones_monotone(a, (b - 1) as nat);
    }
}

/// The largest value that fits in `bits` bits.
pub fn max_value(bits: usize) -> (r: ColorType)
    requires
        bits <= 8,
    ensures
        r as nat == all_ones(bits as nat),
{
    proof {
        reveal_with_fuel(all_ones, 9);
        assert(all_ones(8) == 255);
    }
    let mut res: ColorType = 0;
    let mut i: usize = 0;
    while i < bits
        invariant
            i <= bits <= 8,
            all_ones(8) == 255,
            res as nat == all_ones(i as nat),
        decreases bits - i,
    {
        proof {
            lemma_all_ones_monotone((i + 1) as nat, 8);
        }
        res = res * 2 + 1;
        i += 1;
    }
    res
}

/// Packs three channel levels into `RRRGGBBB`.
pub open spec fn pack(r: nat, g: nat, b: nat) -> nat {
    r * 32 + g * 8 + b
}

/// Red level of a packed value.
pub open spec fn red_of(p: u8) -> nat {
    p as nat / 32
}

/// Green level of a packed value.
pub open spec fn green_of(p: u8) -> nat {
    (p as nat / 8) % 4
}

/// Blue level of a packed value.
pub open spec fn blue_of(p: u8) -> nat {
    p as nat % 8
}

/// Level of an 8-bit channel value `v` quantized to `0..=max`: `floor(v / 255 * max)`.
pub open spec fn level_of_byte(v: nat, max: nat) -> nat {
    v * max / 255
}

/// 8-bit value of level `level` of `0..=max`: `floor(level / max * 255)`.
pub open spec fn byte_of_level(level: nat, max: nat) -> nat {
    level * 255 / max
}

/// The packed value that 8-bit channels `(r, g, b)` quantize to.
pub open spec fn packed_of_bytes(r: u8, g: u8, b: u8) -> nat {
    pack(
        level_of_byte(r as nat, RED_MAX as nat),
        level_of_byte(g as nat, GREEN_MAX as nat),
        level_of_byte(b as nat, BLUE_MAX as nat),
    )
}

/// Smaller of a level and a channel's maximum.
pub open spec fn saturate(level: nat, max: nat) -> nat {
    if level > max {
        max
    } else {
        level
    }
}

/// `floor(level / max * 255)`, computed without overflow.
fn scale_level(level: u8, max: u8) -> (r: u8)
    requires
        0 < max,
        level <= max,
    ensures
        r as nat == byte_of_level(level as nat, max as nat),
{
    let v = level as u32 * 255 / max as u32;
    assert(v <= 255) by (nonlinear_arith)
        requires
            v as int == level as int * 255 / max as int,
            0 < max,
            level <= max,
    ;
    v as u8
}

#[derive(Clone, Copy, Debug, PartialEq, Eq, Structural)]
pub struct Color(pub ColorType);

/// The fixed set of named colours.
#[derive(Clone, Copy, Debug, PartialEq, Eq, Structural)]
pub enum Named {
    White,
    Black,
    Red,
    Green,
    Blue,
    Yellow,
    Cyan,
    Magenta,
    Gray,
}

/// Unit-range channels `(r, g, b)` of a named colour, in halves: `2` is `1.0`, `1` is `0.5`.
pub open spec fn named_halves(n: Named) -> (nat, nat, nat) {
    match n {
        Named::White => (2, 2, 2),
        Named::Black => (0, 0, 0),
        Named::Red => (2, 0, 0),
        Named::Green => (0, 2, 0),
        Named::Blue => (0, 0, 2),
        Named::Yellow => (2, 2, 0),
        Named::Cyan => (0, 2, 2),
        Named::Magenta => (2, 0, 2),
        Named::Gray => (1, 1, 1),
    }
}

/// `floor(h / 2 * max)`: a channel given in halves quantized to `0..=max`.
pub open spec fn level_of_halves(h: nat, max: nat) -> nat {
    h * max / 2
}

impl Color {
    /// The packed value of a named colour.
    pub fn named(n: Named) -> (c: Color)
        ensures
            c.0 as nat == pack(
                level_of_halves(named_halves(n).0, RED_MAX as nat),
                level_of_halves(named_halves(n).1, GREEN_MAX as nat),
                level_of_halves(named_halves(n).2, BLUE_MAX as nat),
            ),
    {
        match n {
            Named::White => Color(255),
            Named::Black => Color(0),
            Named::Red => Color(224),
            Named::Green => Color(24),
            Named::Blue => Color(7),
            Named::Yellow => Color(248),
            Named::Cyan => Color(31),
            Named::Magenta => Color(231),
            Named::Gray => Color(107),
        }
    }

    /// Builds a colour from channel levels; a level above its channel's
    /// maximum is taken as that maximum.
    pub fn from_levels(r: u8, g: u8, b: u8) -> (c: Color)
        ensures
            c.0 as nat == pack(
                saturate(r as nat, RED_MAX as nat),
                saturate(g as nat, GREEN_MAX as nat),
                saturate(b as nat, BLUE_MAX as nat),
            ),
    {
        let r = if r > RED_MAX { RED_MAX } else { r };
        let g = if g > GREEN_MAX { GREEN_MAX } else { g };
        let b = if b > BLUE_MAX { BLUE_MAX } else { b };
        let p: u8 = (r << (GREEN_BITS + BLUE_BITS) as u8) | (g << BLUE_BITS as u8) | b;
        assert(p == r * 32 + g * 8 + b) by (bit_vector)
            requires
                r <= 7u8,
                g <= 3u8,
                b <= 7u8,
                p == (r << 5u8) | (g << 3u8) | b,
        ;
        Color(p)
    }

    /// Quantizes 8-bit channels: each becomes `floor(v / 255 * max)` of its channel.
    pub fn from_byte_rgb(r: u8, g: u8, b: u8) -> (c: Color)
        ensures
            c.0 as nat == packed_of_bytes(r, g, b),
    {
        let rl = (r as u32 * RED_MAX as u32 / 255) as u8;
        let gl = (g as u32 * GREEN_MAX as u32 / 255) as u8;
        let bl = (b as u32 * BLUE_MAX as u32 / 255) as u8;
        proof {
            assert(r as u32 * 7 <= 255 * 7) by (nonlinear_arith)
                requires
                    r <= 255,
            ;
            assert(rl <= 7) by (nonlinear_arith)
                requires
                    rl == r as u32 * 7 / 255,
                    r as u32 * 7 <= 255 * 7,
            ;
            assert(gl <= 3) by (nonlinear_arith)
                requires
                    gl == g as u32 * 3 / 255,
                    g <= 255,
            ;
            assert(bl <= 7) by (nonlinear_arith)
                requires
                    bl == b as u32 * 7 / 255,
                    b <= 255,
            ;
        }
        Color::from_levels(rl, gl, bl)
    }

    /// Red level, `0..=RED_MAX`.
    pub fn red_level(&self) -> (r: u8)
        ensures
            r as nat == red_of(self.0),
            r <= RED_MAX,
    {
        let p = self.0;
        let r = p >> (GREEN_BITS + BLUE_BITS) as u8;
        assert(r == p / 32 && r <= 7) by (bit_vector)
            requires
                r == p >> 5u8,
        ;
        r
    }

    /// Green level, `0..=GREEN_MAX`.
    pub fn green_level(&self) -> (r: u8)
        ensures
            r as nat == green_of(self.0),
            r <= GREEN_MAX,
    {
        let p = self.0;
        let r = (p >> BLUE_BITS as u8) & GREEN_MAX;
        assert(r == (p / 8) % 4 && r <= 3) by (bit_vector)
            requires
                r == (p >> 3u8) & 3u8,
        ;
        r
    }

    /// Blue level, `0..=BLUE_MAX`.
    pub fn blue_level(&self) -> (r: u8)
        ensures
            r as nat == blue_of(self.0),
            r <= BLUE_MAX,
    {
        let p = self.0;
        let r = p & BLUE_MAX;
        assert(r == p % 8 && r <= 7) by (bit_vector)
            requires
                r == p & 7u8,
        ;
        r
    }

    /// Red channel as an 8-bit value: the level scaled to `0..=255`, truncated.
    pub fn red_byte(&self) -> (r: u8)
        ensures
            r as nat == byte_of_level(red_of(self.0), RED_MAX as nat),
    {
        scale_level(self.red_level(), RED_MAX)
    }

    /// Green channel as an 8-bit value: the level scaled to `0..=255`, truncated.
    pub fn green_byte(&self) -> (r: u8)
        ensures
            r as nat == byte_of_level(green_of(self.0), GREEN_MAX as nat),
    {
        scale_level(self.green_level(), GREEN_MAX)
    }

    /// Blue channel as an 8-bit value: the level scaled to `0..=255`, truncated.
    pub fn blue_byte(&self) -> (r: u8)
        ensures
            r as nat == byte_of_level(blue_of(self.0), BLUE_MAX as nat),
    {
        scale_level(self.blue_level(), BLUE_MAX)
    }

    /// Writes the colour as the RGBA quad `(red, green, blue, 255)` at
    /// `frame[i..i + 4]`, leaving every other byte as it was.
    pub fn draw(&self, frame: &mut [u8], i: usize)
        requires
            i + 3 < old(frame)@.len(),
        ensures
            final(frame)@ == old(frame)@.update(i as int, byte_of_level(red_of(self.0), RED_MAX as nat) as u8)
                .update(i + 1, byte_of_level(green_of(self.0), GREEN_MAX as nat) as u8)
                .update(i + 2, byte_of_level(blue_of(self.0), BLUE_MAX as nat) as u8)
                .update(i + 3, 255u8),
    {
        frame[i] = self.red_byte();
        frame[i + 1] = self.green_byte();
        frame[i + 2] = self.blue_byte();
        frame[i + 3] = 255;
    }
}

impl From<(u8, u8, u8)> for Color {
    /// Quantizes 8-bit channels, as `from_byte_rgb` does.
    fn from(rgb: (u8, u8, u8)) -> (c: Color) {
        Color::from_byte_rgb(rgb.0, rgb.1, rgb.2)
    }
}

impl vstd::std_specs::convert::FromSpecImpl<(u8, u8, u8)> for Color {
    open spec fn obeys_from_spec() -> bool {
        true
    }

    open spec fn from_spec(rgb: (u8, u8, u8)) -> Color {
        Color(packed_of_bytes(rgb.0, rgb.1, rgb.2) as u8)
    }
}

/// Black 8-bit channels pack to `0`; white ones pack to `255`, whose every
/// channel is at its largest level and reads back as the full 8-bit value.
pub proof fn lemma_byte_extremes()
    ensures
        packed_of_bytes(0, 0, 0) == 0,
        packed_of_bytes(255, 255, 255) == 255,
        red_of(255) == RED_MAX,
        green_of(255) == GREEN_MAX,
        blue_of(255) == BLUE_MAX,
        byte_of_level(RED_MAX as nat, RED_MAX as nat) == 255,
        byte_of_level(GREEN_MAX as nat, GREEN_MAX as nat) == 255,
        byte_of_level(BLUE_MAX as nat, BLUE_MAX as nat) == 255,
{
}

/// Repacking the three levels read from a colour gives the colour back.
pub proof fn lemma_levels_round_trip(p: u8)
    ensures
        pack(red_of(p), green_of(p), blue_of(p)) == p,
        red_of(p) <= RED_MAX,
        green_of(p) <= GREEN_MAX,
        blue_of(p) <= BLUE_MAX,
{
}

} // verus!
