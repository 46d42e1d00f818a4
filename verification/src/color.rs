use vstd::prelude::*;

verus! {

/// An 8-bit-per-channel RGB colour.
#[derive(Clone, Copy, Default)]
pub struct RGBColor {
    r: u8,
    g: u8,
    b: u8,
}

impl View for RGBColor {
    type V = (u8, u8, u8);

    closed spec fn view(&self) -> (u8, u8, u8) {
        (self.r, self.g, self.b)
    }
}

/// The packed 24-bit value `0xRRGGBB` of a colour given by its channels.
pub open spec fn packed_24bit(c: (u8, u8, u8)) -> int {
    c.0 * 65536 + c.1 * 256 + c.2
}

/// The colour that the wheel shows at position `pos` (0..=255): red fades to
/// green on the first third, green to blue on the second, blue back to red on
/// the last.
pub open spec fn wheel_color(pos: u8) -> (u8, u8, u8) {
    if pos > 170 {
        let shift = ((pos - 170) * 3) as u8;
        (shift, 0u8, (255 - shift) as u8)
    } else if pos > 85 {
        let shift = ((pos - 85) * 3) as u8;
        (0u8, (255 - shift) as u8, shift)
    } else {
        let shift = (pos * 3) as u8;
        ((255 - shift) as u8, shift, 0u8)
    }
}

impl RGBColor {
    pub fn new(r: u8, g: u8, b: u8) -> (c: RGBColor)
        ensures
            c@ == (r, g, b),
    {
        RGBColor { r: r, g: g, b: b }
    }

    /// The colour packed as `0xRRGGBB`, as the bulbs' `set_rgb` method wants it.
    pub fn get24Bit(&self) -> (v: u32)
        ensures
            v == packed_24bit(self@),
            v < 0x100_0000,
    {
        (self.r as u32) * 65536u32 + (self.g as u32) * 256u32 + (self.b as u32)
    }

    /// Sets the colour to position `color` of the colour wheel.  The three
    /// channels always add up to 255.
    pub fn wheel24bit(&mut self, color: u8)
        ensures
            final(self)@ == wheel_color(color),
            final(self)@.0 + final(self)@.1 + final(self)@.2 == 255,
    {
        let shift: u8;
        if color > 170 {
            shift = (color - 170) * 3;
            self.r = shift;
            self.g = 0;
            self.b = 255 - shift;
        } else if color > 85 {
            shift = (color - 85) * 3;
            self.r = 0;
            self.g = 255 - shift;
            self.b = shift;
        } else {
            shift = color * 3;
            self.r = 255 - shift;
            self.g = shift;
            self.b = 0;
        }
    }
}

/// The packed value determines the colour: each channel is read back from it.
pub proof fn lemma_packed_24bit_channels(c: (u8, u8, u8))
    ensures
        0 <= packed_24bit(c) < 0x100_0000,
        packed_24bit(c) / 65536 == c.0,
        (packed_24bit(c) / 256) % 256 == c.1,
        packed_24bit(c) % 256 == c.2,
{
    let v = packed_24bit(c);
    assert(v / 65536 == c.0 && (v / 256) % 256 == c.1 && v % 256 == c.2) by (nonlinear_arith)
        requires
            v == c.0 * 65536 + c.1 * 256 + c.2,
            0 <= c.0 < 256,
            0 <= c.1 < 256,
            0 <= c.2 < 256,
    ;
}

/// Two colours with the same packed value are the same colour.
pub proof fn lemma_packed_24bit_injective(c1: (u8, u8, u8), c2: (u8, u8, u8))
    requires
        packed_24bit(c1) == packed_24bit(c2),
    ensures
        c1 == c2,
{
    lemma_packed_24bit_channels(c1);
    lemma_packed_24bit_channels(c2);
}

} // verus!
