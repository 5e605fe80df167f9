use vstd::prelude::*;
use crate::scene::{Color, Point2};

verus! {

/// One straight fragment of a light path.
#[derive(Clone, Copy, Debug, PartialEq, Eq, Structural)]
pub struct LightSegment {
    pub start: Point2,
    pub end: Point2,
    pub color: Color,
}

/// The color that carries no light.
pub open spec fn is_black(c: Color) -> bool {
    c.red == 0 && c.green == 0 && c.blue == 0
}

/// One channel of `c` after reflection: scaled by the reflectance `r` (255
/// standing for one) and by the part `o` of the light that the collider stops
/// (in parts per thousand).
pub open spec fn tint_channel(c: u8, r: u8, o: u16) -> u8 {
    (c as int * r as int * o as int / 255000) as u8
}

/// The color `c` after reflection by a surface of reflectance `r` and
/// opacity `o`, in parts per thousand.
pub open spec fn tint(c: Color, r: Color, o: u16) -> Color {
    Color {
        red: tint_channel(c.red, r.red, o),
        green: tint_channel(c.green, r.green, o),
        blue: tint_channel(c.blue, r.blue, o),
    }
}

fn tint_channel_exec(c: u8, r: u8, o: u16) -> (t: u8)
    requires
        o <= 1000,
    ensures
        t == tint_channel(c, r, o),
{
    assert(c as int * r as int <= 255 * 255) by (nonlinear_arith)
        requires
            c <= 255,
            r <= 255,
    ;
    assert(c as int * r as int * o as int <= 255 * 255 * 1000) by (nonlinear_arith)
        requires
            c as int * r as int <= 255 * 255,
            o <= 1000,
    ;
    assert(c as int * r as int * o as int / 255000 <= 255);
    let cr: u64 = (c as u64) * (r as u64);
    let p: u64 = cr * (o as u64);
    (p / 255000) as u8
}

/// The color `c` after reflection by a surface of reflectance `r` and
/// opacity `o`, in parts per thousand.
pub fn tint_color(c: Color, r: Color, o: u16) -> (t: Color)
    requires
        o <= 1000,
    ensures
        t == tint(c, r, o),
{
    Color {
        red: tint_channel_exec(c.red, r.red, o),
        green: tint_channel_exec(c.green, r.green, o),
        blue: tint_channel_exec(c.blue, r.blue, o),
    }
}

} // verus!
