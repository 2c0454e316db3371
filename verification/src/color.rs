//! The color model shared by the path and document builders.

use vstd::prelude::*;

use crate::num::dec_rep;
use crate::num::dec_string;

verus! {

/// A drawing color: a small closed set of named colors, an explicit
/// RGB triple, or `NoColor`, which renders as the literal keyword `none`.
#[derive(Debug, PartialEq, Eq, Structural)]
pub enum Color {
    NoColor,
    Black,
    Blue,
    Green,
    Red,
    RGB(u8, u8, u8),
}

/// The attribute-value rendering of a color: the keyword `none`, the
/// lowercase English name, or `rgb(r,g,b)` with decimal channels,
/// comma-separated and without spaces.
pub open spec fn color_keyword(c: Color) -> Seq<char> {
    match c {
        Color::NoColor => "none"@,
        Color::Black => "black"@,
        Color::Blue => "blue"@,
        Color::Green => "green"@,
        Color::Red => "red"@,
        Color::RGB(r, g, b) => "rgb("@ + dec_rep(r as nat) + ","@ + dec_rep(g as nat) + ","@
            + dec_rep(b as nat) + ")"@,
    }
}

/// Renders a color as an attribute value, exactly as `color_keyword`
/// describes.
pub fn color_attr_string(c: &Color) -> (r: String)
    ensures
        r@ == color_keyword(*c),
{
    match c {
        Color::NoColor => String::from_str("none"),
        Color::Black => String::from_str("black"),
        Color::Blue => String::from_str("blue"),
        Color::Green => String::from_str("green"),
        Color::Red => String::from_str("red"),
        Color::RGB(r0, g0, b0) => {
            let mut s = String::from_str("rgb(");
            let rs = dec_string(*r0 as usize);
            s.append(rs.as_str());
            s.append(",");
            let gs = dec_string(*g0 as usize);
            s.append(gs.as_str());
            s.append(",");
            let bs = dec_string(*b0 as usize);
            s.append(bs.as_str());
            s.append(")");
            s
        },
    }
}

} // verus!
