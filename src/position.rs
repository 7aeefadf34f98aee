//! Where the logo goes on a picture.

use vstd::prelude::*;

verus! {

/// The corner, or the center, that the logo is placed at.
#[derive(Debug, Clone, Copy, PartialEq, Eq, Structural)]
pub enum Position {
    TopLeft,
    TopRight,
    BottomLeft,
    BottomRight,
    Center,
}

/// `d / 2`, truncated toward zero.
pub open spec fn half_toward_zero(d: int) -> int {
    if d >= 0 {
        d / 2
    } else {
        -((-d) / 2)
    }
}

impl Position {
    /// The name under which a position is shown.
    pub open spec fn label_spec(self) -> Seq<char> {
        match self {
            Position::TopLeft => "TOP-LEFT"@,
            Position::TopRight => "TOP-RIGHT"@,
            Position::BottomLeft => "BOTTOM-LEFT"@,
            Position::BottomRight => "BOTTOM-RIGHT"@,
            Position::Center => "CENTER"@,
        }
    }

    pub fn label(&self) -> (r: &'static str)
        ensures
            r@ == self.label_spec(),
    {
        match self {
            Position::TopLeft => "TOP-LEFT",
            Position::TopRight => "TOP-RIGHT",
            Position::BottomLeft => "BOTTOM-LEFT",
            Position::BottomRight => "BOTTOM-RIGHT",
            Position::Center => "CENTER",
        }
    }

    /// The top-left corner of a `logo_w` x `logo_h` logo placed at this
    /// position on a `bg_w` x `bg_h` background. Offsets are negative where
    /// the logo is larger than the background.
    pub open spec fn place_spec(self, bg_w: int, bg_h: int, logo_w: int, logo_h: int) -> (int, int) {
        let right = bg_w - logo_w;
        let bottom = bg_h - logo_h;
        match self {
            Position::TopLeft => (0, 0),
            Position::TopRight => (right, 0),
            Position::BottomLeft => (0, bottom),
            Position::BottomRight => (right, bottom),
            Position::Center => (half_toward_zero(right), half_toward_zero(bottom)),
        }
    }

    pub fn place(&self, bg_w: u32, bg_h: u32, logo_w: u32, logo_h: u32) -> (r: (i64, i64))
        ensures
            (r.0 as int, r.1 as int) == self.place_spec(
                bg_w as int,
                bg_h as int,
                logo_w as int,
                logo_h as int,
            ),
    {
        let right: i64 = bg_w as i64 - logo_w as i64;
        let bottom: i64 = bg_h as i64 - logo_h as i64;
        match self {
            Position::TopLeft => (0, 0),
            Position::TopRight => (right, 0),
            Position::BottomLeft => (0, bottom),
            Position::BottomRight => (right, bottom),
            Position::Center => (half_of(right), half_of(bottom)),
        }
    }
}

fn half_of(d: i64) -> (r: i64)
    requires
        -0x1_0000_0000 < d < 0x1_0000_0000,
    ensures
        r as int == half_toward_zero(d as int),
{
    if d >= 0 {
        d / 2
    } else {
        -((-d) / 2)
    }
}

} // verus!
