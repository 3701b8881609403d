//! What the overlay is started with: the platform name, the widget's size and
//! colours, with their defaults.

use vstd::prelude::*;

use crate::geometry::{offset_by_half, place, ScreenBounds, WidgetGeometry};
use crate::text::{trim, trimmed};

verus! {

pub const DEFAULT_WIDTH: u16 = 800;

pub const DEFAULT_HEIGHT: u16 = 500;

pub const DEFAULT_BACKGROUND_COLOR: &'static str = "#666699";

/// The platform name that the system identification command printed, without
/// surrounding whitespace.
pub fn platform_name(raw: &str) -> (r: String)
    ensures
        r@ == trimmed(raw@),
{
    String::from_str(trim(raw))
}

pub open spec fn is_hex_digit(c: char) -> bool {
    ('0' <= c && c <= '9') || ('a' <= c && c <= 'f') || ('A' <= c && c <= 'F')
}

pub open spec fn hex_digit_value(c: char) -> int {
    if '0' <= c && c <= '9' {
        (c as u32) as int - ('0' as u32) as int
    } else if 'a' <= c && c <= 'f' {
        (c as u32) as int - ('a' as u32) as int + 10
    } else {
        (c as u32) as int - ('A' as u32) as int + 10
    }
}

/// The byte that the single hex digit `h[i]` stands for in a short colour:
/// the digit written twice.
pub open spec fn nibble_byte(h: Seq<char>, i: int) -> u8 {
    (hex_digit_value(h[i]) * 17) as u8
}

/// The byte of the two hex digits `h[i]` and `h[i + 1]`.
pub open spec fn pair_byte(h: Seq<char>, i: int) -> u8 {
    (hex_digit_value(h[i]) * 16 + hex_digit_value(h[i + 1])) as u8
}

/// The RGBA bytes of a colour with alpha `a` whose colour channels are
/// `r`, `g`, `b` before premultiplying, where the alpha is full or zero;
/// with any other alpha, only that the last byte is the alpha.
pub open spec fn rgba_facts(out: Option<[u8; 4]>, r: u8, g: u8, b: u8, a: u8) -> bool {
    &&& out is Some
    &&& out->Some_0@[3] == a
    &&& a == 255 ==> out->Some_0@ == seq![r, g, b, 255u8]
    &&& a == 0 ==> out->Some_0@ == seq![0u8, 0u8, 0u8, 0u8]
}

/// What holds of the RGBA bytes `out` that `Color32::from_hex` gives for `s`:
/// nothing without a leading `#`; for `#` and 3, 4, 6 or 8 hex digits the
/// colour they spell, where the alpha is full or zero; for `#` and hex digits
/// of another count nothing.
pub open spec fn hex_color_facts(s: Seq<char>, out: Option<[u8; 4]>) -> bool {
    let h = s.drop_first();
    &&& s.len() == 0 || s[0] != '#' ==> out is None
    &&& s.len() > 0 && s[0] == '#' && (forall|i: int| 0 <= i < h.len() ==> is_hex_digit(
        #[trigger] h[i],
    )) ==> if h.len() == 3 {
        out is Some && out->Some_0@ == seq![
            nibble_byte(h, 0),
            nibble_byte(h, 1),
            nibble_byte(h, 2),
            255u8,
        ]
    } else if h.len() == 6 {
        out is Some && out->Some_0@ == seq![
            pair_byte(h, 0),
            pair_byte(h, 2),
            pair_byte(h, 4),
            255u8,
        ]
    } else if h.len() == 4 {
        rgba_facts(out, nibble_byte(h, 0), nibble_byte(h, 1), nibble_byte(h, 2), nibble_byte(h, 3))
    } else if h.len() == 8 {
        rgba_facts(out, pair_byte(h, 0), pair_byte(h, 2), pair_byte(h, 4), pair_byte(h, 6))
    } else {
        out is None
    }
}

/// Relies on `egui::Color32::from_hex`, which parses a `#`-prefixed hex colour
/// of 3, 4, 6 or 8 digits (premultiplying the alpha), and on
/// `Color32::to_array` for its RGBA bytes.
#[verifier::external_body]
fn color_from_hex(hex: &str) -> (r: Option<[u8; 4]>)
    ensures
        hex_color_facts(hex@, r),
{
    match egui::Color32::from_hex(hex) {
        Ok(c) => Some(c.to_array()),
        Err(_) => None,
    }
}

/// The settings the overlay runs with, each flag resolved against its default.
pub struct Settings {
    pub width: u16,
    pub height: u16,
    /// Accepted, and not used by the placement.
    pub position: Option<String>,
    pub background_color: String,
    /// Accepted, and not applied to the text.
    pub text_color: Option<String>,
}

impl Settings {
    /// Settings from the command-line flags; a flag left out takes its default.
    pub fn from_flags(
        width: Option<u16>,
        height: Option<u16>,
        position: Option<String>,
        background_color: Option<String>,
        text_color: Option<String>,
    ) -> (r: Settings)
        ensures
            r.width == (match width {
                Some(w) => w,
                None => DEFAULT_WIDTH,
            }),
            r.height == (match height {
                Some(h) => h,
                None => DEFAULT_HEIGHT,
            }),
            r.background_color@ == (match background_color {
                Some(c) => c@,
                None => DEFAULT_BACKGROUND_COLOR@,
            }),
            r.position == position,
            r.text_color == text_color,
    {
        let width = match width {
            Some(w) => w,
            None => DEFAULT_WIDTH,
        };
        let height = match height {
            Some(h) => h,
            None => DEFAULT_HEIGHT,
        };
        let background_color = match background_color {
            Some(c) => c,
            None => String::from_str(DEFAULT_BACKGROUND_COLOR),
        };
        Settings { width, height, position, background_color, text_color }
    }

    /// The panel's fill colour as RGBA bytes, or `None` where the background
    /// colour is not a hex colour.
    pub fn fill_rgba(&self) -> (r: Option<[u8; 4]>)
        ensures
            hex_color_facts(self.background_color@, r),
            self.background_color@ == DEFAULT_BACKGROUND_COLOR@ ==> r is Some && r->Some_0@
                == seq![0x66u8, 0x66u8, 0x99u8, 0xffu8],
    {
        let r = color_from_hex(self.background_color.as_str());
        proof {
            reveal_strlit("#666699");
            if self.background_color@ == DEFAULT_BACKGROUND_COLOR@ {
                let h = self.background_color@.drop_first();
                assert(h =~= seq!['6', '6', '6', '6', '9', '9']);
                assert(pair_byte(h, 0) == 0x66u8);
                assert(pair_byte(h, 4) == 0x99u8);
            }
        }
        r
    }

    /// The overlay window for these settings on a screen of the given bounds.
    pub fn geometry(&self, bounds: ScreenBounds) -> (r: WidgetGeometry)
        ensures
            r == (WidgetGeometry {
                x: offset_by_half(bounds.width, self.width),
                y: offset_by_half(bounds.height, self.height),
                width: self.width,
                height: self.height,
            }),
    {
        place(bounds, self.width, self.height)
    }
}

} // verus!
