//! Screen bounds read from a desktop query, and where the overlay goes on them.

use vstd::prelude::*;

use crate::parse::{
    decimal_digits, decimal_u16, field, has_no_comma, is_digit, lemma_decimal_digits,
    lemma_decimal_round_trip, lemma_no_line_feeds, lemma_third_and_fourth_fields, nth_field, parse_u16, strip_line_feeds,
    without_line_feeds,
};
use crate::text::{all_space, is_space, lemma_padding_trimmed, trim, trim_back, trim_front, trimmed};

verus! {

/// Size in pixels of the primary display.
#[derive(Clone, Copy, Debug, PartialEq, Eq, Structural)]
pub struct ScreenBounds {
    pub width: u16,
    pub height: u16,
}

impl ScreenBounds {
    /// Both sides are at least one pixel.
    pub open spec fn wf(self) -> bool {
        self.width > 0 && self.height > 0
    }
}

/// Why the output of the desktop query gave no screen bounds.
#[derive(Clone, Copy, Debug, PartialEq, Eq, Structural)]
pub enum BoundsError {
    /// The output has fewer than four comma-separated fields.
    MissingField,
    /// The right or bottom field is not an unsigned 16-bit decimal number.
    InvalidNumber,
    /// The right or bottom field is zero.
    ZeroSize,
}

/// The number a field of the query output stands for: trimmed, with line
/// feeds removed, read as `u16::from_str` reads it.
pub open spec fn field_number(f: Seq<char>) -> Option<u16> {
    decimal_u16(without_line_feeds(trimmed(f)))
}

/// The screen bounds that the query output `s` describes. The output is the
/// bounding box `left, top, right, bottom`; the right and bottom edges (fields
/// two and three) are taken as the width and height, which holds for a
/// desktop whose origin is `(0, 0)`. The fields are read in order and the
/// first that fails decides the error.
pub open spec fn bounds_from_output(s: Seq<char>) -> Result<ScreenBounds, BoundsError> {
    match nth_field(s, 2) {
        None => Err(BoundsError::MissingField),
        Some(r) => match field_number(r) {
            None => Err(BoundsError::InvalidNumber),
            Some(w) => match nth_field(s, 3) {
                None => Err(BoundsError::MissingField),
                Some(b) => match field_number(b) {
                    None => Err(BoundsError::InvalidNumber),
                    Some(h) => if w == 0 || h == 0 {
                        Err(BoundsError::ZeroSize)
                    } else {
                        Ok(ScreenBounds { width: w, height: h })
                    },
                },
            },
        },
    }
}

/// Reads one field of the query output as a number.
pub fn read_field_number(f: &str) -> (r: Option<u16>)
    ensures
        r == field_number(f@),
{
    let t = trim(f);
    let digits = strip_line_feeds(t);
    parse_u16(&digits)
}

/// Screen bounds from the output of the desktop bounds query.
pub fn parse_screen_bounds(output: &str) -> (r: Result<ScreenBounds, BoundsError>)
    ensures
        r == bounds_from_output(output@),
        r is Ok ==> r->Ok_0.wf(),
{
    let right = match field(output, 2) {
        None => return Err(BoundsError::MissingField),
        Some(f) => f,
    };
    let w = match read_field_number(right) {
        None => return Err(BoundsError::InvalidNumber),
        Some(v) => v,
    };
    let bottom = match field(output, 3) {
        None => return Err(BoundsError::MissingField),
        Some(f) => f,
    };
    let h = match read_field_number(bottom) {
        None => return Err(BoundsError::InvalidNumber),
        Some(v) => v,
    };
    if w == 0 || h == 0 {
        Err(BoundsError::ZeroSize)
    } else {
        Ok(ScreenBounds { width: w, height: h })
    }
}

/// For output of the form `left,top,right,bottom`, with no comma inside the
/// four parts, the bounds are the numbers in `right` and `bottom` exactly, and
/// a part that is no number, or is zero, is an error.
pub proof fn lemma_bounds_are_right_and_bottom(
    left: Seq<char>,
    top: Seq<char>,
    right: Seq<char>,
    bottom: Seq<char>,
)
    requires
        has_no_comma(left),
        has_no_comma(top),
        has_no_comma(right),
        has_no_comma(bottom),
    ensures
        ({
            let r = bounds_from_output(
                left + seq![','] + top + seq![','] + right + seq![','] + bottom,
            );
            match (field_number(right), field_number(bottom)) {
                (Some(w), Some(h)) => if w > 0 && h > 0 {
                    r == Ok::<ScreenBounds, BoundsError>(ScreenBounds { width: w, height: h })
                } else {
                    r == Err::<ScreenBounds, BoundsError>(BoundsError::ZeroSize)
                },
                _ => r == Err::<ScreenBounds, BoundsError>(BoundsError::InvalidNumber),
            }
        }),
{
    lemma_third_and_fourth_fields(left, top, right, bottom);
}

/// Whitespace around the right and bottom fields, line feeds included, does
/// not change the bounds that the output gives.
pub proof fn lemma_padding_ignored(
    left: Seq<char>,
    top: Seq<char>,
    right: Seq<char>,
    bottom: Seq<char>,
    before_right: Seq<char>,
    after_right: Seq<char>,
    before_bottom: Seq<char>,
    after_bottom: Seq<char>,
)
    requires
        has_no_comma(left),
        has_no_comma(top),
        has_no_comma(right),
        has_no_comma(bottom),
        all_space(before_right),
        all_space(after_right),
        all_space(before_bottom),
        all_space(after_bottom),
    ensures
        bounds_from_output(
            left + seq![','] + top + seq![','] + (before_right + right + after_right) + seq![',']
                + (before_bottom + bottom + after_bottom),
        ) == bounds_from_output(left + seq![','] + top + seq![','] + right + seq![','] + bottom),
{
    lemma_padded_has_no_comma(before_right, right, after_right);
    lemma_padded_has_no_comma(before_bottom, bottom, after_bottom);
    lemma_bounds_are_right_and_bottom(left, top, right, bottom);
    lemma_bounds_are_right_and_bottom(
        left,
        top,
        before_right + right + after_right,
        before_bottom + bottom + after_bottom,
    );
    lemma_padding_trimmed(before_right, right, after_right);
    lemma_padding_trimmed(before_bottom, bottom, after_bottom);
}

proof fn lemma_padded_has_no_comma(p: Seq<char>, t: Seq<char>, q: Seq<char>)
    requires
        all_space(p),
        all_space(q),
        has_no_comma(t),
    ensures
        has_no_comma(p + t + q),
{
    let s = p + t + q;
    assert forall|i: int| 0 <= i < s.len() implies #[trigger] s[i] != ',' by {
        if i < p.len() {
            assert(is_space(p[i]));
        } else if i < p.len() + t.len() {
            assert(s[i] == t[i - p.len()]);
        } else {
            assert(is_space(q[i - p.len() - t.len()]));
        }
    }
}

/// The line `0, 0, <width>, <height>` that the desktop query prints, with the
/// two sizes written in decimal, reads back as those sizes.
pub proof fn lemma_printed_bounds_read_back(width: u16, height: u16)
    requires
        width > 0,
        height > 0,
    ensures
        bounds_from_output(
            seq!['0', ',', ' ', '0', ',', ' '] + decimal_digits(width as nat) + seq![',', ' ']
                + decimal_digits(height as nat) + seq!['\n'],
        ) == Ok::<ScreenBounds, BoundsError>(ScreenBounds { width, height }),
{
    let w = decimal_digits(width as nat);
    let h = decimal_digits(height as nat);
    let sp = seq![' '];
    let nl = seq!['\n'];
    let none = Seq::<char>::empty();
    lemma_digits_are_bare(width as nat);
    lemma_digits_are_bare(height as nat);
    lemma_decimal_round_trip(width);
    lemma_decimal_round_trip(height);
    assert(all_space(sp) && all_space(nl) && all_space(none));
    assert(has_no_comma(seq!['0']) && has_no_comma(seq![' ', '0']));
    lemma_padded_has_no_comma(sp, w, none);
    lemma_padded_has_no_comma(sp, h, nl);
    lemma_padding_trimmed(sp, w, none);
    lemma_padding_trimmed(sp, h, nl);
    lemma_bounds_are_right_and_bottom(seq!['0'], seq![' ', '0'], sp + w + none, sp + h + nl);
    assert(seq!['0', ',', ' ', '0', ',', ' '] + w + seq![',', ' '] + h + nl =~= seq!['0']
        + seq![','] + seq![' ', '0'] + seq![','] + (sp + w + none) + seq![','] + (sp + h + nl));
}

/// Decimal digits have no whitespace, comma or line feed to remove.
proof fn lemma_digits_are_bare(n: nat)
    ensures
        has_no_comma(decimal_digits(n)),
        trimmed(decimal_digits(n)) == decimal_digits(n),
        without_line_feeds(decimal_digits(n)) == decimal_digits(n),
{
    lemma_decimal_digits(n);
    let d = decimal_digits(n);
    assert(is_digit(d[0]) && is_digit(d[d.len() - 1]));
    assert(trim_front(d) == d);
    assert(trim_back(d) == d);
    lemma_no_line_feeds(d);
}

/// `extent - size / 2`, or zero where half the size is more than the extent.
pub open spec fn offset_by_half(extent: u16, size: u16) -> u16 {
    if size / 2 <= extent {
        (extent - size / 2) as u16
    } else {
        0
    }
}

/// Top-left corner of the overlay: each coordinate is the screen extent less
/// half the widget's own size along it, anchoring the widget towards the
/// bottom-right corner. A widget more than twice the screen's size gets
/// zero rather than a wrapped value.
pub fn compute_position(
    resolution_width: u16,
    resolution_height: u16,
    widget_width: u16,
    widget_height: u16,
) -> (r: (u16, u16))
    ensures
        r == (
            offset_by_half(resolution_width, widget_width),
            offset_by_half(resolution_height, widget_height),
        ),
{
    let x = if widget_width / 2 <= resolution_width {
        resolution_width - widget_width / 2
    } else {
        0
    };
    let y = if widget_height / 2 <= resolution_height {
        resolution_height - widget_height / 2
    } else {
        0
    };
    (x, y)
}

/// For a widget no larger than the screen the position is the formula itself,
/// with no clamping, and lies on the screen; it depends on the four inputs
/// alone.
pub proof fn lemma_position_on_screen(
    resolution_width: u16,
    resolution_height: u16,
    widget_width: u16,
    widget_height: u16,
)
    requires
        widget_width <= resolution_width,
        widget_height <= resolution_height,
    ensures
        offset_by_half(resolution_width, widget_width) == resolution_width - widget_width / 2,
        offset_by_half(resolution_height, widget_height) == resolution_height - widget_height
            / 2,
        offset_by_half(resolution_width, widget_width) <= resolution_width,
        offset_by_half(resolution_height, widget_height) <= resolution_height,
{
}

/// Position and size of the overlay window.
#[derive(Clone, Copy, Debug, PartialEq, Eq, Structural)]
pub struct WidgetGeometry {
    pub x: u16,
    pub y: u16,
    pub width: u16,
    pub height: u16,
}

/// The overlay of the given size placed on `bounds` by `compute_position`.
pub fn place(bounds: ScreenBounds, width: u16, height: u16) -> (r: WidgetGeometry)
    ensures
        r.width == width,
        r.height == height,
        r.x == offset_by_half(bounds.width, width),
        r.y == offset_by_half(bounds.height, height),
{
    let (x, y) = compute_position(bounds.width, bounds.height, width, height);
    WidgetGeometry { x, y, width, height }
}

} // verus!
