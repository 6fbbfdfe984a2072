//! How the cursor is drawn in an export: its shape, its colour, and the
//! name of the image file that holds it.

use vstd::prelude::*;
use vstd::string::StringSliceAdditionalSpecFns;
use crate::text::{int_text, push_int, str_eq};

verus! {

/// The shapes that a cursor image can have.
#[derive(Clone, Copy, Debug, PartialEq, Eq, Structural)]
pub enum CursorShape {
    Pointer,
    Circle,
    Crosshair,
}

impl CursorShape {
    /// The shape that a style name selects; any name but `circle` and
    /// `crosshair` selects the pointer.
    pub open spec fn named(name: Seq<char>) -> CursorShape {
        if name == "circle"@ {
            CursorShape::Circle
        } else if name == "crosshair"@ {
            CursorShape::Crosshair
        } else {
            CursorShape::Pointer
        }
    }

    /// The shape that `name` selects.
    pub fn from_name(name: &str) -> (shape: CursorShape)
        ensures
            shape == CursorShape::named(name@),
    {
        if str_eq(name, "circle") {
            CursorShape::Circle
        } else if str_eq(name, "crosshair") {
            CursorShape::Crosshair
        } else {
            CursorShape::Pointer
        }
    }
}

/// The value of a hexadecimal digit, or nothing for any other byte.
pub open spec fn hex_value(b: u8) -> Option<int> {
    if 0x30 <= b <= 0x39 {
        Some(b - 0x30)
    } else if 0x61 <= b <= 0x66 {
        Some(b - 0x61 + 10)
    } else if 0x41 <= b <= 0x46 {
        Some(b - 0x41 + 10)
    } else {
        None
    }
}

/// The colour component that the two bytes at `at` stand for: two
/// hexadecimal digits, or a plus sign and one; where there are no such two
/// bytes, the component is at its full value.
pub open spec fn component(color: Seq<u8>, at: int) -> int {
    if at + 2 > color.len() {
        255
    } else {
        match (hex_value(color[at]), hex_value(color[at + 1])) {
            (Some(high), Some(low)) => high * 16 + low,
            (None, Some(low)) => if color[at] == 0x2b {
                low
            } else {
                255
            },
            _ => 255,
        }
    }
}

/// The red, green and blue that the first six bytes of a colour stand for.
pub open spec fn rgb(color: Seq<u8>) -> (int, int, int) {
    (component(color, 0), component(color, 2), component(color, 4))
}

fn hex_digit(b: u8) -> (v: Option<u8>)
    ensures
        match v {
            Some(d) => hex_value(b) == Some(d as int) && d < 16,
            None => hex_value(b).is_none(),
        },
{
    if 0x30 <= b && b <= 0x39 {
        Some(b - 0x30)
    } else if 0x61 <= b && b <= 0x66 {
        Some(b - 0x61 + 10)
    } else if 0x41 <= b && b <= 0x46 {
        Some(b - 0x41 + 10)
    } else {
        None
    }
}

fn component_at(color: &[u8], at: usize) -> (v: u8)
    requires
        at <= 4,
    ensures
        v == component(color@, at as int),
{
    if at + 2 > color.len() {
        return 255;
    }
    let first: u8 = color[at];
    match (hex_digit(first), hex_digit(color[at + 1])) {
        (Some(high), Some(low)) => high * 16 + low,
        (None, Some(low)) => if first == 0x2b {
            low
        } else {
            255
        },
        _ => 255,
    }
}

/// The red, green and blue of a colour given as hexadecimal digits.
pub fn parse_hex_color(color: &str) -> (parsed: (u8, u8, u8))
    ensures
        (parsed.0 as int, parsed.1 as int, parsed.2 as int) == rgb(color.spec_bytes()),
{
    let bytes: &[u8] = color.as_bytes();
    (component_at(bytes, 0), component_at(bytes, 2), component_at(bytes, 4))
}

/// The name of the image file of a cursor of a style and size.
pub open spec fn image_name(style: Seq<char>, size: int) -> Seq<char> {
    "visualcoder_cursor_"@ + style + "_"@ + int_text(size) + ".png"@
}

/// The name of the image file of a cursor of a style and size.
pub fn cursor_image_name(style: &str, size: i32) -> (name: String)
    ensures
        name@ == image_name(style@, size as int),
{
    let mut name = String::from_str("visualcoder_cursor_");
    name.append(style);
    name.append("_");
    push_int(&mut name, size as i64);
    name.append(".png");
    name
}

} // verus!
