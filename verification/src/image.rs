//! The text of a plain PPM image: the header, then one line for each pixel.

use crate::text::{append_decimal_int, decimal_int};
use vstd::prelude::*;

verus! {

/// The header of a plain PPM image: the magic number `P3`, then the width and the height
/// with a space between them, then the largest channel value, 255, each on a line of its own.
pub open spec fn header_text(width: int, height: int) -> Seq<char> {
    seq!['P', '3', '\n'] + decimal_int(width) + seq![' '] + decimal_int(height) + seq![
        '\n',
        '2',
        '5',
        '5',
        '\n',
    ]
}

/// One pixel of a plain PPM image: the red, green and blue channels with a space between
/// them, and a line feed.
pub open spec fn pixel_text(red: int, green: int, blue: int) -> Seq<char> {
    decimal_int(red) + seq![' '] + decimal_int(green) + seq![' '] + decimal_int(blue) + seq![
        '\n',
    ]
}

/// Renders the header of a plain PPM image of the given size.
pub fn ppm_header(width: i32, height: i32) -> (text: String)
    ensures
        text@ == header_text(width as int, height as int),
{
    proof {
        reveal_strlit("P3\n");
        reveal_strlit(" ");
        reveal_strlit("\n255\n");
    }
    let mut text = String::new();
    text.append("P3\n");
    append_decimal_int(&mut text, width as i64);
    text.append(" ");
    append_decimal_int(&mut text, height as i64);
    text.append("\n255\n");
    proof {
        assert("P3\n"@ =~= seq!['P', '3', '\n']);
        assert(" "@ =~= seq![' ']);
        assert("\n255\n"@ =~= seq!['\n', '2', '5', '5', '\n']);
        assert(text@ =~= header_text(width as int, height as int));
    }
    text
}

/// Renders one pixel of a plain PPM image.
pub fn ppm_pixel(red: i32, green: i32, blue: i32) -> (text: String)
    ensures
        text@ == pixel_text(red as int, green as int, blue as int),
{
    proof {
        reveal_strlit(" ");
        reveal_strlit("\n");
    }
    let mut text = String::new();
    append_decimal_int(&mut text, red as i64);
    text.append(" ");
    append_decimal_int(&mut text, green as i64);
    text.append(" ");
    append_decimal_int(&mut text, blue as i64);
    text.append("\n");
    proof {
        assert(" "@ =~= seq![' ']);
        assert("\n"@ =~= seq!['\n']);
        assert(text@ =~= pixel_text(red as int, green as int, blue as int));
    }
    text
}

} // verus!
