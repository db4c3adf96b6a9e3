use crate::text::{
    chars_are, chars_of, is_space, space, str_is, string_of, strings_view, trim, trimmed,
};
use crate::number::{
    decimal_of, decimal_text, digit_char, digits_of, digits_value, is_ascii_digit, lemma_decimal_round_trip,
    is_normal, lemma_to_digits, parse_decimal, parse_usize, to_digits, unsigned_of, unsigned_part, Decimal,
};
use vstd::prelude::*;

verus! {

/// Why a color value was refused.
#[derive(Clone, Copy, Debug, PartialEq, Eq, Hash, Structural)]
pub enum ColorParseError {
    UnknownMode,
}

/// An RGBA color with eight bits per channel.
#[derive(Debug, Clone, Copy, PartialEq, Eq, Hash, Default, Structural)]
pub struct Color {
    pub r: u8,
    pub g: u8,
    pub b: u8,
    pub a: u8,
}

impl Color {
    /// Opaque white.
    pub fn white() -> (r: Color)
        ensures
            r == (Color { r: 255, g: 255, b: 255, a: 255 }),
    {
        Color { r: 255, g: 255, b: 255, a: 255 }
    }
}

pub open spec fn is_hex_digit(c: char) -> bool {
    ('0' <= c && c <= '9') || ('a' <= c && c <= 'f') || ('A' <= c && c <= 'F')
}

/// The value of a hexadecimal digit.
pub open spec fn hex_value(c: char) -> int {
    if '0' <= c && c <= '9' {
        c as int - '0' as int
    } else if 'a' <= c && c <= 'f' {
        c as int - 'a' as int + 10
    } else {
        c as int - 'A' as int + 10
    }
}

/// The color of the digits after `#`: one digit per channel (repeated) for three or four
/// digits, two digits per channel for six or eight; alpha is 255 where it is not given.
pub open spec fn hex_color(h: Seq<char>) -> Option<Color> {
    if !(forall|i: int| 0 <= i < h.len() ==> is_hex_digit(#[trigger] h[i])) {
        None
    } else if h.len() == 3 {
        Some(
            Color {
                r: (hex_value(h[0]) * 17) as u8,
                g: (hex_value(h[1]) * 17) as u8,
                b: (hex_value(h[2]) * 17) as u8,
                a: 255,
            },
        )
    } else if h.len() == 4 {
        Some(
            Color {
                r: (hex_value(h[0]) * 17) as u8,
                g: (hex_value(h[1]) * 17) as u8,
                b: (hex_value(h[2]) * 17) as u8,
                a: (hex_value(h[3]) * 17) as u8,
            },
        )
    } else if h.len() == 6 {
        Some(
            Color {
                r: (hex_value(h[0]) * 16 + hex_value(h[1])) as u8,
                g: (hex_value(h[2]) * 16 + hex_value(h[3])) as u8,
                b: (hex_value(h[4]) * 16 + hex_value(h[5])) as u8,
                a: 255,
            },
        )
    } else if h.len() == 8 {
        Some(
            Color {
                r: (hex_value(h[0]) * 16 + hex_value(h[1])) as u8,
                g: (hex_value(h[2]) * 16 + hex_value(h[3])) as u8,
                b: (hex_value(h[4]) * 16 + hex_value(h[5])) as u8,
                a: (hex_value(h[6]) * 16 + hex_value(h[7])) as u8,
            },
        )
    } else {
        None
    }
}

/// The first position at or after `i` that holds no whitespace.
pub open spec fn skip_spaces(s: Seq<char>, i: int) -> int
    decreases s.len() - i,
{
    if 0 <= i < s.len() && is_space(s[i]) {
        skip_spaces(s, i + 1)
    } else {
        i
    }
}

/// The first position at or after `i` that holds no decimal digit.
pub open spec fn skip_digits(s: Seq<char>, i: int) -> int
    decreases s.len() - i,
{
    if 0 <= i < s.len() && is_ascii_digit(s[i]) {
        skip_digits(s, i + 1)
    } else {
        i
    }
}

/// A channel of a functional color read from position `i`: optional whitespace, one or more
/// digits whose value fits in a byte, optional whitespace. Gives the value and the position
/// after it.
pub open spec fn channel(s: Seq<char>, i: int) -> Option<(u8, int)> {
    let a = skip_spaces(s, i);
    let b = skip_digits(s, a);
    if a < b && digits_value(s.subrange(a, b)) <= 255 {
        Some((digits_value(s.subrange(a, b)) as u8, skip_spaces(s, b)))
    } else {
        None
    }
}

/// The channels of `s` from position `i` on: `n` of them, separated by commas and closed by
/// `)` at the very end of `s`.
pub open spec fn channels(s: Seq<char>, i: int, n: nat) -> Option<Seq<u8>>
    decreases n,
{
    if n == 0 {
        None
    } else {
        match channel(s, i) {
            None => None,
            Some((v, j)) => if n == 1 {
                if j == s.len() - 1 && s[j] == ')' {
                    Some(seq![v])
                } else {
                    None
                }
            } else if 0 <= j < s.len() && s[j] == ',' {
                match channels(s, j + 1, (n - 1) as nat) {
                    None => None,
                    Some(rest) => Some(seq![v] + rest),
                }
            } else {
                None
            },
        }
    }
}

pub open spec fn starts_rgb(s: Seq<char>) -> bool {
    s.len() >= 4 && s[0] == 'r' && s[1] == 'g' && s[2] == 'b' && s[3] == '('
}

pub open spec fn starts_rgba(s: Seq<char>) -> bool {
    s.len() >= 5 && s[0] == 'r' && s[1] == 'g' && s[2] == 'b' && s[3] == 'a' && s[4] == '('
}

/// The color that a color value names: `#` and hexadecimal digits, `rgb(r, g, b)`,
/// `rgba(r, g, b, a)`, or one of the named colors.
pub open spec fn color_of(s: Seq<char>) -> Option<Color> {
    if s.len() > 0 && s[0] == '#' {
        hex_color(s.drop_first())
    } else if starts_rgb(s) {
        match channels(s, 4, 3) {
            Some(v) => Some(Color { r: v[0], g: v[1], b: v[2], a: 255 }),
            None => None,
        }
    } else if starts_rgba(s) {
        match channels(s, 5, 4) {
            Some(v) => Some(Color { r: v[0], g: v[1], b: v[2], a: v[3] }),
            None => None,
        }
    } else {
        named_color(s)
    }
}

/// The named colors.
pub open spec fn named_color(s: Seq<char>) -> Option<Color> {
    if s == "aliceblue"@ {
        Some(Color { r: 240, g: 248, b: 255, a: 255 })
    } else if s == "antiquewhite"@ {
        Some(Color { r: 250, g: 235, b: 215, a: 255 })
    } else if s == "aqua"@ {
        Some(Color { r: 0, g: 255, b: 255, a: 255 })
    } else if s == "aquamarine"@ {
        Some(Color { r: 127, g: 255, b: 212, a: 255 })
    } else if s == "azure"@ {
        Some(Color { r: 240, g: 255, b: 255, a: 255 })
    } else if s == "beige"@ {
        Some(Color { r: 245, g: 245, b: 220, a: 255 })
    } else if s == "bisque"@ {
        Some(Color { r: 255, g: 228, b: 196, a: 255 })
    } else if s == "black"@ {
        Some(Color { r: 0, g: 0, b: 0, a: 255 })
    } else if s == "blanchedalmond"@ {
        Some(Color { r: 255, g: 235, b: 205, a: 255 })
    } else if s == "blue"@ {
        Some(Color { r: 0, g: 0, b: 255, a: 255 })
    } else if s == "blueviolet"@ {
        Some(Color { r: 138, g: 43, b: 226, a: 255 })
    } else if s == "brown"@ {
        Some(Color { r: 165, g: 42, b: 42, a: 255 })
    } else if s == "burlywood"@ {
        Some(Color { r: 222, g: 184, b: 135, a: 255 })
    } else if s == "cadetblue"@ {
        Some(Color { r: 95, g: 158, b: 160, a: 255 })
    } else if s == "chartreuse"@ {
        Some(Color { r: 127, g: 255, b: 0, a: 255 })
    } else if s == "chocolate"@ {
        Some(Color { r: 210, g: 105, b: 30, a: 255 })
    } else if s == "coral"@ {
        Some(Color { r: 255, g: 127, b: 80, a: 255 })
    } else if s == "cornflowerblue"@ {
        Some(Color { r: 100, g: 149, b: 237, a: 255 })
    } else if s == "cornsilk"@ {
        Some(Color { r: 255, g: 248, b: 220, a: 255 })
    } else if s == "crimson"@ {
        Some(Color { r: 220, g: 20, b: 60, a: 255 })
    } else if s == "cyan"@ {
        Some(Color { r: 0, g: 255, b: 255, a: 255 })
    } else if s == "darkblue"@ {
        Some(Color { r: 0, g: 0, b: 139, a: 255 })
    } else if s == "darkcyan"@ {
        Some(Color { r: 0, g: 139, b: 139, a: 255 })
    } else if s == "darkgoldenrod"@ {
        Some(Color { r: 184, g: 134, b: 11, a: 255 })
    } else if s == "darkgray"@ {
        Some(Color { r: 169, g: 169, b: 169, a: 255 })
    } else if s == "darkgrey"@ {
        Some(Color { r: 169, g: 169, b: 169, a: 255 })
    } else if s == "darkgreen"@ {
        Some(Color { r: 0, g: 100, b: 0, a: 255 })
    } else if s == "darkkhaki"@ {
        Some(Color { r: 189, g: 183, b: 107, a: 255 })
    } else if s == "darkmagenta"@ {
        Some(Color { r: 139, g: 0, b: 139, a: 255 })
    } else if s == "darkolivegreen"@ {
        Some(Color { r: 85, g: 107, b: 47, a: 255 })
    } else if s == "darkorange"@ {
        Some(Color { r: 255, g: 140, b: 0, a: 255 })
    } else if s == "darkorchid"@ {
        Some(Color { r: 153, g: 50, b: 204, a: 255 })
    } else if s == "darkred"@ {
        Some(Color { r: 139, g: 0, b: 0, a: 255 })
    } else if s == "darksalmon"@ {
        Some(Color { r: 233, g: 150, b: 122, a: 255 })
    } else if s == "darkseagreen"@ {
        Some(Color { r: 143, g: 188, b: 143, a: 255 })
    } else if s == "darkslateblue"@ {
        Some(Color { r: 72, g: 61, b: 139, a: 255 })
    } else if s == "darkslategray"@ {
        Some(Color { r: 47, g: 79, b: 79, a: 255 })
    } else if s == "darkslategrey"@ {
        Some(Color { r: 47, g: 79, b: 79, a: 255 })
    } else if s == "darkturquoise"@ {
        Some(Color { r: 0, g: 206, b: 209, a: 255 })
    } else if s == "darkviolet"@ {
        Some(Color { r: 148, g: 0, b: 211, a: 255 })
    } else if s == "deeppink"@ {
        Some(Color { r: 255, g: 20, b: 147, a: 255 })
    } else if s == "deepskyblue"@ {
        Some(Color { r: 0, g: 191, b: 255, a: 255 })
    } else if s == "dimgray"@ {
        Some(Color { r: 105, g: 105, b: 105, a: 255 })
    } else if s == "dimgrey"@ {
        Some(Color { r: 105, g: 105, b: 105, a: 255 })
    } else if s == "dodgerblue"@ {
        Some(Color { r: 30, g: 144, b: 255, a: 255 })
    } else if s == "firebrick"@ {
        Some(Color { r: 178, g: 34, b: 34, a: 255 })
    } else if s == "floralwhite"@ {
        Some(Color { r: 255, g: 250, b: 240, a: 255 })
    } else if s == "forestgreen"@ {
        Some(Color { r: 34, g: 139, b: 34, a: 255 })
    } else if s == "fuchsia"@ {
        Some(Color { r: 255, g: 0, b: 255, a: 255 })
    } else if s == "gainsboro"@ {
        Some(Color { r: 220, g: 220, b: 220, a: 255 })
    } else if s == "ghostwhite"@ {
        Some(Color { r: 248, g: 248, b: 255, a: 255 })
    } else if s == "gold"@ {
        Some(Color { r: 255, g: 215, b: 0, a: 255 })
    } else if s == "goldenrod"@ {
        Some(Color { r: 218, g: 165, b: 32, a: 255 })
    } else if s == "gray"@ {
        Some(Color { r: 128, g: 128, b: 128, a: 255 })
    } else if s == "grey"@ {
        Some(Color { r: 128, g: 128, b: 128, a: 255 })
    } else if s == "green"@ {
        Some(Color { r: 0, g: 128, b: 0, a: 255 })
    } else if s == "greenyellow"@ {
        Some(Color { r: 173, g: 255, b: 47, a: 255 })
    } else if s == "honeydew"@ {
        Some(Color { r: 240, g: 255, b: 240, a: 255 })
    } else if s == "hotpink"@ {
        Some(Color { r: 255, g: 105, b: 180, a: 255 })
    } else if s == "indianred"@ {
        Some(Color { r: 205, g: 92, b: 92, a: 255 })
    } else if s == "indigo"@ {
        Some(Color { r: 75, g: 0, b: 130, a: 255 })
    } else if s == "ivory"@ {
        Some(Color { r: 255, g: 255, b: 240, a: 255 })
    } else if s == "khaki"@ {
        Some(Color { r: 240, g: 230, b: 140, a: 255 })
    } else if s == "lavender"@ {
        Some(Color { r: 230, g: 230, b: 250, a: 255 })
    } else if s == "lavenderblush"@ {
        Some(Color { r: 255, g: 240, b: 245, a: 255 })
    } else if s == "lawngreen"@ {
        Some(Color { r: 124, g: 252, b: 0, a: 255 })
    } else if s == "lemonchiffon"@ {
        Some(Color { r: 255, g: 250, b: 205, a: 255 })
    } else if s == "lightblue"@ {
        Some(Color { r: 173, g: 216, b: 230, a: 255 })
    } else if s == "lightcoral"@ {
        Some(Color { r: 240, g: 128, b: 128, a: 255 })
    } else if s == "lightcyan"@ {
        Some(Color { r: 224, g: 255, b: 255, a: 255 })
    } else if s == "lightgoldenrodyellow"@ {
        Some(Color { r: 250, g: 250, b: 210, a: 255 })
    } else if s == "lightgreen"@ {
        Some(Color { r: 144, g: 238, b: 144, a: 255 })
    } else if s == "lightgrey"@ {
        Some(Color { r: 211, g: 211, b: 211, a: 255 })
    } else if s == "lightpink"@ {
        Some(Color { r: 255, g: 182, b: 193, a: 255 })
    } else if s == "lightsalmon"@ {
        Some(Color { r: 255, g: 160, b: 122, a: 255 })
    } else if s == "lightseagreen"@ {
        Some(Color { r: 32, g: 178, b: 170, a: 255 })
    } else if s == "lightskyblue"@ {
        Some(Color { r: 135, g: 206, b: 250, a: 255 })
    } else if s == "lightslategray"@ {
        Some(Color { r: 119, g: 136, b: 153, a: 255 })
    } else if s == "lightslategrey"@ {
        Some(Color { r: 119, g: 136, b: 153, a: 255 })
    } else if s == "lightsteelblue"@ {
        Some(Color { r: 176, g: 196, b: 222, a: 255 })
    } else if s == "lightyellow"@ {
        Some(Color { r: 255, g: 255, b: 224, a: 255 })
    } else if s == "lime"@ {
        Some(Color { r: 0, g: 255, b: 0, a: 255 })
    } else if s == "limegreen"@ {
        Some(Color { r: 50, g: 205, b: 50, a: 255 })
    } else if s == "linen"@ {
        Some(Color { r: 250, g: 240, b: 230, a: 255 })
    } else if s == "magenta"@ {
        Some(Color { r: 255, g: 0, b: 255, a: 255 })
    } else if s == "maroon"@ {
        Some(Color { r: 128, g: 0, b: 0, a: 255 })
    } else if s == "mediumaquamarine"@ {
        Some(Color { r: 102, g: 205, b: 170, a: 255 })
    } else if s == "mediumblue"@ {
        Some(Color { r: 0, g: 0, b: 205, a: 255 })
    } else if s == "mediumorchid"@ {
        Some(Color { r: 186, g: 85, b: 211, a: 255 })
    } else if s == "mediumpurple"@ {
        Some(Color { r: 147, g: 112, b: 216, a: 255 })
    } else if s == "mediumseagreen"@ {
        Some(Color { r: 60, g: 179, b: 113, a: 255 })
    } else if s == "mediumslateblue"@ {
        Some(Color { r: 123, g: 104, b: 238, a: 255 })
    } else if s == "mediumspringgreen"@ {
        Some(Color { r: 0, g: 250, b: 154, a: 255 })
    } else if s == "mediumturquoise"@ {
        Some(Color { r: 72, g: 209, b: 204, a: 255 })
    } else if s == "mediumvioletred"@ {
        Some(Color { r: 199, g: 21, b: 133, a: 255 })
    } else if s == "midnightblue"@ {
        Some(Color { r: 25, g: 25, b: 112, a: 255 })
    } else if s == "mintcream"@ {
        Some(Color { r: 245, g: 255, b: 250, a: 255 })
    } else if s == "mistyrose"@ {
        Some(Color { r: 255, g: 228, b: 225, a: 255 })
    } else if s == "moccasin"@ {
        Some(Color { r: 255, g: 228, b: 181, a: 255 })
    } else if s == "navajowhite"@ {
        Some(Color { r: 255, g: 222, b: 173, a: 255 })
    } else if s == "navy"@ {
        Some(Color { r: 0, g: 0, b: 128, a: 255 })
    } else if s == "oldlace"@ {
        Some(Color { r: 253, g: 245, b: 230, a: 255 })
    } else if s == "olive"@ {
        Some(Color { r: 128, g: 128, b: 0, a: 255 })
    } else if s == "olivedrab"@ {
        Some(Color { r: 107, g: 142, b: 35, a: 255 })
    } else if s == "orange"@ {
        Some(Color { r: 255, g: 165, b: 0, a: 255 })
    } else if s == "orangered"@ {
        Some(Color { r: 255, g: 69, b: 0, a: 255 })
    } else if s == "orchid"@ {
        Some(Color { r: 218, g: 112, b: 214, a: 255 })
    } else if s == "palegoldenrod"@ {
        Some(Color { r: 238, g: 232, b: 170, a: 255 })
    } else if s == "palegreen"@ {
        Some(Color { r: 152, g: 251, b: 152, a: 255 })
    } else if s == "paleturquoise"@ {
        Some(Color { r: 175, g: 238, b: 238, a: 255 })
    } else if s == "palevioletred"@ {
        Some(Color { r: 216, g: 112, b: 147, a: 255 })
    } else if s == "papayawhip"@ {
        Some(Color { r: 255, g: 239, b: 213, a: 255 })
    } else if s == "peachpuff"@ {
        Some(Color { r: 255, g: 218, b: 185, a: 255 })
    } else if s == "peru"@ {
        Some(Color { r: 205, g: 133, b: 63, a: 255 })
    } else if s == "pink"@ {
        Some(Color { r: 255, g: 192, b: 203, a: 255 })
    } else if s == "plum"@ {
        Some(Color { r: 221, g: 160, b: 221, a: 255 })
    } else if s == "powderblue"@ {
        Some(Color { r: 176, g: 224, b: 230, a: 255 })
    } else if s == "purple"@ {
        Some(Color { r: 128, g: 0, b: 128, a: 255 })
    } else if s == "red"@ {
        Some(Color { r: 255, g: 0, b: 0, a: 255 })
    } else if s == "rosybrown"@ {
        Some(Color { r: 188, g: 143, b: 143, a: 255 })
    } else if s == "royalblue"@ {
        Some(Color { r: 65, g: 105, b: 225, a: 255 })
    } else if s == "saddlebrown"@ {
        Some(Color { r: 139, g: 69, b: 19, a: 255 })
    } else if s == "salmon"@ {
        Some(Color { r: 250, g: 128, b: 114, a: 255 })
    } else if s == "sandybrown"@ {
        Some(Color { r: 244, g: 164, b: 96, a: 255 })
    } else if s == "seagreen"@ {
        Some(Color { r: 46, g: 139, b: 87, a: 255 })
    } else if s == "seashell"@ {
        Some(Color { r: 255, g: 245, b: 238, a: 255 })
    } else if s == "sienna"@ {
        Some(Color { r: 160, g: 82, b: 45, a: 255 })
    } else if s == "silver"@ {
        Some(Color { r: 192, g: 192, b: 192, a: 255 })
    } else if s == "skyblue"@ {
        Some(Color { r: 135, g: 206, b: 235, a: 255 })
    } else if s == "slateblue"@ {
        Some(Color { r: 106, g: 90, b: 205, a: 255 })
    } else if s == "slategray"@ {
        Some(Color { r: 112, g: 128, b: 144, a: 255 })
    } else if s == "slategrey"@ {
        Some(Color { r: 112, g: 128, b: 144, a: 255 })
    } else if s == "snow"@ {
        Some(Color { r: 255, g: 250, b: 250, a: 255 })
    } else if s == "springgreen"@ {
        Some(Color { r: 0, g: 255, b: 127, a: 255 })
    } else if s == "steelblue"@ {
        Some(Color { r: 70, g: 130, b: 180, a: 255 })
    } else if s == "tan"@ {
        Some(Color { r: 210, g: 180, b: 140, a: 255 })
    } else if s == "teal"@ {
        Some(Color { r: 0, g: 128, b: 128, a: 255 })
    } else if s == "thistle"@ {
        Some(Color { r: 216, g: 191, b: 216, a: 255 })
    } else if s == "tomato"@ {
        Some(Color { r: 255, g: 99, b: 71, a: 255 })
    } else if s == "turquoise"@ {
        Some(Color { r: 64, g: 224, b: 208, a: 255 })
    } else if s == "violet"@ {
        Some(Color { r: 238, g: 130, b: 238, a: 255 })
    } else if s == "wheat"@ {
        Some(Color { r: 245, g: 222, b: 179, a: 255 })
    } else if s == "white"@ {
        Some(Color { r: 255, g: 255, b: 255, a: 255 })
    } else if s == "whitesmoke"@ {
        Some(Color { r: 245, g: 245, b: 245, a: 255 })
    } else if s == "yellow"@ {
        Some(Color { r: 255, g: 255, b: 0, a: 255 })
    } else if s == "yellowgreen"@ {
        Some(Color { r: 154, g: 205, b: 50, a: 255 })
    } else {
        None
    }
}

fn named_color_of(cs: &[char]) -> (r: Option<Color>)
    ensures
        r == named_color(cs@),
{
    if chars_are(cs, "aliceblue") {
        Some(Color { r: 240, g: 248, b: 255, a: 255 })
    } else if chars_are(cs, "antiquewhite") {
        Some(Color { r: 250, g: 235, b: 215, a: 255 })
    } else if chars_are(cs, "aqua") {
        Some(Color { r: 0, g: 255, b: 255, a: 255 })
    } else if chars_are(cs, "aquamarine") {
        Some(Color { r: 127, g: 255, b: 212, a: 255 })
    } else if chars_are(cs, "azure") {
        Some(Color { r: 240, g: 255, b: 255, a: 255 })
    } else if chars_are(cs, "beige") {
        Some(Color { r: 245, g: 245, b: 220, a: 255 })
    } else if chars_are(cs, "bisque") {
        Some(Color { r: 255, g: 228, b: 196, a: 255 })
    } else if chars_are(cs, "black") {
        Some(Color { r: 0, g: 0, b: 0, a: 255 })
    } else if chars_are(cs, "blanchedalmond") {
        Some(Color { r: 255, g: 235, b: 205, a: 255 })
    } else if chars_are(cs, "blue") {
        Some(Color { r: 0, g: 0, b: 255, a: 255 })
    } else if chars_are(cs, "blueviolet") {
        Some(Color { r: 138, g: 43, b: 226, a: 255 })
    } else if chars_are(cs, "brown") {
        Some(Color { r: 165, g: 42, b: 42, a: 255 })
    } else if chars_are(cs, "burlywood") {
        Some(Color { r: 222, g: 184, b: 135, a: 255 })
    } else if chars_are(cs, "cadetblue") {
        Some(Color { r: 95, g: 158, b: 160, a: 255 })
    } else if chars_are(cs, "chartreuse") {
        Some(Color { r: 127, g: 255, b: 0, a: 255 })
    } else if chars_are(cs, "chocolate") {
        Some(Color { r: 210, g: 105, b: 30, a: 255 })
    } else if chars_are(cs, "coral") {
        Some(Color { r: 255, g: 127, b: 80, a: 255 })
    } else if chars_are(cs, "cornflowerblue") {
        Some(Color { r: 100, g: 149, b: 237, a: 255 })
    } else if chars_are(cs, "cornsilk") {
        Some(Color { r: 255, g: 248, b: 220, a: 255 })
    } else if chars_are(cs, "crimson") {
        Some(Color { r: 220, g: 20, b: 60, a: 255 })
    } else if chars_are(cs, "cyan") {
        Some(Color { r: 0, g: 255, b: 255, a: 255 })
    } else if chars_are(cs, "darkblue") {
        Some(Color { r: 0, g: 0, b: 139, a: 255 })
    } else if chars_are(cs, "darkcyan") {
        Some(Color { r: 0, g: 139, b: 139, a: 255 })
    } else if chars_are(cs, "darkgoldenrod") {
        Some(Color { r: 184, g: 134, b: 11, a: 255 })
    } else if chars_are(cs, "darkgray") {
        Some(Color { r: 169, g: 169, b: 169, a: 255 })
    } else if chars_are(cs, "darkgrey") {
        Some(Color { r: 169, g: 169, b: 169, a: 255 })
    } else if chars_are(cs, "darkgreen") {
        Some(Color { r: 0, g: 100, b: 0, a: 255 })
    } else if chars_are(cs, "darkkhaki") {
        Some(Color { r: 189, g: 183, b: 107, a: 255 })
    } else if chars_are(cs, "darkmagenta") {
        Some(Color { r: 139, g: 0, b: 139, a: 255 })
    } else if chars_are(cs, "darkolivegreen") {
        Some(Color { r: 85, g: 107, b: 47, a: 255 })
    } else if chars_are(cs, "darkorange") {
        Some(Color { r: 255, g: 140, b: 0, a: 255 })
    } else if chars_are(cs, "darkorchid") {
        Some(Color { r: 153, g: 50, b: 204, a: 255 })
    } else if chars_are(cs, "darkred") {
        Some(Color { r: 139, g: 0, b: 0, a: 255 })
    } else if chars_are(cs, "darksalmon") {
        Some(Color { r: 233, g: 150, b: 122, a: 255 })
    } else if chars_are(cs, "darkseagreen") {
        Some(Color { r: 143, g: 188, b: 143, a: 255 })
    } else if chars_are(cs, "darkslateblue") {
        Some(Color { r: 72, g: 61, b: 139, a: 255 })
    } else if chars_are(cs, "darkslategray") {
        Some(Color { r: 47, g: 79, b: 79, a: 255 })
    } else if chars_are(cs, "darkslategrey") {
        Some(Color { r: 47, g: 79, b: 79, a: 255 })
    } else if chars_are(cs, "darkturquoise") {
        Some(Color { r: 0, g: 206, b: 209, a: 255 })
    } else if chars_are(cs, "darkviolet") {
        Some(Color { r: 148, g: 0, b: 211, a: 255 })
    } else if chars_are(cs, "deeppink") {
        Some(Color { r: 255, g: 20, b: 147, a: 255 })
    } else if chars_are(cs, "deepskyblue") {
        Some(Color { r: 0, g: 191, b: 255, a: 255 })
    } else if chars_are(cs, "dimgray") {
        Some(Color { r: 105, g: 105, b: 105, a: 255 })
    } else if chars_are(cs, "dimgrey") {
        Some(Color { r: 105, g: 105, b: 105, a: 255 })
    } else if chars_are(cs, "dodgerblue") {
        Some(Color { r: 30, g: 144, b: 255, a: 255 })
    } else if chars_are(cs, "firebrick") {
        Some(Color { r: 178, g: 34, b: 34, a: 255 })
    } else if chars_are(cs, "floralwhite") {
        Some(Color { r: 255, g: 250, b: 240, a: 255 })
    } else if chars_are(cs, "forestgreen") {
        Some(Color { r: 34, g: 139, b: 34, a: 255 })
    } else if chars_are(cs, "fuchsia") {
        Some(Color { r: 255, g: 0, b: 255, a: 255 })
    } else if chars_are(cs, "gainsboro") {
        Some(Color { r: 220, g: 220, b: 220, a: 255 })
    } else if chars_are(cs, "ghostwhite") {
        Some(Color { r: 248, g: 248, b: 255, a: 255 })
    } else if chars_are(cs, "gold") {
        Some(Color { r: 255, g: 215, b: 0, a: 255 })
    } else if chars_are(cs, "goldenrod") {
        Some(Color { r: 218, g: 165, b: 32, a: 255 })
    } else if chars_are(cs, "gray") {
        Some(Color { r: 128, g: 128, b: 128, a: 255 })
    } else if chars_are(cs, "grey") {
        Some(Color { r: 128, g: 128, b: 128, a: 255 })
    } else if chars_are(cs, "green") {
        Some(Color { r: 0, g: 128, b: 0, a: 255 })
    } else if chars_are(cs, "greenyellow") {
        Some(Color { r: 173, g: 255, b: 47, a: 255 })
    } else if chars_are(cs, "honeydew") {
        Some(Color { r: 240, g: 255, b: 240, a: 255 })
    } else if chars_are(cs, "hotpink") {
        Some(Color { r: 255, g: 105, b: 180, a: 255 })
    } else if chars_are(cs, "indianred") {
        Some(Color { r: 205, g: 92, b: 92, a: 255 })
    } else if chars_are(cs, "indigo") {
        Some(Color { r: 75, g: 0, b: 130, a: 255 })
    } else if chars_are(cs, "ivory") {
        Some(Color { r: 255, g: 255, b: 240, a: 255 })
    } else if chars_are(cs, "khaki") {
        Some(Color { r: 240, g: 230, b: 140, a: 255 })
    } else if chars_are(cs, "lavender") {
        Some(Color { r: 230, g: 230, b: 250, a: 255 })
    } else if chars_are(cs, "lavenderblush") {
        Some(Color { r: 255, g: 240, b: 245, a: 255 })
    } else if chars_are(cs, "lawngreen") {
        Some(Color { r: 124, g: 252, b: 0, a: 255 })
    } else if chars_are(cs, "lemonchiffon") {
        Some(Color { r: 255, g: 250, b: 205, a: 255 })
    } else if chars_are(cs, "lightblue") {
        Some(Color { r: 173, g: 216, b: 230, a: 255 })
    } else if chars_are(cs, "lightcoral") {
        Some(Color { r: 240, g: 128, b: 128, a: 255 })
    } else if chars_are(cs, "lightcyan") {
        Some(Color { r: 224, g: 255, b: 255, a: 255 })
    } else if chars_are(cs, "lightgoldenrodyellow") {
        Some(Color { r: 250, g: 250, b: 210, a: 255 })
    } else if chars_are(cs, "lightgreen") {
        Some(Color { r: 144, g: 238, b: 144, a: 255 })
    } else if chars_are(cs, "lightgrey") {
        Some(Color { r: 211, g: 211, b: 211, a: 255 })
    } else if chars_are(cs, "lightpink") {
        Some(Color { r: 255, g: 182, b: 193, a: 255 })
    } else if chars_are(cs, "lightsalmon") {
        Some(Color { r: 255, g: 160, b: 122, a: 255 })
    } else if chars_are(cs, "lightseagreen") {
        Some(Color { r: 32, g: 178, b: 170, a: 255 })
    } else if chars_are(cs, "lightskyblue") {
        Some(Color { r: 135, g: 206, b: 250, a: 255 })
    } else if chars_are(cs, "lightslategray") {
        Some(Color { r: 119, g: 136, b: 153, a: 255 })
    } else if chars_are(cs, "lightslategrey") {
        Some(Color { r: 119, g: 136, b: 153, a: 255 })
    } else if chars_are(cs, "lightsteelblue") {
        Some(Color { r: 176, g: 196, b: 222, a: 255 })
    } else if chars_are(cs, "lightyellow") {
        Some(Color { r: 255, g: 255, b: 224, a: 255 })
    } else if chars_are(cs, "lime") {
        Some(Color { r: 0, g: 255, b: 0, a: 255 })
    } else if chars_are(cs, "limegreen") {
        Some(Color { r: 50, g: 205, b: 50, a: 255 })
    } else if chars_are(cs, "linen") {
        Some(Color { r: 250, g: 240, b: 230, a: 255 })
    } else if chars_are(cs, "magenta") {
        Some(Color { r: 255, g: 0, b: 255, a: 255 })
    } else if chars_are(cs, "maroon") {
        Some(Color { r: 128, g: 0, b: 0, a: 255 })
    } else if chars_are(cs, "mediumaquamarine") {
        Some(Color { r: 102, g: 205, b: 170, a: 255 })
    } else if chars_are(cs, "mediumblue") {
        Some(Color { r: 0, g: 0, b: 205, a: 255 })
    } else if chars_are(cs, "mediumorchid") {
        Some(Color { r: 186, g: 85, b: 211, a: 255 })
    } else if chars_are(cs, "mediumpurple") {
        Some(Color { r: 147, g: 112, b: 216, a: 255 })
    } else if chars_are(cs, "mediumseagreen") {
        Some(Color { r: 60, g: 179, b: 113, a: 255 })
    } else if chars_are(cs, "mediumslateblue") {
        Some(Color { r: 123, g: 104, b: 238, a: 255 })
    } else if chars_are(cs, "mediumspringgreen") {
        Some(Color { r: 0, g: 250, b: 154, a: 255 })
    } else if chars_are(cs, "mediumturquoise") {
        Some(Color { r: 72, g: 209, b: 204, a: 255 })
    } else if chars_are(cs, "mediumvioletred") {
        Some(Color { r: 199, g: 21, b: 133, a: 255 })
    } else if chars_are(cs, "midnightblue") {
        Some(Color { r: 25, g: 25, b: 112, a: 255 })
    } else if chars_are(cs, "mintcream") {
        Some(Color { r: 245, g: 255, b: 250, a: 255 })
    } else if chars_are(cs, "mistyrose") {
        Some(Color { r: 255, g: 228, b: 225, a: 255 })
    } else if chars_are(cs, "moccasin") {
        Some(Color { r: 255, g: 228, b: 181, a: 255 })
    } else if chars_are(cs, "navajowhite") {
        Some(Color { r: 255, g: 222, b: 173, a: 255 })
    } else if chars_are(cs, "navy") {
        Some(Color { r: 0, g: 0, b: 128, a: 255 })
    } else if chars_are(cs, "oldlace") {
        Some(Color { r: 253, g: 245, b: 230, a: 255 })
    } else if chars_are(cs, "olive") {
        Some(Color { r: 128, g: 128, b: 0, a: 255 })
    } else if chars_are(cs, "olivedrab") {
        Some(Color { r: 107, g: 142, b: 35, a: 255 })
    } else if chars_are(cs, "orange") {
        Some(Color { r: 255, g: 165, b: 0, a: 255 })
    } else if chars_are(cs, "orangered") {
        Some(Color { r: 255, g: 69, b: 0, a: 255 })
    } else if chars_are(cs, "orchid") {
        Some(Color { r: 218, g: 112, b: 214, a: 255 })
    } else if chars_are(cs, "palegoldenrod") {
        Some(Color { r: 238, g: 232, b: 170, a: 255 })
    } else if chars_are(cs, "palegreen") {
        Some(Color { r: 152, g: 251, b: 152, a: 255 })
    } else if chars_are(cs, "paleturquoise") {
        Some(Color { r: 175, g: 238, b: 238, a: 255 })
    } else if chars_are(cs, "palevioletred") {
        Some(Color { r: 216, g: 112, b: 147, a: 255 })
    } else if chars_are(cs, "papayawhip") {
        Some(Color { r: 255, g: 239, b: 213, a: 255 })
    } else if chars_are(cs, "peachpuff") {
        Some(Color { r: 255, g: 218, b: 185, a: 255 })
    } else if chars_are(cs, "peru") {
        Some(Color { r: 205, g: 133, b: 63, a: 255 })
    } else if chars_are(cs, "pink") {
        Some(Color { r: 255, g: 192, b: 203, a: 255 })
    } else if chars_are(cs, "plum") {
        Some(Color { r: 221, g: 160, b: 221, a: 255 })
    } else if chars_are(cs, "powderblue") {
        Some(Color { r: 176, g: 224, b: 230, a: 255 })
    } else if chars_are(cs, "purple") {
        Some(Color { r: 128, g: 0, b: 128, a: 255 })
    } else if chars_are(cs, "red") {
        Some(Color { r: 255, g: 0, b: 0, a: 255 })
    } else if chars_are(cs, "rosybrown") {
        Some(Color { r: 188, g: 143, b: 143, a: 255 })
    } else if chars_are(cs, "royalblue") {
        Some(Color { r: 65, g: 105, b: 225, a: 255 })
    } else if chars_are(cs, "saddlebrown") {
        Some(Color { r: 139, g: 69, b: 19, a: 255 })
    } else if chars_are(cs, "salmon") {
        Some(Color { r: 250, g: 128, b: 114, a: 255 })
    } else if chars_are(cs, "sandybrown") {
        Some(Color { r: 244, g: 164, b: 96, a: 255 })
    } else if chars_are(cs, "seagreen") {
        Some(Color { r: 46, g: 139, b: 87, a: 255 })
    } else if chars_are(cs, "seashell") {
        Some(Color { r: 255, g: 245, b: 238, a: 255 })
    } else if chars_are(cs, "sienna") {
        Some(Color { r: 160, g: 82, b: 45, a: 255 })
    } else if chars_are(cs, "silver") {
        Some(Color { r: 192, g: 192, b: 192, a: 255 })
    } else if chars_are(cs, "skyblue") {
        Some(Color { r: 135, g: 206, b: 235, a: 255 })
    } else if chars_are(cs, "slateblue") {
        Some(Color { r: 106, g: 90, b: 205, a: 255 })
    } else if chars_are(cs, "slategray") {
        Some(Color { r: 112, g: 128, b: 144, a: 255 })
    } else if chars_are(cs, "slategrey") {
        Some(Color { r: 112, g: 128, b: 144, a: 255 })
    } else if chars_are(cs, "snow") {
        Some(Color { r: 255, g: 250, b: 250, a: 255 })
    } else if chars_are(cs, "springgreen") {
        Some(Color { r: 0, g: 255, b: 127, a: 255 })
    } else if chars_are(cs, "steelblue") {
        Some(Color { r: 70, g: 130, b: 180, a: 255 })
    } else if chars_are(cs, "tan") {
        Some(Color { r: 210, g: 180, b: 140, a: 255 })
    } else if chars_are(cs, "teal") {
        Some(Color { r: 0, g: 128, b: 128, a: 255 })
    } else if chars_are(cs, "thistle") {
        Some(Color { r: 216, g: 191, b: 216, a: 255 })
    } else if chars_are(cs, "tomato") {
        Some(Color { r: 255, g: 99, b: 71, a: 255 })
    } else if chars_are(cs, "turquoise") {
        Some(Color { r: 64, g: 224, b: 208, a: 255 })
    } else if chars_are(cs, "violet") {
        Some(Color { r: 238, g: 130, b: 238, a: 255 })
    } else if chars_are(cs, "wheat") {
        Some(Color { r: 245, g: 222, b: 179, a: 255 })
    } else if chars_are(cs, "white") {
        Some(Color { r: 255, g: 255, b: 255, a: 255 })
    } else if chars_are(cs, "whitesmoke") {
        Some(Color { r: 245, g: 245, b: 245, a: 255 })
    } else if chars_are(cs, "yellow") {
        Some(Color { r: 255, g: 255, b: 0, a: 255 })
    } else if chars_are(cs, "yellowgreen") {
        Some(Color { r: 154, g: 205, b: 50, a: 255 })
    } else {
        None
    }
}

fn hex_digit_value(c: char) -> (r: Option<u8>)
    ensures
        r is Some <==> is_hex_digit(c),
        r is Some ==> r->0 as int == hex_value(c) && r->0 < 16,
{
    if '0' <= c && c <= '9' {
        Some((c as u32 - '0' as u32) as u8)
    } else if 'a' <= c && c <= 'f' {
        Some((c as u32 - 'a' as u32 + 10) as u8)
    } else if 'A' <= c && c <= 'F' {
        Some((c as u32 - 'A' as u32 + 10) as u8)
    } else {
        None
    }
}

fn hex_color_of(h: &[char]) -> (r: Option<Color>)
    ensures
        r == hex_color(h@),
{
    let mut vals: Vec<u8> = Vec::new();
    let mut i: usize = 0;
    while i < h.len()
        invariant
            i <= h@.len(),
            vals@.len() == i,
            forall|k: int| 0 <= k < i ==> is_hex_digit(#[trigger] h@[k]),
            forall|k: int| 0 <= k < i ==> #[trigger] vals@[k] as int == hex_value(h@[k]) && vals@[k] < 16,
        decreases h@.len() - i,
    {
        match hex_digit_value(h[i]) {
            Some(v) => vals.push(v),
            None => {
                return None;
            },
        }
        i = i + 1;
    }
    let n = h.len();
    if n == 3 {
        Some(Color { r: vals[0] * 17, g: vals[1] * 17, b: vals[2] * 17, a: 255 })
    } else if n == 4 {
        Some(Color { r: vals[0] * 17, g: vals[1] * 17, b: vals[2] * 17, a: vals[3] * 17 })
    } else if n == 6 {
        Some(
            Color {
                r: vals[0] * 16 + vals[1],
                g: vals[2] * 16 + vals[3],
                b: vals[4] * 16 + vals[5],
                a: 255,
            },
        )
    } else if n == 8 {
        Some(
            Color {
                r: vals[0] * 16 + vals[1],
                g: vals[2] * 16 + vals[3],
                b: vals[4] * 16 + vals[5],
                a: vals[6] * 16 + vals[7],
            },
        )
    } else {
        None
    }
}

/// The first position at or after `i` that holds no whitespace.
pub fn skip_spaces_at(s: &[char], i: usize) -> (r: usize)
    requires
        i <= s@.len(),
    ensures
        r as int == skip_spaces(s@, i as int),
        i <= r <= s@.len(),
{
    let mut k = i;
    while k < s.len() && space(s[k])
        invariant
            i <= k <= s@.len(),
            skip_spaces(s@, i as int) == skip_spaces(s@, k as int),
        decreases s@.len() - k,
    {
        k = k + 1;
    }
    k
}

fn channel_at(s: &[char], i: usize) -> (r: Option<(u8, usize)>)
    requires
        i <= s@.len(),
    ensures
        match channel(s@, i as int) {
            None => r is None,
            Some((v, j)) => r == Some((v, j as usize)) && i <= j <= s@.len(),
        },
{
    let a = skip_spaces_at(s, i);
    let mut k = a;
    let mut v: u32 = 0;
    while k < s.len() && '0' <= s[k] && s[k] <= '9'
        invariant
            a <= k <= s@.len(),
            skip_digits(s@, a as int) == skip_digits(s@, k as int),
            v as int == if digits_value(s@.subrange(a as int, k as int)) < 256 {
                digits_value(s@.subrange(a as int, k as int))
            } else {
                256
            },
            digits_value(s@.subrange(a as int, k as int)) >= 0,
        decreases s@.len() - k,
    {
        let d = (s[k] as u32 - '0' as u32);
        assert(s@.subrange(a as int, k + 1).drop_last() =~= s@.subrange(a as int, k as int));
        if v < 256 {
            v = v * 10 + d;
            if v > 256 {
                v = 256;
            }
        }
        k = k + 1;
    }
    if a < k && v <= 255 {
        let j = skip_spaces_at(s, k);
        Some((v as u8, j))
    } else {
        None
    }
}

proof fn lemma_channels_len(s: Seq<char>, i: int, n: nat)
    ensures
        channels(s, i, n) is Some ==> channels(s, i, n)->0.len() == n,
    decreases n,
{
    if n > 1 {
        match channel(s, i) {
            None => {},
            Some((v, j)) => {
                lemma_channels_len(s, j + 1, (n - 1) as nat);
            },
        }
    }
}

fn channels_at(s: &[char], i: usize, n: usize) -> (r: Option<Vec<u8>>)
    requires
        i <= s@.len(),
    ensures
        match channels(s@, i as int, n as nat) {
            None => r is None,
            Some(v) => r is Some && r->0@ == v,
        },
    decreases n,
{
    if n == 0 {
        return None;
    }
    match channel_at(s, i) {
        None => None,
        Some((v, j)) => {
            if n == 1 {
                if s.len() > 0 && j == s.len() - 1 && s[j] == ')' {
                    let mut out: Vec<u8> = Vec::new();
                    out.push(v);
                    assert(out@ =~= seq![v]);
                    Some(out)
                } else {
                    None
                }
            } else if j < s.len() && s[j] == ',' {
                match channels_at(s, j + 1, n - 1) {
                    None => None,
                    Some(rest) => {
                        let mut out: Vec<u8> = Vec::new();
                        out.push(v);
                        let mut k: usize = 0;
                        while k < rest.len()
                            invariant
                                k <= rest@.len(),
                                out@ =~= seq![v] + rest@.subrange(0, k as int),
                            decreases rest@.len() - k,
                        {
                            out.push(rest[k]);
                            k = k + 1;
                        }
                        assert(rest@.subrange(0, k as int) =~= rest@);
                        Some(out)
                    },
                }
            } else {
                None
            }
        },
    }
}

impl Color {
    /// Reads a color value: `#RGB`, `#RGBA`, `#RRGGBB`, `#RRGGBBAA`, `rgb(r, g, b)`,
    /// `rgba(r, g, b, a)` or a named color.
    pub fn parse(value: &str) -> (r: Result<Color, ColorParseError>)
        ensures
            r == match color_of(value@) {
                Some(c) => Ok(c),
                None => Err(ColorParseError::UnknownMode),
            },
    {
        let cs = chars_of(value);
        let n = cs.len();
        let found = if n > 0 && cs[0] == '#' {
            let h = cs.as_slice().split_at(1).1;
            assert(h@ =~= cs@.drop_first());
            hex_color_of(h)
        } else if n >= 4 && cs[0] == 'r' && cs[1] == 'g' && cs[2] == 'b' && cs[3] == '(' {
            proof {
                lemma_channels_len(cs@, 4, 3);
            }
            match channels_at(cs.as_slice(), 4, 3) {
                Some(v) => Some(Color { r: v[0], g: v[1], b: v[2], a: 255 }),
                None => None,
            }
        } else if n >= 5 && cs[0] == 'r' && cs[1] == 'g' && cs[2] == 'b' && cs[3] == 'a' && cs[4]
            == '(' {
            proof {
                lemma_channels_len(cs@, 5, 4);
            }
            match channels_at(cs.as_slice(), 5, 4) {
                Some(v) => Some(Color { r: v[0], g: v[1], b: v[2], a: v[3] }),
                None => None,
            }
        } else {
            named_color_of(cs.as_slice())
        };
        match found {
            Some(c) => Ok(c),
            None => Err(ColorParseError::UnknownMode),
        }
    }
}

impl std::str::FromStr for Color {
    type Err = ColorParseError;

    fn from_str(value: &str) -> (r: Result<Color, ColorParseError>)
        ensures
            r == match color_of(value@) {
                Some(c) => Ok(c),
                None => Err(ColorParseError::UnknownMode),
            },
    {
        Color::parse(value)
    }
}

/// A hexadecimal digit, lower case.
pub open spec fn hex_char(d: int) -> char {
    if d < 10 {
        digit_char(d)
    } else if d == 10 {
        'a'
    } else if d == 11 {
        'b'
    } else if d == 12 {
        'c'
    } else if d == 13 {
        'd'
    } else if d == 14 {
        'e'
    } else {
        'f'
    }
}

/// `#RRGGBB` for these channels.
pub open spec fn hex_text(r: u8, g: u8, b: u8) -> Seq<char> {
    seq![
        '#',
        hex_char((r / 16) as int),
        hex_char((r % 16) as int),
        hex_char((g / 16) as int),
        hex_char((g % 16) as int),
        hex_char((b / 16) as int),
        hex_char((b % 16) as int),
    ]
}

/// `rgb(r,g,b)` for these channels.
pub open spec fn rgb_text(r: u8, g: u8, b: u8) -> Seq<char> {
    seq!['r', 'g', 'b', '('] + to_digits(r as nat) + seq![','] + to_digits(g as nat) + seq![',']
        + to_digits(b as nat) + seq![')']
}

proof fn lemma_hex_char(d: int)
    requires
        0 <= d < 16,
    ensures
        is_hex_digit(hex_char(d)),
        hex_value(hex_char(d)) == d,
{
}

proof fn lemma_skip_digit_run(s: Seq<char>, i: int, e: int)
    requires
        0 <= i <= e < s.len(),
        forall|k: int| i <= k < e ==> is_ascii_digit(#[trigger] s[k]),
        !is_ascii_digit(s[e]),
    ensures
        skip_digits(s, i) == e,
    decreases e - i,
{
    if i < e {
        lemma_skip_digit_run(s, i + 1, e);
    }
}

proof fn lemma_channel_of_digits(s: Seq<char>, i: int, v: u8)
    requires
        0 <= i,
        i + to_digits(v as nat).len() < s.len(),
        s.subrange(i, i + to_digits(v as nat).len()) == to_digits(v as nat),
        s[i + to_digits(v as nat).len()] == ',' || s[i + to_digits(v as nat).len()] == ')',
    ensures
        channel(s, i) == Some((v, i + to_digits(v as nat).len())),
{
    let d = to_digits(v as nat);
    let e = i + d.len();
    lemma_to_digits(v as nat);
    assert(s[i] == d[0]);
    assert(is_ascii_digit(s[i]));
    assert forall|k: int| i <= k < e implies is_ascii_digit(#[trigger] s[k]) by {
        assert(s[k] == d[k - i]);
    }
    lemma_skip_digit_run(s, i, e);
}

/// `#RRGGBB` and `rgb(r,g,b)` give the same color for the same channels, opaque.
pub proof fn lemma_hex_and_rgb_agree(r: u8, g: u8, b: u8)
    ensures
        color_of(hex_text(r, g, b)) == Some(Color { r, g, b, a: 255 }),
        color_of(rgb_text(r, g, b)) == Some(Color { r, g, b, a: 255 }),
{
    let h = hex_text(r, g, b);
    lemma_hex_char((r / 16) as int);
    lemma_hex_char((r % 16) as int);
    lemma_hex_char((g / 16) as int);
    lemma_hex_char((g % 16) as int);
    lemma_hex_char((b / 16) as int);
    lemma_hex_char((b % 16) as int);
    let hd = h.drop_first();
    assert(hd =~= seq![
        hex_char((r / 16) as int),
        hex_char((r % 16) as int),
        hex_char((g / 16) as int),
        hex_char((g % 16) as int),
        hex_char((b / 16) as int),
        hex_char((b % 16) as int),
    ]);
    assert(forall|i: int| 0 <= i < hd.len() ==> is_hex_digit(#[trigger] hd[i]));
    assert((r / 16) * 16 + r % 16 == r);
    assert((g / 16) * 16 + g % 16 == g);
    assert((b / 16) * 16 + b % 16 == b);

    let dr = to_digits(r as nat);
    let dg = to_digits(g as nat);
    let db = to_digits(b as nat);
    let s = rgb_text(r, g, b);
    let i1: int = 4;
    let e1 = i1 + dr.len();
    let i2 = e1 + 1;
    let e2 = i2 + dg.len();
    let i3 = e2 + 1;
    let e3 = i3 + db.len();
    assert(s.len() == e3 + 1);
    assert(s.subrange(i1, e1) =~= dr);
    assert(s[e1] == ',');
    assert(s.subrange(i2, e2) =~= dg);
    assert(s[e2] == ',');
    assert(s.subrange(i3, e3) =~= db);
    assert(s[e3] == ')');
    lemma_channel_of_digits(s, i1, r);
    lemma_channel_of_digits(s, i2, g);
    lemma_channel_of_digits(s, i3, b);
    assert(starts_rgb(s));
    assert(channels(s, i3, 1) == Some(seq![b]));
    assert(channels(s, i2, 2) == Some(seq![g] + seq![b]));
    assert(channels(s, i1, 3) == Some(seq![r] + (seq![g] + seq![b])));
}

/// How the children of an element share the space.
#[derive(Clone, Copy, Debug, PartialEq, Eq, Hash, Structural)]
pub enum LayerMode {
    Multi,
    Single,
}

/// Why a layer-mode value was refused.
#[derive(Clone, Copy, Debug, PartialEq, Eq, Hash, Structural)]
pub enum LayerModeParseError {
    UnknownMode,
}

impl LayerMode {
    /// Reads `multi` or `single`.
    pub fn parse(value: &str) -> (r: Result<LayerMode, LayerModeParseError>)
        ensures
            r == if value@ == "multi"@ {
                Ok(LayerMode::Multi)
            } else if value@ == "single"@ {
                Ok(LayerMode::Single)
            } else {
                Err(LayerModeParseError::UnknownMode)
            },
    {
        if str_is(value, "multi") {
            Ok(LayerMode::Multi)
        } else if str_is(value, "single") {
            Ok(LayerMode::Single)
        } else {
            Err(LayerModeParseError::UnknownMode)
        }
    }
}

impl std::str::FromStr for LayerMode {
    type Err = LayerModeParseError;

    fn from_str(value: &str) -> (r: Result<LayerMode, LayerModeParseError>)
        ensures
            r == if value@ == "multi"@ {
                Ok(LayerMode::Multi)
            } else if value@ == "single"@ {
                Ok(LayerMode::Single)
            } else {
                Err(LayerModeParseError::UnknownMode)
            },
    {
        LayerMode::parse(value)
    }
}

/// Whether the children of an element play one after another or together.
#[derive(Clone, Copy, Debug, PartialEq, Eq, Hash, Structural)]
pub enum Order {
    Sequence,
    Parallel,
}

/// Why an order value was refused.
#[derive(Clone, Copy, Debug, PartialEq, Eq, Hash, Structural)]
pub enum OrderParseError {
    UnknownMode,
}

impl Order {
    /// Reads `sequence` or `parallel`.
    pub fn parse(value: &str) -> (r: Result<Order, OrderParseError>)
        ensures
            r == if value@ == "sequence"@ {
                Ok(Order::Sequence)
            } else if value@ == "parallel"@ {
                Ok(Order::Parallel)
            } else {
                Err(OrderParseError::UnknownMode)
            },
    {
        if str_is(value, "sequence") {
            Ok(Order::Sequence)
        } else if str_is(value, "parallel") {
            Ok(Order::Parallel)
        } else {
            Err(OrderParseError::UnknownMode)
        }
    }
}

impl std::str::FromStr for Order {
    type Err = OrderParseError;

    fn from_str(value: &str) -> (r: Result<Order, OrderParseError>)
        ensures
            r == if value@ == "sequence"@ {
                Ok(Order::Sequence)
            } else if value@ == "parallel"@ {
                Ok(Order::Parallel)
            } else {
                Err(OrderParseError::UnknownMode)
            },
    {
        Order::parse(value)
    }
}

/// The units a duration value can be written in.
#[derive(Clone, Copy, Debug, PartialEq, Eq, Hash, Structural)]
pub enum TimeUnit {
    Percent,
    Frame,
    Second,
    Fit,
}

/// A duration value: a share of the nearest finite ancestor duration, a number of frames,
/// seconds, or as long as the enclosing element.
#[derive(Clone, Copy, Debug, PartialEq, Eq, Hash, Structural)]
pub enum Duration {
    Percent(Decimal),
    Frame(usize),
    Second(Decimal),
    Fit,
}

/// Why a duration value was refused.
#[derive(Clone, Copy, Debug, PartialEq, Eq, Hash, Structural)]
pub enum DurationParseError {
    NumberParseError,
    UnknownUnit,
}

/// Why an audio-volume value was refused.
#[derive(Clone, Copy, Debug, PartialEq, Eq, Hash, Structural)]
pub enum AudioVolumeParseError {
    NumberParseError,
    UnknownUnit,
}

/// What a duration value means: `fit`; `0` (no frames); a number and `s` (seconds), `f`
/// (frames) or `%` (of the ancestor's duration).
pub open spec fn duration_of(s: Seq<char>) -> Result<Duration, DurationParseError> {
    if s == "fit"@ {
        Ok(Duration::Fit)
    } else if s == "0"@ {
        Ok(Duration::Frame(0))
    } else if s.len() > 0 && s.last() == 's' {
        match decimal_of(s.drop_last()) {
            Some(d) => Ok(Duration::Second(d)),
            None => Err(DurationParseError::NumberParseError),
        }
    } else if s.len() > 0 && s.last() == 'f' {
        match unsigned_of(s.drop_last(), usize::MAX as int) {
            Some(n) => Ok(Duration::Frame(n as usize)),
            None => Err(DurationParseError::NumberParseError),
        }
    } else if s.len() > 0 && s.last() == '%' {
        match decimal_of(s.drop_last()) {
            Some(d) => Ok(Duration::Percent(d)),
            None => Err(DurationParseError::NumberParseError),
        }
    } else {
        Err(DurationParseError::UnknownUnit)
    }
}

impl Duration {
    /// Reads a duration value.
    pub fn parse(value: &str) -> (r: Result<Duration, DurationParseError>)
        ensures
            r == duration_of(value@),
            r matches Ok(d) ==> duration_normal(d),
    {
        if str_is(value, "fit") {
            return Ok(Duration::Fit);
        }
        if str_is(value, "0") {
            return Ok(Duration::Frame(0));
        }
        let cs = chars_of(value);
        let n = cs.len();
        if n == 0 {
            return Err(DurationParseError::UnknownUnit);
        }
        let unit = cs[n - 1];
        let number = cs.as_slice().split_at(n - 1).0;
        assert(number@ =~= value@.drop_last());
        if unit == 's' {
            match parse_decimal(number) {
                Some(d) => Ok(Duration::Second(d)),
                None => Err(DurationParseError::NumberParseError),
            }
        } else if unit == 'f' {
            match parse_usize(number) {
                Some(v) => Ok(Duration::Frame(v)),
                None => Err(DurationParseError::NumberParseError),
            }
        } else if unit == '%' {
            match parse_decimal(number) {
                Some(d) => Ok(Duration::Percent(d)),
                None => Err(DurationParseError::NumberParseError),
            }
        } else {
            Err(DurationParseError::UnknownUnit)
        }
    }
}

/// How a duration is written: `fit`, or its number followed by `f`, `s` or `%`.
pub open spec fn duration_text(d: Duration) -> Seq<char> {
    match d {
        Duration::Fit => "fit"@,
        Duration::Frame(n) => to_digits(n as nat) + seq!['f'],
        Duration::Second(x) => decimal_text(x) + seq!['s'],
        Duration::Percent(x) => decimal_text(x) + seq!['%'],
    }
}

/// Whether the numbers of a duration come without trailing zeros after the point, as
/// reading gives them.
pub open spec fn duration_normal(d: Duration) -> bool {
    match d {
        Duration::Second(x) => is_normal(x),
        Duration::Percent(x) => is_normal(x),
        _ => true,
    }
}

/// Writing a duration and reading it back gives the same duration.
pub proof fn lemma_duration_round_trip(d: Duration)
    requires
        duration_normal(d),
    ensures
        duration_of(duration_text(d)) == Ok::<Duration, DurationParseError>(d),
{
    reveal_strlit("fit");
    reveal_strlit("0");
    let s = duration_text(d);
    match d {
        Duration::Fit => {},
        Duration::Frame(n) => {
            lemma_to_digits(n as nat);
            assert(s.drop_last() =~= to_digits(n as nat));
            assert(s.last() == 'f');
            assert(s != "fit"@);
            assert(s != "0"@);
            assert(unsigned_part(s.drop_last()) == s.drop_last());
        },
        Duration::Second(x) => {
            lemma_decimal_round_trip(x);
            assert(s.drop_last() =~= decimal_text(x));
            assert(s.last() == 's');
            assert(s != "fit"@);
            assert(s != "0"@);
        },
        Duration::Percent(x) => {
            lemma_decimal_round_trip(x);
            assert(s.drop_last() =~= decimal_text(x));
            assert(s.last() == '%');
            assert(s != "fit"@);
            assert(s != "0"@);
        },
    }
}

impl Duration {
    /// How the duration is written; reading it back gives the same duration.
    pub fn text(&self) -> (r: String)
        ensures
            r@ == duration_text(*self),
    {
        let mut cs: Vec<char> = match self {
            Duration::Fit => {
                return string_of(chars_of("fit").as_slice());
            },
            Duration::Frame(n) => digits_of(*n as u64),
            Duration::Second(x) => x.text(),
            Duration::Percent(x) => x.text(),
        };
        let unit = match self {
            Duration::Frame(_) => 'f',
            Duration::Second(_) => 's',
            _ => '%',
        };
        let ghost before = cs@;
        cs.push(unit);
        assert(cs@ =~= before + seq![unit]);
        string_of(cs.as_slice())
    }
}

impl std::str::FromStr for Duration {
    type Err = DurationParseError;

    fn from_str(value: &str) -> (r: Result<Duration, DurationParseError>)
        ensures
            r == duration_of(value@),
            r matches Ok(d) ==> duration_normal(d),
    {
        Duration::parse(value)
    }
}

/// An audio volume: a percentage of the source level.
#[derive(Clone, Copy, Debug, PartialEq, Eq, Hash, Structural)]
pub enum AudioVolume {
    Percent(Decimal),
}

/// What an audio-volume value means: a number and `%`.
pub open spec fn audio_volume_of(s: Seq<char>) -> Result<AudioVolume, AudioVolumeParseError> {
    if s.len() > 0 && s.last() == '%' {
        match decimal_of(s.drop_last()) {
            Some(d) => Ok(AudioVolume::Percent(d)),
            None => Err(AudioVolumeParseError::NumberParseError),
        }
    } else {
        Err(AudioVolumeParseError::UnknownUnit)
    }
}

impl AudioVolume {
    /// Reads an audio-volume value.
    pub fn parse(value: &str) -> (r: Result<AudioVolume, AudioVolumeParseError>)
        ensures
            r == audio_volume_of(value@),
    {
        let cs = chars_of(value);
        let n = cs.len();
        if n == 0 || cs[n - 1] != '%' {
            return Err(AudioVolumeParseError::UnknownUnit);
        }
        let number = cs.as_slice().split_at(n - 1).0;
        assert(number@ =~= value@.drop_last());
        match parse_decimal(number) {
            Some(d) => Ok(AudioVolume::Percent(d)),
            None => Err(AudioVolumeParseError::NumberParseError),
        }
    }
}

impl std::str::FromStr for AudioVolume {
    type Err = AudioVolumeParseError;

    fn from_str(value: &str) -> (r: Result<AudioVolume, AudioVolumeParseError>)
        ensures
            r == audio_volume_of(value@),
    {
        AudioVolume::parse(value)
    }
}

/// A length: pixels, a percentage of the resolution's width or height, or a percentage of
/// the parent's length on the same axis.
#[derive(Clone, Copy, Debug, PartialEq, Eq, Hash, Structural)]
pub enum Length {
    Pixel(Decimal),
    ResolutionWidth(Decimal),
    ResolutionHeight(Decimal),
    Percent(Decimal),
}

/// Why a length value was refused.
#[derive(Clone, Copy, Debug, PartialEq, Eq, Hash, Structural)]
pub enum LengthParseError {
    NumberParseError,
    UnknownUnit,
}

pub open spec fn ends_with2(s: Seq<char>, a: char, b: char) -> bool {
    s.len() >= 2 && s[s.len() - 2] == a && s[s.len() - 1] == b
}

pub open spec fn length_number(
    s: Seq<char>,
    unit_len: int,
) -> Result<Decimal, LengthParseError> {
    match decimal_of(s.subrange(0, s.len() - unit_len)) {
        Some(d) => Ok(d),
        None => Err(LengthParseError::NumberParseError),
    }
}

/// What a length value means: `0`; a number and `px`, `rw`, `rh` or `%`.
pub open spec fn length_of(s: Seq<char>) -> Result<Length, LengthParseError> {
    if s == "0"@ {
        Ok(Length::Pixel(Decimal { digits: 0, scale: 0 }))
    } else if ends_with2(s, 'p', 'x') {
        match length_number(s, 2) {
            Ok(d) => Ok(Length::Pixel(d)),
            Err(e) => Err(e),
        }
    } else if ends_with2(s, 'r', 'w') {
        match length_number(s, 2) {
            Ok(d) => Ok(Length::ResolutionWidth(d)),
            Err(e) => Err(e),
        }
    } else if ends_with2(s, 'r', 'h') {
        match length_number(s, 2) {
            Ok(d) => Ok(Length::ResolutionHeight(d)),
            Err(e) => Err(e),
        }
    } else if s.len() > 0 && s.last() == '%' {
        match length_number(s, 1) {
            Ok(d) => Ok(Length::Percent(d)),
            Err(e) => Err(e),
        }
    } else {
        Err(LengthParseError::UnknownUnit)
    }
}

impl Length {
    /// Reads a length value.
    pub fn parse(value: &str) -> (r: Result<Length, LengthParseError>)
        ensures
            r == length_of(value@),
    {
        if str_is(value, "0") {
            return Ok(Length::Pixel(Decimal { digits: 0, scale: 0 }));
        }
        let cs = chars_of(value);
        let n = cs.len();
        let two = n >= 2 && ((cs[n - 2] == 'p' && cs[n - 1] == 'x') || (cs[n - 2] == 'r' && (cs[n
            - 1] == 'w' || cs[n - 1] == 'h')));
        let unit_len: usize = if two {
            2
        } else if n > 0 && cs[n - 1] == '%' {
            1
        } else {
            return Err(LengthParseError::UnknownUnit);
        };
        let number = cs.as_slice().split_at(n - unit_len).0;
        assert(number@ =~= value@.subrange(0, value@.len() - unit_len));
        let d = match parse_decimal(number) {
            Some(d) => d,
            None => {
                return Err(LengthParseError::NumberParseError);
            },
        };
        if unit_len == 1 {
            Ok(Length::Percent(d))
        } else if cs[n - 2] == 'p' {
            Ok(Length::Pixel(d))
        } else if cs[n - 1] == 'w' {
            Ok(Length::ResolutionWidth(d))
        } else {
            Ok(Length::ResolutionHeight(d))
        }
    }
}

impl std::str::FromStr for Length {
    type Err = LengthParseError;

    fn from_str(value: &str) -> (r: Result<Length, LengthParseError>)
        ensures
            r == length_of(value@),
    {
        Length::parse(value)
    }
}

/// The state of a left-to-right reading of a font-family list: the names finished so far,
/// the name being read, whether a quote is open, and whether the last character was an
/// unused backslash.
pub struct FamilyScan {
    pub done: Seq<Seq<char>>,
    pub current: Seq<char>,
    pub in_quotes: bool,
    pub escaped: bool,
}

/// `done`, with `current` added, trimmed, when something is left of it after trimming.
pub open spec fn flush_family(done: Seq<Seq<char>>, current: Seq<char>) -> Seq<Seq<char>> {
    if trim(current).len() > 0 {
        done.push(trim(current))
    } else {
        done
    }
}

/// One character of a font-family list: an unescaped quote opens or closes a quoted run and
/// is dropped; an unescaped backslash escapes the next character and is dropped; an unescaped
/// comma outside quotes ends a name; anything else is part of the name.
pub open spec fn family_step(st: FamilyScan, c: char) -> FamilyScan {
    if (c == '"' || c == '\'') && !st.escaped {
        FamilyScan { in_quotes: !st.in_quotes, ..st }
    } else if c == '\\' && !st.escaped {
        FamilyScan { escaped: true, ..st }
    } else if c == ',' && !st.in_quotes && !st.escaped {
        FamilyScan { done: flush_family(st.done, st.current), current: Seq::empty(), ..st }
    } else {
        FamilyScan { current: st.current.push(c), escaped: false, ..st }
    }
}

/// The state after reading all of `s`.
pub open spec fn family_scan(s: Seq<char>) -> FamilyScan
    decreases s.len(),
{
    if s.len() == 0 {
        FamilyScan { done: Seq::empty(), current: Seq::empty(), in_quotes: false, escaped: false }
    } else {
        family_step(family_scan(s.drop_last()), s.last())
    }
}

/// The font names of a font-family value, in order.
pub open spec fn font_families(s: Seq<char>) -> Seq<Seq<char>> {
    flush_family(family_scan(s).done, family_scan(s).current)
}

fn flush_into(done: &mut Vec<String>, current: &Vec<char>)
    ensures
        strings_view(final(done)@) == flush_family(strings_view(old(done)@), current@),
{
    let t = trimmed(current.as_slice());
    if t.len() > 0 {
        let ghost before = done@;
        let name = string_of(t.as_slice());
        done.push(name);
        assert(strings_view(done@) =~= strings_view(before).push(t@));
    }
}

/// Splits a font-family value into font names: comma separated, with single- or double-quoted
/// runs, backslash escapes, names trimmed and empty names dropped.
pub fn parse_font_family(value: &str) -> (r: Vec<String>)
    ensures
        strings_view(r@) == font_families(value@),
{
    let cs = chars_of(value);
    let mut done: Vec<String> = Vec::new();
    let mut current: Vec<char> = Vec::new();
    let mut in_quotes = false;
    let mut escaped = false;
    let mut i: usize = 0;
    assert(strings_view(done@) =~= Seq::<Seq<char>>::empty());
    assert(current@ =~= Seq::<char>::empty());
    assert(cs@.subrange(0, 0) =~= Seq::<char>::empty());
    while i < cs.len()
        invariant
            i <= cs@.len(),
            cs@ == value@,
            family_scan(cs@.subrange(0, i as int)) == (FamilyScan {
                done: strings_view(done@),
                current: current@,
                in_quotes,
                escaped,
            }),
        decreases cs@.len() - i,
    {
        let c = cs[i];
        assert(cs@.subrange(0, i + 1).drop_last() =~= cs@.subrange(0, i as int));
        if (c == '"' || c == '\'') && !escaped {
            in_quotes = !in_quotes;
        } else if c == '\\' && !escaped {
            escaped = true;
        } else if c == ',' && !in_quotes && !escaped {
            flush_into(&mut done, &current);
            current = Vec::new();
            assert(current@ =~= Seq::<char>::empty());
        } else {
            current.push(c);
            escaped = false;
        }
        i = i + 1;
    }
    assert(cs@.subrange(0, i as int) =~= cs@);
    flush_into(&mut done, &current);
    done
}

/// The style a text run is drawn with.
#[derive(Debug, Clone)]
pub struct TextStyleData {
    pub color: Option<Color>,
    pub font_family: Vec<String>,
}

impl TextStyleData {
    /// Applies a `font-family` value: its names come first, ahead of the inherited ones.
    pub fn apply_font_family(&mut self, value: &str)
        ensures
            final(self).color == old(self).color,
            strings_view(final(self).font_family@) == font_families(value@) + strings_view(
                old(self).font_family@,
            ),
    {
        let mut families = parse_font_family(value);
        let ghost first = families@;
        let ghost rest = self.font_family@;
        families.append(&mut self.font_family);
        assert(strings_view(families@) =~= strings_view(first) + strings_view(rest));
        self.font_family = families;
    }
}

/// A piece of text and its style.
#[derive(Debug, Clone)]
pub struct TextData {
    pub text: String,
    pub style: TextStyleData,
}

/// What an object processor gets from an element's children. Image and text input never
/// come together.
pub enum ProcessorInput<I> {
    /// No input.
    Nothing,
    /// The children, drawn into one image.
    Image(I),
    /// The text runs of the children.
    Text(Vec<TextData>),
}

} // verus!
