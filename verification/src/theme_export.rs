//! Colors and names of themes: hex notation of RGB colors, and the name of
//! the complementary theme.

use crate::text::chars_of;
use crate::text::ends_with;
use crate::text::join2;
use crate::text::replace_all;
use crate::text::spec_ends_with;
use crate::text::spec_replace_all;
use crate::text::string_of;
use vstd::prelude::*;
use vstd::string::StringExecFns;

verus! {

/// An RGB color.
#[derive(Debug, Clone, Copy, PartialEq, Eq, Structural)]
pub struct Rgb {
    pub r: u8,
    pub g: u8,
    pub b: u8,
}

/// The upper-case hex digit of a value below 16.
pub open spec fn spec_hex_digit(d: u8) -> char {
    if d < 10 {
        (0x30 + d) as char
    } else {
        (0x41 + d - 10) as char
    }
}

/// The two upper-case hex digits of a byte.
pub open spec fn spec_hex_byte(v: u8) -> Seq<char> {
    seq![spec_hex_digit(v / 16), spec_hex_digit(v % 16)]
}

/// The hex notation of a color: `#`, then two upper-case hex digits each for
/// red, green and blue.
pub open spec fn spec_to_hex(color: Rgb) -> Seq<char> {
    seq!['#'] + spec_hex_byte(color.r) + spec_hex_byte(color.g) + spec_hex_byte(color.b)
}

/// The value of a hex digit of either case, or `None` for another character.
pub open spec fn spec_hex_value(c: char) -> Option<u8> {
    let u = c as u32;
    if 0x30 <= u <= 0x39 {
        Some((u - 0x30) as u8)
    } else if 0x41 <= u <= 0x46 {
        Some((u - 0x41 + 10) as u8)
    } else if 0x61 <= u <= 0x66 {
        Some((u - 0x61 + 10) as u8)
    } else {
        None
    }
}

/// The value of a color component of two characters: two hex digits, or a
/// plus sign and one hex digit. `None` for anything else.
pub open spec fn spec_component(first: char, second: char) -> Option<u8> {
    match (spec_hex_value(first), spec_hex_value(second)) {
        (Some(high), Some(low)) => Some((16 * high + low) as u8),
        (None, Some(low)) => if first == '+' {
            Some(low)
        } else {
            None
        },
        _ => None,
    }
}

/// A text without the `#` characters at its start.
pub open spec fn spec_strip_hashes(text: Seq<char>) -> Seq<char>
    decreases text.len(),
{
    if text.len() > 0 && text[0] == '#' {
        spec_strip_hashes(text.drop_first())
    } else {
        text
    }
}

/// The number of bytes of a character in UTF-8.
pub open spec fn spec_utf8_width(c: char) -> nat {
    let u = c as u32;
    if u < 0x80 {
        1
    } else if u < 0x800 {
        2
    } else if u < 0x10000 {
        3
    } else {
        4
    }
}

/// The number of bytes of a text in UTF-8.
pub open spec fn spec_utf8_len(text: Seq<char>) -> nat
    decreases text.len(),
{
    if text.len() == 0 {
        0
    } else {
        spec_utf8_len(text.drop_last()) + spec_utf8_width(text.last())
    }
}

/// The color that a text denotes in hex notation, or the message that says
/// what is wrong with it.
///
/// The `#` characters at the start do not count. What is left has to be six
/// bytes long, two each for red, green and blue, and each component has to
/// have a value. A text of another length is no hex color, nor is one of six
/// bytes that holds a character of several bytes.
pub open spec fn spec_from_hex(text: Seq<char>) -> Result<Rgb, Seq<char>> {
    let digits = spec_strip_hashes(text);
    if spec_utf8_len(digits) != 6 || digits.len() != 6 {
        Err("Invalid hex color: "@ + digits)
    } else {
        match spec_component(digits[0], digits[1]) {
            None => Err("Invalid red component: "@ + digits.subrange(0, 2)),
            Some(r) => match spec_component(digits[2], digits[3]) {
                None => Err("Invalid green component: "@ + digits.subrange(2, 4)),
                Some(g) => match spec_component(digits[4], digits[5]) {
                    None => Err("Invalid blue component: "@ + digits.subrange(4, 6)),
                    Some(b) => Ok(Rgb { r, g, b }),
                },
            },
        }
    }
}

fn hex_digit(d: u8) -> (c: char)
    requires
        d < 16,
    ensures
        c == spec_hex_digit(d),
{
    if d < 10 {
        (0x30 + d) as char
    } else {
        (0x41 + d - 10) as char
    }
}

fn hex_value(c: char) -> (value: Option<u8>)
    ensures
        value == spec_hex_value(c),
        value matches Some(v) ==> v < 16,
{
    let u = c as u32;
    if 0x30 <= u && u <= 0x39 {
        Some((u - 0x30) as u8)
    } else if 0x41 <= u && u <= 0x46 {
        Some((u - 0x41 + 10) as u8)
    } else if 0x61 <= u && u <= 0x66 {
        Some((u - 0x61 + 10) as u8)
    } else {
        None
    }
}

fn component(first: char, second: char) -> (value: Option<u8>)
    ensures
        value == spec_component(first, second),
{
    match (hex_value(first), hex_value(second)) {
        (Some(high), Some(low)) => Some(16 * high + low),
        (None, Some(low)) => if first == '+' {
            Some(low)
        } else {
            None
        },
        _ => None,
    }
}

fn utf8_width(c: char) -> (width: usize)
    ensures
        width == spec_utf8_width(c),
{
    let u = c as u32;
    if u < 0x80 {
        1
    } else if u < 0x800 {
        2
    } else if u < 0x10000 {
        3
    } else {
        4
    }
}

impl Rgb {
    /// The color with the given components.
    pub fn new(r: u8, g: u8, b: u8) -> (color: Rgb)
        ensures
            color == (Rgb { r, g, b }),
    {
        Rgb { r, g, b }
    }

    /// Writes the color in hex notation, as in `#FF0000`.
    pub fn to_hex(self) -> (hex: String)
        ensures
            hex@ == spec_to_hex(self),
    {
        let mut hex = String::new();
        hex.push('#');
        hex.push(hex_digit(self.r / 16));
        hex.push(hex_digit(self.r % 16));
        hex.push(hex_digit(self.g / 16));
        hex.push(hex_digit(self.g % 16));
        hex.push(hex_digit(self.b / 16));
        hex.push(hex_digit(self.b % 16));
        assert(hex@ =~= spec_to_hex(self));
        hex
    }

    /// Reads a color in hex notation, with or without `#` at the start.
    pub fn from_hex(hex: &str) -> (parsed: Result<Rgb, String>)
        ensures
            match (parsed, spec_from_hex(hex@)) {
                (Ok(color), Ok(wanted)) => color == wanted,
                (Err(message), Err(wanted)) => message@ == wanted,
                _ => false,
            },
    {
        let chars = chars_of(hex);
        let n = chars.len();
        let mut start: usize = 0;
        assert(chars@.subrange(0, n as int) =~= chars@);
        while start < n && chars[start] == '#'
            invariant
                start <= n,
                n == chars@.len(),
                spec_strip_hashes(chars@) == spec_strip_hashes(
                    chars@.subrange(start as int, n as int),
                ),
            decreases n - start,
        {
            assert(chars@.subrange(start as int, n as int).drop_first() =~= chars@.subrange(
                start + 1,
                n as int,
            ));
            start += 1;
        }
        let ghost digits = chars@.subrange(start as int, n as int);
        assert(spec_strip_hashes(hex@) == digits) by {
            if start < n {
                assert(digits[0] == chars@[start as int]);
            }
        }
        let mut bytes: usize = 0;
        let mut i: usize = start;
        while i < n && bytes <= 6
            invariant
                start <= i <= n,
                n == chars@.len(),
                bytes == spec_utf8_len(chars@.subrange(start as int, i as int)),
                bytes <= 10,
            decreases n - i,
        {
            assert(chars@.subrange(start as int, i + 1).drop_last() =~= chars@.subrange(
                start as int,
                i as int,
            ));
            bytes += utf8_width(chars[i]);
            i += 1;
        }
        proof {
            if i < n {
                lemma_utf8_len_grows(digits, i - start);
                assert(digits.subrange(0, i - start) =~= chars@.subrange(start as int, i as int));
            } else {
                assert(chars@.subrange(start as int, i as int) =~= digits);
            }
        }
        if bytes != 6 || i < n || n - start != 6 {
            let rest = string_of(&chars, start, n);
            return Err(join2("Invalid hex color: ", rest.as_str()));
        }
        let r = match component(chars[start], chars[start + 1]) {
            Some(r) => r,
            None => {
                let pair = string_of(&chars, start, start + 2);
                assert(pair@ =~= digits.subrange(0, 2));
                return Err(join2("Invalid red component: ", pair.as_str()));
            },
        };
        let g = match component(chars[start + 2], chars[start + 3]) {
            Some(g) => g,
            None => {
                let pair = string_of(&chars, start + 2, start + 4);
                assert(pair@ =~= digits.subrange(2, 4));
                return Err(join2("Invalid green component: ", pair.as_str()));
            },
        };
        let b = match component(chars[start + 4], chars[start + 5]) {
            Some(b) => b,
            None => {
                let pair = string_of(&chars, start + 4, start + 6);
                assert(pair@ =~= digits.subrange(4, 6));
                return Err(join2("Invalid blue component: ", pair.as_str()));
            },
        };
        Ok(Rgb { r, g, b })
    }
}

/// The name of the complementary theme: a name that ends in ` Light` has
/// every ` Light` replaced by ` Dark`, else one that ends in ` Dark` has
/// every ` Dark` replaced by ` Light`, and any other name gets ` Dark`
/// appended.
pub open spec fn spec_complementary_name(name: Seq<char>) -> Seq<char> {
    if spec_ends_with(name, " Light"@) {
        spec_replace_all(name, " Light"@, " Dark"@)
    } else if spec_ends_with(name, " Dark"@) {
        spec_replace_all(name, " Dark"@, " Light"@)
    } else {
        name + " Dark"@
    }
}

/// Writes the name of the complementary theme.
pub fn generate_complementary_name(name: &str) -> (complement: String)
    ensures
        complement@ == spec_complementary_name(name@),
{
    let chars = chars_of(name);
    let light = chars_of(" Light");
    let dark = chars_of(" Dark");
    proof {
        reveal_strlit(" Light");
        reveal_strlit(" Dark");
    }
    if ends_with(&chars, &light) {
        replace_all(&chars, &light, &dark)
    } else if ends_with(&chars, &dark) {
        replace_all(&chars, &dark, &light)
    } else {
        join2(name, " Dark")
    }
}

proof fn lemma_utf8_len_grows(text: Seq<char>, k: int)
    requires
        0 <= k <= text.len(),
    ensures
        spec_utf8_len(text.subrange(0, k)) <= spec_utf8_len(text),
    decreases text.len() - k,
{
    if k < text.len() {
        lemma_utf8_len_grows(text, k + 1);
        assert(text.subrange(0, k + 1).drop_last() =~= text.subrange(0, k));
    } else {
        assert(text.subrange(0, k) =~= text);
    }
}

} // verus!
