//! Colour tags of the form `#RRGGBB`.

use vstd::prelude::*;

verus! {

/// A colour tag whose three byte pairs are not all hexadecimal.
#[derive(Clone, Copy, Debug, PartialEq, Eq)]
pub struct ColorFormatError;

/// A 24-bit colour, one byte per channel.
#[derive(Clone, Copy, Debug, PartialEq, Eq, Structural)]
pub struct Rgb {
    pub red: u8,
    pub green: u8,
    pub blue: u8,
}

/// What `u8::from_str_radix` reads from a string in the base `radix`: the
/// byte, or nothing where it rejects the string.
pub uninterp spec fn radix_byte(s: Seq<char>, radix: u32) -> Option<u8>;

/// What a string of hexadecimal digits reads as.
pub open spec fn hex_byte(s: Seq<char>) -> Option<u8> {
    radix_byte(s, 16)
}

/// The characters of `s` from index `start` up to, not including, index
/// `end`, both cut down to the length of `s`; empty where `end <= start`.
pub open spec fn char_range(s: Seq<char>, start: int, end: int) -> Seq<char> {
    if end <= start {
        Seq::empty()
    } else if start >= s.len() {
        Seq::empty()
    } else if end >= s.len() {
        s.subrange(start, s.len() as int)
    } else {
        s.subrange(start, end)
    }
}

/// Calls `substring::Substring::substring`.
/// Trusted: the slice holds the characters at the indices from `start` to
/// `end - 1` that the string has, counted in characters and not in bytes,
/// and is empty where `end <= start`.
#[verifier::external_body]
fn slice_chars(s: &str, start: usize, end: usize) -> (r: &str)
    ensures
        r@ == char_range(s@, start as int, end as int),
{
    substring::Substring::substring(s, start, end)
}

/// Calls `u8::from_str_radix`, which panics on a radix outside 2 to 36.
/// Trusted: the result is a function of the string and the radix alone,
/// named `radix_byte`.
#[verifier::external_body]
fn read_byte(s: &str, radix: u32) -> (r: Option<u8>)
    requires
        2 <= radix <= 36,
    ensures
        r == radix_byte(s@, radix),
{
    u8::from_str_radix(s, radix).ok()
}

/// The colour that three channel readings stand for.
pub open spec fn channels_color(red: Option<u8>, green: Option<u8>, blue: Option<u8>) -> Option<
    Rgb,
> {
    match (red, green, blue) {
        (Some(r), Some(g), Some(b)) => Some(Rgb { red: r, green: g, blue: b }),
        _ => None,
    }
}

/// The colour that a tag stands for: its characters 1 and 2 are the red
/// byte, 3 and 4 the green byte, 5 and 6 the blue byte.
pub open spec fn tag_color(tag: Seq<char>) -> Option<Rgb> {
    channels_color(
        hex_byte(char_range(tag, 1, 3)),
        hex_byte(char_range(tag, 3, 5)),
        hex_byte(char_range(tag, 5, 7)),
    )
}

/// Joins three channel readings into a colour; one missing channel is a
/// format error.
pub fn color_from_channels(red: Option<u8>, green: Option<u8>, blue: Option<u8>) -> (r: Result<
    Rgb,
    ColorFormatError,
>)
    ensures
        match channels_color(red, green, blue) {
            Some(c) => r == Ok::<Rgb, ColorFormatError>(c),
            None => r.is_err(),
        },
{
    match (red, green, blue) {
        (Some(r), Some(g), Some(b)) => Ok(Rgb { red: r, green: g, blue: b }),
        _ => Err(ColorFormatError),
    }
}

/// Reads a colour tag `#RRGGBB`. The leading character is passed over
/// unread.
pub fn parse_color(tag: &str) -> (r: Result<Rgb, ColorFormatError>)
    ensures
        match tag_color(tag@) {
            Some(c) => r == Ok::<Rgb, ColorFormatError>(c),
            None => r.is_err(),
        },
{
    let red = read_byte(slice_chars(tag, 1, 3), 16);
    let green = read_byte(slice_chars(tag, 3, 5), 16);
    let blue = read_byte(slice_chars(tag, 5, 7), 16);
    color_from_channels(red, green, blue)
}

} // verus!
