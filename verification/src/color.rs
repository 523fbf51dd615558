//! Quantised colours and the text of a PPM image.
//!
//! A colour has four channels: red, green, blue and alpha. The renderer
//! computes each as a number, mostly between zero and one, and scales it to
//! the range of a byte; here the scaled number, as its key, is cut down to
//! the byte. The image format is the plain, textual PPM: a line
//! with the magic word, a line with width and height, a line with the
//! largest channel value, and a line of red, green and blue for each pixel,
//! row by row. All numbers are decimal, without sign or leading zeros.
use vstd::prelude::*;

use crate::scalar::{spec_is_number, spec_lt, INFINITY, ONE};

verus! {

/// Key of the number 255, the largest value of a channel.
pub const FULL: u64 = 0x406F_E000_0000_0000;

/// The key of the whole number `k`, from 0 to 256. With `e` the place of
/// the highest bit of `k`, it holds `1023 + e` as its exponent and the
/// lower bits of `k`, moved up against the exponent, as its fraction.
pub open spec fn level(k: int) -> int {
    if k <= 0 {
        0
    } else if k < 2 {
        0x3FE0_0000_0000_0000 + k * 0x0010_0000_0000_0000
    } else if k < 4 {
        0x3FF0_0000_0000_0000 + k * 0x0008_0000_0000_0000
    } else if k < 8 {
        0x4000_0000_0000_0000 + k * 0x0004_0000_0000_0000
    } else if k < 16 {
        0x4010_0000_0000_0000 + k * 0x0002_0000_0000_0000
    } else if k < 32 {
        0x4020_0000_0000_0000 + k * 0x0001_0000_0000_0000
    } else if k < 64 {
        0x4030_0000_0000_0000 + k * 0x0000_8000_0000_0000
    } else if k < 128 {
        0x4040_0000_0000_0000 + k * 0x0000_4000_0000_0000
    } else if k < 256 {
        0x4050_0000_0000_0000 + k * 0x0000_2000_0000_0000
    } else {
        0x4070_0000_0000_0000
    }
}

/// `q` is the byte for the scaled channel with key `x`: the whole part of
/// the number, and 255 for everything from 255 up, infinity too. What is
/// below zero, or not a number, gives zero.
pub open spec fn quantises_to(x: u64, q: u8) -> bool {
    if x <= INFINITY {
        level(q as int) <= x && (q < 255 ==> x < level(q + 1))
    } else {
        q == 0
    }
}

/// Cuts a scaled channel down to a byte: towards zero, and to the nearer
/// end of the byte's range where the number lies outside it.
pub fn quantise(x: u64) -> (q: u8)
    ensures
        quantises_to(x, q),
{
    if x < ONE || x > INFINITY {
        0
    } else if x >= FULL {
        255
    } else {
        assert(1023 <= (x >> 52) <= 1030) by (bit_vector)
            requires
                0x3FF0_0000_0000_0000 <= x < 0x406F_E000_0000_0000,
        ;
        let exponent: u64 = (x >> 52) - 1023;
        let digits: u64 = (x & 0x000F_FFFF_FFFF_FFFF) | 0x0010_0000_0000_0000;
        let shift: u64 = 52 - exponent;
        let whole: u64 = digits >> shift;
        assert(whole < 255 && level(whole as int) <= x && x < level(whole + 1)) by (bit_vector)
            requires
                0x3FF0_0000_0000_0000 <= x < 0x406F_E000_0000_0000,
                exponent == (x >> 52) - 1023,
                digits == (x & 0x000F_FFFF_FFFF_FFFF) | 0x0010_0000_0000_0000,
                shift == 52 - exponent,
                whole == digits >> shift,
        ;
        whole as u8
    }
}

/// The keys of the whole numbers rise with the numbers.
pub proof fn level_is_increasing(j: int, k: int)
    requires
        0 <= j <= k <= 256,
    ensures
        level(j) <= level(k),
        j < k ==> level(j) < level(k),
        level(0) == 0,
        level(1) == ONE,
        level(255) == FULL,
{
}

/// A scaled channel has one byte only.
pub proof fn quantised_is_unique(x: u64, p: u8, q: u8)
    requires
        quantises_to(x, p),
        quantises_to(x, q),
    ensures
        p == q,
{
    if x <= INFINITY {
        if p < q {
            level_is_increasing(p + 1, q as int);
        } else if q < p {
            level_is_increasing(q + 1, p as int);
        }
    }
}

/// The byte never falls as the channel rises: of two numbers, the one that
/// is not below the other has the greater byte, or the same.
pub proof fn quantise_is_monotone(a: u64, b: u64, p: u8, q: u8)
    requires
        spec_is_number(a),
        spec_is_number(b),
        !spec_lt(b, a),
        quantises_to(a, p),
        quantises_to(b, q),
    ensures
        p <= q,
{
    if q < p {
        level_is_increasing(q + 1, p as int);
        level_is_increasing(1, p as int);
    }
}

/// Zero gives the byte 0, and 255, which is what the number one is scaled
/// to, gives the byte 255. Just below a whole number the byte is still the
/// one before: the number is cut, not rounded.
pub proof fn quantise_cuts(k: u8)
    ensures
        quantises_to(0, 0),
        quantises_to(FULL, 255),
        1 <= k ==> quantises_to((level(k as int) - 1) as u64, (k - 1) as u8),
        quantises_to(level(k as int) as u64, k),
{
    level_is_increasing(k as int, k + 1);
    if k >= 1 {
        level_is_increasing(k - 1, k as int);
    }
    level_is_increasing(0, k as int);
    level_is_increasing(k as int, 256);
}

/// The bytes of a colour whose four channels were scaled to the range of
/// a byte.
pub fn into_rgba8888(scaled: [u64; 4]) -> (r: [u8; 4])
    ensures
        forall|c: int| 0 <= c < 4 ==> quantises_to(scaled[c], #[trigger] r[c]),
{
    [quantise(scaled[0]), quantise(scaled[1]), quantise(scaled[2]), quantise(scaled[3])]
}

/// White, with alpha zero.
pub const WHITE: [u8; 4] = [255, 255, 255, 0];

/// Black, with alpha zero.
pub const BLACK: [u8; 4] = [0, 0, 0, 0];

pub const SPACE: u8 = 0x20;

pub const NEWLINE: u8 = 0x0a;

/// The ASCII digit for `d`, which is below ten.
pub open spec fn digit(d: nat) -> u8 {
    (0x30 + d) as u8
}

/// The decimal numeral of `n`: at least one digit, no leading zero but for
/// zero itself.
pub open spec fn decimal(n: nat) -> Seq<u8>
    decreases n,
{
    if n < 10 {
        seq![digit(n)]
    } else {
        decimal(n / 10).push(digit(n % 10))
    }
}

/// The three header lines: the magic word of the plain PPM, width and
/// height, and the largest channel value.
pub open spec fn ppm_header(width: usize, height: usize) -> Seq<u8> {
    seq![0x50u8, 0x33u8, NEWLINE] + decimal(width as nat) + seq![SPACE] + decimal(height as nat)
        + seq![NEWLINE] + seq![0x32u8, 0x35u8, 0x35u8, NEWLINE]
}

/// The line of one pixel: red, green and blue. Alpha is not written.
pub open spec fn ppm_pixel(pixel: [u8; 4]) -> Seq<u8> {
    decimal(pixel[0] as nat) + seq![SPACE] + decimal(pixel[1] as nat) + seq![SPACE] + decimal(
        pixel[2] as nat,
    ) + seq![NEWLINE]
}

/// The lines of all pixels, in their order.
pub open spec fn ppm_body(pixels: Seq<[u8; 4]>) -> Seq<u8>
    decreases pixels.len(),
{
    if pixels.len() == 0 {
        Seq::empty()
    } else {
        ppm_body(pixels.drop_last()) + ppm_pixel(pixels.last())
    }
}

/// The whole image file.
pub open spec fn ppm(width: usize, height: usize, pixels: Seq<[u8; 4]>) -> Seq<u8> {
    ppm_header(width, height) + ppm_body(pixels)
}

/// Appends the decimal numeral of `n`.
pub fn write_decimal(n: usize, writer: &mut Vec<u8>)
    ensures
        final(writer)@ == old(writer)@ + decimal(n as nat),
    decreases n,
{
    if n >= 10 {
        write_decimal(n / 10, writer);
    }
    let d: u8 = (n % 10) as u8;
    writer.push(0x30 + d);
    proof {
        if n >= 10 {
            assert(final(writer)@ =~= old(writer)@ + decimal(n as nat));
        } else {
            assert(final(writer)@ =~= old(writer)@ + decimal(n as nat));
        }
    }
}

/// Appends the line of one pixel.
pub fn write_pixel(pixel: [u8; 4], writer: &mut Vec<u8>)
    ensures
        final(writer)@ == old(writer)@ + ppm_pixel(pixel),
{
    write_decimal(pixel[0] as usize, writer);
    writer.push(SPACE);
    write_decimal(pixel[1] as usize, writer);
    writer.push(SPACE);
    write_decimal(pixel[2] as usize, writer);
    writer.push(NEWLINE);
    proof {
        assert(final(writer)@ =~= old(writer)@ + ppm_pixel(pixel));
    }
}

/// Appends a PPM image to `writer`: the header for `width` and `height`,
/// then every pixel of `pixels` in order, whatever their number.
pub fn write_ppm(width: usize, height: usize, pixels: &[[u8; 4]], writer: &mut Vec<u8>)
    ensures
        final(writer)@ == old(writer)@ + ppm(width, height, pixels@),
{
    let ghost start = writer@;
    writer.push(0x50);
    writer.push(0x33);
    writer.push(NEWLINE);
    write_decimal(width, writer);
    writer.push(SPACE);
    write_decimal(height, writer);
    writer.push(NEWLINE);
    writer.push(0x32);
    writer.push(0x35);
    writer.push(0x35);
    writer.push(NEWLINE);
    proof {
        assert(writer@ =~= start + ppm_header(width, height));
    }
    let mut i: usize = 0;
    while i < pixels.len()
        invariant
            i <= pixels.len(),
            writer@ == start + ppm_header(width, height) + ppm_body(pixels@.take(i as int)),
        decreases pixels.len() - i,
    {
        let ghost before = writer@;
        write_pixel(pixels[i], writer);
        proof {
            let next = pixels@.take(i + 1);
            assert(next.drop_last() =~= pixels@.take(i as int));
            assert(next.last() == pixels@[i as int]);
            assert(writer@ =~= start + ppm_header(width, height) + ppm_body(next));
        }
        i += 1;
    }
    proof {
        assert(pixels@.take(i as int) =~= pixels@);
        assert(writer@ =~= start + ppm(width, height, pixels@));
    }
}

} // verus!
