//! Plain-text raster output: a `P3` header, then one line of three decimal
//! channel values per pixel, rows top to bottom, each row left to right.
use vstd::prelude::*;

verus! {

// ASCII codes of the characters the format uses.
pub const DIGIT_0: u8 = 48;
pub const DIGIT_2: u8 = 50;
pub const DIGIT_3: u8 = 51;
pub const DIGIT_5: u8 = 53;
pub const LETTER_P: u8 = 80;
pub const SPACE: u8 = 32;
pub const NEWLINE: u8 = 10;

/// The decimal digits of `n` in ASCII, most significant first, with no
/// leading zeros.
pub open spec fn decimal(n: nat) -> Seq<u8>
    decreases n,
{
    if n < 10 {
        seq![(DIGIT_0 + n) as u8]
    } else {
        decimal(n / 10).push((DIGIT_0 + n % 10) as u8)
    }
}

/// `P3`, the width and height, and the largest channel value, one per line.
pub open spec fn header_text(width: nat, height: nat) -> Seq<u8> {
    seq![LETTER_P, DIGIT_3, NEWLINE] + decimal(width) + seq![SPACE] + decimal(height) + seq![
        NEWLINE,
        DIGIT_2,
        DIGIT_5,
        DIGIT_5,
        NEWLINE,
    ]
}

/// The line of one pixel: its three channels, separated by spaces.
pub open spec fn pixel_text(c: (u8, u8, u8)) -> Seq<u8> {
    decimal(c.0 as nat) + seq![SPACE] + decimal(c.1 as nat) + seq![SPACE] + decimal(c.2 as nat)
        + seq![NEWLINE]
}

/// The lines of the pixels, in order.
pub open spec fn pixels_text(pixels: Seq<(u8, u8, u8)>) -> Seq<u8>
    decreases pixels.len(),
{
    if pixels.len() == 0 {
        seq![]
    } else {
        pixels_text(pixels.drop_last()) + pixel_text(pixels.last())
    }
}

/// The whole raster: header, then the pixel lines.
pub open spec fn raster_text(width: nat, height: nat, pixels: Seq<(u8, u8, u8)>) -> Seq<u8> {
    header_text(width, height) + pixels_text(pixels)
}

/// Number of line ends in `s`.
pub open spec fn newlines(s: Seq<u8>) -> nat
    decreases s.len(),
{
    if s.len() == 0 {
        0
    } else {
        newlines(s.drop_last()) + if s.last() == NEWLINE {
            1nat
        } else {
            0nat
        }
    }
}

proof fn lemma_newlines_concat(a: Seq<u8>, b: Seq<u8>)
    ensures
        newlines(a + b) == newlines(a) + newlines(b),
    decreases b.len(),
{
    if b.len() == 0 {
        assert(a + b =~= a);
    } else {
        assert((a + b).drop_last() =~= a + b.drop_last());
        lemma_newlines_concat(a, b.drop_last());
    }
}

proof fn lemma_newlines_one(b: u8)
    ensures
        newlines(seq![b]) == if b == NEWLINE {
            1nat
        } else {
            0nat
        },
{
    let s = seq![b];
    assert(s.drop_last() =~= Seq::<u8>::empty());
    assert(newlines(s.drop_last()) == 0);
    assert(s.last() == b);
}

proof fn lemma_decimal_one_line(n: nat)
    ensures
        newlines(decimal(n)) == 0,
    decreases n,
{
    if n >= 10 {
        lemma_decimal_one_line(n / 10);
        assert(decimal(n).drop_last() =~= decimal(n / 10));
    } else {
        lemma_newlines_one((DIGIT_0 + n) as u8);
    }
}

/// A raster has three header lines, then one line per pixel.
pub proof fn lemma_raster_lines(width: nat, height: nat, pixels: Seq<(u8, u8, u8)>)
    ensures
        newlines(raster_text(width, height, pixels)) == 3 + pixels.len(),
    decreases pixels.len(),
{
    let tail = seq![NEWLINE, DIGIT_2, DIGIT_5, DIGIT_5, NEWLINE];
    assert(tail =~= seq![NEWLINE] + seq![DIGIT_2] + seq![DIGIT_5] + seq![DIGIT_5] + seq![NEWLINE]);
    assert(seq![LETTER_P, DIGIT_3, NEWLINE] =~= seq![LETTER_P] + seq![DIGIT_3] + seq![NEWLINE]);
    lemma_newlines_one(NEWLINE);
    lemma_newlines_one(LETTER_P);
    lemma_newlines_one(DIGIT_2);
    lemma_newlines_one(DIGIT_3);
    lemma_newlines_one(DIGIT_5);
    lemma_newlines_one(SPACE);
    lemma_newlines_concat(seq![LETTER_P], seq![DIGIT_3]);
    lemma_newlines_concat(seq![LETTER_P] + seq![DIGIT_3], seq![NEWLINE]);
    lemma_newlines_concat(seq![NEWLINE], seq![DIGIT_2]);
    lemma_newlines_concat(seq![NEWLINE] + seq![DIGIT_2], seq![DIGIT_5]);
    lemma_newlines_concat(seq![NEWLINE] + seq![DIGIT_2] + seq![DIGIT_5], seq![DIGIT_5]);
    lemma_newlines_concat(seq![NEWLINE] + seq![DIGIT_2] + seq![DIGIT_5] + seq![DIGIT_5], seq![NEWLINE]);
    lemma_decimal_one_line(width);
    lemma_decimal_one_line(height);
    let h0 = seq![LETTER_P, DIGIT_3, NEWLINE];
    let h1 = h0 + decimal(width);
    let h2 = h1 + seq![SPACE];
    let h3 = h2 + decimal(height);
    lemma_newlines_concat(h0, decimal(width));
    lemma_newlines_concat(h1, seq![SPACE]);
    lemma_newlines_concat(h2, decimal(height));
    lemma_newlines_concat(h3, tail);
    assert(newlines(header_text(width, height)) == 3);
    lemma_pixels_lines(pixels);
    lemma_newlines_concat(header_text(width, height), pixels_text(pixels));
}

proof fn lemma_pixels_lines(pixels: Seq<(u8, u8, u8)>)
    ensures
        newlines(pixels_text(pixels)) == pixels.len(),
    decreases pixels.len(),
{
    if pixels.len() > 0 {
        let c = pixels.last();
        lemma_pixels_lines(pixels.drop_last());
        lemma_decimal_one_line(c.0 as nat);
        lemma_decimal_one_line(c.1 as nat);
        lemma_decimal_one_line(c.2 as nat);
        lemma_newlines_one(SPACE);
        lemma_newlines_one(NEWLINE);
        let p0 = decimal(c.0 as nat);
        let p1 = p0 + seq![SPACE];
        let p2 = p1 + decimal(c.1 as nat);
        let p3 = p2 + seq![SPACE];
        let p4 = p3 + decimal(c.2 as nat);
        lemma_newlines_concat(p0, seq![SPACE]);
        lemma_newlines_concat(p1, decimal(c.1 as nat));
        lemma_newlines_concat(p2, seq![SPACE]);
        lemma_newlines_concat(p3, decimal(c.2 as nat));
        lemma_newlines_concat(p4, seq![NEWLINE]);
        lemma_newlines_concat(pixels_text(pixels.drop_last()), pixel_text(c));
    }
}

/// Appends the decimal digits of `n`.
pub fn write_decimal(out: &mut Vec<u8>, n: u32)
    ensures
        final(out)@ == old(out)@ + decimal(n as nat),
    decreases n,
{
    if n >= 10 {
        write_decimal(out, n / 10);
    }
    out.push(DIGIT_0 + (n % 10) as u8);
    assert(final(out)@ =~= old(out)@ + decimal(n as nat));
}

/// The header of a `width` by `height` raster.
pub fn ppm_header(width: u32, height: u32) -> (r: Vec<u8>)
    ensures
        r@ == header_text(width as nat, height as nat),
{
    let mut out: Vec<u8> = Vec::new();
    out.push(LETTER_P);
    out.push(DIGIT_3);
    out.push(NEWLINE);
    write_decimal(&mut out, width);
    out.push(SPACE);
    write_decimal(&mut out, height);
    out.push(NEWLINE);
    out.push(DIGIT_2);
    out.push(DIGIT_5);
    out.push(DIGIT_5);
    out.push(NEWLINE);
    assert(out@ =~= header_text(width as nat, height as nat));
    out
}

/// Appends the line of one pixel, whose channels are already quantized to
/// `0 ..= 255`.
pub fn write_color(out: &mut Vec<u8>, pixel: (u8, u8, u8))
    ensures
        final(out)@ == old(out)@ + pixel_text(pixel),
{
    write_decimal(out, pixel.0 as u32);
    out.push(SPACE);
    write_decimal(out, pixel.1 as u32);
    out.push(SPACE);
    write_decimal(out, pixel.2 as u32);
    out.push(NEWLINE);
    assert(final(out)@ =~= old(out)@ + pixel_text(pixel));
}

/// The raster of a `width` by `height` image whose pixels are given row by
/// row; `None` where their number is not `width * height`.
pub fn encode_ppm(width: u32, height: u32, pixels: &Vec<(u8, u8, u8)>) -> (r: Option<Vec<u8>>)
    ensures
        r is Some <==> pixels@.len() == width * height,
        r matches Some(text) ==> text@ == raster_text(width as nat, height as nat, pixels@),
{
    assert(width * height <= u32::MAX * u32::MAX) by (nonlinear_arith)
        requires
            width <= u32::MAX,
            height <= u32::MAX,
    ;
    if pixels.len() as u64 != width as u64 * height as u64 {
        return None;
    }
    let mut out = ppm_header(width, height);
    let mut i: usize = 0;
    while i < pixels.len()
        invariant
            i <= pixels@.len(),
            out@ == header_text(width as nat, height as nat) + pixels_text(pixels@.subrange(0, i as int)),
        decreases pixels@.len() - i,
    {
        write_color(&mut out, pixels[i]);
        proof {
            let done = pixels@.subrange(0, i as int + 1);
            assert(done.drop_last() =~= pixels@.subrange(0, i as int));
            assert(done.last() == pixels@[i as int]);
        }
        i = i + 1;
    }
    assert(pixels@.subrange(0, pixels@.len() as int) =~= pixels@);
    Some(out)
}

} // verus!
