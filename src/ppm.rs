use vstd::prelude::*;

verus! {

/// One gamma-corrected pixel as its red, green and blue bytes.
pub type Rgb = (u8, u8, u8);

/// The ASCII digit for `d`, where `d < 10`.
pub open spec fn digit(d: nat) -> u8 {
    (48 + d) as u8
}

/// `n` written in decimal, without leading zeros.
pub open spec fn decimal(n: nat) -> Seq<u8>
    decreases n,
{
    if n < 10 {
        seq![digit(n)]
    } else {
        decimal(n / 10).push(digit(n % 10))
    }
}

/// `count` copies of the digit zero.
pub open spec fn zeros(count: nat) -> Seq<u8> {
    Seq::new(count, |i: int| 48u8)
}

/// `n` in decimal, padded on the left with zeros to at least `width` digits.
pub open spec fn zero_padded(n: nat, width: nat) -> Seq<u8> {
    if decimal(n).len() < width {
        zeros((width - decimal(n).len()) as nat) + decimal(n)
    } else {
        decimal(n)
    }
}

/// The header of an ASCII PPM image: magic number, size, and the largest
/// channel value, each on a line of its own.
pub open spec fn ppm_header(width: nat, height: nat) -> Seq<u8> {
    seq![80u8, 51u8, 10u8] + decimal(width) + seq![32u8] + decimal(height) + seq![10u8, 50u8, 53u8, 53u8, 10u8]
}

/// One pixel as a line `R G B`.
pub open spec fn pixel_line(p: Rgb) -> Seq<u8> {
    decimal(p.0 as nat) + seq![32u8] + decimal(p.1 as nat) + seq![32u8] + decimal(p.2 as nat) + seq![10u8]
}

/// The pixel lines of `pixels`, in their order.
pub open spec fn pixel_lines(pixels: Seq<Rgb>) -> Seq<u8>
    decreases pixels.len(),
{
    if pixels.len() == 0 {
        Seq::empty()
    } else {
        pixel_lines(pixels.drop_last()) + pixel_line(pixels.last())
    }
}

/// A whole ASCII PPM file: the header, then one line per pixel.
pub open spec fn ppm_image(width: nat, height: nat, pixels: Seq<Rgb>) -> Seq<u8> {
    ppm_header(width, height) + pixel_lines(pixels)
}

/// Appends `n` in decimal to `out`.
pub fn push_decimal(out: &mut Vec<u8>, n: u64)
    ensures
        final(out)@ == old(out)@ + decimal(n as nat),
    decreases n,
{
    let ghost start = out@;
    if n >= 10 {
        push_decimal(out, n / 10);
    }
    out.push(48u8 + (n % 10) as u8);
    proof {
        if n >= 10 {
            assert(out@ =~= start + decimal(n as nat));
        } else {
            assert(out@ =~= start + decimal(n as nat));
        }
    }
}

/// The number of decimal digits of `n`.
pub fn digit_count(n: u64) -> (r: usize)
    ensures
        r == decimal(n as nat).len(),
{
    let mut buf: Vec<u8> = Vec::new();
    push_decimal(&mut buf, n);
    assert(buf@ =~= decimal(n as nat));
    buf.len()
}

/// `n` in decimal, padded on the left with zeros to at least `width`
/// digits: the numbering of the frames of a movie.
pub fn zero_padded_number(n: u64, width: usize) -> (r: Vec<u8>)
    ensures
        r@ == zero_padded(n as nat, width as nat),
{
    let count = digit_count(n);
    let mut out: Vec<u8> = Vec::new();
    let mut k: usize = count;
    while k < width
        invariant
            count == decimal(n as nat).len(),
            count <= k <= width || (width < count && k == count),
            out@ =~= zeros((k - count) as nat),
        decreases width - k,
    {
        out.push(48u8);
        k = k + 1;
    }
    let ghost pad = out@;
    push_decimal(&mut out, n);
    proof {
        if count < width {
            assert(k == width);
        } else {
            assert(pad =~= Seq::<u8>::empty());
        }
    }
    assert(out@ =~= zero_padded(n as nat, width as nat));
    out
}

/// Appends the PPM header for an image of `width` by `height` pixels.
pub fn push_ppm_header(out: &mut Vec<u8>, width: u32, height: u32)
    ensures
        final(out)@ == old(out)@ + ppm_header(width as nat, height as nat),
{
    let ghost start = out@;
    out.push(80u8);
    out.push(51u8);
    out.push(10u8);
    push_decimal(out, width as u64);
    out.push(32u8);
    push_decimal(out, height as u64);
    out.push(10u8);
    out.push(50u8);
    out.push(53u8);
    out.push(53u8);
    out.push(10u8);
    assert(out@ =~= start + ppm_header(width as nat, height as nat));
}

/// Appends the line of one pixel.
pub fn push_pixel_line(out: &mut Vec<u8>, p: Rgb)
    ensures
        final(out)@ == old(out)@ + pixel_line(p),
{
    let ghost start = out@;
    push_decimal(out, p.0 as u64);
    out.push(32u8);
    push_decimal(out, p.1 as u64);
    out.push(32u8);
    push_decimal(out, p.2 as u64);
    out.push(10u8);
    assert(out@ =~= start + pixel_line(p));
}

/// The ASCII PPM file of an image of `width` by `height` pixels, given
/// its pixels in raster order (row by row, left to right).
pub fn ppm_bytes(width: u32, height: u32, pixels: &Vec<Rgb>) -> (r: Vec<u8>)
    requires
        pixels.len() == width as int * height as int,
    ensures
        r@ == ppm_image(width as nat, height as nat, pixels@),
{
    let mut out: Vec<u8> = Vec::new();
    push_ppm_header(&mut out, width, height);
    let mut i: usize = 0;
    while i < pixels.len()
        invariant
            i <= pixels.len(),
            out@ == ppm_header(width as nat, height as nat) + pixel_lines(pixels@.subrange(0, i as int)),
        decreases pixels.len() - i,
    {
        let ghost before = out@;
        push_pixel_line(&mut out, pixels[i]);
        proof {
            let s = pixels@.subrange(0, i + 1);
            assert(s.drop_last() =~= pixels@.subrange(0, i as int));
            assert(s.last() == pixels@[i as int]);
            assert(out@ =~= ppm_header(width as nat, height as nat) + pixel_lines(s));
        }
        i = i + 1;
    }
    assert(pixels@.subrange(0, pixels@.len() as int) =~= pixels@);
    out
}

} // verus!
