//! The plain-text PPM encoding of an image.
use crate::canvas::{Canvas, Pixel};
use vstd::prelude::*;

verus! {

/// The decimal digits of `n` in ASCII, without leading zeros.
pub open spec fn decimal(n: nat) -> Seq<u8>
    decreases n,
{
    if n < 10 {
        seq![(48 + n) as u8]
    } else {
        decimal(n / 10).push((48 + n % 10) as u8)
    }
}

/// The header of an image of the given size with levels up to 255: the
/// lines `P3`, `<width> <height>` and `255`.
pub open spec fn header(width: nat, height: nat) -> Seq<u8> {
    seq![80u8, 51u8, 10u8] + decimal(width) + seq![32u8] + decimal(height) + seq![
        10u8,
        50u8,
        53u8,
        53u8,
        10u8,
    ]
}

/// The line of one pixel: its three levels in decimal, separated by
/// spaces.
pub open spec fn pixel_line(r: u8, g: u8, b: u8) -> Seq<u8> {
    decimal(r as nat) + seq![32u8] + decimal(g as nat) + seq![32u8] + decimal(b as nat) + seq![
        10u8,
    ]
}

/// The lines of the first `n` pixels of the canvas. The pixels run row by
/// row, the last row of the canvas first: pixel `k` is the one in column
/// `k % width` of row `height - 1 - k / width`.
pub open spec fn canvas_lines(canvas: &Canvas, n: nat) -> Seq<u8>
    decreases n,
{
    if n == 0 {
        Seq::empty()
    } else {
        let k = (n - 1) as int;
        let p = canvas.spec_at(
            (canvas.height - 1 - k / (canvas.width as int)) as usize,
            (k % (canvas.width as int)) as usize,
        );
        canvas_lines(canvas, k as nat) + pixel_line(p.r, p.g, p.b)
    }
}

/// The text of the canvas: the header and one line for each pixel.
pub open spec fn spec_write(canvas: &Canvas) -> Seq<u8> {
    header(canvas.width as nat, canvas.height as nat) + canvas_lines(
        canvas,
        (canvas.width * canvas.height) as nat,
    )
}

/// The lines of the first `n` pixels of a buffer that holds four bytes for
/// each pixel: red, green, blue and opacity. The opacity is not written.
pub open spec fn rgba_lines(data: Seq<u8>, n: nat) -> Seq<u8>
    decreases n,
{
    if n == 0 {
        Seq::empty()
    } else {
        let k = (n - 1) as int;
        rgba_lines(data, k as nat) + pixel_line(data[4 * k], data[4 * k + 1], data[4 * k + 2])
    }
}

/// The text of a buffer of `width * height` pixels, in the order in which
/// the buffer holds them.
pub open spec fn spec_write_rgba(width: u32, height: u32, data: Seq<u8>) -> Seq<u8> {
    header(width as nat, height as nat) + rgba_lines(data, (width * height) as nat)
}

/// Appends the decimal digits of `n`.
pub fn push_decimal(out: &mut Vec<u8>, n: usize)
    ensures
        final(out)@ == old(out)@ + decimal(n as nat),
    decreases n,
{
    if n >= 10 {
        push_decimal(out, n / 10);
    }
    let digit: u8 = (n % 10) as u8;
    out.push(48 + digit);
    proof {
        assert(final(out)@ =~= old(out)@ + decimal(n as nat));
    }
}

/// Appends the header of an image of the given size.
pub fn push_header(out: &mut Vec<u8>, width: usize, height: usize)
    ensures
        final(out)@ == old(out)@ + header(width as nat, height as nat),
{
    out.push(80);
    out.push(51);
    out.push(10);
    push_decimal(out, width);
    out.push(32);
    push_decimal(out, height);
    out.push(10);
    out.push(50);
    out.push(53);
    out.push(53);
    out.push(10);
    proof {
        assert(final(out)@ =~= old(out)@ + header(width as nat, height as nat));
    }
}

/// Appends the line of one pixel.
pub fn write_pixel(out: &mut Vec<u8>, r: u8, g: u8, b: u8)
    ensures
        final(out)@ == old(out)@ + pixel_line(r, g, b),
{
    push_decimal(out, r as usize);
    out.push(32);
    push_decimal(out, g as usize);
    out.push(32);
    push_decimal(out, b as usize);
    out.push(10);
    proof {
        assert(final(out)@ =~= old(out)@ + pixel_line(r, g, b));
    }
}

/// Appends the text of the canvas to `out`: the header, then the pixels
/// row by row, the last row of the canvas first.
pub fn write(canvas: &Canvas, out: &mut Vec<u8>)
    requires
        canvas.wf(),
    ensures
        final(out)@ == old(out)@ + spec_write(canvas),
{
    push_header(out, canvas.width, canvas.height);
    let ghost start = out@;
    let ghost mut k: nat = 0;
    let mut done: usize = 0;
    while done < canvas.height
        invariant
            canvas.wf(),
            done <= canvas.height,
            k == done * canvas.width,
            out@ == start + canvas_lines(canvas, k),
        decreases canvas.height - done,
    {
        let j = canvas.height - 1 - done;
        let mut i: usize = 0;
        while i < canvas.width
            invariant
                canvas.wf(),
                done < canvas.height,
                j == canvas.height - 1 - done,
                i <= canvas.width,
                k == done * canvas.width + i,
                out@ == start + canvas_lines(canvas, k),
            decreases canvas.width - i,
        {
            proof {
                vstd::arithmetic::div_mod::lemma_fundamental_div_mod_converse(
                    k as int,
                    canvas.width as int,
                    done as int,
                    i as int,
                );
            }
            let p: &Pixel = canvas.at(j, i);
            write_pixel(out, p.r, p.g, p.b);
            proof {
                assert(out@ =~= start + canvas_lines(canvas, k + 1));
                k = k + 1;
            }
            i += 1;
        }
        assert((done + 1) * canvas.width == done * canvas.width + canvas.width)
            by (nonlinear_arith);
        done += 1;
    }
    proof {
        assert(k == canvas.width * canvas.height) by (nonlinear_arith)
            requires
                k == done * canvas.width,
                done == canvas.height,
        ;
        assert(out@ =~= old(out)@ + spec_write(canvas));
    }
}

/// Appends the text of a buffer of four bytes for each pixel to `out`, or
/// nothing if the buffer does not hold exactly `width * height` pixels,
/// which `false` reports.
pub fn write_rgba(width: u32, height: u32, data: &Vec<u8>, out: &mut Vec<u8>) -> (ok: bool)
    ensures
        ok <==> data.len() == width * height * 4,
        ok ==> final(out)@ == old(out)@ + spec_write_rgba(width, height, data@),
        !ok ==> final(out)@ == old(out)@,
{
    assert(width * height <= 0xffff_ffff * 0xffff_ffff) by (nonlinear_arith)
        requires
            0 <= width <= 0xffff_ffff,
            0 <= height <= 0xffff_ffff,
    ;
    let pixels: u64 = width as u64 * height as u64;
    if data.len() % 4 != 0 || (data.len() / 4) as u64 != pixels {
        return false;
    }
    push_header(out, width as usize, height as usize);
    let ghost start = out@;
    let count: usize = data.len() / 4;
    let mut k: usize = 0;
    while k < count
        invariant
            k <= count,
            count * 4 == data.len(),
            out@ == start + rgba_lines(data@, k as nat),
        decreases count - k,
    {
        write_pixel(out, data[4 * k], data[4 * k + 1], data[4 * k + 2]);
        proof {
            assert(out@ =~= start + rgba_lines(data@, (k + 1) as nat));
        }
        k += 1;
    }
    proof {
        assert(out@ =~= old(out)@ + spec_write_rgba(width, height, data@));
    }
    true
}

} // verus!
