//! The application icon: the embedded picture decoded and cut to a centred
//! square.

use vstd::prelude::*;

verus! {

/// The RGBA pixels, width and height that `image` decodes from `bytes`;
/// `None` where it cannot decode them.
pub uninterp spec fn decoded_rgba(bytes: Seq<u8>) -> Option<(Seq<u8>, u32, u32)>;

/// Calls `image::load_from_memory` on `bytes` and converts the picture with
/// `DynamicImage::into_rgba8`, handing back its raw pixels
/// (`ImageBuffer::into_raw`) and its size (`ImageBuffer::dimensions`).
/// Claimed: the result is `decoded_rgba` of the bytes, `None` where
/// decoding fails, and the pixels fill the picture exactly, four bytes
/// each (the decoder reads `width * height * 4` bytes into a buffer of
/// that size, and the conversion to RGBA builds one of that size); nothing
/// is claimed of what the pixels are.
#[verifier::external_body]
fn decode_rgba(bytes: &[u8]) -> (r: Option<(Vec<u8>, u32, u32)>)
    ensures
        match r {
            Some((px, w, h)) => decoded_rgba(bytes@) == Some((px@, w, h)) && px@.len() == 4 * (
            w as nat) * (h as nat),
            None => decoded_rgba(bytes@) is None,
        },
{
    match image::load_from_memory(bytes) {
        Ok(img) => {
            let rgba = img.into_rgba8();
            let (w, h) = rgba.dimensions();
            Some((rgba.into_raw(), w, h))
        },
        Err(_) => None,
    }
}

/// The side of the centred square of a `w` by `h` picture.
pub open spec fn square_side(w: u32, h: u32) -> u32 {
    if w <= h {
        w
    } else {
        h
    }
}

/// The pixels of row `row`, columns `x` to `x + n`, of an RGBA picture `w`
/// pixels wide.
pub open spec fn row_span(px: Seq<u8>, w: nat, row: nat, x: nat, n: nat) -> Seq<u8> {
    px.subrange((4 * (row * w + x)) as int, (4 * (row * w + x + n)) as int)
}

/// Rows `y` to `y + k` of the square of side `n` whose top left corner is
/// at (`x`, `y`).
pub open spec fn square_rows(px: Seq<u8>, w: nat, x: nat, y: nat, n: nat, k: nat) -> Seq<u8>
    decreases k,
{
    if k == 0 {
        seq![]
    } else {
        square_rows(px, w, x, y, n, (k - 1) as nat) + row_span(px, w, (y + k - 1) as nat, x, n)
    }
}

/// The centred square of an RGBA picture: its side is the shorter side, it
/// is centred (rounding towards the top left), and its pixels are taken row
/// by row.
pub open spec fn centred_square(px: Seq<u8>, w: u32, h: u32) -> (Seq<u8>, u32) {
    let n = square_side(w, h);
    let x = ((w - n) / 2) as nat;
    let y = ((h - n) / 2) as nat;
    (square_rows(px, w as nat, x, y, n as nat, n as nat), n)
}

proof fn lemma_row_in_bounds(w: nat, h: nat, x: nat, n: nat, row: nat)
    requires
        row < h,
        x + n <= w,
    ensures
        row * w + x + n <= h * w,
        row * w <= row * w + x,
{
    assert(row * w + w <= h * w) by (nonlinear_arith)
        requires
            row < h,
    ;
}

/// Cuts the centred square out of an RGBA picture `w` pixels wide and `h`
/// high.
pub fn crop_square(px: &Vec<u8>, w: u32, h: u32) -> (r: (Vec<u8>, u32))
    requires
        px@.len() == 4 * (w as nat) * (h as nat),
    ensures
        (r.0@, r.1) == centred_square(px@, w, h),
{
    let n: u32 = if w <= h {
        w
    } else {
        h
    };
    let x: u32 = (w - n) / 2;
    let y: u32 = (h - n) / 2;
    let ghost (wn, hn, xn, yn, nn) = (w as nat, h as nat, x as nat, y as nat, n as nat);
    assert(4 * wn * hn == 4 * (hn * wn)) by (nonlinear_arith);
    let mut out: Vec<u8> = Vec::new();
    let total = px.len();
    let mut j: u32 = 0;
    while j < n
        invariant
            j <= n,
            total == px@.len(),
            n == square_side(w, h),
            x == (w - n) / 2,
            y == (h - n) / 2,
            wn == w,
            hn == h,
            xn == x,
            yn == y,
            nn == n,
            px@.len() == 4 * (hn * wn),
            out@ == square_rows(px@, wn, xn, yn, nn, j as nat),
        decreases n - j,
    {
        let row = y + j;
        proof {
            lemma_row_in_bounds(wn, hn, xn, nn, row as nat);
        }
        assert(4 * (row * wn + xn + nn) <= px@.len());
        assert((row as u64) * (w as u64) <= 0xFFFF_FFFFu64 * 0xFFFF_FFFFu64) by (nonlinear_arith)
            requires
                row <= 0xFFFF_FFFFu32,
                w <= 0xFFFF_FFFFu32,
        ;
        let rw: u64 = (row as u64) * (w as u64);
        assert(rw == row * wn);
        assert(4 * (rw + x) + 4 * n <= px@.len());
        let start64: u64 = 4 * (rw + (x as u64));
        let start: usize = start64 as usize;
        let end: usize = start + 4 * (n as usize);
        let ghost before = out@;
        let mut k = start;
        while k < end
            invariant
                start <= k <= end <= px@.len(),
                out@ == before + px@.subrange(start as int, k as int),
            decreases end - k,
        {
            out.push(px[k]);
            k = k + 1;
            assert(out@ =~= before + px@.subrange(start as int, k as int));
        }
        assert(px@.subrange(start as int, end as int) == row_span(px@, wn, row as nat, xn, nn));
        j = j + 1;
    }
    (out, n)
}

/// The application icon from the picture `bytes`: decoded to RGBA and cut
/// to its centred square, with the square's side as width and height;
/// `None` where the picture cannot be decoded.
pub fn icon_from_png(bytes: &[u8]) -> (r: Option<(Vec<u8>, u32, u32)>)
    ensures
        match decoded_rgba(bytes@) {
            Some((px, w, h)) => r matches Some((sq, a, b)) && a == b && (sq@, a) == centred_square(
                px,
                w,
                h,
            ),
            None => r is None,
        },
{
    match decode_rgba(bytes) {
        Some((px, w, h)) => {
            let (sq, n) = crop_square(&px, w, h);
            Some((sq, n, n))
        },
        None => None,
    }
}

} // verus!
