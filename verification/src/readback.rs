//! Reading a rendered atlas back from the GPU: rows arrive padded to the
//! copy alignment, and the padding is stripped.

use vstd::prelude::*;

verus! {

/// A baked impostor atlas as read back: its size in pixels and the planes
/// that were baked, each with its padding stripped. Color and normal are
/// four bytes a pixel (color sRGB, normal with the octahedral normal in its
/// first two bytes), depth one byte a pixel.
#[derive(Debug)]
pub struct BakedAtlas {
    pub width: u32,
    pub height: u32,
    pub color: Option<Vec<u8>>,
    pub normal: Option<Vec<u8>>,
    pub depth: Option<Vec<u8>>,
}

/// `n` rounded up to a multiple of `align`.
pub open spec fn round_up(n: nat, align: nat) -> nat
    recommends
        align > 0,
{
    (((n + align - 1) as nat) / align) * align
}

/// The bytes per padded row of a copy `width` pixels wide, when they fit
/// in `u32`.
pub fn padded_bytes_per_row(width: u32, bytes_per_pixel: u32, align: u32) -> (result: Option<(u32, u32)>)
    requires
        align > 0,
    ensures
        match result {
            Some((unpadded, padded)) => unpadded == width * bytes_per_pixel
                && padded == round_up(unpadded as nat, align as nat),
            None => width * bytes_per_pixel + align - 1 > u32::MAX,
        },
{
    let unpadded = match width.checked_mul(bytes_per_pixel) {
        Some(u) => u,
        None => {
            assert(width * bytes_per_pixel + align - 1 > u32::MAX);
            return None;
        },
    };
    let sum = match unpadded.checked_add(align - 1) {
        Some(s) => s,
        None => return None,
    };
    assert(sum / align * align <= sum) by (nonlinear_arith)
        requires align > 0;
    let padded = sum / align * align;
    Some((unpadded, padded))
}

/// The first `unpadded` bytes of each of the first `rows` rows of
/// `data`, whose rows are `padded` bytes apart.
pub open spec fn unpadded_rows(data: Seq<u8>, padded: nat, unpadded: nat, rows: nat) -> Seq<u8>
    decreases rows,
{
    if rows == 0 {
        seq![]
    } else {
        let start = (rows - 1) * padded;
        unpadded_rows(data, padded, unpadded, (rows - 1) as nat) + data.subrange(start, start + unpadded)
    }
}

/// Strips the row padding from `height` rows read back `padded` bytes
/// apart, keeping `unpadded` bytes of each.
pub fn strip_row_padding(data: &[u8], height: u32, unpadded: u32, padded: u32) -> (out: Vec<u8>)
    requires
        unpadded <= padded,
        data@.len() == padded * height,
    ensures
        out@ == unpadded_rows(data@, padded as nat, unpadded as nat, height as nat),
{
    let n = data.len();
    let mut out: Vec<u8> = Vec::new();
    let mut row: u32 = 0;
    while row < height
        invariant
            unpadded <= padded,
            data@.len() == padded * height,
            n == data@.len(),
            row <= height,
            out@ == unpadded_rows(data@, padded as nat, unpadded as nat, row as nat),
        decreases height - row,
    {
        assert(row * padded + unpadded <= padded * height) by (nonlinear_arith)
            requires row < height, unpadded <= padded;
        let start = row as usize * padded as usize;
        let ghost before = out@;
        let mut k: usize = 0;
        while k < unpadded as usize
            invariant
                unpadded <= padded,
                data@.len() == padded * height,
                start == row * padded,
                start + unpadded <= data@.len(),
                n == data@.len(),
                k <= unpadded,
                out@ == before + data@.subrange(start as int, start + k),
            decreases unpadded - k,
        {
            out.push(data[start + k]);
            assert(data@.subrange(start as int, start + k + 1) =~= data@.subrange(start as int, start + k).push(data@[start + k]));
            k = k + 1;
        }
        row = row + 1;
    }
    out
}

} // verus!
