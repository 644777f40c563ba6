//! Images read back from the GPU: rows without their padding, and a target
//! of four bytes to a pixel.

use crate::error::Error;
use vstd::prelude::*;

verus! {

/// Number of bytes to a pixel of an [`ImageSlice`].
pub const BYTES_PER_PIXEL: u32 = 4;

/// Number of bytes in an image of `width` by `height` pixels.
pub open spec fn image_bytes(width: u32, height: u32) -> nat {
    (width * height * BYTES_PER_PIXEL) as nat
}

/// An image of `width` by `height` pixels, four bytes to a pixel, row after
/// row.
#[derive(Debug)]
pub struct ImageSlice {
    pub width: u32,
    pub height: u32,
    pub data: Vec<u8>,
}

/// Byte `index` of an image whose rows of `row` bytes are read from
/// `padded`, where each row starts `padded_row` bytes after the one before.
/// A row that `padded` does not hold in full is read as zeros.
pub open spec fn unpadded_byte(padded: Seq<u8>, padded_row: nat, row: nat, index: int) -> u8 {
    if index / (row as int) < padded.len() / padded_row {
        padded[(index / (row as int)) * padded_row + index % (row as int)]
    } else {
        0u8
    }
}

/// The `height` rows of `row` bytes each that are read from `padded`, one
/// after the other without their padding.
pub open spec fn unpadded_rows(padded: Seq<u8>, padded_row: nat, row: nat, height: nat) -> Seq<
    u8,
> {
    Seq::new(row * height, |index: int| unpadded_byte(padded, padded_row, row, index))
}

proof fn lemma_row_and_column(row: int, r: int, c: int)
    requires
        0 <= r,
        0 <= c < row,
    ensures
        (r * row + c) / row == r,
        (r * row + c) % row == c,
        r * row + row == (r + 1) * row,
{
    vstd::arithmetic::div_mod::lemma_fundamental_div_mod_converse(r * row + c, row, r, c);
    assert(r * row + row == (r + 1) * row) by (nonlinear_arith);
}

proof fn lemma_row_in_bounds(length: int, padded_row: int, row: int, r: int, c: int)
    requires
        0 < row <= padded_row,
        0 <= r < length / padded_row,
        0 <= c < row,
        0 <= length,
    ensures
        0 <= r * padded_row,
        r * padded_row + c < length,
{
    assert(0 <= r * padded_row && (r + 1) * padded_row == r * padded_row + padded_row
        && (r + 1) * padded_row <= (length / padded_row) * padded_row) by (nonlinear_arith)
        requires
            0 <= r,
            r + 1 <= length / padded_row,
            0 < padded_row,
    ;
    assert((length / padded_row) * padded_row <= length) by (nonlinear_arith)
        requires
            0 <= length,
            0 < padded_row,
    ;
}

/// The distance between the starts of two rows of `row` bytes in a buffer
/// whose rows start at multiples of `alignment`: the least multiple of
/// `alignment` that is not below `row`.
pub open spec fn padded_row(row: nat, alignment: nat) -> nat {
    if row % alignment == 0 {
        row
    } else {
        (row + alignment - row % alignment) as nat
    }
}

/// `padded_row` is a multiple of the alignment, holds the row, and is the
/// least such number.
pub proof fn lemma_padded_row_is_least_multiple(row: nat, alignment: nat)
    requires
        alignment > 0,
    ensures
        padded_row(row, alignment) % alignment == 0,
        row <= padded_row(row, alignment) < row + alignment,
{
    let remainder = row % alignment;
    let quotient = row / alignment;
    vstd::arithmetic::div_mod::lemma_fundamental_div_mod(row as int, alignment as int);
    if remainder != 0 {
        assert(row + alignment - remainder == alignment * (quotient + 1)) by (nonlinear_arith)
            requires
                row == alignment * quotient + remainder,
        ;
        vstd::arithmetic::div_mod::lemma_fundamental_div_mod_converse(
            (row + alignment - remainder) as int,
            alignment as int,
            (quotient + 1) as int,
            0,
        );
    }
}

/// The distance between the starts of two rows of `row` bytes where rows
/// start at multiples of `alignment`.
///
/// Fails with `FormatMismatch` where the alignment is zero, and with
/// `CapacityExceeded` where the distance does not fit in a `usize`.
pub fn align_row(row: usize, alignment: usize) -> (padded: Result<usize, Error>)
    ensures
        alignment == 0 ==> padded == Err::<usize, Error>(Error::FormatMismatch),
        alignment > 0 && padded_row(row as nat, alignment as nat) > usize::MAX ==> padded
            == Err::<usize, Error>(Error::CapacityExceeded),
        alignment > 0 && padded_row(row as nat, alignment as nat) <= usize::MAX ==> padded
            == Ok::<usize, Error>(padded_row(row as nat, alignment as nat) as usize),
{
    if alignment == 0 {
        return Err(Error::FormatMismatch);
    }
    let remainder = row % alignment;
    if remainder == 0 {
        return Ok(row);
    }
    let missing = alignment - remainder;
    if missing > usize::MAX - row {
        return Err(Error::CapacityExceeded);
    }
    Ok(row + missing)
}

/// Copies `height` rows of `row` bytes out of a buffer in which each row
/// starts `padded_row` bytes after the one before.
///
/// Fails with `FormatMismatch` where a row is empty or longer than the
/// distance between rows, and with `CapacityExceeded` where the image would
/// not fit in memory.
pub fn unpad_rows(padded: &[u8], padded_row: usize, row: usize, height: usize) -> (image:
    Result<Vec<u8>, Error>)
    ensures
        row == 0 || row > padded_row ==> image == Err::<Vec<u8>, Error>(Error::FormatMismatch),
        0 < row <= padded_row && row * height > usize::MAX ==> image == Err::<Vec<u8>, Error>(
            Error::CapacityExceeded,
        ),
        0 < row <= padded_row && row * height <= usize::MAX ==> image is Ok && image->Ok_0@
            == unpadded_rows(padded@, padded_row as nat, row as nat, height as nat),
{
    if row == 0 || row > padded_row {
        return Err(Error::FormatMismatch);
    }
    if height > usize::MAX / row {
        assert(row * height > usize::MAX) by (nonlinear_arith)
            requires
                height > usize::MAX / row,
                row > 0,
        ;
        return Err(Error::CapacityExceeded);
    }
    assert(row * height <= usize::MAX) by (nonlinear_arith)
        requires
            height <= usize::MAX / row,
            row > 0,
    ;
    let length = padded.len();
    let present: usize = length / padded_row;
    let mut image: Vec<u8> = Vec::new();
    let mut r: usize = 0;
    while r < height
        invariant
            0 < row <= padded_row,
            r <= height,
            row * height <= usize::MAX,
            present == padded@.len() / (padded_row as nat),
            length == padded@.len(),
            image@.len() == r * row,
            forall|index: int|
                0 <= index < image@.len() ==> image@[index] == unpadded_byte(
                    padded@,
                    padded_row as nat,
                    row as nat,
                    index,
                ),
        decreases height - r,
    {
        let mut c: usize = 0;
        while c < row
            invariant
                0 < row <= padded_row,
                r < height,
                c <= row,
                present == padded@.len() / (padded_row as nat),
                length == padded@.len(),
                image@.len() == r * row + c,
                forall|index: int|
                    0 <= index < image@.len() ==> image@[index] == unpadded_byte(
                        padded@,
                        padded_row as nat,
                        row as nat,
                        index,
                    ),
            decreases row - c,
        {
            proof {
                lemma_row_and_column(row as int, r as int, c as int);
            }
            let byte = if r < present {
                proof {
                    lemma_row_in_bounds(
                        padded@.len() as int,
                        padded_row as int,
                        row as int,
                        r as int,
                        c as int,
                    );
                }
                padded[r * padded_row + c]
            } else {
                0u8
            };
            image.push(byte);
            c += 1;
        }
        proof {
            lemma_row_and_column(row as int, r as int, 0);
        }
        r += 1;
    }
    proof {
        assert(height * row == row * height) by (nonlinear_arith);
    }
    Ok(image)
}

impl ImageSlice {
    /// An image of `width` by `height` pixels, every byte zero.
    ///
    /// Fails with `CapacityExceeded` where the number of bytes does not fit
    /// in 32 bits.
    pub fn new(width: u32, height: u32) -> (image: Result<Self, Error>)
        ensures
            width * height * BYTES_PER_PIXEL > u32::MAX ==> image is Err && image->Err_0
                == Error::CapacityExceeded,
            width * height * BYTES_PER_PIXEL <= u32::MAX ==> image is Ok && image->Ok_0.width
                == width && image->Ok_0.height == height && image->Ok_0.data@ == Seq::new(
                image_bytes(width, height),
                |index: int| 0u8,
            ),
    {
        assert(width * height <= 0xffff_ffff * 0xffff_ffff) by (nonlinear_arith)
            requires
                width <= 0xffff_ffff,
                height <= 0xffff_ffff,
        ;
        let count: u64 = width as u64 * height as u64;
        if count > (u32::MAX / BYTES_PER_PIXEL) as u64 {
            return Err(Error::CapacityExceeded);
        }
        let bytes: usize = (count * BYTES_PER_PIXEL as u64) as usize;
        let mut data: Vec<u8> = Vec::new();
        let mut index: usize = 0;
        while index < bytes
            invariant
                index <= bytes,
                data@.len() == index,
                forall|k: int| 0 <= k < index ==> data@[k] == 0u8,
            decreases bytes - index,
        {
            data.push(0u8);
            index += 1;
        }
        Ok(ImageSlice { width, height, data })
    }

    /// Replaces the pixels by `pixels`.
    ///
    /// Fails with `FormatMismatch`, and leaves the image as it was, where
    /// `pixels` does not hold four bytes for each pixel.
    pub fn copy_from(&mut self, pixels: &[u8]) -> (copied: Result<(), Error>)
        ensures
            final(self).width == old(self).width,
            final(self).height == old(self).height,
            pixels@.len() == old(self).width * old(self).height * BYTES_PER_PIXEL ==> copied is Ok
                && final(self).data@ == pixels@,
            pixels@.len() != old(self).width * old(self).height * BYTES_PER_PIXEL ==> copied
                == Err::<(), Error>(Error::FormatMismatch) && final(self).data@ == old(
                self,
            ).data@,
    {
        assert(self.width * self.height <= 0xffff_ffff * 0xffff_ffff) by (nonlinear_arith)
            requires
                self.width <= 0xffff_ffff,
                self.height <= 0xffff_ffff,
        ;
        let wanted: u128 = self.width as u128 * self.height as u128 * BYTES_PER_PIXEL as u128;
        if pixels.len() as u128 != wanted {
            return Err(Error::FormatMismatch);
        }
        let mut data: Vec<u8> = Vec::with_capacity(pixels.len());
        let mut index: usize = 0;
        while index < pixels.len()
            invariant
                index <= pixels@.len(),
                data@.len() == index,
                forall|k: int| 0 <= k < index ==> data@[k] == pixels@[k],
            decreases pixels@.len() - index,
        {
            data.push(pixels[index]);
            index += 1;
        }
        self.data = data;
        Ok(())
    }
}

} // verus!
