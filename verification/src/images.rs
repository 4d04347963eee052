//! The image file: a header of four words, then the images one after another,
//! each `rows * cols` bytes long.

use vstd::prelude::*;
use vstd::slice::{slice_subrange, slice_to_vec};
use crate::error::DecodeError;
use crate::word::{be_u32, read_be_u32};

verus! {

/// Magic number that marks an image file.
pub const IMAGES_MAGIC: u32 = 2051;

/// Length of an image file's header: magic number, item count, rows, columns.
pub const IMAGES_HEADER_LEN: usize = 16;

/// A decoded image file: the header fields and the payload that follows them.
#[derive(Debug, PartialEq, Eq)]
pub struct ImagesContainer {
    pub magic_number: u32,
    /// Number of images that the header declares.
    pub count: u32,
    pub rows: u32,
    pub cols: u32,
    /// The bytes after the header: the images, back to back.
    pub data: Vec<u8>,
}

/// What an `ImagesContainer` holds, as mathematical values.
pub struct ImagesModel {
    pub magic_number: u32,
    pub count: u32,
    pub rows: u32,
    pub cols: u32,
    pub data: Seq<u8>,
}

impl View for ImagesContainer {
    type V = ImagesModel;

    open spec fn view(&self) -> ImagesModel {
        ImagesModel {
            magic_number: self.magic_number,
            count: self.count,
            rows: self.rows,
            cols: self.cols,
            data: self.data@,
        }
    }
}

impl ImagesModel {
    /// Length in bytes of one image.
    pub open spec fn stride(self) -> nat {
        (self.rows * self.cols) as nat
    }

    /// The payload is long enough for every image that the header declares.
    pub open spec fn consistent(self) -> bool {
        self.count * self.stride() <= self.data.len()
    }

    /// The header names an image file and declares exactly the images that the
    /// payload holds.
    pub open spec fn well_formed(self) -> bool {
        &&& self.magic_number == IMAGES_MAGIC
        &&& self.data.len() == self.count * self.stride()
    }

    /// The bytes of the image at index `i`.
    pub open spec fn record(self, i: int) -> Seq<u8>
        recommends
            0 <= i < self.count,
            self.consistent(),
    {
        self.data.subrange(i * self.stride(), (i + 1) * self.stride())
    }

    /// All declared images, in the order of the payload.
    pub open spec fn records(self) -> Seq<Seq<u8>>
        recommends
            self.consistent(),
    {
        Seq::new(self.count as nat, |i: int| self.record(i))
    }
}

/// What decoding makes of the bytes of an image file. Only the length of the
/// header is checked: whether the declared images fit the payload is found out
/// when the records are cut.
pub open spec fn parse_images(bytes: Seq<u8>) -> Result<ImagesModel, DecodeError> {
    if bytes.len() < IMAGES_HEADER_LEN {
        Err(DecodeError::InvalidSize)
    } else {
        Ok(
            ImagesModel {
                magic_number: be_u32(bytes, 0),
                count: be_u32(bytes, 4),
                rows: be_u32(bytes, 8),
                cols: be_u32(bytes, 12),
                data: bytes.skip(IMAGES_HEADER_LEN as int),
            },
        )
    }
}

/// The bytes are an image file as it should be: a whole header with the image
/// magic number, and exactly the payload bytes that the declared images take.
pub open spec fn is_image_file(bytes: Seq<u8>) -> bool {
    &&& bytes.len() >= IMAGES_HEADER_LEN
    &&& be_u32(bytes, 0) == IMAGES_MAGIC
    &&& be_u32(bytes, 4) * (be_u32(bytes, 8) * be_u32(bytes, 12)) == bytes.len()
        - IMAGES_HEADER_LEN
}

/// Decodes the bytes of an image file into its header fields and payload.
pub fn decode_images(bytes: &[u8]) -> (result: Result<ImagesContainer, DecodeError>)
    ensures
        match result {
            Ok(images) => parse_images(bytes@) == Ok::<ImagesModel, DecodeError>(images@),
            Err(e) => parse_images(bytes@) == Err::<ImagesModel, DecodeError>(e),
        },
        bytes@.len() < IMAGES_HEADER_LEN ==> result == Err::<ImagesContainer, DecodeError>(
            DecodeError::InvalidSize,
        ),
        is_image_file(bytes@) ==> result is Ok && result->Ok_0@.well_formed(),
{
    if bytes.len() < IMAGES_HEADER_LEN {
        return Err(DecodeError::InvalidSize);
    }
    let magic_number: u32 = read_be_u32(bytes, 0);
    let count: u32 = read_be_u32(bytes, 4);
    let rows: u32 = read_be_u32(bytes, 8);
    let cols: u32 = read_be_u32(bytes, 12);
    let data: Vec<u8> = slice_to_vec(slice_subrange(bytes, IMAGES_HEADER_LEN, bytes.len()));
    Ok(ImagesContainer { magic_number, count, rows, cols, data })
}

/// Cuts the payload of a decoded image file into its images, one record of
/// `rows * cols` bytes for each image that the header declares, in the order
/// of the payload. A payload too short for the declared images is refused as
/// a whole; bytes past the last declared image are left out.
pub fn extract_records(images: &ImagesContainer) -> (result: Result<Vec<Vec<u8>>, DecodeError>)
    ensures
        match result {
            Ok(records) => images@.consistent() && records@.map_values(|r: Vec<u8>| r@)
                == images@.records(),
            Err(e) => !images@.consistent() && e == DecodeError::OutOfRange,
        },
        images@.well_formed() ==> result is Ok,
        result matches Ok(records) ==> records.len() == images.count && forall|i: int|
            0 <= i < records.len() ==> (#[trigger] records[i]).len() == images.rows * images.cols,
{
    proof {
        lemma_declared_len_bounds(images.count, images.rows, images.cols);
    }
    let record_len: u128 = images.rows as u128 * images.cols as u128;
    let declared_len: u128 = images.count as u128 * record_len;
    if declared_len > images.data.len() as u128 {
        return Err(DecodeError::OutOfRange);
    }
    let mut records: Vec<Vec<u8>> = Vec::new();
    if images.count == 0 {
        assert(records@.map_values(|r: Vec<u8>| r@) =~= images@.records());
        return Ok(records);
    }
    let count: usize = images.count as usize;
    let stride: usize = record_len as usize;
    let mut start: usize = 0;
    let mut i: usize = 0;
    while i < count
        invariant
            i <= count,
            count == images.count,
            stride == images@.stride(),
            images@.consistent(),
            images.data@.len() <= usize::MAX,
            start == i * stride,
            records.len() == i,
            forall|j: int| 0 <= j < i ==> (#[trigger] records[j])@ == images@.record(j),
        decreases count - i,
    {
        proof {
            lemma_record_len(images@, i as int);
        }
        let end: usize = start + stride;
        records.push(slice_to_vec(slice_subrange(images.data.as_slice(), start, end)));
        start = end;
        i += 1;
    }
    assert(records@.map_values(|r: Vec<u8>| r@) =~= images@.records());
    assert forall|j: int| 0 <= j < records.len() implies (#[trigger] records[j]).len()
        == images.rows * images.cols by {
        lemma_record_len(images@, j);
    }
    Ok(records)
}

/// The payload length that a header declares fits a 128-bit integer, and
/// where it declares an image at all, so does the length of one image.
proof fn lemma_declared_len_bounds(count: u32, rows: u32, cols: u32)
    by (nonlinear_arith)
    ensures
        rows * cols <= u32::MAX * u32::MAX,
        count * (rows * cols) <= u32::MAX * (u32::MAX * u32::MAX),
        count >= 1 ==> rows * cols <= count * (rows * cols),
{
}

/// In a payload long enough for all declared images, each record lies within
/// the payload and is one stride long.
pub proof fn lemma_record_len(images: ImagesModel, i: int)
    requires
        images.consistent(),
        0 <= i < images.count,
    ensures
        0 <= i * images.stride() <= (i + 1) * images.stride() <= images.data.len(),
        (i + 1) * images.stride() == i * images.stride() + images.stride(),
        images.record(i).len() == images.stride(),
{
    let stride = images.stride();
    assert(0 <= i * stride) by (nonlinear_arith)
        requires
            0 <= i,
            0 <= stride,
    ;
    assert((i + 1) * stride == i * stride + stride) by (nonlinear_arith);
    assert((i + 1) * stride <= images.count * stride) by (nonlinear_arith)
        requires
            i + 1 <= images.count,
            0 <= stride,
    ;
}

} // verus!
