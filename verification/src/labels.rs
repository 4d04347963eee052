//! The label file: a header of two words, then one byte per label.

use vstd::prelude::*;
use vstd::slice::{slice_subrange, slice_to_vec};
use crate::error::DecodeError;
use crate::word::{be_u32, read_be_u32};

verus! {

/// Magic number that marks a label file.
pub const LABELS_MAGIC: u32 = 2049;

/// Length of a label file's header: magic number and item count.
pub const LABELS_HEADER_LEN: usize = 8;

/// A decoded label file: the header fields and the payload that follows them.
#[derive(Debug, PartialEq, Eq)]
pub struct LabelsContainer {
    pub magic_number: u32,
    /// Number of labels that the header declares.
    pub count: u32,
    /// The bytes after the header, one per label.
    pub data: Vec<u8>,
}

/// What a `LabelsContainer` holds, as mathematical values.
pub struct LabelsModel {
    pub magic_number: u32,
    pub count: u32,
    pub data: Seq<u8>,
}

impl View for LabelsContainer {
    type V = LabelsModel;

    open spec fn view(&self) -> LabelsModel {
        LabelsModel { magic_number: self.magic_number, count: self.count, data: self.data@ }
    }
}

impl LabelsModel {
    /// The header names a label file and declares exactly the labels that the
    /// payload holds.
    pub open spec fn well_formed(self) -> bool {
        &&& self.magic_number == LABELS_MAGIC
        &&& self.data.len() == self.count
    }
}

/// What decoding makes of the bytes of a label file. Only the length of the
/// header is checked: whether the declared count fits the payload is found out
/// when the labels are paired with their images.
pub open spec fn parse_labels(bytes: Seq<u8>) -> Result<LabelsModel, DecodeError> {
    if bytes.len() < LABELS_HEADER_LEN {
        Err(DecodeError::InvalidSize)
    } else {
        Ok(
            LabelsModel {
                magic_number: be_u32(bytes, 0),
                count: be_u32(bytes, 4),
                data: bytes.skip(LABELS_HEADER_LEN as int),
            },
        )
    }
}

/// The bytes are a label file as it should be: a whole header with the label
/// magic number, and as many payload bytes as the header declares labels.
pub open spec fn is_label_file(bytes: Seq<u8>) -> bool {
    &&& bytes.len() >= LABELS_HEADER_LEN
    &&& be_u32(bytes, 0) == LABELS_MAGIC
    &&& be_u32(bytes, 4) == bytes.len() - LABELS_HEADER_LEN
}

/// Decodes the bytes of a label file into its header fields and payload.
pub fn decode_labels(bytes: &[u8]) -> (result: Result<LabelsContainer, DecodeError>)
    ensures
        match result {
            Ok(labels) => parse_labels(bytes@) == Ok::<LabelsModel, DecodeError>(labels@),
            Err(e) => parse_labels(bytes@) == Err::<LabelsModel, DecodeError>(e),
        },
        bytes@.len() < LABELS_HEADER_LEN ==> result == Err::<LabelsContainer, DecodeError>(
            DecodeError::InvalidSize,
        ),
        is_label_file(bytes@) ==> result is Ok && result->Ok_0@.well_formed(),
{
    if bytes.len() < LABELS_HEADER_LEN {
        return Err(DecodeError::InvalidSize);
    }
    let magic_number: u32 = read_be_u32(bytes, 0);
    let count: u32 = read_be_u32(bytes, 4);
    let data: Vec<u8> = slice_to_vec(slice_subrange(bytes, LABELS_HEADER_LEN, bytes.len()));
    Ok(LabelsContainer { magic_number, count, data })
}

} // verus!
