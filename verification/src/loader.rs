//! Loading a dataset from the two files of a dataset directory. Reading the
//! files is the caller's part; where they lie and what their contents make is
//! decided here.

use vstd::prelude::*;
use vstd::string::StringExecFns;
use crate::dataset::{extract_images_from_container, labeled, pair, Image, LabeledImage};
use crate::error::DecodeError;
use crate::images::{
    decode_images, is_image_file, lemma_record_len, parse_images, ImagesContainer,
    IMAGES_HEADER_LEN,
};
use crate::labels::{
    decode_labels, is_label_file, parse_labels, LabelsContainer, LABELS_HEADER_LEN,
};
use crate::word::be_u32;

verus! {

/// Path of the image file in the dataset directory `directory`.
pub fn images_path(directory: &str) -> (path: String)
    ensures
        path@ == directory@ + "/train-images-idx3-ubyte"@,
{
    String::from_str(directory).concat("/train-images-idx3-ubyte")
}

/// Path of the label file in the dataset directory `directory`.
pub fn labels_path(directory: &str) -> (path: String)
    ensures
        path@ == directory@ + "/train-labels-idx1-ubyte"@,
{
    String::from_str(directory).concat("/train-labels-idx1-ubyte")
}

/// The bytes of a file that was read, `None` for one that could not be read.
pub open spec fn contents(file: Option<Vec<u8>>) -> Option<Seq<u8>> {
    match file {
        Some(bytes) => Some(bytes@),
        None => None,
    }
}

/// The dataset that the two files of a directory make. The image file is
/// looked at first, and the first failure is the result: a file that could
/// not be read, then a header cut short, and last counts that do not fit the
/// payloads.
pub open spec fn load(images_file: Option<Seq<u8>>, labels_file: Option<Seq<u8>>) -> Result<
    Seq<LabeledImage>,
    DecodeError,
> {
    match images_file {
        None => Err(DecodeError::IOError),
        Some(images_bytes) => match parse_images(images_bytes) {
            Err(e) => Err(e),
            Ok(images) => match labels_file {
                None => Err(DecodeError::IOError),
                Some(labels_bytes) => match parse_labels(labels_bytes) {
                    Err(e) => Err(e),
                    Ok(labels) => pair(images, labels),
                },
            },
        },
    }
}

/// Decodes the image file and the label file of a dataset and joins them into
/// labeled images. Each argument is what reading the file gave: its bytes, or
/// `None` where it could not be read.
pub fn read_mnist(images_file: Option<Vec<u8>>, labels_file: Option<Vec<u8>>) -> (result: Result<
    Vec<Image>,
    DecodeError,
>)
    ensures
        match result {
            Ok(dataset) => load(contents(images_file), contents(labels_file)) == Ok::<
                Seq<LabeledImage>,
                DecodeError,
            >(labeled(dataset@)),
            Err(e) => load(contents(images_file), contents(labels_file)) == Err::<
                Seq<LabeledImage>,
                DecodeError,
            >(e),
        },
        images_file is None || (parse_images(images_file->0@) is Ok && labels_file is None)
            ==> result == Err::<Vec<Image>, DecodeError>(DecodeError::IOError),
{
    let images_bytes: Vec<u8> = match images_file {
        Some(bytes) => bytes,
        None => {
            return Err(DecodeError::IOError);
        },
    };
    let images: ImagesContainer = match decode_images(images_bytes.as_slice()) {
        Ok(images) => images,
        Err(e) => {
            return Err(e);
        },
    };
    let labels_bytes: Vec<u8> = match labels_file {
        Some(bytes) => bytes,
        None => {
            return Err(DecodeError::IOError);
        },
    };
    let labels: LabelsContainer = match decode_labels(labels_bytes.as_slice()) {
        Ok(labels) => labels,
        Err(e) => {
            return Err(e);
        },
    };
    extract_images_from_container(&images, &labels)
}

/// Two files as they should be, the label file declaring no more items than
/// the image file, load into one sample for each label: sample `i` holds byte
/// `i` of the label payload and the `i`-th run of `rows * cols` bytes of the
/// image payload.
pub proof fn lemma_load_matched_files(images_file: Seq<u8>, labels_file: Seq<u8>)
    requires
        is_image_file(images_file),
        is_label_file(labels_file),
        be_u32(labels_file, 4) <= be_u32(images_file, 4),
    ensures
        load(Some(images_file), Some(labels_file)) is Ok,
        ({
            let dataset = load(Some(images_file), Some(labels_file))->Ok_0;
            let stride = be_u32(images_file, 8) * be_u32(images_file, 12);
            &&& dataset.len() == be_u32(labels_file, 4)
            &&& forall|i: int|
                0 <= i < dataset.len() ==> (#[trigger] dataset[i]).label == labels_file[
                    LABELS_HEADER_LEN + i
                ] && dataset[i].pixels == images_file.subrange(
                    IMAGES_HEADER_LEN + i * stride,
                    IMAGES_HEADER_LEN + (i + 1) * stride,
                )
        }),
{
    let images = parse_images(images_file)->Ok_0;
    let dataset = load(Some(images_file), Some(labels_file))->Ok_0;
    assert forall|i: int| 0 <= i < dataset.len() implies (#[trigger] dataset[i]).pixels
        == images_file.subrange(
        IMAGES_HEADER_LEN + i * images.stride(),
        IMAGES_HEADER_LEN + (i + 1) * images.stride(),
    ) by {
        lemma_record_len(images, i);
        assert(images.record(i) =~= images_file.subrange(
            IMAGES_HEADER_LEN + i * images.stride(),
            IMAGES_HEADER_LEN + (i + 1) * images.stride(),
        ));
    }
}

} // verus!
