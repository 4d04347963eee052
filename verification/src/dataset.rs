//! Labeled images: each label of a label file joined with the image at the
//! same index of an image file.

use vstd::prelude::*;
use crate::error::DecodeError;
use crate::images::{extract_records, ImagesContainer, ImagesModel};
use crate::labels::{LabelsContainer, LabelsModel};

verus! {

/// One sample of the dataset: the pixels of an image and its label.
#[derive(Debug, PartialEq, Eq)]
pub struct Image {
    pub pixels: Vec<u8>,
    pub label: u8,
}

/// What an `Image` holds, as mathematical values.
pub struct LabeledImage {
    pub pixels: Seq<u8>,
    pub label: u8,
}

impl View for Image {
    type V = LabeledImage;

    open spec fn view(&self) -> LabeledImage {
        LabeledImage { pixels: self.pixels@, label: self.label }
    }
}

/// The samples of a dataset, each as mathematical values.
pub open spec fn labeled(dataset: Seq<Image>) -> Seq<LabeledImage> {
    dataset.map_values(|image: Image| image@)
}

/// The declared labels can each be joined with an image: the image payload
/// holds every declared image, and the label file declares no more labels
/// than there are images or label bytes.
pub open spec fn pairable(images: ImagesModel, labels: LabelsModel) -> bool {
    &&& images.consistent()
    &&& labels.count <= images.count
    &&& labels.count <= labels.data.len()
}

/// The dataset that two decoded files make. The label count says how many
/// samples there are: images beyond it are left out, and a label count beyond
/// the images or the label bytes is refused.
pub open spec fn pair(images: ImagesModel, labels: LabelsModel) -> Result<
    Seq<LabeledImage>,
    DecodeError,
> {
    if pairable(images, labels) {
        Ok(
            Seq::new(
                labels.count as nat,
                |i: int| LabeledImage { pixels: images.records()[i], label: labels.data[i] },
            ),
        )
    } else {
        Err(DecodeError::OutOfRange)
    }
}

/// Joins each declared label with the image record at the same index. The
/// label count says how many samples come out: image records beyond it are
/// dropped, and a label count beyond the image records or the label bytes is
/// refused, as is an image payload too short for its declared images.
pub fn extract_images_from_container(images: &ImagesContainer, labels: &LabelsContainer) -> (result:
    Result<Vec<Image>, DecodeError>)
    ensures
        match result {
            Ok(dataset) => pair(images@, labels@) == Ok::<Seq<LabeledImage>, DecodeError>(
                labeled(dataset@),
            ),
            Err(e) => pair(images@, labels@) == Err::<Seq<LabeledImage>, DecodeError>(e),
        },
        images@.well_formed() && labels@.well_formed() && labels.count <= images.count
            ==> result is Ok,
        result matches Ok(dataset) ==> dataset.len() == labels.count && forall|i: int|
            0 <= i < dataset.len() ==> (#[trigger] dataset[i]).label == labels.data[i]
                && dataset[i].pixels@ == images@.records()[i],
        labels.count > labels.data@.len() ==> result == Err::<Vec<Image>, DecodeError>(
            DecodeError::OutOfRange,
        ),
{
    let mut records: Vec<Vec<u8>> = match extract_records(images) {
        Ok(records) => records,
        Err(e) => {
            return Err(e);
        },
    };
    let count: usize = labels.count as usize;
    if count > records.len() || count > labels.data.len() {
        return Err(DecodeError::OutOfRange);
    }
    records.truncate(count);
    let mut dataset: Vec<Image> = Vec::new();
    for pixels in it: records
        invariant
            count == labels.count,
            count <= labels.data@.len(),
            it.seq().len() == count,
            forall|j: int| 0 <= j < count ==> (#[trigger] it.seq()[j])@ == images@.records()[j],
            dataset.len() == it.index(),
            forall|j: int|
                0 <= j < dataset.len() ==> (#[trigger] dataset[j])@ == (LabeledImage {
                    pixels: images@.records()[j],
                    label: labels.data@[j],
                }),
    {
        let label: u8 = labels.data[dataset.len()];
        dataset.push(Image { pixels, label });
    }
    assert(labeled(dataset@) =~= pair(images@, labels@)->Ok_0);
    Ok(dataset)
}

} // verus!
