//! Decoder for the IDX files of the MNIST handwritten-digit dataset.
//!
//! An image file and a label file are each a big-endian header followed by a
//! flat payload. The decoders split a file into header fields and payload, the
//! record extractor cuts the image payload into one record per image, and the
//! pairing stage joins each label with the image at the same index.

pub mod dataset;
pub mod error;
pub mod images;
pub mod labels;
pub mod loader;
pub mod word;

pub use dataset::{extract_images_from_container, Image};
pub use error::DecodeError;
pub use images::{decode_images, extract_records, ImagesContainer};
pub use labels::{decode_labels, LabelsContainer};
pub use loader::{images_path, labels_path, read_mnist};
