//! Cutting the image payload into records, and joining records with labels.

use mnist_decoder::{
    extract_images_from_container, extract_records, DecodeError, Image, ImagesContainer,
    LabelsContainer,
};

fn images(count: u32, rows: u32, cols: u32, data: Vec<u8>) -> ImagesContainer {
    ImagesContainer { magic_number: 2051, count, rows, cols, data }
}

fn labels(count: u32, data: Vec<u8>) -> LabelsContainer {
    LabelsContainer { magic_number: 2049, count, data }
}

#[test]
fn records_of_a_well_formed_container() {
    let container = images(3, 2, 2, (10u8..22).collect());
    let records = extract_records(&container).unwrap();
    assert_eq!(records, vec![vec![10, 11, 12, 13], vec![14, 15, 16, 17], vec![18, 19, 20, 21]]);
}

#[test]
fn records_have_count_and_stride() {
    let container = images(4, 3, 5, vec![7; 60]);
    let records = extract_records(&container).unwrap();
    assert_eq!(records.len(), 4);
    for record in &records {
        assert_eq!(record.len(), 15);
    }
}

#[test]
fn records_leave_the_container_unchanged() {
    let container = images(2, 1, 3, vec![1, 2, 3, 4, 5, 6]);
    let _ = extract_records(&container).unwrap();
    assert_eq!(container, images(2, 1, 3, vec![1, 2, 3, 4, 5, 6]));
}

#[test]
fn records_of_no_images() {
    assert_eq!(extract_records(&images(0, 28, 28, vec![])), Ok(vec![]));
    assert_eq!(extract_records(&images(0, 28, 28, vec![1, 2, 3])), Ok(vec![]));
    assert_eq!(extract_records(&images(0, u32::MAX, u32::MAX, vec![])), Ok(vec![]));
}

#[test]
fn records_of_empty_images() {
    let empty: Vec<u8> = Vec::new();
    assert_eq!(
        extract_records(&images(3, 0, 28, vec![])),
        Ok(vec![empty.clone(), empty.clone(), empty.clone()])
    );
    assert_eq!(extract_records(&images(2, 28, 0, vec![9, 9])), Ok(vec![empty.clone(), empty]));
}

#[test]
fn records_ignore_bytes_past_the_declared_images() {
    let container = images(2, 1, 2, vec![1, 2, 3, 4, 5, 6, 7]);
    assert_eq!(extract_records(&container), Ok(vec![vec![1, 2], vec![3, 4]]));
}

#[test]
fn records_of_a_short_payload_are_out_of_range() {
    assert_eq!(extract_records(&images(3, 2, 2, vec![0; 11])), Err(DecodeError::OutOfRange));
    assert_eq!(extract_records(&images(1, 1, 1, vec![])), Err(DecodeError::OutOfRange));
    assert_eq!(extract_records(&images(60000, 28, 28, vec![0; 784])), Err(DecodeError::OutOfRange));
}

#[test]
fn records_of_huge_dimensions_are_out_of_range() {
    let container = images(u32::MAX, u32::MAX, u32::MAX, vec![0; 64]);
    assert_eq!(extract_records(&container), Err(DecodeError::OutOfRange));
    let container = images(1, 0x1_0000, 0x1_0000, vec![0; 64]);
    assert_eq!(extract_records(&container), Err(DecodeError::OutOfRange));
    let container = images(2, 0x8000_0000, 2, vec![0; 64]);
    assert_eq!(extract_records(&container), Err(DecodeError::OutOfRange));
}

#[test]
fn pairs_matched_containers() {
    let dataset = extract_images_from_container(
        &images(3, 2, 2, (0u8..12).collect()),
        &labels(3, vec![5, 0, 9]),
    )
    .unwrap();
    assert_eq!(
        dataset,
        vec![
            Image { pixels: vec![0, 1, 2, 3], label: 5 },
            Image { pixels: vec![4, 5, 6, 7], label: 0 },
            Image { pixels: vec![8, 9, 10, 11], label: 9 },
        ]
    );
}

#[test]
fn pairs_follow_the_records_and_the_labels() {
    let image_container = images(5, 3, 2, (100u8..130).collect());
    let label_container = labels(5, vec![1, 3, 5, 7, 9]);
    let records = extract_records(&image_container).unwrap();
    let dataset = extract_images_from_container(&image_container, &label_container).unwrap();
    assert_eq!(dataset.len(), 5);
    for index in 0..5 {
        assert_eq!(dataset[index].label, label_container.data[index]);
        assert_eq!(dataset[index].pixels, records[index]);
    }
}

#[test]
fn pairs_drop_images_past_the_label_count() {
    let dataset = extract_images_from_container(
        &images(3, 1, 2, vec![1, 2, 3, 4, 5, 6]),
        &labels(2, vec![7, 8]),
    )
    .unwrap();
    assert_eq!(
        dataset,
        vec![Image { pixels: vec![1, 2], label: 7 }, Image { pixels: vec![3, 4], label: 8 }]
    );
}

#[test]
fn pairs_ignore_label_bytes_past_the_label_count() {
    let dataset = extract_images_from_container(
        &images(2, 1, 1, vec![1, 2]),
        &labels(1, vec![7, 8, 9]),
    )
    .unwrap();
    assert_eq!(dataset, vec![Image { pixels: vec![1], label: 7 }]);
}

#[test]
fn pairs_of_no_labels_are_empty() {
    let dataset =
        extract_images_from_container(&images(2, 1, 1, vec![1, 2]), &labels(0, vec![])).unwrap();
    assert!(dataset.is_empty());
}

#[test]
fn label_count_past_label_payload_is_out_of_range() {
    let result = extract_images_from_container(
        &images(3, 2, 2, (0u8..12).collect()),
        &labels(3, vec![5, 0]),
    );
    assert_eq!(result, Err(DecodeError::OutOfRange));
}

#[test]
fn label_count_past_image_count_is_out_of_range() {
    let result = extract_images_from_container(
        &images(2, 2, 2, (0u8..8).collect()),
        &labels(3, vec![5, 0, 9]),
    );
    assert_eq!(result, Err(DecodeError::OutOfRange));
}

#[test]
fn short_image_payload_is_out_of_range_whatever_the_labels() {
    let result =
        extract_images_from_container(&images(3, 2, 2, vec![0; 11]), &labels(1, vec![5]));
    assert_eq!(result, Err(DecodeError::OutOfRange));
    let result = extract_images_from_container(&images(3, 2, 2, vec![0; 11]), &labels(0, vec![]));
    assert_eq!(result, Err(DecodeError::OutOfRange));
}
