use image_filters::image::Image;

#[test]
fn image_keeps_shape_and_samples() {
    let img = Image::new(2, 3, 1, vec![1, 2, 3, 4, 5, 6]).unwrap();
    assert_eq!(img.width(), 2);
    assert_eq!(img.height(), 3);
    assert_eq!(img.channels(), 1);
    assert_eq!(img.samples(), &vec![1, 2, 3, 4, 5, 6]);
    assert!(!img.is_empty());
}

#[test]
fn samples_are_row_major_and_channel_interleaved() {
    // two columns, two rows, three channels
    let data: Vec<u8> = vec![10, 11, 12, 20, 21, 22, 30, 31, 32, 40, 41, 42];
    let img = Image::new(2, 2, 3, data).unwrap();
    assert_eq!(img.sample(0, 0, 0), 10);
    assert_eq!(img.sample(0, 0, 2), 12);
    assert_eq!(img.sample(1, 0, 1), 21);
    assert_eq!(img.sample(0, 1, 0), 30);
    assert_eq!(img.sample(1, 1, 2), 42);
}

#[test]
fn get_is_none_outside_the_image() {
    let img = Image::new(2, 1, 1, vec![7, 9]).unwrap();
    assert_eq!(img.get(0, 0, 0), Some(7));
    assert_eq!(img.get(1, 0, 0), Some(9));
    assert_eq!(img.get(2, 0, 0), None);
    assert_eq!(img.get(0, 1, 0), None);
    assert_eq!(img.get(0, 0, 1), None);
    assert_eq!(img.get(usize::MAX, usize::MAX, usize::MAX), None);
}

#[test]
fn buffer_of_wrong_length_is_refused() {
    assert!(Image::new(2, 2, 1, vec![1, 2, 3]).is_none());
    assert!(Image::new(2, 2, 1, vec![1, 2, 3, 4, 5]).is_none());
    assert!(Image::new(2, 2, 3, vec![0; 4]).is_none());
    assert!(Image::new(0, 2, 1, vec![1]).is_none());
}

#[test]
fn unsupported_channel_counts_are_refused() {
    assert!(Image::new(1, 1, 0, vec![]).is_none());
    assert!(Image::new(1, 1, 2, vec![1, 2]).is_none());
    assert!(Image::new(1, 1, 5, vec![1, 2, 3, 4, 5]).is_none());
    assert!(Image::new(1, 1, 1, vec![1]).is_some());
    assert!(Image::new(1, 1, 3, vec![1, 2, 3]).is_some());
    assert!(Image::new(1, 1, 4, vec![1, 2, 3, 4]).is_some());
}

#[test]
fn shapes_beyond_the_machine_word_are_refused() {
    assert!(Image::new(usize::MAX, 2, 1, vec![]).is_none());
    assert!(Image::new(usize::MAX, usize::MAX, 4, vec![]).is_none());
    assert!(Image::new(usize::MAX / 2, 1, 3, vec![]).is_none());
}

#[test]
fn image_without_pixels_is_empty() {
    let no_columns = Image::new(0, 5, 3, vec![]).unwrap();
    assert!(no_columns.is_empty());
    assert_eq!(no_columns.height(), 5);
    let no_rows = Image::new(5, 0, 1, vec![]).unwrap();
    assert!(no_rows.is_empty());
    let nothing = Image::new(0, 0, 4, vec![]).unwrap();
    assert!(nothing.is_empty());
}

#[test]
fn cloned_image_equals_its_source() {
    let img = Image::new(2, 1, 3, vec![1, 2, 3, 4, 5, 6]).unwrap();
    let copy = img.clone();
    assert_eq!(copy, img);
    assert_eq!(copy.samples(), img.samples());
}
