use image_filters::catalog::{catalog, output_file_name, CatalogEntry};
use image_filters::engine::convolve;
use image_filters::error::ErrorKind;
use image_filters::image::Image;
use image_filters::kernel::Kernel;
use image_filters::pipeline::{apply_entry, run_pipeline};

fn synthetic() -> Image {
    let data: Vec<u8> = vec![
        0, 5, 10, 12, 17, 22, 24, 29, 34, 36, 41, 46, 48, 53, 58, 61, 66, 71, 74, 79, 84, 87, 92, 97, 96, 101,
        106, 110, 115, 120, 124, 129, 134, 138, 143, 148, 144, 149, 154, 159, 164, 169, 174, 179, 184, 182,
        187, 192,
    ];
    Image::new(4, 4, 3, data).unwrap()
}

fn failed(name: &str, cause: ErrorKind) -> ErrorKind {
    ErrorKind::FilterFailed { name: name.to_string(), cause: Box::new(cause) }
}

#[test]
fn catalog_holds_the_five_filters_in_order() {
    let entries = catalog();
    let names: Vec<&str> = entries.iter().map(|e| e.name.as_str()).collect();
    assert_eq!(names, vec!["average", "gaussian", "sobel-x", "sobel-y", "sharpen"]);
    assert_eq!(entries[0].kernel.weights, vec![1, 1, 1, 1, 1, 1, 1, 1, 1]);
    assert_eq!(entries[0].kernel.divisor, 9);
    assert_eq!(entries[1].kernel.weights, vec![1, 2, 1, 2, 4, 2, 1, 2, 1]);
    assert_eq!(entries[1].kernel.divisor, 16);
    assert_eq!(entries[2].kernel.weights, vec![-1, 0, 1, -2, 0, 2, -1, 0, 1]);
    assert_eq!(entries[2].kernel.divisor, 1);
    assert_eq!(entries[3].kernel.weights, vec![-1, -2, -1, 0, 0, 0, 1, 2, 1]);
    assert_eq!(entries[3].kernel.divisor, 1);
    assert_eq!(entries[4].kernel.weights, vec![0, -1, 0, -1, 5, -1, 0, -1, 0]);
    assert_eq!(entries[4].kernel.divisor, 1);
    for entry in &entries {
        assert_eq!(entry.kernel.width, 3);
        assert_eq!(entry.kernel.height, 3);
        assert_eq!(entry.kernel.anchor_x, 1);
        assert_eq!(entry.kernel.anchor_y, 1);
        assert!(entry.kernel.is_valid());
    }
}

#[test]
fn catalog_kernels_equal_their_weight_matrices() {
    let entries = catalog();
    let sobel_x: Vec<Vec<i32>> = vec![vec![-1, 0, 1], vec![-2, 0, 2], vec![-1, 0, 1]];
    assert_eq!(entries[2].kernel, Kernel::new(&sobel_x, 1).unwrap());
    let gaussian: Vec<Vec<i32>> = vec![vec![1, 2, 1], vec![2, 4, 2], vec![1, 2, 1]];
    assert_eq!(entries[1].kernel, Kernel::new(&gaussian, 16).unwrap());
}

#[test]
fn output_files_are_named_after_the_filter() {
    let report = run_pipeline(&synthetic(), &catalog()).unwrap();
    let files: Vec<String> = report.filtered.iter().map(|f| f.file_name()).collect();
    assert_eq!(
        files,
        vec![
            "average_filter.jpg",
            "gaussian_filter.jpg",
            "sobel-x_filter.jpg",
            "sobel-y_filter.jpg",
            "sharpen_filter.jpg",
        ]
    );
    assert_eq!(output_file_name("emboss"), "emboss_filter.jpg");
    assert_eq!(output_file_name(""), "_filter.jpg");
}

#[test]
fn custom_entries_run_like_catalog_entries() {
    let emboss: Vec<Vec<i32>> = vec![vec![-2, -1, 0], vec![-1, 1, 1], vec![0, 1, 2]];
    let entry = CatalogEntry { name: "emboss".to_string(), kernel: Kernel::new(&emboss, 1).unwrap() };
    let report = run_pipeline(&synthetic(), &vec![entry.clone()]).unwrap();
    assert_eq!(report.filtered.len(), 1);
    assert_eq!(report.filtered[0].name, "emboss");
    assert_eq!(report.filtered[0].file_name(), "emboss_filter.jpg");
    assert_eq!(report.filtered[0].image, convolve(&synthetic(), &entry.kernel).unwrap());
}

#[test]
fn errors_describe_themselves() {
    assert_eq!(ErrorKind::InvalidKernel.message(), "invalid kernel");
    assert_eq!(ErrorKind::EmptyImage.message(), "empty image");
    assert_eq!(
        failed("sobel-x", ErrorKind::InvalidKernel).message(),
        "filter sobel-x failed: invalid kernel"
    );
    assert_eq!(failed("average", ErrorKind::EmptyImage).message(), "filter average failed: empty image");
    let nested = failed("outer", failed("inner", ErrorKind::EmptyImage));
    assert_eq!(nested.message(), "filter outer failed: filter inner failed: empty image");
}

#[test]
fn all_five_filters_run_on_a_synthetic_image() {
    let img = synthetic();
    let report = run_pipeline(&img, &catalog()).unwrap();
    assert!(report.failures.is_empty());
    assert_eq!(report.filtered.len(), 5);
    let names: Vec<&str> = report.filtered.iter().map(|f| f.name.as_str()).collect();
    assert_eq!(names, vec!["average", "gaussian", "sobel-x", "sobel-y", "sharpen"]);
    for output in &report.filtered {
        assert_eq!(output.image.width(), 4);
        assert_eq!(output.image.height(), 4);
        assert_eq!(output.image.channels(), 3);
        assert_eq!(output.image.samples().len(), 48);
    }
}

#[test]
fn gaussian_at_an_interior_pixel_is_the_weighted_neighbourhood() {
    let img = synthetic();
    let report = run_pipeline(&img, &catalog()).unwrap();
    let gaussian = &report.filtered[1];
    assert_eq!(gaussian.name, "gaussian");
    // first channel around (1, 1):
    //    0  12  24
    //   48  61  74
    //   96 110 124
    // (0 + 2*12 + 24 + 2*48 + 4*61 + 2*74 + 96 + 2*110 + 124) / 16 = 976 / 16
    assert_eq!(gaussian.image.sample(1, 1, 0), 61);
    for c in 0..3usize {
        let mut sum: u32 = 0;
        let weights: [u32; 9] = [1, 2, 1, 2, 4, 2, 1, 2, 1];
        for i in 0..3usize {
            for j in 0..3usize {
                sum += weights[i * 3 + j] * img.sample(2 + j - 1, 1 + i - 1, c) as u32;
            }
        }
        let rounded: u32 = (2 * sum + 16) / 32;
        assert_eq!(gaussian.image.sample(2, 1, c) as u32, rounded);
    }
}

#[test]
fn pipeline_outputs_match_the_expected_samples() {
    let report = run_pipeline(&synthetic(), &catalog()).unwrap();
    assert_eq!(
        report.filtered[0].image.samples(),
        &vec![
            40, 45, 50, 45, 50, 55, 57, 62, 67, 62, 67, 72, 57, 62, 67, 61, 66, 71, 74, 79, 84, 78, 83, 88,
            105, 110, 115, 110, 115, 120, 123, 128, 133, 128, 133, 138, 122, 127, 132, 126, 131, 136, 140,
            145, 150, 145, 150, 155,
        ]
    );
    assert_eq!(
        report.filtered[1].image.samples(),
        &vec![
            30, 35, 40, 37, 42, 47, 49, 54, 59, 55, 60, 65, 55, 60, 65, 61, 66, 71, 74, 79, 84, 81, 86, 91,
            103, 108, 113, 110, 115, 120, 124, 129, 134, 130, 135, 140, 127, 132, 137, 135, 140, 145, 148,
            153, 158, 155, 160, 165,
        ]
    );
    assert_eq!(
        report.filtered[2].image.samples(),
        &vec![
            0, 0, 0, 100, 100, 100, 100, 100, 100, 0, 0, 0, 0, 0, 0, 104, 104, 104, 104, 104, 104, 0, 0, 0, 0,
            0, 0, 112, 112, 112, 105, 105, 105, 0, 0, 0, 0, 0, 0, 116, 116, 116, 102, 102, 102, 0, 0, 0,
        ]
    );
    assert_eq!(
        report.filtered[3].image.samples(),
        &vec![
            0, 0, 0, 0, 0, 0, 0, 0, 0, 0, 0, 0, 255, 255, 255, 255, 255, 255, 255, 255, 255, 255, 255, 255,
            255, 255, 255, 255, 255, 255, 255, 255, 255, 255, 255, 255, 0, 0, 0, 0, 0, 0, 0, 0, 0, 0, 0, 0,
        ]
    );
    assert_eq!(
        report.filtered[4].image.samples(),
        &vec![
            0, 0, 0, 0, 0, 0, 0, 0, 0, 0, 0, 0, 22, 27, 32, 61, 66, 71, 74, 79, 84, 113, 118, 123, 68, 73, 78,
            110, 115, 120, 124, 129, 134, 173, 178, 183, 210, 215, 220, 255, 255, 255, 255, 255, 255, 255,
            255, 255,
        ]
    );
}

#[test]
fn pipeline_output_equals_direct_convolution() {
    let img = synthetic();
    let entries = catalog();
    let report = run_pipeline(&img, &entries).unwrap();
    for (entry, output) in entries.iter().zip(report.filtered.iter()) {
        assert_eq!(output.name, entry.name);
        assert_eq!(output.image, convolve(&img, &entry.kernel).unwrap());
    }
}

#[test]
fn one_corrupted_entry_does_not_stop_the_others() {
    let img = synthetic();
    let mut entries = catalog();
    entries[2].kernel.weights.truncate(4);
    let report = run_pipeline(&img, &entries).unwrap();
    let names: Vec<&str> = report.filtered.iter().map(|f| f.name.as_str()).collect();
    assert_eq!(names, vec!["average", "gaussian", "sobel-y", "sharpen"]);
    assert_eq!(report.failures, vec![failed("sobel-x", ErrorKind::InvalidKernel)]);
    let clean = run_pipeline(&img, &catalog()).unwrap();
    assert_eq!(report.filtered[0], clean.filtered[0]);
    assert_eq!(report.filtered[1], clean.filtered[1]);
    assert_eq!(report.filtered[2], clean.filtered[3]);
    assert_eq!(report.filtered[3], clean.filtered[4]);
}

#[test]
fn failures_are_reported_in_catalog_order() {
    let img = synthetic();
    let mut entries = catalog();
    entries[0].kernel.divisor = 0;
    entries[3].kernel.width = 4;
    entries[4].kernel.anchor_x = 9;
    let report = run_pipeline(&img, &entries).unwrap();
    let names: Vec<&str> = report.filtered.iter().map(|f| f.name.as_str()).collect();
    assert_eq!(names, vec!["gaussian", "sobel-x"]);
    assert_eq!(
        report.failures,
        vec![
            failed("average", ErrorKind::InvalidKernel),
            failed("sobel-y", ErrorKind::InvalidKernel),
            failed("sharpen", ErrorKind::InvalidKernel),
        ]
    );
}

#[test]
fn empty_catalog_gives_an_empty_report() {
    let report = run_pipeline(&synthetic(), &Vec::new()).unwrap();
    assert!(report.filtered.is_empty());
    assert!(report.failures.is_empty());
}

#[test]
fn empty_source_image_stops_the_run() {
    let empty = Image::new(0, 0, 3, vec![]).unwrap();
    assert_eq!(run_pipeline(&empty, &catalog()), Err(ErrorKind::EmptyImage));
    let mut entries = catalog();
    entries[1].kernel.divisor = 0;
    assert_eq!(run_pipeline(&empty, &entries), Err(ErrorKind::EmptyImage));
    assert_eq!(run_pipeline(&empty, &Vec::new()), Err(ErrorKind::EmptyImage));
}

#[test]
fn single_entry_reports_its_name_with_the_result() {
    let img = synthetic();
    let entries = catalog();
    let output = apply_entry(&img, &entries[4]).unwrap();
    assert_eq!(output.name, "sharpen");
    assert_eq!(output.image, convolve(&img, &entries[4].kernel).unwrap());
}

#[test]
fn single_entry_failure_carries_name_and_cause() {
    let img = synthetic();
    let mut broken = catalog().remove(1);
    broken.kernel.height = 2;
    assert_eq!(apply_entry(&img, &broken), Err(failed("gaussian", ErrorKind::InvalidKernel)));

    let empty = Image::new(3, 0, 1, vec![]).unwrap();
    let average = catalog().remove(0);
    assert_eq!(apply_entry(&empty, &average), Err(failed("average", ErrorKind::EmptyImage)));
    assert_eq!(apply_entry(&empty, &broken), Err(failed("gaussian", ErrorKind::InvalidKernel)));
}
