use fractals::mandelbrot::{get_mandelbrotdata, pixel_order, Image};

#[test]
fn pixel_order_walks_rows() {
    let order = pixel_order(Image { width: 2, height: 3 });
    assert_eq!(order, vec![(0, 0), (1, 0), (0, 1), (1, 1), (0, 2), (1, 2)]);
}

#[test]
fn buffer_is_row_major() {
    let image = Image { width: 3, height: 2 };
    // Pixel (x, y) gets the count 10 * y + x.
    let iterations: Vec<i32> =
        pixel_order(image).iter().map(|&(x, y)| (10 * y + x) as i32).collect();
    assert_eq!(iterations, vec![0, 1, 2, 10, 11, 12]);
    let data = get_mandelbrotdata(image, &iterations);
    assert_eq!(
        data,
        vec![
            0, 0, 0, 255, 0, 0, 32, 255, 0, 0, 64, 255, // row 0
            64, 0, 192, 255, 128, 0, 160, 255, 160, 0, 128, 255, // row 1
        ]
    );
    // Pixel (2, 1) starts at byte (1 * 3 + 2) * 4.
    assert_eq!(&data[20..24], &[160, 0, 128, 255]);
}

#[test]
fn pixel_order_of_empty_image() {
    assert!(pixel_order(Image { width: 0, height: 5 }).is_empty());
}

#[test]
fn buffer_length_is_four_bytes_per_pixel() {
    for (w, h) in [(1u32, 1u32), (2, 3), (5, 4), (16, 16)] {
        let iterations = vec![7; (w * h) as usize];
        let data = get_mandelbrotdata(Image { width: w, height: h }, &iterations);
        assert_eq!(data.len(), (w * h * 4) as usize);
    }
}

#[test]
fn two_by_two_with_one_iteration() {
    // With a budget of one step every point stops after exactly one iteration.
    let data = get_mandelbrotdata(Image { width: 2, height: 2 }, &vec![1, 1, 1, 1]);
    assert_eq!(data.len(), 16);
    for pixel in data.chunks(4) {
        assert_eq!(pixel, &[0, 0, 32, 255]);
    }
}

#[test]
fn buffer_keeps_pixel_order() {
    let data = get_mandelbrotdata(Image { width: 1, height: 3 }, &vec![0, 15, 27]);
    assert_eq!(data, vec![0, 0, 0, 255, 255, 0, 0, 255, 128, 0, 160, 255]);
}
