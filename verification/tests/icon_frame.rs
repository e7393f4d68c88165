use pleiades_explorer::icon::{
    center_crop, decode_icon, opaque_bounds, pad_to_square, square_layout, trim_to_content,
    IconImage,
};

/// A `w` by `h` transparent image with the given pixels opaque, each
/// coloured by its position.
fn image(w: u32, h: u32, opaque: &[(u32, u32)]) -> IconImage {
    let mut rgba = vec![0u8; (4 * w * h) as usize];
    for &(x, y) in opaque {
        let i = (4 * (y * w + x)) as usize;
        rgba[i] = x as u8;
        rgba[i + 1] = y as u8;
        rgba[i + 2] = 7;
        rgba[i + 3] = 255;
    }
    IconImage { width: w, height: h, rgba }
}

fn pixel(img: &IconImage, x: u32, y: u32) -> [u8; 4] {
    let i = (4 * (y * img.width + x)) as usize;
    [img.rgba[i], img.rgba[i + 1], img.rgba[i + 2], img.rgba[i + 3]]
}

#[test]
fn bounds_of_visible_pixels() {
    let img = image(10, 8, &[(2, 5), (7, 1), (4, 6)]);
    assert_eq!(opaque_bounds(&img), Some((2, 1, 7, 6)));
    assert_eq!(opaque_bounds(&image(4, 4, &[])), None);
    assert_eq!(opaque_bounds(&image(0, 0, &[])), None);
}

#[test]
fn trimming_keeps_the_content_box() {
    let img = image(10, 8, &[(2, 5), (7, 1)]);
    let t = trim_to_content(&img).unwrap();
    assert_eq!((t.width, t.height), (6, 5));
    assert_eq!(pixel(&t, 0, 4), [2, 5, 7, 255]);
    assert_eq!(pixel(&t, 5, 0), [7, 1, 7, 255]);
    assert_eq!(pixel(&t, 1, 1), [0, 0, 0, 0]);
    assert!(trim_to_content(&image(3, 3, &[])).is_none());
}

#[test]
fn centre_crop_takes_the_middle() {
    let img = image(9, 4, &[(3, 0), (4, 3)]);
    let c = center_crop(&img, 5, 4);
    assert_eq!((c.width, c.height), (5, 4));
    assert_eq!(pixel(&c, 1, 0), [3, 0, 7, 255]);
    assert_eq!(pixel(&c, 2, 3), [4, 3, 7, 255]);
}

#[test]
fn square_layout_adds_margin_and_centres() {
    assert_eq!(square_layout(64, 32), (68, 2, 18));
    assert_eq!(square_layout(10, 20), (20, 5, 0));
}

#[test]
fn padding_centres_on_a_transparent_square() {
    let img = image(64, 32, &[(0, 0), (63, 31)]);
    let sq = pad_to_square(&img);
    assert_eq!((sq.width, sq.height), (68, 68));
    assert_eq!(sq.rgba.len(), 4 * 68 * 68);
    assert_eq!(pixel(&sq, 2, 18), [0, 0, 7, 255]);
    assert_eq!(pixel(&sq, 65, 49), [63, 31, 7, 255]);
    assert_eq!(pixel(&sq, 0, 0), [0, 0, 0, 0]);
}

#[test]
fn decoding_png_bytes_gives_its_pixels() {
    let pixels = vec![10, 20, 30, 255, 0, 0, 0, 0, 1, 2, 3, 128];
    let source = image::RgbaImage::from_raw(3, 1, pixels.clone()).unwrap();
    let mut bytes: Vec<u8> = Vec::new();
    source
        .write_to(&mut std::io::Cursor::new(&mut bytes), image::ImageFormat::Png)
        .unwrap();
    let decoded = decode_icon(&bytes).expect("a PNG decodes");
    assert_eq!((decoded.width, decoded.height), (3, 1));
    assert_eq!(decoded.rgba, pixels);
    assert_eq!(opaque_bounds(&decoded), Some((0, 0, 2, 0)));
}

#[test]
fn decoding_other_bytes_gives_nothing() {
    assert!(decode_icon(b"not an image").is_none());
    assert!(decode_icon(&[]).is_none());
}
