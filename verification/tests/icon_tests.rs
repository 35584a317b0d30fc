use lapse::icon::{crop_square, icon_from_png};

fn png(width: u32, height: u32, pixels: &[u8]) -> Vec<u8> {
    let img = image::RgbaImage::from_raw(width, height, pixels.to_vec()).unwrap();
    let mut out = std::io::Cursor::new(Vec::new());
    img.write_to(&mut out, image::ImageOutputFormat::Png).unwrap();
    out.into_inner()
}

fn pixels(width: u32, height: u32) -> Vec<u8> {
    let mut v = Vec::new();
    for y in 0..height {
        for x in 0..width {
            v.extend_from_slice(&[x as u8, y as u8, 7, 255]);
        }
    }
    v
}

#[test]
fn wide_picture_is_cut_in_the_middle() {
    let px = pixels(4, 2);
    let (sq, n) = crop_square(&px, 4, 2);
    assert_eq!(n, 2);
    assert_eq!(sq, vec![1, 0, 7, 255, 2, 0, 7, 255, 1, 1, 7, 255, 2, 1, 7, 255]);
}

#[test]
fn tall_picture_rounds_towards_the_top() {
    let px = pixels(1, 4);
    let (sq, n) = crop_square(&px, 1, 4);
    assert_eq!(n, 1);
    assert_eq!(sq, vec![0, 1, 7, 255]);
}

#[test]
fn square_picture_is_kept() {
    let px = pixels(3, 3);
    assert_eq!(crop_square(&px, 3, 3), (px.clone(), 3));
}

#[test]
fn icon_is_decoded_and_cut() {
    let bytes = png(5, 3, &pixels(5, 3));
    let (sq, w, h) = icon_from_png(&bytes).unwrap();
    assert_eq!((w, h), (3, 3));
    assert_eq!(sq, crop_square(&pixels(5, 3), 5, 3).0);
    assert_eq!(sq.len(), 36);
}

#[test]
fn not_a_picture() {
    assert_eq!(icon_from_png(b"hello"), None);
    assert_eq!(icon_from_png(&[]), None);
}
