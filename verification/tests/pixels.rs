use saddle_procgen_noise::image::{color_pixels, gray_pixels, pack_channels, OPAQUE};

#[test]
fn grayscale_pixels_repeat_the_level_with_opaque_alpha() {
    assert_eq!(gray_pixels(&[0, 128]), vec![0, 0, 0, 255, 128, 128, 128, 255]);
    assert!(gray_pixels(&[]).is_empty());
    assert_eq!(gray_pixels(&[7, 8, 9, 10]).len(), 16);
    assert_eq!(OPAQUE, 255);
}

#[test]
fn color_pixels_are_laid_out_in_order() {
    assert_eq!(
        color_pixels(&[[1, 2, 3, 4], [5, 6, 7, 8]]),
        vec![1, 2, 3, 4, 5, 6, 7, 8]
    );
}

#[test]
fn channel_layers_are_interleaved() {
    let r = [10u8, 20];
    let g = [11u8, 21, 99];
    let b = [12u8, 22];
    assert_eq!(
        pack_channels(&r, &g, &b, None),
        vec![10, 11, 12, 255, 20, 21, 22, 255]
    );
    let a = [13u8, 23];
    assert_eq!(
        pack_channels(&r, &g, &b, Some(&a)),
        vec![10, 11, 12, 13, 20, 21, 22, 23]
    );
}
