use usb_test::display::{
    XousDisplay, DARK_COLOUR, FB_SIZE, HEIGHT, LIGHT_COLOUR, NATIVE_SIZE, WIDTH, WIDTH_WORDS,
};

#[test]
fn fresh_display_is_dark() {
    let display = XousDisplay::new();
    // the drawing surface starts clear
    assert_eq!(display.native_buffer().len(), FB_SIZE);
    assert!(display.native_buffer().iter().all(|&w| w == 0));
    // the host window starts on the dark colour
    assert_eq!(display.native_pixels().len(), NATIVE_SIZE);
    assert!(display.native_pixels().iter().all(|&w| w == DARK_COLOUR));
}

#[test]
fn blit_replaces_the_framebuffer() {
    let mut display = XousDisplay::new();
    let mut bmp = vec![0u32; FB_SIZE];
    bmp[0] = 0xdead_beef;
    bmp[FB_SIZE - 1] = 0x1234_5678;
    display.blit_screen(&bmp);
    assert_eq!(display.native_buffer()[0], 0xdead_beef);
    assert_eq!(display.native_buffer()[FB_SIZE - 1], 0x1234_5678);
}

#[test]
fn redraw_expands_bits_to_pixels() {
    assert_eq!(FB_SIZE, WIDTH_WORDS * HEIGHT);
    assert_eq!(NATIVE_SIZE, WIDTH * HEIGHT);
    let mut display = XousDisplay::new();
    let mut bmp = vec![0u32; FB_SIZE];
    // bit 0 of word 0: pixel (0, 0)
    bmp[0] = 0b1;
    // bit 1 of word 1: pixel (0, 33)
    bmp[1] = 0b10;
    // bit 0 of the second row's first word: pixel (1, 0)
    bmp[WIDTH_WORDS] = 0b1;
    display.blit_screen(&bmp);
    display.redraw();
    let native = display.native_pixels();
    assert_eq!(native[0], DARK_COLOUR);
    assert_eq!(native[1], LIGHT_COLOUR);
    assert_eq!(native[33], DARK_COLOUR);
    assert_eq!(native[32], LIGHT_COLOUR);
    assert_eq!(native[WIDTH], DARK_COLOUR);
    assert_eq!(native[WIDTH + 1], LIGHT_COLOUR);
    // everything else in the first two rows is light
    for c in 2..WIDTH {
        if c != 33 {
            assert_eq!(native[c], LIGHT_COLOUR);
        }
    }
}
