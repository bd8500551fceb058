use bootcore::framebuffer::{Framebuffer, rebase_hhdm};

fn rgb888_fb(width: u64, height: u64) -> Framebuffer {
    Framebuffer::new(width, height, width * 4, 32, (8, 16), (8, 8), (8, 0)).unwrap()
}

/// A pixel write lands at `y * pitch + x * 4`, little-endian, with the
/// channels packed per the reported shifts.
#[test]
fn write_pixel_exact_bytes() {
    let mut fb = rgb888_fb(4, 4);
    fb.write_pixel(1, 2, 255, 0, 127);
    // Offset 2 * 16 + 1 * 4 = 36; packed value 0x00ff007f.
    assert_eq!(&fb.back[36..40], &[0x7f, 0x00, 0xff, 0x00]);
    // Nothing else was touched.
    for (i, b) in fb.back.iter().enumerate() {
        if !(36..40).contains(&i) {
            assert_eq!(*b, 0, "byte {i} changed");
        }
    }
}

/// At 8 bits per channel the scaling is the identity: 0 maps to 0 and
/// 255 maps to 255.
#[test]
fn scaling_identity_at_eight_bits() {
    let mut fb = rgb888_fb(2, 1);
    fb.write_pixel(0, 0, 0, 0, 0);
    fb.write_pixel(1, 0, 255, 255, 255);
    assert_eq!(&fb.back[0..4], &[0x00, 0x00, 0x00, 0x00]);
    // Channels occupy bits 0..24; the top byte holds no channel.
    assert_eq!(&fb.back[4..8], &[0xff, 0xff, 0xff, 0x00]);
}

/// At reduced bit depths 255 maps to the channel maximum: RGB565 packs
/// full white as 0xffff.
#[test]
fn scaling_full_scale_rgb565() {
    let mut fb = Framebuffer::new(2, 1, 8, 32, (5, 11), (6, 5), (5, 0)).unwrap();
    fb.write_pixel(0, 0, 255, 255, 255);
    assert_eq!(&fb.back[0..4], &[0xff, 0xff, 0x00, 0x00]);
    // And 0 still maps to 0.
    fb.write_pixel(1, 0, 0, 0, 0);
    assert_eq!(&fb.back[4..8], &[0x00, 0x00, 0x00, 0x00]);
}

/// Scaling rounds to nearest: a middle grey at 5 bits lands on 16, not
/// 15 (127 * 31 = 3937; (3937 + 127) / 255 = 15; 128 * 31 + 127 = 4095;
/// 4095 / 255 = 16).
#[test]
fn scaling_rounds() {
    let mut fb = Framebuffer::new(2, 1, 8, 32, (5, 11), (6, 5), (5, 0)).unwrap();
    fb.write_pixel(0, 0, 127, 0, 0);
    fb.write_pixel(1, 0, 128, 0, 0);
    let lo = u32::from_le_bytes([fb.back[0], fb.back[1], fb.back[2], fb.back[3]]) >> 11;
    let hi = u32::from_le_bytes([fb.back[4], fb.back[5], fb.back[6], fb.back[7]]) >> 11;
    assert_eq!(lo, 15);
    assert_eq!(hi, 16);
    assert!(lo <= hi);
}

/// Out-of-range coordinates write nothing at all.
#[test]
fn write_pixel_out_of_bounds_is_noop() {
    let mut fb = rgb888_fb(4, 4);
    fb.write_pixel(4, 0, 255, 255, 255);
    fb.write_pixel(0, 4, 255, 255, 255);
    fb.write_pixel(u64::MAX, u64::MAX, 255, 255, 255);
    assert!(fb.back.iter().all(|b| *b == 0));
    assert!(fb.front.iter().all(|b| *b == 0));
}

/// `flush` copies the whole back buffer over the front buffer.
#[test]
fn flush_copies_back_to_front() {
    let mut fb = rgb888_fb(4, 4);
    fb.write_pixel(3, 1, 1, 2, 3);
    assert!(fb.front.iter().all(|b| *b == 0));
    fb.flush();
    assert_eq!(fb.front, fb.back);
}

/// The constructor rejects descriptions it cannot guarantee bounds for.
#[test]
fn constructor_rejects_bad_geometry() {
    // Not 32 bits per pixel.
    assert!(Framebuffer::new(4, 4, 16, 24, (8, 16), (8, 8), (8, 0)).is_none());
    // Rows longer than the pitch.
    assert!(Framebuffer::new(5, 4, 16, 32, (8, 16), (8, 8), (8, 0)).is_none());
    // Channel width out of range.
    assert!(Framebuffer::new(4, 4, 16, 32, (0, 16), (8, 8), (8, 0)).is_none());
    assert!(Framebuffer::new(4, 4, 16, 32, (9, 16), (8, 8), (8, 0)).is_none());
    // Channel field sticking out of the 32-bit pixel.
    assert!(Framebuffer::new(4, 4, 16, 32, (8, 25), (8, 8), (8, 0)).is_none());
    // A sane description is accepted.
    assert!(Framebuffer::new(4, 4, 16, 32, (8, 16), (8, 8), (8, 0)).is_some());
}

/// Rebasing a direct-map address moves it to the same physical location
/// under the new offset.
#[test]
fn rebase_hhdm_exact() {
    assert_eq!(rebase_hhdm(0x1000_0000_1234, 0x1000_0000_0000, 0x2000_0000_0000), 0x2000_0000_1234);
}
