use styledcamera_core::color::abgr_to_rgba_bytes;

fn unit(byte: u8) -> f32 {
    byte as f32 / 255.0
}

#[test]
fn abgr_to_rgba_opaque_white() {
    let rgba = abgr_to_rgba_bytes(0xFFFFFFFF);
    assert_eq!(rgba, [255, 255, 255, 255]);
    assert_eq!(
        [unit(rgba[0]), unit(rgba[1]), unit(rgba[2]), unit(rgba[3])],
        [1.0, 1.0, 1.0, 1.0]
    );
}

#[test]
fn abgr_to_rgba_matches_channels() {
    // A=0x80, B=0x40, G=0x20, R=0x10.
    let rgba = abgr_to_rgba_bytes(0x80402010);
    assert_eq!(unit(rgba[0]), 0x10 as f32 / 255.0);
    assert_eq!(unit(rgba[1]), 0x20 as f32 / 255.0);
    assert_eq!(unit(rgba[2]), 0x40 as f32 / 255.0);
    assert_eq!(unit(rgba[3]), 0x80 as f32 / 255.0);
}

#[test]
fn abgr_to_rgba_transparent_black() {
    assert_eq!(abgr_to_rgba_bytes(0), [0, 0, 0, 0]);
}

#[test]
fn abgr_to_rgba_keeps_each_channel_apart() {
    assert_eq!(abgr_to_rgba_bytes(0x000000FF), [255, 0, 0, 0]);
    assert_eq!(abgr_to_rgba_bytes(0x0000FF00), [0, 255, 0, 0]);
    assert_eq!(abgr_to_rgba_bytes(0x00FF0000), [0, 0, 255, 0]);
    assert_eq!(abgr_to_rgba_bytes(0xFF000000), [0, 0, 0, 255]);
}
