use pathtrace::color::pack_bgra8;

#[test]
fn channels_sit_in_their_bytes() {
    assert_eq!(pack_bgra8(1, 2, 3), 0xff01_0203);
}

#[test]
fn alpha_is_always_full() {
    assert_eq!(pack_bgra8(0, 0, 0), 0xff00_0000);
    assert_eq!(pack_bgra8(255, 255, 255), 0xffff_ffff);
    assert_eq!(pack_bgra8(255, 0, 0), 0xffff_0000);
    assert_eq!(pack_bgra8(0, 255, 0), 0xff00_ff00);
    assert_eq!(pack_bgra8(0, 0, 255), 0xff00_00ff);
}

#[test]
fn packing_loses_no_channel() {
    let w = pack_bgra8(200, 100, 50);
    assert_eq!(w & 0xff, 50);
    assert_eq!((w >> 8) & 0xff, 100);
    assert_eq!((w >> 16) & 0xff, 200);
    assert_eq!((w >> 24) & 0xff, 255);
}
