use mpvpaper::geometry::{buffer_size, drawn_size};

#[test]
fn sizes_are_scaled() {
    assert_eq!(buffer_size((1920, 1080), 2), (3840, 2160));
    assert_eq!(drawn_size((1920, 1080), 2), (3840, 2160));
    assert_eq!(buffer_size((1, 1), 1), (1, 1));
    assert_eq!(drawn_size((0, 7), 3), (0, 21));
}

#[test]
fn buffer_and_frame_agree_beyond_the_range() {
    let extents = [0u32, 1, 3, 65_535, 65_536, 0x7fff_ffff, 0x8000_0000, u32::MAX];
    let scales = [i32::MIN, -2, -1, 0, 1, 2, 65_536, i32::MAX];
    for &w in extents.iter() {
        for &h in extents.iter() {
            for &scale in scales.iter() {
                assert_eq!(buffer_size((w, h), scale), drawn_size((w, h), scale));
            }
        }
    }
}

#[test]
fn products_wrap_around() {
    assert_eq!(buffer_size((65_536, 65_535), 65_536), (0, -65_536));
    assert_eq!(drawn_size((65_536, 65_535), 65_536), (0, -65_536));
    assert_eq!(buffer_size((5, 6), -1), (-5, -6));
    assert_eq!(drawn_size((5, 6), -1), (-5, -6));
    assert_eq!(buffer_size((u32::MAX, 0x8000_0000), 1), (-1, i32::MIN));
}
