use image_processor::mirror_plugin::{mirror_horizontal, mirror_vertical, process_image, MirrorParams};
use image_processor::rgba::{rgba_len, PluginError};

#[test]
fn mirror_horizontal_2x1() {
    let mut buf = vec![
        1, 2, 3, 4, // px0
        5, 6, 7, 8, // px1
    ];

    mirror_horizontal(&mut buf, 2, 1);

    assert_eq!(
        buf,
        vec![
            5, 6, 7, 8, // px1
            1, 2, 3, 4, // px0
        ]
    );
}

#[test]
fn mirror_vertical_1x2() {
    let mut buf = vec![
        1, 2, 3, 4, // top
        5, 6, 7, 8, // bottom
    ];

    mirror_vertical(&mut buf, 1, 2);

    assert_eq!(
        buf,
        vec![
            5, 6, 7, 8, // bottom
            1, 2, 3, 4, // top
        ]
    );
}

#[test]
fn mirror_both_2x2() {
    let mut buf = vec![
        1, 1, 1, 255, // (0,0)
        2, 2, 2, 255, // (1,0)
        3, 3, 3, 255, // (0,1)
        4, 4, 4, 255, // (1,1)
    ];

    mirror_horizontal(&mut buf, 2, 2);
    mirror_vertical(&mut buf, 2, 2);

    assert_eq!(
        buf,
        vec![
            4, 4, 4, 255, // (1,1)
            3, 3, 3, 255, // (0,1)
            2, 2, 2, 255, // (1,0)
            1, 1, 1, 255, // (0,0)
        ]
    );
}

fn numbered(len: usize) -> Vec<u8> {
    (0..len).map(|i| i as u8).collect()
}

#[test]
fn mirror_horizontal_keeps_middle_column_of_odd_width() {
    let mut buf = numbered(3 * 2 * 4);
    mirror_horizontal(&mut buf, 3, 2);
    let expected: Vec<u8> = vec![
        8, 9, 10, 11, 4, 5, 6, 7, 0, 1, 2, 3, //
        20, 21, 22, 23, 16, 17, 18, 19, 12, 13, 14, 15,
    ];
    assert_eq!(buf, expected);
}

#[test]
fn mirror_vertical_keeps_middle_row_of_odd_height() {
    let mut buf = numbered(2 * 3 * 4);
    mirror_vertical(&mut buf, 2, 3);
    let expected: Vec<u8> = vec![
        16, 17, 18, 19, 20, 21, 22, 23, //
        8, 9, 10, 11, 12, 13, 14, 15, //
        0, 1, 2, 3, 4, 5, 6, 7,
    ];
    assert_eq!(buf, expected);
}

#[test]
fn mirror_leaves_bytes_past_the_image() {
    let mut buf = numbered(2 * 1 * 4 + 3);
    mirror_horizontal(&mut buf, 2, 1);
    mirror_vertical(&mut buf, 2, 1);
    assert_eq!(buf, vec![4, 5, 6, 7, 0, 1, 2, 3, 8, 9, 10]);
}

#[test]
fn mirror_twice_restores_image() {
    let original = numbered(5 * 4 * 4);
    let mut buf = original.clone();
    mirror_horizontal(&mut buf, 5, 4);
    assert_ne!(buf, original);
    mirror_horizontal(&mut buf, 5, 4);
    assert_eq!(buf, original);
    mirror_vertical(&mut buf, 5, 4);
    assert_ne!(buf, original);
    mirror_vertical(&mut buf, 5, 4);
    assert_eq!(buf, original);
}

#[test]
fn mirror_flips_commute_into_half_turn() {
    let original = numbered(3 * 2 * 4);
    let mut hv = original.clone();
    mirror_horizontal(&mut hv, 3, 2);
    mirror_vertical(&mut hv, 3, 2);
    let mut vh = original.clone();
    mirror_vertical(&mut vh, 3, 2);
    mirror_horizontal(&mut vh, 3, 2);
    assert_eq!(hv, vh);
    let mut reversed_pixels: Vec<u8> = Vec::new();
    for p in (0..6).rev() {
        reversed_pixels.extend_from_slice(&original[p * 4..p * 4 + 4]);
    }
    assert_eq!(hv, reversed_pixels);
}

#[test]
fn process_image_applies_requested_flips() {
    let original = numbered(2 * 2 * 4);
    let mut buf = original.clone();
    let params = MirrorParams { horizontal: true, vertical: false };
    assert_eq!(process_image(2, 2, &mut buf, &params), Ok(()));
    assert_eq!(buf, vec![4, 5, 6, 7, 0, 1, 2, 3, 12, 13, 14, 15, 8, 9, 10, 11]);

    let mut buf = original.clone();
    let params = MirrorParams { horizontal: false, vertical: true };
    assert_eq!(process_image(2, 2, &mut buf, &params), Ok(()));
    assert_eq!(buf, vec![8, 9, 10, 11, 12, 13, 14, 15, 0, 1, 2, 3, 4, 5, 6, 7]);

    let mut buf = original.clone();
    let params = MirrorParams { horizontal: false, vertical: false };
    assert_eq!(process_image(2, 2, &mut buf, &params), Ok(()));
    assert_eq!(buf, original);
}

#[test]
fn mirror_process_image_refuses_empty_image() {
    let mut buf: Vec<u8> = Vec::new();
    let params = MirrorParams { horizontal: true, vertical: true };
    assert_eq!(process_image(0, 5, &mut buf, &params), Err(PluginError::EmptyBuffer));
    assert_eq!(process_image(5, 0, &mut buf, &params), Err(PluginError::EmptyBuffer));
}

#[test]
fn rgba_len_reports_sizes_and_overflow() {
    assert_eq!(rgba_len(3, 2), Ok(24));
    assert_eq!(rgba_len(0, 7), Err(PluginError::EmptyBuffer));
    if usize::BITS == 64 {
        assert_eq!(rgba_len(u32::MAX, u32::MAX), Err(PluginError::BufferLenOverflow));
        assert_eq!(rgba_len(u32::MAX, 1), Ok(u32::MAX as usize * 4));
    } else {
        assert_eq!(rgba_len(u32::MAX, u32::MAX), Err(PluginError::PixelCountOverflow));
    }
}

#[test]
fn process_image_refuses_oversized_image_without_touching_buffer() {
    let mut buf: Vec<u8> = vec![9, 9, 9, 9];
    let params = MirrorParams { horizontal: true, vertical: true };
    let res = process_image(u32::MAX, u32::MAX, &mut buf, &params);
    assert!(matches!(
        res,
        Err(PluginError::BufferLenOverflow) | Err(PluginError::PixelCountOverflow)
    ));
    assert_eq!(buf, vec![9, 9, 9, 9]);
}
