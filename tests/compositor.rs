use capture_core::capture::{CaptureResult, WindowThumbnail};
use capture_core::compositor::{composite, downscale_nearest, hit_test, ClickRegion};

/// A window whose captured pixels are all `pixel`.
fn window(w: u32, h: u32, pixel: [u8; 4], x: i32, y: i32, win_w: i32, win_h: i32, addr: &str) -> WindowThumbnail {
    let mut data = Vec::new();
    for _ in 0..(w * h) {
        data.extend_from_slice(&pixel);
    }
    WindowThumbnail {
        data,
        width: w,
        height: h,
        stride: w * 4,
        x,
        y,
        win_width: win_w,
        win_height: win_h,
        address: addr.to_string(),
    }
}

fn result(thumbnails: Vec<WindowThumbnail>, mw: u32, mh: u32) -> CaptureResult {
    CaptureResult { ws_id: 1, thumbnails, monitor_width: mw, monitor_height: mh }
}

fn pixel(c: &capture_core::compositor::Composite, x: usize, y: usize) -> [u8; 4] {
    let o = y * c.stride + x * 4;
    [c.pixels[o], c.pixels[o + 1], c.pixels[o + 2], c.pixels[o + 3]]
}

#[test]
fn scales_window_to_a_third() {
    let r = result(vec![window(8, 4, [1, 2, 3, 4], 960, 0, 960, 540, "0xa")], 1920, 1080);
    let c = composite(&r, 640).unwrap();
    assert_eq!((c.width, c.height, c.stride), (640, 360, 2560));
    assert_eq!(c.pixels.len(), 640 * 360 * 4);
    let g = &c.regions[0];
    assert_eq!((g.x, g.y, g.w, g.h), (320, 0, 320, 180));
    assert_eq!(g.address, "0xa");
    assert_eq!(pixel(&c, 320, 0), [1, 2, 3, 255]);
    assert_eq!(pixel(&c, 639, 179), [1, 2, 3, 255]);
    assert_eq!(pixel(&c, 319, 0), [0, 0, 0, 0]);
    assert_eq!(pixel(&c, 320, 180), [0, 0, 0, 0]);
}

#[test]
fn forces_opaque_alpha() {
    let r = result(vec![window(2, 2, [9, 8, 7, 0], 0, 0, 100, 100, "0x1")], 100, 50);
    let c = composite(&r, 10).unwrap();
    assert_eq!((c.width, c.height), (10, 5));
    for y in 0..5 {
        for x in 0..10 {
            assert_eq!(pixel(&c, x, y), [9, 8, 7, 255]);
        }
    }
}

#[test]
fn sizes_round_to_nearest() {
    let r = result(
        vec![
            window(1, 1, [1, 1, 1, 1], 0, 0, 1000, 1001, "0x1"),
            window(1, 1, [1, 1, 1, 1], 0, 0, 1, 1, "0x2"),
        ],
        3000,
        3000,
    );
    let c = composite(&r, 1000).unwrap();
    assert_eq!((c.regions[0].w, c.regions[0].h), (333, 334));
    assert_eq!((c.regions[1].w, c.regions[1].h), (1, 1));
}

#[test]
fn later_window_covers_earlier() {
    let r = result(
        vec![
            window(1, 1, [10, 10, 10, 10], 0, 0, 4, 4, "0x1"),
            window(1, 1, [20, 20, 20, 20], 2, 2, 4, 4, "0x2"),
        ],
        8,
        8,
    );
    let c = composite(&r, 8).unwrap();
    assert_eq!(pixel(&c, 1, 1), [10, 10, 10, 255]);
    assert_eq!(pixel(&c, 2, 2), [20, 20, 20, 255]);
    assert_eq!(pixel(&c, 5, 5), [20, 20, 20, 255]);
    assert_eq!(pixel(&c, 6, 6), [0, 0, 0, 0]);
}

#[test]
fn clips_to_canvas() {
    let r = result(
        vec![
            window(1, 1, [5, 5, 5, 5], -2, -3, 4, 4, "0x1"),
            window(1, 1, [6, 6, 6, 6], 6, 7, 4, 4, "0x2"),
            window(1, 1, [7, 7, 7, 7], 20, 20, 4, 4, "0x3"),
        ],
        8,
        8,
    );
    let c = composite(&r, 8).unwrap();
    let g = &c.regions;
    assert_eq!((g[0].x, g[0].y, g[0].w, g[0].h), (0, 0, 2, 1));
    assert_eq!((g[1].x, g[1].y, g[1].w, g[1].h), (6, 7, 2, 1));
    assert_eq!((g[2].x, g[2].y, g[2].w, g[2].h), (8, 8, 0, 0));
    assert_eq!(pixel(&c, 1, 0), [5, 5, 5, 255]);
    assert_eq!(pixel(&c, 7, 7), [6, 6, 6, 255]);
}

#[test]
fn short_source_buffer_gives_zero_colour() {
    let mut t = window(2, 2, [4, 4, 4, 4], 0, 0, 2, 2, "0x1");
    t.data.truncate(4);
    let c = composite(&result(vec![t], 2, 2), 2).unwrap();
    assert_eq!(pixel(&c, 0, 0), [4, 4, 4, 255]);
    assert_eq!(pixel(&c, 1, 0), [0, 0, 0, 255]);
}

#[test]
fn no_monitor_width_gives_nothing() {
    let r = result(vec![window(1, 1, [1, 1, 1, 1], 0, 0, 1, 1, "0x1")], 0, 100);
    assert!(composite(&r, 640).is_none());
}

#[test]
fn canvas_height_at_least_one() {
    let c = composite(&result(vec![], 1000, 1), 10).unwrap();
    assert_eq!((c.width, c.height), (10, 1));
    assert!(c.pixels.iter().all(|b| *b == 0));
    assert!(c.regions.is_empty());
}

#[test]
fn downscale_samples_nearest_pixel() {
    // 4x2 source, pixel value = column index in every byte.
    let mut src = Vec::new();
    for _row in 0..2 {
        for col in 0..4u8 {
            src.extend_from_slice(&[col, col, col, col]);
        }
    }
    let (dst, stride) = downscale_nearest(&src, 4, 2, 16, 2, 1);
    assert_eq!(stride, 8);
    assert_eq!(dst, vec![0, 0, 0, 0, 2, 2, 2, 2]);
}

#[test]
fn downscale_uses_row_stride() {
    // 1x2 source with 8-byte rows; the padding must be skipped.
    let src = vec![1, 1, 1, 1, 99, 99, 99, 99, 2, 2, 2, 2, 99, 99, 99, 99];
    let (dst, _) = downscale_nearest(&src, 1, 2, 8, 1, 2);
    assert_eq!(dst, vec![1, 1, 1, 1, 2, 2, 2, 2]);
}

fn region(x: u32, y: u32, w: u32, h: u32, a: &str) -> ClickRegion {
    ClickRegion { x, y, w, h, address: a.to_string() }
}

#[test]
fn hit_inside_region_resolves_to_its_window() {
    let regions = vec![region(0, 0, 320, 180, "0xa"), region(320, 0, 320, 180, "0xb")];
    assert_eq!(hit_test(&regions, 400, 100).map(|i| regions[i].address.clone()), Some("0xb".to_string()));
    assert_eq!(hit_test(&regions, 0, 0), Some(0));
    assert_eq!(hit_test(&regions, 319, 179), Some(0));
}

#[test]
fn hit_outside_regions_resolves_to_nothing() {
    let regions = vec![region(0, 0, 320, 180, "0xa"), region(320, 0, 320, 180, "0xb")];
    assert_eq!(hit_test(&regions, 100, 180), None);
    assert_eq!(hit_test(&regions, 640, 0), None);
    assert_eq!(hit_test(&regions, -1, 5), None);
    assert_eq!(hit_test(&Vec::new(), 0, 0), None);
}

#[test]
fn first_matching_region_wins() {
    let regions = vec![region(0, 0, 10, 10, "0xa"), region(5, 5, 10, 10, "0xb")];
    assert_eq!(hit_test(&regions, 6, 6), Some(0));
    assert_eq!(hit_test(&regions, 12, 12), Some(1));
}

#[test]
fn hit_test_on_composited_regions() {
    let r = result(vec![window(8, 4, [1, 2, 3, 4], 960, 0, 960, 540, "0xa")], 1920, 1080);
    let c = composite(&r, 640).unwrap();
    assert_eq!(hit_test(&c.regions, 320, 0), Some(0));
    assert_eq!(hit_test(&c.regions, 100, 100), None);
}
