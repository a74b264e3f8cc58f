use capture_core::capture::{CaptureRequest, CaptureResult};
use capture_core::coalescer::{latest_for_hovered, latest_request};
use capture_core::session::CapturedFrame;
use capture_core::worker::{find_monitor, CaptureCycle, MonitorInfo, WindowInfo};

fn win(addr: &str, ws: i32, mapped: bool, x: i16, y: i16, w: i16, h: i16) -> WindowInfo {
    WindowInfo {
        address: addr.to_string(),
        workspace_id: ws,
        mapped,
        x,
        y,
        width: w,
        height: h,
    }
}

fn monitor(name: &str, x: i32, y: i32) -> MonitorInfo {
    MonitorInfo { name: name.to_string(), x, y, width: 1920, height: 1080 }
}

fn frame(n: u8) -> CapturedFrame {
    CapturedFrame { data: vec![n; 16], width: 2, height: 2, stride: 8 }
}

#[test]
fn plans_mapped_sized_windows_of_the_workspace() {
    let windows = vec![
        win("0x10", 3, true, 1930, 10, 800, 600),
        win("0x11", 4, true, 1930, 10, 800, 600),
        win("0x12", 3, false, 1930, 10, 800, 600),
        win("0x13", 3, true, 1930, 10, 0, 600),
        win("bogus", 3, true, 1930, 10, 800, 600),
        win("0x14", 3, true, 2000, 500, 300, 200),
    ];
    let cycle = CaptureCycle::plan(3, &monitor("DP-1", 1920, 0), &windows);
    assert_eq!(cycle.targets.len(), 2);
    let t = &cycle.targets[0];
    assert_eq!((t.handle, t.x, t.y, t.win_width, t.win_height), (0x10, 10, 10, 800, 600));
    assert_eq!(t.address, "0x10");
    let t = &cycle.targets[1];
    assert_eq!((t.handle, t.x, t.y), (0x14, 80, 500));
}

#[test]
fn cycle_keeps_successful_captures_in_order() {
    let windows = vec![
        win("0x1", 1, true, 0, 0, 10, 10),
        win("0x2", 1, true, 10, 0, 10, 10),
        win("0x3", 1, true, 20, 0, 10, 10),
    ];
    let mut cycle = CaptureCycle::plan(1, &monitor("HDMI-A-1", 0, 0), &windows);
    assert_eq!(cycle.next_handle(), Some(1));
    cycle.record(Some(frame(1)));
    assert_eq!(cycle.next_handle(), Some(2));
    cycle.record(None);
    assert_eq!(cycle.next_handle(), Some(3));
    cycle.record(Some(frame(3)));
    assert_eq!(cycle.next_handle(), None);
    let result = cycle.finish().unwrap();
    assert_eq!((result.ws_id, result.monitor_width, result.monitor_height), (1, 1920, 1080));
    assert_eq!(result.thumbnails.len(), 2);
    assert_eq!(result.thumbnails[0].address, "0x1");
    assert_eq!(result.thumbnails[1].address, "0x3");
    assert_eq!(result.thumbnails[1].x, 20);
    assert_eq!(result.thumbnails[1].data, vec![3; 16]);
}

#[test]
fn empty_workspace_yields_no_result() {
    let windows = vec![win("0x1", 2, true, 0, 0, 10, 10)];
    let cycle = CaptureCycle::plan(1, &monitor("DP-1", 0, 0), &windows);
    assert_eq!(cycle.next_handle(), None);
    assert!(cycle.finish().is_none());
}

#[test]
fn all_captures_failing_yields_no_result() {
    let windows = vec![win("0x1", 1, true, 0, 0, 10, 10), win("0x2", 1, true, 0, 0, 10, 10)];
    let mut cycle = CaptureCycle::plan(1, &monitor("DP-1", 0, 0), &windows);
    cycle.record(None);
    cycle.record(None);
    assert!(cycle.finish().is_none());
}

#[test]
fn finds_first_monitor_by_name() {
    let monitors = vec![monitor("DP-1", 0, 0), monitor("DP-2", 1920, 0), monitor("DP-2", 0, 0)];
    assert_eq!(find_monitor(&monitors, &"DP-2".to_string()), Some(1));
    assert_eq!(find_monitor(&monitors, &"eDP-1".to_string()), None);
}

fn request(ws: i32) -> CaptureRequest {
    CaptureRequest { ws_id: ws, monitor_name: "DP-1".to_string() }
}

#[test]
fn worker_acts_on_latest_request() {
    let r = latest_request(request(1), vec![request(2), request(3), request(4)]);
    assert_eq!(r.ws_id, 4);
    let r = latest_request(request(1), vec![]);
    assert_eq!(r.ws_id, 1);
}

fn result(ws: i32, mw: u32) -> CaptureResult {
    CaptureResult { ws_id: ws, thumbnails: vec![], monitor_width: mw, monitor_height: 1 }
}

#[test]
fn stale_results_are_dropped() {
    let results = vec![result(1, 10), result(1, 20)];
    assert!(latest_for_hovered(results, Some(2)).is_none());
    assert!(latest_for_hovered(vec![result(1, 10)], None).is_none());
}

#[test]
fn last_result_for_hovered_workspace_is_shown() {
    let results = vec![result(2, 10), result(1, 20), result(2, 30), result(1, 40)];
    let r = latest_for_hovered(results, Some(2)).unwrap();
    assert_eq!((r.ws_id, r.monitor_width), (2, 30));
    assert!(latest_for_hovered(vec![], Some(2)).is_none());
}
