//! What the capture worker decides in one cycle: which windows of a
//! workspace to capture, where each sits on its monitor, and whether the
//! cycle yields a result at all.
use vstd::prelude::*;
use crate::capture::{CaptureResult, WindowThumbnail};
use crate::handle::{parse_window_handle, window_handle_of};
use crate::session::CapturedFrame;

verus! {

/// A window as the compositor lists it.
pub struct WindowInfo {
    pub address: String,
    pub workspace_id: i32,
    pub mapped: bool,
    /// Position in the global layout.
    pub x: i16,
    pub y: i16,
    pub width: i16,
    pub height: i16,
}

/// A monitor as the compositor lists it, with its size in logical pixels.
pub struct MonitorInfo {
    pub name: String,
    pub x: i32,
    pub y: i32,
    pub width: u32,
    pub height: u32,
}

/// A window chosen for capture.
pub struct CaptureTarget {
    pub handle: u32,
    /// Position relative to the monitor's origin.
    pub x: i32,
    pub y: i32,
    pub win_width: i32,
    pub win_height: i32,
    pub address: String,
}

/// A window is captured when it is on the workspace, mapped, and has a size.
pub open spec fn is_capturable(w: WindowInfo, ws_id: i32) -> bool {
    w.workspace_id == ws_id && w.mapped && w.width > 0 && w.height > 0
}

/// A monitor whose origin keeps every window position relative to it within
/// 32 bits.
pub open spec fn origin_in_range(m: MonitorInfo) -> bool {
    -0x7fff_8000 <= m.x <= 0x7fff_8000 && -0x7fff_8000 <= m.y <= 0x7fff_8000
}

pub open spec fn target_for(w: WindowInfo, m: MonitorInfo, handle: u32) -> CaptureTarget {
    CaptureTarget {
        handle,
        x: (w.x - m.x) as i32,
        y: (w.y - m.y) as i32,
        win_width: w.width as i32,
        win_height: w.height as i32,
        address: w.address,
    }
}

/// The windows of `ws` that a cycle captures, in the compositor's order:
/// those that are capturable and whose address gives a handle.
pub open spec fn planned_targets(ws: Seq<WindowInfo>, ws_id: i32, m: MonitorInfo) -> Seq<
    CaptureTarget,
>
    decreases ws.len(),
{
    if ws.len() == 0 {
        Seq::empty()
    } else {
        let front = planned_targets(ws.drop_last(), ws_id, m);
        let w = ws.last();
        if is_capturable(w, ws_id) && window_handle_of(w.address@) is Some {
            front.push(target_for(w, m, window_handle_of(w.address@)->0))
        } else {
            front
        }
    }
}

/// The first monitor called `name`, by index.
pub fn find_monitor(monitors: &Vec<MonitorInfo>, name: &String) -> (r: Option<usize>)
    ensures
        r matches Some(i) ==> i < monitors@.len() && monitors@[i as int].name@ == name@
            && forall|j: int| 0 <= j < i ==> (#[trigger] monitors@[j]).name@ != name@,
        r is None ==> forall|j: int| 0 <= j < monitors@.len() ==> (#[trigger] monitors@[j]).name@ != name@,
{
    let mut i: usize = 0;
    while i < monitors.len()
        invariant
            i <= monitors@.len(),
            forall|j: int| 0 <= j < i ==> (#[trigger] monitors@[j]).name@ != name@,
        decreases monitors@.len() - i,
    {
        if monitors[i].name == *name {
            return Some(i);
        }
        i = i + 1;
    }
    None
}

/// One capture cycle over the windows of a workspace: the windows to
/// capture, how far the capture has gone, and the thumbnails so far.
pub struct CaptureCycle {
    pub ws_id: i32,
    pub monitor_width: u32,
    pub monitor_height: u32,
    pub targets: Vec<CaptureTarget>,
    pub next: usize,
    pub thumbnails: Vec<WindowThumbnail>,
}

pub open spec fn thumbnail_for(t: CaptureTarget, f: CapturedFrame) -> WindowThumbnail {
    WindowThumbnail {
        data: f.data,
        width: f.width,
        height: f.height,
        stride: f.stride,
        x: t.x,
        y: t.y,
        win_width: t.win_width,
        win_height: t.win_height,
        address: t.address,
    }
}

/// What a cycle yields: nothing when no window was captured, since an empty
/// preview is never shown.
pub open spec fn cycle_result(c: CaptureCycle) -> Option<CaptureResult> {
    if c.thumbnails@.len() == 0 {
        None
    } else {
        Some(
            CaptureResult {
                ws_id: c.ws_id,
                thumbnails: c.thumbnails,
                monitor_width: c.monitor_width,
                monitor_height: c.monitor_height,
            },
        )
    }
}

impl CaptureCycle {
    pub open spec fn wf(&self) -> bool {
        self.thumbnails@.len() <= self.next <= self.targets@.len()
    }

    /// Plans the capture of workspace `ws_id` on monitor `monitor` from the
    /// compositor's list of windows.
    pub fn plan(ws_id: i32, monitor: &MonitorInfo, windows: &Vec<WindowInfo>) -> (r: CaptureCycle)
        requires
            origin_in_range(*monitor),
        ensures
            r.ws_id == ws_id,
            r.monitor_width == monitor.width,
            r.monitor_height == monitor.height,
            r.targets@ == planned_targets(windows@, ws_id, *monitor),
            r.next == 0,
            r.thumbnails@.len() == 0,
            r.wf(),
    {
        let mut targets: Vec<CaptureTarget> = Vec::new();
        let mut i: usize = 0;
        while i < windows.len()
            invariant
                i <= windows@.len(),
                origin_in_range(*monitor),
                targets@ == planned_targets(windows@.subrange(0, i as int), ws_id, *monitor),
            decreases windows@.len() - i,
        {
            let w = &windows[i];
            let ghost prefix = windows@.subrange(0, i as int + 1);
            assert(prefix.drop_last() =~= windows@.subrange(0, i as int));
            assert(prefix.last() == *w);
            if w.workspace_id == ws_id && w.mapped && w.width > 0 && w.height > 0 {
                if let Some(handle) = parse_window_handle(w.address.as_str()) {
                    targets.push(
                        CaptureTarget {
                            handle,
                            x: w.x as i32 - monitor.x,
                            y: w.y as i32 - monitor.y,
                            win_width: w.width as i32,
                            win_height: w.height as i32,
                            address: w.address.clone(),
                        },
                    );
                }
            }
            i = i + 1;
        }
        assert(windows@.subrange(0, windows@.len() as int) =~= windows@);
        CaptureCycle {
            ws_id,
            monitor_width: monitor.width,
            monitor_height: monitor.height,
            targets,
            next: 0,
            thumbnails: Vec::new(),
        }
    }

    /// The handle of the next window to capture, if any is left.
    pub fn next_handle(&self) -> (r: Option<u32>)
        ensures
            r == (if self.next < self.targets@.len() {
                Some(self.targets@[self.next as int].handle)
            } else {
                None::<u32>
            }),
    {
        if self.next < self.targets.len() {
            Some(self.targets[self.next].handle)
        } else {
            None
        }
    }

    /// Records how the capture of the next window went: its thumbnail is
    /// kept if it succeeded, and the window is skipped if it failed.
    pub fn record(&mut self, frame: Option<CapturedFrame>)
        requires
            old(self).wf(),
            old(self).next < old(self).targets@.len(),
        ensures
            final(self).wf(),
            final(self).ws_id == old(self).ws_id,
            final(self).monitor_width == old(self).monitor_width,
            final(self).monitor_height == old(self).monitor_height,
            final(self).targets == old(self).targets,
            final(self).next == old(self).next + 1,
            final(self).thumbnails@ == (match frame {
                Some(f) => old(self).thumbnails@.push(
                    thumbnail_for(old(self).targets@[old(self).next as int], f),
                ),
                None => old(self).thumbnails@,
            }),
    {
        let n = self.next;
        let len = self.targets.len();
        assert(n < len);
        if let Some(f) = frame {
            let t = &self.targets[n];
            let thumb = WindowThumbnail {
                data: f.data,
                width: f.width,
                height: f.height,
                stride: f.stride,
                x: t.x,
                y: t.y,
                win_width: t.win_width,
                win_height: t.win_height,
                address: t.address.clone(),
            };
            self.thumbnails.push(thumb);
        }
        self.next = n + 1;
    }

    /// Ends the cycle: the result to hand to the user interface, or nothing
    /// when no window was captured.
    pub fn finish(self) -> (r: Option<CaptureResult>)
        ensures
            r == cycle_result(self),
    {
        if self.thumbnails.len() == 0 {
            None
        } else {
            Some(
                CaptureResult {
                    ws_id: self.ws_id,
                    thumbnails: self.thumbnails,
                    monitor_width: self.monitor_width,
                    monitor_height: self.monitor_height,
                },
            )
        }
    }
}

/// A workspace without a capturable window plans no capture, and a cycle
/// that captured nothing yields no result: an empty workspace produces no
/// preview at all, rather than an empty one.
pub proof fn lemma_empty_workspace_yields_nothing(
    ws_id: i32,
    m: MonitorInfo,
    ws: Seq<WindowInfo>,
    c: CaptureCycle,
)
    requires
        forall|i: int| 0 <= i < ws.len() ==> !is_capturable(#[trigger] ws[i], ws_id),
        c.wf(),
        c.targets@ == planned_targets(ws, ws_id, m),
    ensures
        planned_targets(ws, ws_id, m).len() == 0,
        c.thumbnails@.len() == 0,
        cycle_result(c) is None,
{
    lemma_empty_targets(ws_id, m, ws);
}

proof fn lemma_empty_targets(ws_id: i32, m: MonitorInfo, ws: Seq<WindowInfo>)
    requires
        forall|i: int| 0 <= i < ws.len() ==> !is_capturable(#[trigger] ws[i], ws_id),
    ensures
        planned_targets(ws, ws_id, m).len() == 0,
    decreases ws.len(),
{
    if ws.len() > 0 {
        let front = ws.drop_last();
        assert forall|i: int| 0 <= i < front.len() implies !is_capturable(#[trigger] front[i], ws_id) by {
            assert(front[i] == ws[i]);
        }
        lemma_empty_targets(ws_id, m, front);
        assert(!is_capturable(ws[ws.len() - 1], ws_id));
    }
}

} // verus!
