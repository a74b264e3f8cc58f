//! One capture conversation with the compositor, as a state machine.
//!
//! The session decides; the caller performs. [`CaptureSession::begin`] and
//! [`CaptureSession::advance`] hand back a [`Command`] for the caller to carry
//! out against the display server, whose result comes back as an [`Outcome`]
//! on the next call to `advance`. Frame events that the server sends while
//! the caller dispatches are fed to [`CaptureSession::on_event`].
use vstd::prelude::*;

verus! {

/// Wire code of the 32-bit format with alpha in the shared-memory protocol.
pub const FORMAT_ARGB8888: u32 = 0;

/// Wire code of the 32-bit format without alpha.
pub const FORMAT_XRGB8888: u32 = 1;

/// The `overlay_cursor` argument of a capture request: the cursor is left out.
pub const OVERLAY_CURSOR: i32 = 0;

/// The `ignore_damage` argument of a copy request: the whole frame is copied
/// at once instead of waiting for damage.
pub const IGNORE_DAMAGE: i32 = 1;

/// The two formats that a session prefers among those the server offers.
pub open spec fn is_preferred_format(format: u32) -> bool {
    format == FORMAT_ARGB8888 || format == FORMAT_XRGB8888
}

/// A buffer layout that the server offers for a frame.
#[derive(Clone, Copy, Debug, PartialEq, Eq)]
pub struct BufferParams {
    pub format: u32,
    pub width: u32,
    pub height: u32,
    pub stride: u32,
}

/// The bytes of shared memory that a frame of layout `p` takes.
pub open spec fn buffer_size(p: BufferParams) -> int {
    p.stride as int * p.height as int
}

/// Whether a shared-memory pool and buffer can be made for `p`: the
/// protocol carries their sizes as signed 32-bit integers, and an empty pool
/// is a protocol error.
pub open spec fn buffer_usable(p: BufferParams) -> bool {
    &&& 0 < buffer_size(p) <= i32::MAX
    &&& p.width <= i32::MAX
    &&& p.height <= i32::MAX
    &&& p.stride <= i32::MAX
}

/// The pixels of one captured window, rows `stride` bytes apart.
#[derive(Debug)]
pub struct CapturedFrame {
    pub data: Vec<u8>,
    pub width: u32,
    pub height: u32,
    pub stride: u32,
}

/// A frame event of the capture protocol.
#[derive(Clone, Copy, Debug, PartialEq, Eq)]
pub enum FrameEvent {
    /// The server offers a buffer layout; it may offer several.
    Buffer(BufferParams),
    /// Every layout has been offered.
    BufferDone,
    /// The frame has been copied into the buffer.
    Ready,
    /// The capture cannot be done.
    Failed,
}

/// Where a conversation stands.
#[derive(Debug)]
pub enum CapturePhase {
    /// No conversation is open.
    Idle,
    /// Layouts are being offered; `candidate` is the one kept so far.
    Negotiating { candidate: Option<BufferParams> },
    /// Negotiation is over and `params` was chosen.
    BufferReady { params: BufferParams },
    /// The caller is making the shared buffer and requesting the copy.
    Allocating { params: BufferParams },
    /// The copy was requested; the frame is awaited.
    Copying { params: BufferParams },
    /// The frame is in the buffer.
    FrameReady { params: BufferParams },
    /// The caller is reading the buffer back.
    Reading { params: BufferParams },
    /// The pixels were read; protocol objects are being released.
    Captured { frame: CapturedFrame },
    /// The capture failed; protocol objects are being released.
    Failed,
}

/// A protocol object that a conversation creates and must destroy.
#[derive(Clone, Copy, Debug, PartialEq, Eq)]
pub enum ProtocolObject {
    Conversation,
    Buffer,
    Pool,
}

/// What the caller must do next.
#[derive(Debug)]
pub enum Command {
    /// Open a capture conversation for window `handle`.
    Open { handle: u32, overlay_cursor: i32 },
    /// Block until the server's next events arrive, and feed them to
    /// `on_event`.
    Dispatch,
    /// Make an anonymous shared-memory region of `size` bytes, a pool over it
    /// and a buffer of layout `params` at its start, and request that the
    /// frame be copied into the buffer.
    AllocateAndCopy { params: BufferParams, size: u32, ignore_damage: i32 },
    /// Read the first `len` bytes of the shared-memory region.
    ReadPixels { len: usize },
    /// Destroy a protocol object.
    Release(ProtocolObject),
    /// The capture is over, with the window's pixels if it succeeded.
    Finish(Option<CapturedFrame>),
}

/// How the caller's last command went.
#[derive(Debug)]
pub enum Outcome {
    Completed,
    Failed,
    /// The bytes that `ReadPixels` read.
    Pixels(Vec<u8>),
}

/// The protocol state of one window capture, and the protocol objects that
/// are alive.
#[derive(Debug)]
pub struct CaptureSession {
    pub phase: CapturePhase,
    pub conversation: bool,
    pub buffer: bool,
    pub pool: bool,
}

/// How many protocol objects of the conversation are alive.
pub open spec fn live_count(s: CaptureSession) -> nat {
    (if s.conversation { 1nat } else { 0nat }) + (if s.buffer { 1nat } else { 0nat }) + (if s.pool {
        1nat
    } else {
        0nat
    })
}

/// Between captures nothing is alive, and a layout that a buffer is made
/// for can be made.
pub open spec fn session_wf(s: CaptureSession) -> bool {
    match s.phase {
        CapturePhase::Idle => live_count(s) == 0,
        CapturePhase::Allocating { params } => buffer_usable(params),
        CapturePhase::Copying { params } => buffer_usable(params),
        CapturePhase::FrameReady { params } => buffer_usable(params),
        CapturePhase::Reading { params } => buffer_usable(params),
        _ => true,
    }
}

fn frame_bytes(p: BufferParams) -> (r: u64)
    ensures
        r == buffer_size(p),
{
    assert(p.stride as int * p.height as int <= u64::MAX) by (nonlinear_arith)
        requires
            p.stride <= u32::MAX,
            p.height <= u32::MAX,
    ;
    p.stride as u64 * p.height as u64
}

pub open spec fn with_phase(s: CaptureSession, phase: CapturePhase) -> CaptureSession {
    CaptureSession { phase, conversation: s.conversation, buffer: s.buffer, pool: s.pool }
}

/// The candidate layout after the server offers `p`: a preferred format
/// replaces whatever was kept; another is kept only when nothing was.
pub open spec fn offer_step(candidate: Option<BufferParams>, p: BufferParams) -> Option<BufferParams> {
    if candidate is None || is_preferred_format(p.format) {
        Some(p)
    } else {
        candidate
    }
}

/// The session after frame event `ev`.
pub open spec fn event_step(s: CaptureSession, ev: FrameEvent) -> CaptureSession {
    match s.phase {
        CapturePhase::Negotiating { candidate } => match ev {
            FrameEvent::Buffer(p) => with_phase(
                s,
                CapturePhase::Negotiating { candidate: offer_step(candidate, p) },
            ),
            FrameEvent::BufferDone => match candidate {
                Some(p) => with_phase(s, CapturePhase::BufferReady { params: p }),
                None => with_phase(s, CapturePhase::Failed),
            },
            FrameEvent::Ready => s,
            FrameEvent::Failed => with_phase(s, CapturePhase::Failed),
        },
        CapturePhase::BufferReady { .. } => if ev is Failed {
            with_phase(s, CapturePhase::Failed)
        } else {
            s
        },
        CapturePhase::Copying { params } => match ev {
            FrameEvent::Ready => with_phase(s, CapturePhase::FrameReady { params }),
            FrameEvent::Failed => with_phase(s, CapturePhase::Failed),
            _ => s,
        },
        CapturePhase::FrameReady { .. } => if ev is Failed {
            with_phase(s, CapturePhase::Failed)
        } else {
            s
        },
        _ => s,
    }
}

/// Release the live objects one at a time (conversation, buffer, pool), then
/// finish with `result` and return to idle.
pub open spec fn release_step(s: CaptureSession, result: Option<CapturedFrame>) -> (
    CaptureSession,
    Command,
) {
    if s.conversation {
        (
            CaptureSession { conversation: false, ..s },
            Command::Release(ProtocolObject::Conversation),
        )
    } else if s.buffer {
        (CaptureSession { buffer: false, ..s }, Command::Release(ProtocolObject::Buffer))
    } else if s.pool {
        (CaptureSession { pool: false, ..s }, Command::Release(ProtocolObject::Pool))
    } else {
        (with_phase(s, CapturePhase::Idle), Command::Finish(result))
    }
}

/// The session and the next command after the last command ended in `o`.
pub open spec fn step(s: CaptureSession, o: Outcome) -> (CaptureSession, Command) {
    match s.phase {
        CapturePhase::Idle => (s, Command::Finish(None)),
        CapturePhase::Failed => release_step(s, None),
        CapturePhase::Captured { frame } => release_step(s, Some(frame)),
        _ => if o is Failed {
            release_step(with_phase(s, CapturePhase::Failed), None)
        } else {
            match s.phase {
                CapturePhase::BufferReady { params } => if buffer_usable(params) {
                    (
                        with_phase(s, CapturePhase::Allocating { params }),
                        Command::AllocateAndCopy {
                            params,
                            size: buffer_size(params) as u32,
                            ignore_damage: IGNORE_DAMAGE,
                        },
                    )
                } else {
                    release_step(with_phase(s, CapturePhase::Failed), None)
                },
                CapturePhase::Allocating { params } => (
                    CaptureSession {
                        phase: CapturePhase::Copying { params },
                        conversation: s.conversation,
                        buffer: true,
                        pool: true,
                    },
                    Command::Dispatch,
                ),
                CapturePhase::FrameReady { params } => if s.conversation {
                    (
                        CaptureSession { conversation: false, ..s },
                        Command::Release(ProtocolObject::Conversation),
                    )
                } else {
                    (
                        with_phase(s, CapturePhase::Reading { params }),
                        Command::ReadPixels { len: buffer_size(params) as usize },
                    )
                },
                CapturePhase::Reading { params } => match o {
                    Outcome::Pixels(data) => if data@.len() == buffer_size(params) {
                        let frame = CapturedFrame {
                            data,
                            width: params.width,
                            height: params.height,
                            stride: params.stride,
                        };
                        release_step(
                            with_phase(s, CapturePhase::Captured { frame }),
                            Some(frame),
                        )
                    } else {
                        release_step(with_phase(s, CapturePhase::Failed), None)
                    },
                    _ => release_step(with_phase(s, CapturePhase::Failed), None),
                },
                _ => (s, Command::Dispatch),
            }
        },
    }
}

impl CaptureSession {
    /// A session with no conversation open.
    pub fn new() -> (r: Self)
        ensures
            r.phase is Idle,
            live_count(r) == 0,
            session_wf(r),
    {
        CaptureSession { phase: CapturePhase::Idle, conversation: false, buffer: false, pool: false }
    }

    pub fn is_idle(&self) -> (r: bool)
        ensures
            r == self.phase is Idle,
    {
        match self.phase {
            CapturePhase::Idle => true,
            _ => false,
        }
    }

    /// Starts the capture of window `handle` from a clean slate: a new
    /// conversation that asks for the whole frame, with no layout offered
    /// yet.
    pub fn begin(&mut self, handle: u32) -> (r: Command)
        requires
            old(self).phase is Idle,
            session_wf(*old(self)),
        ensures
            final(self).phase == (CapturePhase::Negotiating { candidate: None }),
            final(self).conversation,
            !final(self).buffer,
            !final(self).pool,
            session_wf(*final(self)),
            r == (Command::Open { handle, overlay_cursor: OVERLAY_CURSOR }),
    {
        self.phase = CapturePhase::Negotiating { candidate: None };
        self.conversation = true;
        Command::Open { handle, overlay_cursor: OVERLAY_CURSOR }
    }

    /// Takes in a frame event from the server.
    pub fn on_event(&mut self, ev: FrameEvent)
        ensures
            *final(self) == event_step(*old(self), ev),
            session_wf(*old(self)) ==> session_wf(*final(self)),
    {
        let next = match &self.phase {
            CapturePhase::Negotiating { candidate } => match ev {
                FrameEvent::Buffer(p) => {
                    let kept = match candidate {
                        None => Some(p),
                        Some(c) => if p.format == FORMAT_ARGB8888 || p.format == FORMAT_XRGB8888 {
                            Some(p)
                        } else {
                            Some(*c)
                        },
                    };
                    CapturePhase::Negotiating { candidate: kept }
                },
                FrameEvent::BufferDone => match candidate {
                    Some(p) => CapturePhase::BufferReady { params: *p },
                    None => CapturePhase::Failed,
                },
                FrameEvent::Ready => {
                    return ;
                },
                FrameEvent::Failed => CapturePhase::Failed,
            },
            CapturePhase::BufferReady { .. } | CapturePhase::FrameReady { .. } => match ev {
                FrameEvent::Failed => CapturePhase::Failed,
                _ => {
                    return ;
                },
            },
            CapturePhase::Copying { params } => match ev {
                FrameEvent::Ready => CapturePhase::FrameReady { params: *params },
                FrameEvent::Failed => CapturePhase::Failed,
                _ => {
                    return ;
                },
            },
            _ => {
                return ;
            },
        };
        self.phase = next;
    }

    /// The release or finish that `release_step` gives, for a session whose
    /// phase is already settled.
    fn release_next(&mut self) -> (r: Option<ProtocolObject>)
        ensures
            r == (if old(self).conversation {
                Some(ProtocolObject::Conversation)
            } else if old(self).buffer {
                Some(ProtocolObject::Buffer)
            } else if old(self).pool {
                Some(ProtocolObject::Pool)
            } else {
                None::<ProtocolObject>
            }),
            final(self).phase == old(self).phase,
            final(self).conversation == (old(self).conversation && false),
            final(self).buffer == (old(self).buffer && old(self).conversation),
            final(self).pool == (old(self).pool && (old(self).conversation || old(self).buffer)),
    {
        if self.conversation {
            self.conversation = false;
            Some(ProtocolObject::Conversation)
        } else if self.buffer {
            self.buffer = false;
            Some(ProtocolObject::Buffer)
        } else if self.pool {
            self.pool = false;
            Some(ProtocolObject::Pool)
        } else {
            None
        }
    }

    /// Gives up the conversation: releases what is alive, then finishes
    /// with nothing.
    fn fail(&mut self) -> (r: Command)
        ensures
            (*final(self), r) == release_step(with_phase(*old(self), CapturePhase::Failed), None),
    {
        self.phase = CapturePhase::Failed;
        match self.release_next() {
            Some(o) => Command::Release(o),
            None => {
                self.phase = CapturePhase::Idle;
                Command::Finish(None)
            },
        }
    }

    /// Decides the next command, given how the last one went.
    pub fn advance(&mut self, outcome: Outcome) -> (r: Command)
        requires
            session_wf(*old(self)),
        ensures
            (*final(self), r) == step(*old(self), outcome),
            session_wf(*final(self)),
    {
        let mut phase = CapturePhase::Idle;
        std::mem::swap(&mut self.phase, &mut phase);
        match phase {
            CapturePhase::Idle => {
                return Command::Finish(None);
            },
            CapturePhase::Failed => {
                self.phase = CapturePhase::Failed;
                return match self.release_next() {
                    Some(o) => Command::Release(o),
                    None => {
                        self.phase = CapturePhase::Idle;
                        Command::Finish(None)
                    },
                };
            },
            CapturePhase::Captured { frame } => {
                if self.conversation || self.buffer || self.pool {
                    self.phase = CapturePhase::Captured { frame };
                    return match self.release_next() {
                        Some(o) => Command::Release(o),
                        None => Command::Dispatch,
                    };
                } else {
                    return Command::Finish(Some(frame));
                }
            },
            _ => {},
        }
        if let Outcome::Failed = outcome {
            return self.fail();
        }
        match phase {
            CapturePhase::BufferReady { params } => {
                let size = frame_bytes(params);
                if 0 < size && size <= i32::MAX as u64 && params.width <= i32::MAX as u32
                    && params.height <= i32::MAX as u32 && params.stride <= i32::MAX as u32 {
                    self.phase = CapturePhase::Allocating { params };
                    Command::AllocateAndCopy {
                        params,
                        size: size as u32,
                        ignore_damage: IGNORE_DAMAGE,
                    }
                } else {
                    self.fail()
                }
            },
            CapturePhase::Allocating { params } => {
                self.phase = CapturePhase::Copying { params };
                self.buffer = true;
                self.pool = true;
                Command::Dispatch
            },
            CapturePhase::FrameReady { params } => {
                if self.conversation {
                    self.phase = CapturePhase::FrameReady { params };
                    self.conversation = false;
                    Command::Release(ProtocolObject::Conversation)
                } else {
                    self.phase = CapturePhase::Reading { params };
                    Command::ReadPixels { len: frame_bytes(params) as usize }
                }
            },
            CapturePhase::Reading { params } => {
                match outcome {
                    Outcome::Pixels(data) => {
                        if data.len() as u64 == frame_bytes(params) {
                            let frame = CapturedFrame {
                                data,
                                width: params.width,
                                height: params.height,
                                stride: params.stride,
                            };
                            if self.conversation || self.buffer || self.pool {
                                self.phase = CapturePhase::Captured { frame };
                                match self.release_next() {
                                    Some(o) => Command::Release(o),
                                    None => Command::Dispatch,
                                }
                            } else {
                                Command::Finish(Some(frame))
                            }
                        } else {
                            self.fail()
                        }
                    },
                    _ => self.fail(),
                }
            },
            other => {
                self.phase = other;
                Command::Dispatch
            },
        }
    }
}

/// The session after the frame events `evs`, in order.
pub open spec fn apply_events(s: CaptureSession, evs: Seq<FrameEvent>) -> CaptureSession
    decreases evs.len(),
{
    if evs.len() == 0 {
        s
    } else {
        event_step(apply_events(s, evs.drop_last()), evs.last())
    }
}

pub open spec fn offers_as_events(offers: Seq<BufferParams>) -> Seq<FrameEvent> {
    offers.map_values(|p: BufferParams| FrameEvent::Buffer(p))
}

/// Of the layouts offered in a negotiation, the session keeps the last one
/// in a preferred format; when none is preferred, it keeps the first one
/// offered, and with no offer it has none.
pub proof fn lemma_last_preferred_offer_wins(s: CaptureSession, offers: Seq<BufferParams>)
    requires
        s.phase == (CapturePhase::Negotiating { candidate: None }),
    ensures
        apply_events(s, offers_as_events(offers)).phase is Negotiating,
        offers.len() == 0 ==> apply_events(s, offers_as_events(offers)).phase
            == (CapturePhase::Negotiating { candidate: None }),
        forall|i: int|
            0 <= i < offers.len() && is_preferred_format(#[trigger] offers[i].format) && (forall|j: int|
                i < j < offers.len() ==> !is_preferred_format(#[trigger] offers[j].format))
                ==> apply_events(s, offers_as_events(offers)).phase == (CapturePhase::Negotiating {
                candidate: Some(offers[i]),
            }),
        offers.len() > 0 && (forall|i: int|
            0 <= i < offers.len() ==> !is_preferred_format(#[trigger] offers[i].format))
            ==> apply_events(s, offers_as_events(offers)).phase == (CapturePhase::Negotiating {
            candidate: Some(offers[0]),
        }),
    decreases offers.len(),
{
    if offers.len() > 0 {
        let front = offers.drop_last();
        let last = offers.last();
        assert(offers_as_events(offers).drop_last() =~= offers_as_events(front));
        assert(offers_as_events(offers).last() == FrameEvent::Buffer(last));
        lemma_last_preferred_offer_wins(s, front);
        let before = apply_events(s, offers_as_events(front));
        assert(apply_events(s, offers_as_events(offers)) == event_step(before, FrameEvent::Buffer(last)));
        assert forall|i: int|
            0 <= i < offers.len() && is_preferred_format(#[trigger] offers[i].format) && (forall|j: int|
                i < j < offers.len() ==> !is_preferred_format(#[trigger] offers[j].format))
                implies apply_events(s, offers_as_events(offers)).phase == (CapturePhase::Negotiating {
                candidate: Some(offers[i]),
            }) by {
            if i < offers.len() - 1 {
                assert(!is_preferred_format(offers[offers.len() - 1].format));
                assert(front[i] == offers[i]);
                assert forall|j: int| i < j < front.len() implies !is_preferred_format(
                    #[trigger] front[j].format,
                ) by {
                    assert(front[j] == offers[j]);
                }
                if front.len() > 0 {
                    assert(before.phase == (CapturePhase::Negotiating { candidate: Some(front[i]) }));
                }
            }
        }
        if forall|i: int| 0 <= i < offers.len() ==> !is_preferred_format(#[trigger] offers[i].format) {
            if front.len() > 0 {
                assert forall|i: int| 0 <= i < front.len() implies !is_preferred_format(
                    #[trigger] front[i].format,
                ) by {
                    assert(front[i] == offers[i]);
                }
                assert(front[0] == offers[0]);
            }
        }
    }
}

/// A command to finish comes only once every protocol object of the
/// conversation is released, and leaves the session idle for the next
/// capture.
pub proof fn lemma_finish_releases_everything(s: CaptureSession, o: Outcome)
    requires
        session_wf(s),
        step(s, o).1 is Finish,
    ensures
        live_count(step(s, o).0) == 0,
        step(s, o).0.phase is Idle,
{
}

/// Once a capture has failed, or its pixels are read, every later step
/// releases one live protocol object, whatever the caller reports, until
/// none is left and the session finishes; a failure reported in any active
/// phase starts that release. So a capture ends with at most three releases
/// after it fails or succeeds.
pub proof fn lemma_release_progress(s: CaptureSession, o: Outcome)
    requires
        session_wf(s),
        s.phase is Failed || s.phase is Captured || (o is Failed && !(s.phase is Idle)),
    ensures
        step(s, o).1 is Release ==> live_count(step(s, o).0) + 1 == live_count(s) && (step(
            s,
            o,
        ).0.phase is Failed || step(s, o).0.phase is Captured),
        step(s, o).1 is Finish ==> live_count(s) == 0,
        step(s, o).1 is Release || step(s, o).1 is Finish,
{
}

} // verus!
