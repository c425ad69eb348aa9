//! The capture session and its frames as a state machine: what each
//! notification does to the state, and what has to be sent in answer.
//!
//! The state is a plain value here, and every handler is a function from
//! the state before to the state after. The executable handlers of
//! `pipeline` are specified by these functions.

use vstd::prelude::*;
use crate::geometry::{fit, Offset, Size};
use crate::globals::{Global, Globals};
use crate::layout::{shm_layout_of, ShmLayout, DRM_FORMAT_XRGB8888, as_signed};
use crate::pool::{BufferState, PoolView};

verus! {

/// How far the session has come.
#[derive(Clone, Copy, Debug, PartialEq, Eq, Structural)]
pub enum SessionPhase {
    /// No frame has been requested yet.
    Negotiating,
    /// Frames are being captured.
    Streaming,
    /// The compositor has ended the session. Nothing leads out of this.
    Stopped,
}

/// Why no pipeline can be run as configured.
#[derive(Clone, Copy, Debug, PartialEq, Eq, Structural)]
pub enum Fatal {
    /// A service that is needed was not announced.
    MissingGlobal(Global),
    /// Hardware buffers were asked for, but no device has been opened.
    NoAllocator,
    /// A host-memory buffer of the negotiated size is longer than the
    /// protocol can say.
    BufferTooLarge,
    /// Every buffer identity has been used.
    IdsExhausted,
}

/// The storage that is to be created for a new buffer.
#[derive(Clone, Copy, Debug, PartialEq, Eq, Structural)]
pub enum Backing {
    /// Sealed anonymous memory of this layout, shared with the compositor.
    Shm(ShmLayout),
    /// A buffer object of the device, with one of the negotiated modifiers.
    Dmabuf,
}

/// What an attempt to start a capture came to.
#[derive(Clone, Copy, Debug, PartialEq, Eq, Structural)]
pub enum CaptureOutcome {
    /// Nothing was to be done.
    Idle,
    /// A frame was started. It is to be created, bound to `buffer`, damaged
    /// over all of `size` and submitted. Where `create` is set, the buffer is
    /// new and its storage is to be created first.
    Started { buffer: u64, size: Size, create: Option<Backing> },
    /// No buffer can be had. The program cannot go on.
    Failed(Fatal),
}

/// A buffer that is to be attached to the video surface, to be damaged
/// over all of `size`.
#[derive(Clone, Copy, Debug, PartialEq, Eq, Structural)]
pub struct Attach {
    pub buffer: u64,
    pub size: Size,
}

/// What one refresh of the window sends.
#[derive(Clone, Copy, Debug, PartialEq, Eq, Structural)]
pub struct RenderPlan {
    /// The buffer to attach to the video surface, if a new one is ready.
    pub attach: Option<Attach>,
    /// Where to put the video surface in the window, if it is to be moved.
    pub position: Option<Offset>,
    /// The size to show the video at, if it is to be scaled.
    pub video_destination: Option<Size>,
    /// The size to show the background at, if the window has one.
    pub root_destination: Option<Size>,
}

/// A notification of the capture session.
#[derive(Debug)]
pub enum SessionEvent {
    /// The size that buffers must have from now on.
    BufferSize { width: u32, height: u32 },
    /// The device that hardware buffers are to be allocated on.
    DmabufDevice { device: u64 },
    /// A pixel format that hardware buffers can have, with its modifiers.
    DmabufFormat { format: u32, modifiers: Vec<u64> },
    /// The session has ended.
    Stopped,
    /// The parameters are complete: a frame may be requested.
    Done,
    /// Anything else.
    Other,
}

/// A notification of a frame.
#[derive(Clone, Copy, Debug, PartialEq, Eq, Structural)]
pub enum FrameEvent {
    /// The buffer holds the captured image.
    Ready,
    /// The capture failed.
    Failed { reason: u32 },
    /// Anything else: it does not end the frame.
    Other,
}

/// The pipeline's state as a value.
pub struct PipelineView {
    /// Cleared when the window is closed or the session stops.
    pub running: bool,
    /// The video is scaled to fit the window.
    pub fullscreen: bool,
    /// Buffers are hardware buffers, not host memory.
    pub dmabuf: bool,
    /// The services that are bound.
    pub globals: Globals,
    /// The window and the session exist.
    pub established: bool,
    /// The size of the buffer that was attached last.
    pub video_size: Size,
    /// The buffer of the frame that is outstanding, if one is.
    pub frame: Option<u64>,
    /// The buffer that was completed last and has not been attached yet.
    pub next_video: Option<u64>,
    /// The size that the compositor asks buffers to have.
    pub capture_size: Size,
    pub pool: PoolView,
    /// The device number that the compositor named last.
    pub device: u64,
    /// A device has been opened for allocating hardware buffers.
    pub allocator: bool,
    /// The modifiers that new hardware buffers may have.
    pub modifiers: Seq<u64>,
    /// The window's size.
    pub window: Size,
    pub phase: SessionPhase,
}

/// What a refresh sends for a window of size `window` and a video of size
/// `video`.
///
/// A stretched video is placed by `fit`, and scaled unless the placement
/// has an empty dimension; a video that is not stretched is neither moved
/// nor scaled. The background is scaled to the window unless the window has
/// an empty dimension.
pub open spec fn render_plan(
    window: Size,
    video: Size,
    fullscreen: bool,
    attach: Option<Attach>,
) -> RenderPlan {
    let placement = if fullscreen {
        fit(window, video)
    } else {
        None
    };
    RenderPlan {
        attach,
        position: match placement {
            Some(p) => Some(Offset { x: p.x, y: p.y }),
            None => None,
        },
        video_destination: match placement {
            Some(p) => if p.width > 0 && p.height > 0 {
                Some(Size { width: p.width, height: p.height })
            } else {
                None
            },
            None => None,
        },
        root_destination: if window.is_positive() {
            Some(window)
        } else {
            None
        },
    }
}

impl SessionPhase {
    /// The phase after a frame was requested.
    pub open spec fn streaming(self) -> SessionPhase {
        match self {
            SessionPhase::Stopped => SessionPhase::Stopped,
            _ => SessionPhase::Streaming,
        }
    }
}

impl PipelineView {
    /// The state that a viewer starts in.
    pub open spec fn initial(fullscreen: bool, dmabuf: bool) -> PipelineView {
        PipelineView {
            running: true,
            fullscreen,
            dmabuf,
            globals: Globals::none(),
            established: false,
            video_size: Size { width: 1, height: 1 },
            frame: None,
            next_video: None,
            capture_size: Size { width: 0, height: 0 },
            pool: PoolView { buffers: Seq::empty(), next_id: 0 },
            device: 0,
            allocator: false,
            modifiers: Seq::empty(),
            window: Size { width: 1, height: 1 },
            phase: SessionPhase::Negotiating,
        }
    }

    /// The invariant: the pool is well formed and holds the buffer of the
    /// outstanding frame, and no frame is outstanding before the session
    /// exists.
    pub open spec fn wf(self) -> bool {
        &&& self.pool.wf()
        &&& self.frame matches Some(id) ==> self.pool.has(id) && self.established
    }

    /// Number of frames that are outstanding: none or one.
    pub open spec fn outstanding(self) -> int {
        if self.frame is Some {
            1
        } else {
            0
        }
    }

    /// A frame can be started: the session exists, no frame is outstanding
    /// and the negotiated size has two positive dimensions.
    pub open spec fn can_capture(self) -> bool {
        self.established && self.frame is None && self.capture_size.is_positive()
    }

    /// The storage for a new buffer of the negotiated size, or why there can
    /// be none.
    pub open spec fn backing(self) -> Result<Backing, Fatal> {
        if self.dmabuf {
            if !self.allocator {
                Err(Fatal::NoAllocator)
            } else if !self.globals.zwp_linux_dmabuf_v1 {
                Err(Fatal::MissingGlobal(Global::ZwpLinuxDmabufV1))
            } else {
                Ok(Backing::Dmabuf)
            }
        } else {
            match shm_layout_of(self.capture_size) {
                Some(layout) => if !self.globals.wl_shm {
                    Err(Fatal::MissingGlobal(Global::WlShm))
                } else {
                    Ok(Backing::Shm(layout))
                },
                None => Err(Fatal::BufferTooLarge),
            }
        }
    }

    /// The state after an attempt to start a capture, and what it came to.
    ///
    /// Nothing happens unless a frame can be started. Else the buffers of
    /// another size than the negotiated one leave the pool, and the frame is
    /// bound to the first released buffer, or, where none is released, to a
    /// new one.
    pub open spec fn capture(self) -> (PipelineView, CaptureOutcome) {
        if !self.can_capture() {
            (self, CaptureOutcome::Idle)
        } else {
            let size = self.capture_size;
            let pruned = self.pool.pruned(size);
            match pruned.reused().1 {
                Some(id) => (
                    PipelineView {
                        pool: pruned.reused().0,
                        frame: Some(id),
                        phase: self.phase.streaming(),
                        ..self
                    },
                    CaptureOutcome::Started { buffer: id, size, create: None },
                ),
                None => match self.backing() {
                    Err(fatal) => (
                        PipelineView { pool: pruned, ..self },
                        CaptureOutcome::Failed(fatal),
                    ),
                    Ok(backing) => match pruned.allocated(size).1 {
                        Some(id) => (
                            PipelineView {
                                pool: pruned.allocated(size).0,
                                frame: Some(id),
                                phase: self.phase.streaming(),
                                ..self
                            },
                            CaptureOutcome::Started { buffer: id, size, create: Some(backing) },
                        ),
                        None => (
                            PipelineView { pool: pruned, ..self },
                            CaptureOutcome::Failed(Fatal::IdsExhausted),
                        ),
                    },
                },
            }
        }
    }

    /// The buffers that an attempt to start a capture drops, in pool order.
    pub open spec fn capture_drops(self) -> Seq<u64> {
        if self.can_capture() {
            self.pool.dropped(self.capture_size)
        } else {
            Seq::empty()
        }
    }

    /// The buffer that the next refresh attaches: the one that was completed
    /// last, if it is still content-ready.
    pub open spec fn attachable(self) -> Option<Attach> {
        match self.next_video {
            Some(id) => match self.pool.get(id) {
                Some(b) => if b.state == BufferState::ContentReady {
                    Some(Attach { buffer: id, size: b.size })
                } else {
                    None
                },
                None => None,
            },
            None => None,
        }
    }

    /// The state after a refresh of the window, and what the refresh sends;
    /// nothing where no window exists yet.
    ///
    /// A completed buffer that waits is attached, and its size is the
    /// video's size from then on. What is sent is `render_plan` of the
    /// window, that video size and the buffer.
    pub open spec fn rendered(self) -> (PipelineView, Option<RenderPlan>) {
        if !self.established {
            (self, None)
        } else {
            let attach = self.attachable();
            let video = match attach {
                Some(a) => a.size,
                None => self.video_size,
            };
            (
                PipelineView { video_size: video, next_video: None, ..self },
                Some(render_plan(self.window, video, self.fullscreen, attach)),
            )
        }
    }

    /// A notification of the frame bound to `buffer` ends the outstanding
    /// frame: the session exists, that frame is the outstanding one, and the
    /// notification says that it is ready or has failed.
    pub open spec fn ends_frame(self, buffer: u64, event: FrameEvent) -> bool {
        self.established && self.frame == Some(buffer) && !(event is Other)
    }

    /// The state after the outstanding frame was completed and discarded,
    /// before anything is drawn: its buffer is content-ready and waits to be
    /// attached.
    pub open spec fn completed(self, buffer: u64) -> PipelineView {
        PipelineView {
            pool: self.pool.with_state(buffer, BufferState::ContentReady),
            frame: None,
            next_video: Some(buffer),
            ..self
        }
    }

    /// The state after a notification of the frame bound to `buffer`.
    ///
    /// A notification that does not end the outstanding frame changes
    /// nothing. `Ready` makes the buffer content-ready, discards the frame,
    /// refreshes the window and tries to start the next capture. `Failed`
    /// discards the frame and tries to start the next capture.
    pub open spec fn after_frame_event(self, buffer: u64, event: FrameEvent) -> PipelineView {
        if !self.ends_frame(buffer, event) {
            self
        } else {
            match event {
                FrameEvent::Ready => self.completed(buffer).rendered().0.capture().0,
                _ => PipelineView { frame: None, ..self }.capture().0,
            }
        }
    }

    /// The state after the display gave a buffer back. A signal that names
    /// no buffer changes nothing.
    pub open spec fn after_release(self, buffer: Option<u64>) -> PipelineView {
        match buffer {
            Some(id) => PipelineView {
                pool: self.pool.with_state(id, BufferState::Released),
                ..self
            },
            None => self,
        }
    }

    /// The state after a notification of the session.
    pub open spec fn after_session_event(self, event: SessionEvent) -> PipelineView {
        match event {
            SessionEvent::BufferSize { width, height } => PipelineView {
                capture_size: Size { width: as_signed(width), height: as_signed(height) },
                ..self
            },
            SessionEvent::DmabufDevice { device } => PipelineView {
                device,
                allocator: self.allocator || self.dmabuf,
                ..self
            },
            SessionEvent::DmabufFormat { format, modifiers } => if format == DRM_FORMAT_XRGB8888 {
                PipelineView { modifiers: modifiers@, ..self }
            } else {
                self
            },
            SessionEvent::Stopped => PipelineView {
                running: false,
                phase: SessionPhase::Stopped,
                ..self
            },
            SessionEvent::Done => self.capture().0,
            SessionEvent::Other => self,
        }
    }

    /// The device that is to be opened after a notification of the session:
    /// the one that the notification names, if hardware buffers were asked
    /// for and no device has been opened yet.
    pub open spec fn opens_device(self, event: SessionEvent) -> Option<u64> {
        match event {
            SessionEvent::DmabufDevice { device } => if self.dmabuf && !self.allocator {
                Some(device)
            } else {
                None
            },
            _ => None,
        }
    }

    /// The state after the window was given a size.
    pub open spec fn after_configure(self, width: i32, height: i32) -> PipelineView {
        PipelineView { window: Size { width, height }, ..self }
    }

    /// The state after the window was closed.
    pub open spec fn after_close(self) -> PipelineView {
        PipelineView { running: false, ..self }
    }

    /// The state after `global` was bound.
    pub open spec fn after_bind(self, global: Global) -> PipelineView {
        PipelineView { globals: self.globals.with(global), ..self }
    }

    /// The state after the window and the session were created.
    pub open spec fn after_setup(self) -> PipelineView {
        PipelineView { established: true, ..self }
    }
}

/// Anything that the pipeline takes in.
#[derive(Debug)]
pub enum Event {
    /// A service was bound.
    Bound(Global),
    /// The window and the session were created.
    Setup,
    /// A notification of the session.
    Session(SessionEvent),
    /// A notification of the frame bound to `buffer`.
    Frame { buffer: u64, event: FrameEvent },
    /// The display gave a buffer back.
    Released(Option<u64>),
    /// The window was given a size.
    Configure { width: i32, height: i32 },
    /// The window is to be drawn again.
    Refresh,
    /// The window was closed.
    Close,
}

impl PipelineView {
    /// The state after `event` was handled.
    pub open spec fn step(self, event: Event) -> PipelineView {
        match event {
            Event::Bound(global) => self.after_bind(global),
            Event::Setup => self.after_setup(),
            Event::Session(e) => self.after_session_event(e),
            Event::Frame { buffer, event } => self.after_frame_event(buffer, event),
            Event::Released(buffer) => self.after_release(buffer),
            Event::Configure { width, height } => self.after_configure(width, height),
            Event::Refresh => self.rendered().0,
            Event::Close => self.after_close(),
        }
    }

    /// What the attempt to start a capture came to that handling `event`
    /// makes, if it makes one.
    pub open spec fn attempt(self, event: Event) -> Option<CaptureOutcome> {
        match event {
            Event::Session(SessionEvent::Done) => Some(self.capture().1),
            Event::Frame { buffer, event } => if self.ends_frame(buffer, event) {
                match event {
                    FrameEvent::Ready => Some(self.completed(buffer).rendered().0.capture().1),
                    _ => Some((PipelineView { frame: None, ..self }).capture().1),
                }
            } else {
                None
            },
            _ => None,
        }
    }

    /// Handling `event` starts a frame.
    pub open spec fn starts_frame(self, event: Event) -> bool {
        self.attempt(event) matches Some(outcome) && outcome is Started
    }

    /// Handling `event` starts a frame on the buffer named `id`.
    pub open spec fn submits(self, event: Event, id: u64) -> bool {
        self.attempt(event) matches Some(CaptureOutcome::Started { buffer, .. }) && buffer == id
    }

    /// Handling `event` discards the outstanding frame.
    pub open spec fn retires_frame(self, event: Event) -> bool {
        event matches Event::Frame { buffer, event } && self.ends_frame(buffer, event)
    }

    /// Handling `event` completes the capture into the buffer named `id`.
    pub open spec fn completes(self, event: Event, id: u64) -> bool {
        event matches Event::Frame { buffer, event } && buffer == id && event is Ready
            && self.ends_frame(buffer, event)
    }
}

} // verus!
