//! The capture and display pipeline: the handlers that take the
//! compositor's notifications, keep the state and say what is to be sent.

use vstd::prelude::*;
use crate::geometry::{fit_video, Offset, Placement, Size};
use crate::globals::{Global, Globals};
use crate::layout::{shm_layout, to_signed, DRM_FORMAT_XRGB8888};
use crate::wire::{device_from_bytes, is_list_of, is_value_of, modifiers_from_bytes};
use crate::pool::{
    all_of_size, lemma_acquired, lemma_pruned_wf, lemma_with_state, Buffer, BufferPool,
    BufferState,
};
use crate::session::{
    render_plan, Attach, Backing, CaptureOutcome, Event, Fatal, FrameEvent, PipelineView,
    RenderPlan, SessionEvent, SessionPhase,
};

verus! {

/// What `Pipeline::capture_frame` did.
#[derive(Debug)]
pub struct CaptureStep {
    /// The buffers that left the pool, in pool order: they are to be
    /// destroyed.
    pub dropped: Vec<u64>,
    pub outcome: CaptureOutcome,
}

/// What `Pipeline::frame_event` did.
#[derive(Debug)]
pub enum FrameStep {
    /// The notification changed nothing. The frame stays as it is.
    Ignored,
    /// The frame was completed and is to be destroyed, after `render` was
    /// sent. `next` is the attempt to start the next capture.
    Completed { render: RenderPlan, next: CaptureStep },
    /// The frame failed for `reason` and is to be destroyed. `next` is the
    /// attempt to start the next capture.
    Failed { reason: u32, next: CaptureStep },
}

/// What `Pipeline::session_event` did.
#[derive(Debug)]
pub enum SessionStep {
    /// A parameter of the session was taken in.
    Updated,
    /// The device was taken in, and is to be opened for allocating buffers.
    OpenDevice { device: u64 },
    /// The session has ended; the program is to leave its loop.
    Stopped,
    /// The session is ready: this is the attempt to start a capture.
    Capture(CaptureStep),
    /// The notification changed nothing.
    Ignored,
}

/// What `Pipeline::handle` did.
#[derive(Debug)]
pub enum Reaction {
    /// The state was updated; nothing is to be sent.
    Nothing,
    /// What `session_event` did.
    Session(SessionStep),
    /// What `frame_event` did.
    Frame(FrameStep),
    /// What `render_frame` did.
    Render(Option<RenderPlan>),
}

impl Reaction {
    /// What the attempt to start a capture came to, if one was made.
    pub open spec fn attempt(self) -> Option<CaptureOutcome> {
        match self {
            Reaction::Session(SessionStep::Capture(step)) => Some(step.outcome),
            Reaction::Frame(FrameStep::Completed { next, .. }) => Some(next.outcome),
            Reaction::Frame(FrameStep::Failed { next, .. }) => Some(next.outcome),
            _ => None,
        }
    }

    /// A frame was discarded.
    pub open spec fn retired(self) -> bool {
        self matches Reaction::Frame(step) && !(step is Ignored)
    }
}

/// The state that all handlers work on.
pub struct Pipeline {
    running: bool,
    fullscreen: bool,
    dmabuf: bool,
    globals: Globals,
    established: bool,
    video_size: Size,
    frame: Option<u64>,
    next_video: Option<u64>,
    capture_size: Size,
    pool: BufferPool,
    device: u64,
    allocator: bool,
    modifiers: Vec<u64>,
    window: Size,
    phase: SessionPhase,
}

impl View for Pipeline {
    type V = PipelineView;

    closed spec fn view(&self) -> PipelineView {
        PipelineView {
            running: self.running,
            fullscreen: self.fullscreen,
            dmabuf: self.dmabuf,
            globals: self.globals,
            established: self.established,
            video_size: self.video_size,
            frame: self.frame,
            next_video: self.next_video,
            capture_size: self.capture_size,
            pool: self.pool@,
            device: self.device,
            allocator: self.allocator,
            modifiers: self.modifiers@,
            window: self.window,
            phase: self.phase,
        }
    }
}

/// Starting a capture keeps the state well formed. Where a frame is
/// started, none was outstanding, and its buffer is held, has the
/// negotiated size and is the only kind of buffer left in the pool.
pub proof fn lemma_capture(s: PipelineView)
    requires
        s.wf(),
    ensures
        s.capture().0.wf(),
        s.capture().1 matches CaptureOutcome::Started { buffer, size, create } ==> {
            &&& s.frame is None
            &&& size == s.capture_size
            &&& size.is_positive()
            &&& s.capture().0.frame == Some(buffer)
            &&& s.capture().0.pool.get(buffer) == Some(
                Buffer { id: buffer, size, state: BufferState::Held },
            )
            &&& all_of_size(s.capture().0.pool.buffers, size)
            &&& create is None ==> s.pool.get(buffer) == Some(
                Buffer { id: buffer, size, state: BufferState::Released },
            )
            &&& create is Some ==> !s.pool.has(buffer) && s.backing() == Ok::<Backing, Fatal>(
                create.unwrap(),
            )
        },
        !(s.capture().1 is Started) ==> s.capture().0.frame == s.frame,
{
    if s.can_capture() {
        lemma_pruned_wf(s.pool, s.capture_size);
        lemma_acquired(s.pool, s.capture_size);
    }
}

impl Pipeline {
    /// The invariant: see `PipelineView::wf`.
    pub open spec fn wf(&self) -> bool {
        self@.wf()
    }

    /// The state that a viewer starts in: running, nothing bound, no window
    /// yet, an empty pool, a window of one pixel.
    pub fn new(fullscreen: bool, dmabuf: bool) -> (pipeline: Pipeline)
        ensures
            pipeline.wf(),
            pipeline@ == PipelineView::initial(fullscreen, dmabuf),
    {
        let pipeline = Pipeline {
            running: true,
            fullscreen,
            dmabuf,
            globals: Globals::new(),
            established: false,
            video_size: Size { width: 1, height: 1 },
            frame: None,
            next_video: None,
            capture_size: Size { width: 0, height: 0 },
            pool: BufferPool::new(),
            device: 0,
            allocator: false,
            modifiers: Vec::new(),
            window: Size { width: 1, height: 1 },
            phase: SessionPhase::Negotiating,
        };
        proof {
            assert(pipeline@.pool.buffers =~= Seq::<Buffer>::empty());
            assert(pipeline@.modifiers =~= Seq::<u64>::empty());
        }
        pipeline
    }

    /// Records that `global` was bound.
    pub fn bind(&mut self, global: Global)
        requires
            old(self).wf(),
        ensures
            final(self).wf(),
            final(self)@ == old(self)@.after_bind(global),
    {
        self.globals.bind(global);
    }

    /// Records that the window and the session were created: from now on
    /// the window is refreshed and frames are started.
    pub fn setup(&mut self)
        requires
            old(self).wf(),
        ensures
            final(self).wf(),
            final(self)@ == old(self)@.after_setup(),
    {
        self.established = true;
    }

    /// The services that are bound.
    pub fn globals(&self) -> (globals: Globals)
        ensures
            globals == self@.globals,
    {
        self.globals
    }

    /// Whether the program is to go on: cleared when the window is closed
    /// or the session stops.
    pub fn running(&self) -> (running: bool)
        ensures
            running == self@.running,
    {
        self.running
    }

    /// Whether the window and the session exist.
    pub fn established(&self) -> (established: bool)
        ensures
            established == self@.established,
    {
        self.established
    }

    /// The window's size.
    pub fn window(&self) -> (window: Size)
        ensures
            window == self@.window,
    {
        self.window
    }

    /// The size of the buffer that was attached last; one pixel before any
    /// was.
    pub fn video_size(&self) -> (size: Size)
        ensures
            size == self@.video_size,
    {
        self.video_size
    }

    /// The buffer of the outstanding frame, if a frame is outstanding.
    pub fn frame(&self) -> (frame: Option<u64>)
        ensures
            frame == self@.frame,
    {
        self.frame
    }

    /// How far the session has come.
    pub fn phase(&self) -> (phase: SessionPhase)
        ensures
            phase == self@.phase,
    {
        self.phase
    }

    /// The size that the compositor asks buffers to have.
    pub fn capture_size(&self) -> (size: Size)
        ensures
            size == self@.capture_size,
    {
        self.capture_size
    }

    /// The device number that the compositor named last.
    pub fn device(&self) -> (device: u64)
        ensures
            device == self@.device,
    {
        self.device
    }

    /// The modifiers that a new hardware buffer may have.
    pub fn modifiers(&self) -> (modifiers: &Vec<u64>)
        ensures
            modifiers@ == self@.modifiers,
    {
        &self.modifiers
    }

    /// The buffer named `id`, if the pool has it.
    pub fn buffer(&self, id: u64) -> (found: Option<Buffer>)
        requires
            self.wf(),
        ensures
            found == self@.pool.get(id),
    {
        self.pool.get(id)
    }

    /// Number of buffers in the pool.
    pub fn buffer_count(&self) -> (n: usize)
        ensures
            n == self@.pool.buffers.len(),
    {
        self.pool.len()
    }

    /// Decides on the storage of a new buffer of the negotiated size.
    fn plan_backing(&self) -> (backing: Result<Backing, Fatal>)
        ensures
            backing == self@.backing(),
    {
        if self.dmabuf {
            if !self.allocator {
                Err(Fatal::NoAllocator)
            } else if !self.globals.zwp_linux_dmabuf_v1 {
                Err(Fatal::MissingGlobal(Global::ZwpLinuxDmabufV1))
            } else {
                Ok(Backing::Dmabuf)
            }
        } else {
            match shm_layout(self.capture_size) {
                Some(layout) => if !self.globals.wl_shm {
                    Err(Fatal::MissingGlobal(Global::WlShm))
                } else {
                    Ok(Backing::Shm(layout))
                },
                None => Err(Fatal::BufferTooLarge),
            }
        }
    }

    /// Starts a capture if one can be started.
    ///
    /// Nothing is done before the session exists, while a frame is
    /// outstanding, or while the negotiated size has an empty dimension.
    /// Else every buffer of another size leaves the pool, and a frame is
    /// bound to the first released buffer, or, if none is released, to a new
    /// buffer. The buffer is held from then on and has exactly the
    /// negotiated size. Where no new buffer can be had, the outcome says why
    /// and no frame is started.
    pub fn capture_frame(&mut self) -> (step: CaptureStep)
        requires
            old(self).wf(),
        ensures
            final(self).wf(),
            final(self)@ == old(self)@.capture().0,
            step.outcome == old(self)@.capture().1,
            step.dropped@ == old(self)@.capture_drops(),
            step.outcome is Idle <==> !old(self)@.can_capture(),
            step.outcome matches CaptureOutcome::Started { buffer, size, create } ==> {
                &&& old(self)@.frame is None
                &&& size == old(self)@.capture_size
                &&& final(self)@.frame == Some(buffer)
                &&& final(self)@.pool.get(buffer) == Some(
                    Buffer { id: buffer, size, state: BufferState::Held },
                )
                &&& all_of_size(final(self)@.pool.buffers, size)
            },
    {
        proof {
            lemma_capture(self@);
        }
        if !self.established || self.frame.is_some() || !self.capture_size.positive() {
            return CaptureStep { dropped: Vec::new(), outcome: CaptureOutcome::Idle };
        }
        let size = self.capture_size;
        let dropped = self.pool.prune(size);
        let outcome = match self.pool.reuse_released() {
            Some(id) => {
                self.frame = Some(id);
                self.phase = next_phase(self.phase);
                CaptureOutcome::Started { buffer: id, size, create: None }
            },
            None => match self.plan_backing() {
                Err(fatal) => CaptureOutcome::Failed(fatal),
                Ok(backing) => match self.pool.allocate(size) {
                    Some(id) => {
                        self.frame = Some(id);
                        self.phase = next_phase(self.phase);
                        CaptureOutcome::Started { buffer: id, size, create: Some(backing) }
                    },
                    None => CaptureOutcome::Failed(Fatal::IdsExhausted),
                },
            },
        };
        CaptureStep { dropped, outcome }
    }

    /// The buffer that the next refresh attaches.
    fn pending_attach(&self) -> (attach: Option<Attach>)
        requires
            self.wf(),
        ensures
            attach == self@.attachable(),
    {
        match self.next_video {
            Some(id) => match self.pool.get(id) {
                Some(b) => match b.state {
                    BufferState::ContentReady => Some(Attach { buffer: id, size: b.size }),
                    _ => None,
                },
                None => None,
            },
            None => None,
        }
    }

    /// Refreshes the window. Returns what is to be sent, or `None` before the
    /// window exists.
    ///
    /// The buffer that was completed last is attached if it has not been
    /// attached yet and is still content-ready; its size is the video's size
    /// from then on. No buffer changes its state. With stretching on, the
    /// video is placed as `fit` says and scaled unless the placement has an
    /// empty dimension; with stretching off it is neither moved nor scaled.
    /// The background is scaled to the window unless the window has an empty
    /// dimension.
    pub fn render_frame(&mut self) -> (plan: Option<RenderPlan>)
        requires
            old(self).wf(),
        ensures
            final(self).wf(),
            final(self)@ == old(self)@.rendered().0,
            plan == old(self)@.rendered().1,
            plan is Some <==> old(self)@.established,
            final(self)@.pool == old(self)@.pool,
            final(self)@.frame == old(self)@.frame,
    {
        if !self.established {
            return None;
        }
        let attach = self.pending_attach();
        let video: Size = match attach {
            Some(a) => a.size,
            None => self.video_size,
        };
        self.video_size = video;
        self.next_video = None;
        Some(plan_render(self.window, video, self.fullscreen, attach))
    }

    /// Takes in a notification of the frame that is bound to `buffer`.
    ///
    /// Only a notification that ends the outstanding frame does anything:
    /// `Ready` or `Failed` for the frame that is outstanding. `Ready` makes
    /// the frame's buffer content-ready, discards the frame, refreshes the
    /// window, which attaches the buffer, and tries to start the next
    /// capture. `Failed` discards the frame and tries to start the next
    /// capture at once.
    pub fn frame_event(&mut self, buffer: u64, event: FrameEvent) -> (step: FrameStep)
        requires
            old(self).wf(),
        ensures
            final(self).wf(),
            final(self)@ == old(self)@.after_frame_event(buffer, event),
            step is Ignored <==> !old(self)@.ends_frame(buffer, event),
            step matches FrameStep::Completed { render, next } ==> {
                &&& event is Ready
                &&& Some(render) == old(self)@.completed(buffer).rendered().1
                &&& render.attach matches Some(a) && a.buffer == buffer
                &&& next.outcome == old(self)@.completed(buffer).rendered().0.capture().1
                &&& next.dropped@ == old(self)@.completed(buffer).rendered().0.capture_drops()
            },
            step matches FrameStep::Failed { reason, next } ==> {
                &&& event == (FrameEvent::Failed { reason })
                &&& next.outcome == (PipelineView { frame: None, ..old(self)@ }).capture().1
                &&& next.dropped@ == (PipelineView { frame: None, ..old(self)@ }).capture_drops()
            },
    {
        if !self.established {
            return FrameStep::Ignored;
        }
        match self.frame {
            Some(outstanding) => if outstanding != buffer {
                return FrameStep::Ignored;
            },
            None => {
                return FrameStep::Ignored;
            },
        }
        match event {
            FrameEvent::Ready => {
                proof {
                    lemma_with_state(self@.pool, buffer, BufferState::ContentReady, buffer);
                }
                self.pool.mark_ready(buffer);
                self.frame = None;
                self.next_video = Some(buffer);
                let plan = self.render_frame();
                let next = self.capture_frame();
                match plan {
                    Some(render) => FrameStep::Completed { render, next },
                    None => FrameStep::Ignored,
                }
            },
            FrameEvent::Failed { reason } => {
                self.frame = None;
                let next = self.capture_frame();
                FrameStep::Failed { reason, next }
            },
            FrameEvent::Other => FrameStep::Ignored,
        }
    }

    /// Takes in the signal that the display has given a buffer back: the
    /// buffer is released and can be handed to a capture again. A signal
    /// that names no buffer, or one that the pool does not have, changes
    /// nothing.
    pub fn buffer_released(&mut self, buffer: Option<u64>)
        requires
            old(self).wf(),
        ensures
            final(self).wf(),
            final(self)@ == old(self)@.after_release(buffer),
    {
        if let Some(id) = buffer {
            proof {
                if let Some(bound) = self@.frame {
                    lemma_with_state(self@.pool, id, BufferState::Released, bound);
                } else {
                    lemma_with_state(self@.pool, id, BufferState::Released, id);
                }
            }
            self.pool.release(id);
        }
    }

    /// Takes in a notification of the session.
    ///
    /// A size, a device or the modifiers of the pixel format in use replace
    /// what was known; modifiers of another format are passed over. The
    /// first device that arrives while hardware buffers are asked for is to
    /// be opened. `Stopped` ends the session. `Done` tries to start a
    /// capture.
    pub fn session_event(&mut self, event: SessionEvent) -> (step: SessionStep)
        requires
            old(self).wf(),
        ensures
            final(self).wf(),
            final(self)@ == old(self)@.after_session_event(event),
            match event {
                SessionEvent::BufferSize { .. } => step is Updated,
                SessionEvent::DmabufDevice { device } => match old(self)@.opens_device(event) {
                    Some(d) => step == (SessionStep::OpenDevice { device: d }),
                    None => step is Updated,
                },
                SessionEvent::DmabufFormat { format, .. } => if format == DRM_FORMAT_XRGB8888 {
                    step is Updated
                } else {
                    step is Ignored
                },
                SessionEvent::Stopped => step is Stopped,
                SessionEvent::Done => {
                    &&& step matches SessionStep::Capture(capture)
                    &&& capture.outcome == old(self)@.capture().1
                    &&& capture.dropped@ == old(self)@.capture_drops()
                },
                SessionEvent::Other => step is Ignored,
            },
    {
        match event {
            SessionEvent::BufferSize { width, height } => {
                self.set_capture_size(width, height);
                SessionStep::Updated
            },
            SessionEvent::DmabufDevice { device } => {
                if self.set_device(device) {
                    SessionStep::OpenDevice { device }
                } else {
                    SessionStep::Updated
                }
            },
            SessionEvent::DmabufFormat { format, modifiers } => {
                if format == DRM_FORMAT_XRGB8888 {
                    self.set_modifiers(modifiers);
                    SessionStep::Updated
                } else {
                    SessionStep::Ignored
                }
            },
            SessionEvent::Stopped => {
                self.stop();
                SessionStep::Stopped
            },
            SessionEvent::Done => SessionStep::Capture(self.capture_frame()),
            SessionEvent::Other => SessionStep::Ignored,
        }
    }

    /// Takes in the device that hardware buffers are to be allocated on, as
    /// the bytes that the compositor sent. Returns `None`, changing nothing,
    /// unless these are the eight bytes of a device number. Else the number
    /// that the bytes hold in the machine's byte order is handled as
    /// `session_event` handles a device.
    pub fn dmabuf_device(&mut self, device: &[u8]) -> (step: Option<SessionStep>)
        requires
            old(self).wf(),
        ensures
            final(self).wf(),
            step is Some <==> device@.len() == 8,
            step is None ==> final(self)@ == old(self)@,
            step is Some ==> {
                &&& is_value_of(device@, final(self)@.device)
                &&& final(self)@ == old(self)@.after_session_event(
                    SessionEvent::DmabufDevice { device: final(self)@.device },
                )
                &&& step == Some(
                    if old(self)@.dmabuf && !old(self)@.allocator {
                        SessionStep::OpenDevice { device: final(self)@.device }
                    } else {
                        SessionStep::Updated
                    },
                )
            },
    {
        match device_from_bytes(device) {
            Some(number) => Some(self.session_event(SessionEvent::DmabufDevice { device: number })),
            None => None,
        }
    }

    /// Takes in a pixel format that hardware buffers can have, with its
    /// modifiers as the bytes that the compositor sent. The modifiers of the
    /// format in use replace the ones that were known: eight bytes each, in
    /// the machine's byte order. Another format changes nothing.
    pub fn dmabuf_format(&mut self, format: u32, modifiers: &[u8]) -> (step: SessionStep)
        requires
            old(self).wf(),
        ensures
            final(self).wf(),
            format == DRM_FORMAT_XRGB8888 ==> {
                &&& step is Updated
                &&& is_list_of(modifiers@, final(self)@.modifiers)
                &&& final(self)@ == (PipelineView {
                    modifiers: final(self)@.modifiers,
                    ..old(self)@
                })
            },
            format != DRM_FORMAT_XRGB8888 ==> step is Ignored && final(self)@ == old(self)@,
    {
        if format == DRM_FORMAT_XRGB8888 {
            self.set_modifiers(modifiers_from_bytes(modifiers));
            SessionStep::Updated
        } else {
            SessionStep::Ignored
        }
    }

    /// Replaces the negotiated size.
    fn set_capture_size(&mut self, width: u32, height: u32)
        requires
            old(self).wf(),
        ensures
            final(self).wf(),
            final(self)@ == old(self)@.after_session_event(
                SessionEvent::BufferSize { width, height },
            ),
    {
        self.capture_size = Size { width: to_signed(width), height: to_signed(height) };
    }

    /// Replaces the device; tells whether it is to be opened.
    fn set_device(&mut self, device: u64) -> (open: bool)
        requires
            old(self).wf(),
        ensures
            final(self).wf(),
            final(self)@ == old(self)@.after_session_event(SessionEvent::DmabufDevice { device }),
            open == (old(self)@.dmabuf && !old(self)@.allocator),
    {
        let open = self.dmabuf && !self.allocator;
        self.device = device;
        self.allocator = self.allocator || self.dmabuf;
        open
    }

    /// Replaces the modifiers.
    fn set_modifiers(&mut self, modifiers: Vec<u64>)
        requires
            old(self).wf(),
        ensures
            final(self).wf(),
            final(self)@ == (PipelineView { modifiers: modifiers@, ..old(self)@ }),
    {
        self.modifiers = modifiers;
    }

    /// Ends the session.
    fn stop(&mut self)
        requires
            old(self).wf(),
        ensures
            final(self).wf(),
            final(self)@ == old(self)@.after_session_event(SessionEvent::Stopped),
    {
        self.running = false;
        self.phase = SessionPhase::Stopped;
    }

    /// Takes in any event, by the handler that is made for it.
    ///
    /// The state afterwards is `step` of the state before. A frame is
    /// started exactly where `attempt` of the state before says so, and one
    /// is discarded exactly where `retires_frame` says so; `laws` shows what
    /// follows from this for every sequence of events.
    pub fn handle(&mut self, event: Event) -> (reaction: Reaction)
        requires
            old(self).wf(),
        ensures
            final(self).wf(),
            final(self)@ == old(self)@.step(event),
            reaction.attempt() == old(self)@.attempt(event),
            reaction.retired() == old(self)@.retires_frame(event),
            match event {
                Event::Session(_) => reaction is Session,
                Event::Frame { .. } => reaction is Frame,
                Event::Refresh => reaction == Reaction::Render(old(self)@.rendered().1),
                _ => reaction is Nothing,
            },
    {
        match event {
            Event::Bound(global) => {
                self.bind(global);
                Reaction::Nothing
            },
            Event::Setup => {
                self.setup();
                Reaction::Nothing
            },
            Event::Session(e) => Reaction::Session(self.session_event(e)),
            Event::Frame { buffer, event } => Reaction::Frame(self.frame_event(buffer, event)),
            Event::Released(buffer) => {
                self.buffer_released(buffer);
                Reaction::Nothing
            },
            Event::Configure { width, height } => {
                self.configure(width, height);
                Reaction::Nothing
            },
            Event::Refresh => Reaction::Render(self.render_frame()),
            Event::Close => {
                self.close();
                Reaction::Nothing
            },
        }
    }

    /// Takes in the size that the compositor gave the window.
    pub fn configure(&mut self, width: i32, height: i32)
        requires
            old(self).wf(),
        ensures
            final(self).wf(),
            final(self)@ == old(self)@.after_configure(width, height),
    {
        self.window = Size { width, height };
    }

    /// Takes in that the window was closed: the program is to leave its
    /// loop.
    pub fn close(&mut self)
        requires
            old(self).wf(),
        ensures
            final(self).wf(),
            final(self)@ == old(self)@.after_close(),
    {
        self.running = false;
    }
}

/// Works out what a refresh sends.
fn plan_render(window: Size, video: Size, fullscreen: bool, attach: Option<Attach>) -> (plan:
    RenderPlan)
    ensures
        plan == render_plan(window, video, fullscreen, attach),
{
    let placement: Option<Placement> = if fullscreen {
        fit_video(window, video)
    } else {
        None
    };
    let position = match placement {
        Some(p) => Some(Offset { x: p.x, y: p.y }),
        None => None,
    };
    let video_destination = match placement {
        Some(p) => if p.width > 0 && p.height > 0 {
            Some(Size { width: p.width, height: p.height })
        } else {
            None
        },
        None => None,
    };
    let root_destination = if window.positive() {
        Some(window)
    } else {
        None
    };
    RenderPlan { attach, position, video_destination, root_destination }
}

/// The phase after a frame was requested.
fn next_phase(phase: SessionPhase) -> (next: SessionPhase)
    ensures
        next == phase.streaming(),
{
    match phase {
        SessionPhase::Stopped => SessionPhase::Stopped,
        _ => SessionPhase::Streaming,
    }
}

} // verus!
