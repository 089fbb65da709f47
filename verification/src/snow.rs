//! The engine of one display: whether it runs, what the GPU holds of its
//! uniform and of the host's windows, and what each frame dispatches and
//! draws.

use std::collections::HashMap;
use vstd::prelude::*;
use crate::host::{base_map, base_rects, duplicate, AppWindow, PlacedWindow};
use crate::layout::{encode_all, record_bytes, records_bytes};
use crate::records::{FrameData, RectInstance, GRAVITY_X, GRAVITY_Y, MAX_AGE, ZERO};
use crate::surface::SurfaceError;
use crate::utils::{BindingType, BufferBindingType, UniformBuffer};

verus! {

/// The number of window rectangles that the window buffer has room for.
pub const MAX_WINDOWS: usize = 100;

/// The number of corners of the quad mesh.
pub const QUAD_VERTICES: usize = 6;

/// The number of snowflakes that one compute workgroup simulates.
pub const WORKGROUP_SIZE: usize = 256;

/// Bit pattern, in double precision, of the green part `0.2` of the tint that
/// a frame is cleared to.
pub const TINT_GREEN: u64 = 0x3fc9_9999_9999_999a;

/// Bit pattern, in double precision, of the blue part `0.3` of the tint that
/// a frame is cleared to.
pub const TINT_BLUE: u64 = 0x3fd3_3333_3333_3333;

/// Why an engine could not be built. Each kind carries the host's message.
#[derive(Debug, Clone, PartialEq, Eq)]
pub enum BuildError {
    /// The host could not create the overlay window.
    WindowCreation(String),
    /// A call on the overlay window failed.
    WinitExternal(String),
    /// No surface could be bound to the overlay window.
    SurfaceCreation(String),
}

/// What the host reports of an overlay window.
#[derive(Debug, Clone, Copy, PartialEq, Eq, Structural)]
pub enum WindowEvent {
    /// Whether the window's content is now fully hidden.
    Occluded(bool),
    /// Anything else; it is seen and changes nothing.
    Other,
}

/// What one frame dispatches and draws.
#[derive(Debug, Clone, Copy, PartialEq, Eq)]
pub struct FramePlan {
    /// Workgroups of the simulation, each of `WORKGROUP_SIZE` snowflakes.
    pub workgroups: u32,
    /// Vertices of the quad mesh.
    pub vertices: u32,
    /// Instances of the quad: one for each snowflake.
    pub instances: u32,
    /// Red, green, blue and alpha that the frame is cleared to, as
    /// double-precision bit patterns.
    pub clear: [u64; 4],
}

/// What an engine is, to its callers.
pub struct SnowView {
    /// Whether the engine asks for redraws.
    pub running: bool,
    /// The host's identity of the overlay window.
    pub window: u64,
    /// Width and height of the overlay window in pixels.
    pub size: (u32, u32),
    /// The number of snowflakes, fixed at construction.
    pub particle_count: usize,
    /// When the engine was made, in nanoseconds of the caller's clock.
    pub created: u64,
    /// When the frame clock was last read, in nanoseconds of the same clock.
    pub last_draw: u64,
    /// The uniform as the host holds it.
    pub frame: FrameData,
    /// The uniform's bytes as the GPU holds them.
    pub uniform: Seq<u8>,
    /// The window buffer as the GPU holds it.
    pub rects: Seq<RectInstance>,
    /// The windows of the last snapshot, by number.
    pub windows: Map<i64, AppWindow>,
}

/// How many of `found` rectangles a buffer of `room` slots takes.
pub open spec fn taken(found: int, room: int) -> int {
    if found <= room {
        found
    } else {
        room
    }
}

/// A window buffer after `found` was written to its start: as many of the
/// first rectangles as it has room for, then the slots that were not reached,
/// as they were.
pub open spec fn overwritten(slots: Seq<RectInstance>, found: Seq<RectInstance>) -> Seq<
    RectInstance,
> {
    let k = taken(found.len() as int, slots.len() as int);
    found.take(k) + slots.skip(k)
}

/// The number of workgroups that cover `count` snowflakes.
pub open spec fn workgroups(count: int) -> int {
    (count + WORKGROUP_SIZE - 1) / (WORKGROUP_SIZE as int)
}

/// The frame of an engine with `count` snowflakes.
pub open spec fn frame_plan(count: usize) -> FramePlan {
    FramePlan {
        workgroups: workgroups(count as int) as u32,
        vertices: QUAD_VERTICES as u32,
        instances: count as u32,
        clear: [0, TINT_GREEN, TINT_BLUE, 0],
    }
}

/// The uniform of a new engine on a display of the given aspect ratio.
pub open spec fn first_frame(aspect: u32) -> FrameData {
    FrameData {
        dt: ZERO,
        time: ZERO,
        gravity: [GRAVITY_X, GRAVITY_Y],
        aspect,
        max_age: MAX_AGE,
    }
}

/// A rectangle of position and size zero.
pub open spec fn empty_rect() -> RectInstance {
    RectInstance { pos: [ZERO, ZERO], dim: [ZERO, ZERO] }
}

/// The nanoseconds from `then` to `now`, and none where `now` is the earlier.
pub open spec fn since(then: u64, now: u64) -> u64 {
    if now >= then {
        (now - then) as u64
    } else {
        0
    }
}

impl SnowView {
    /// The nanoseconds from the engine's creation to `now`.
    pub open spec fn elapsed(self, now: u64) -> u64 {
        since(self.created, now)
    }

    /// The nanoseconds from the last reading of the frame clock to `now`.
    pub open spec fn delta(self, now: u64) -> u64 {
        since(self.last_draw, now)
    }

    /// The engine after its frame clock was read at `now`.
    pub open spec fn clock(self, now: u64) -> SnowView {
        SnowView { last_draw: now, ..self }
    }

    /// The engine after `set_running(v)`.
    pub open spec fn set_running(self, v: bool) -> SnowView {
        SnowView { running: v, ..self }
    }

    /// Whether a redraw is asked for.
    pub open spec fn redraw(self) -> bool {
        self.running
    }

    /// The engine after the host reported `event`.
    pub open spec fn event(self, event: WindowEvent) -> SnowView {
        match event {
            WindowEvent::Occluded(occluded) => self.set_running(!occluded),
            WindowEvent::Other => self,
        }
    }

    /// Whether `event` makes the engine ask for a redraw at once.
    pub open spec fn redraw_on(event: WindowEvent) -> bool {
        match event {
            WindowEvent::Occluded(occluded) => !occluded,
            WindowEvent::Other => false,
        }
    }

    /// The engine after the snapshot `ws` of the host's windows.
    pub open spec fn update_windows(self, ws: Seq<PlacedWindow>) -> SnowView {
        SnowView {
            rects: overwritten(self.rects, base_rects(ws)),
            windows: base_map(ws),
            ..self
        }
    }

    /// The engine after a tick at `time` seconds since its creation and `dt`
    /// seconds since the tick before, with the snapshot `ws`.
    pub open spec fn update(self, time: u32, dt: u32, ws: Seq<PlacedWindow>) -> SnowView {
        SnowView { frame: FrameData { dt, time, ..self.frame }, ..self.update_windows(ws) }
    }

    /// The engine after a frame: the GPU holds the uniform of the host.
    pub open spec fn render(self) -> SnowView {
        SnowView { uniform: record_bytes(&self.frame), ..self }
    }

    /// What a frame gives, by what acquiring the surface's image gave.
    pub open spec fn frame(self, acquired: Result<(), SurfaceError>) -> Result<
        FramePlan,
        SurfaceError,
    > {
        match acquired {
            Ok(_) => Ok(frame_plan(self.particle_count)),
            Err(e) => Err(e),
        }
    }
}

/// A snapshot writes the rectangles of the first windows in layer 0 to the
/// start of the window buffer and leaves every other slot as it was: all of
/// them where the buffer has room, else as many as it has room for.
pub proof fn law_window_rects(v: SnowView, ws: Seq<PlacedWindow>)
    requires
        v.rects.len() == MAX_WINDOWS,
    ensures
        v.update_windows(ws).rects.len() == MAX_WINDOWS,
        base_rects(ws).len() > MAX_WINDOWS ==> v.update_windows(ws).rects == base_rects(ws).take(
            MAX_WINDOWS as int,
        ),
        base_rects(ws).len() <= MAX_WINDOWS ==> {
            &&& forall|i: int|
                0 <= i < base_rects(ws).len() ==> v.update_windows(ws).rects[i] == base_rects(ws)[i]
            &&& forall|i: int|
                base_rects(ws).len() <= i < MAX_WINDOWS ==> v.update_windows(ws).rects[i]
                    == v.rects[i]
        },
{
    let found = base_rects(ws);
    if found.len() > MAX_WINDOWS {
        assert(v.update_windows(ws).rects =~= found.take(MAX_WINDOWS as int));
    }
}

/// A window that is reported fully hidden pauses the engine, which then asks
/// for no redraw; one that is reported visible makes it run and asks for a
/// redraw at once.
pub proof fn law_occlusion(v: SnowView, occluded: bool)
    ensures
        v.event(WindowEvent::Occluded(occluded)).running == !occluded,
        v.event(WindowEvent::Occluded(occluded)).redraw() == !occluded,
        SnowView::redraw_on(WindowEvent::Occluded(occluded)) == !occluded,
        v.event(WindowEvent::Occluded(occluded)) == v.set_running(!occluded),
        v.event(WindowEvent::Other) == v,
        !SnowView::redraw_on(WindowEvent::Other),
{
}

/// A frame brings the GPU's uniform up to the host's, a second frame with
/// the host's unchanged leaves the GPU's as it is, and neither a tick nor an
/// event touches the GPU's.
pub proof fn law_uniform(v: SnowView, time: u32, dt: u32, ws: Seq<PlacedWindow>, event: WindowEvent)
    ensures
        v.render().uniform == record_bytes(&v.frame),
        v.render().render() == v.render(),
        v.update(time, dt, ws).uniform == v.uniform,
        v.event(event).uniform == v.uniform,
        v.update(time, dt, ws).render().uniform == record_bytes(
            &(FrameData { dt, time, ..v.frame }),
        ),
{
}

/// Between two readings of the frame clock passes what has passed since the
/// engine's creation at the second, less what had passed at the first.
pub proof fn law_clock(v: SnowView, first: u64, second: u64)
    requires
        v.created <= first <= second,
    ensures
        v.clock(first).delta(second) == v.clock(first).elapsed(second) - v.elapsed(first),
        v.clock(first).elapsed(second) == v.elapsed(second),
        v.clock(first).delta(first) == 0,
{
}

/// The number of snowflakes, the overlay window, its size and the time of
/// creation never change.
pub proof fn law_fixed(
    v: SnowView,
    time: u32,
    dt: u32,
    ws: Seq<PlacedWindow>,
    event: WindowEvent,
    now: u64,
)
    ensures
        v.clock(now).particle_count == v.particle_count,
        v.clock(now).window == v.window,
        v.clock(now).created == v.created,
        v.update(time, dt, ws).created == v.created,
        v.render().created == v.created,
        v.event(event).created == v.created,
        v.update(time, dt, ws).particle_count == v.particle_count,
        v.render().particle_count == v.particle_count,
        v.event(event).particle_count == v.particle_count,
        v.update(time, dt, ws).window == v.window,
        v.render().window == v.window,
        v.event(event).window == v.window,
{
}

/// Where the number of snowflakes fits the GPU's 32-bit counts, a frame
/// draws the quad's six vertices once for each snowflake and dispatches as
/// many workgroups as cover them all.
pub proof fn law_frame_plan(count: usize)
    requires
        count <= u32::MAX,
    ensures
        frame_plan(count).instances == count,
        frame_plan(count).vertices == 6,
        frame_plan(count).workgroups == workgroups(count as int),
        frame_plan(count).workgroups * WORKGROUP_SIZE >= count,
{
}

/// The workgroups of a frame cover every snowflake, and one fewer would not.
pub proof fn law_workgroups(count: int)
    requires
        0 <= count,
    ensures
        workgroups(count) * WORKGROUP_SIZE >= count,
        count > 0 ==> (workgroups(count) - 1) * WORKGROUP_SIZE < count,
        count == 0 ==> workgroups(count) == 0,
{
}

/// The engine of one display.
pub struct SnowState {
    running: bool,
    particle_count: usize,
    vertex_count: usize,
    frame_data: UniformBuffer<FrameData>,
    window_buffer: Vec<RectInstance>,
    windows: HashMap<i64, AppWindow>,
    max_windows: usize,
    window: u64,
    size: (u32, u32),
    creation: u64,
    last_draw: u64,
}

/// The number of bytes of a window buffer.
pub fn window_buffer_size() -> (bytes: u64)
    ensures
        bytes == MAX_WINDOWS * 16,
{
    16 * (MAX_WINDOWS as u64)
}

impl SnowState {
    /// Whether the engine is as its functions leave it.
    pub closed spec fn wf(&self) -> bool {
        &&& self.max_windows == MAX_WINDOWS
        &&& self.window_buffer@.len() == MAX_WINDOWS
        &&& self.vertex_count == QUAD_VERTICES
    }

    pub closed spec fn view(&self) -> SnowView {
        SnowView {
            running: self.running,
            window: self.window,
            size: self.size,
            particle_count: self.particle_count,
            created: self.creation,
            last_draw: self.last_draw,
            frame: self.frame_data.host(),
            uniform: self.frame_data.device(),
            rects: self.window_buffer@,
            windows: self.windows@,
        }
    }

    /// The engine of the display whose overlay window is `window`, of `size`
    /// pixels and the given aspect ratio, with `particle_count` snowflakes,
    /// made at `now`. It runs; its uniform is the first frame's, on the host
    /// and on the GPU; its window buffer holds `MAX_WINDOWS` empty rectangles
    /// and it knows of no window.
    pub fn new(
        window: u64,
        size: (u32, u32),
        aspect: u32,
        particle_count: usize,
        now: u64,
    ) -> (state: Self)
        ensures
            state.wf(),
            state@ == (SnowView {
                running: true,
                window,
                size,
                particle_count,
                created: now,
                last_draw: now,
                frame: first_frame(aspect),
                uniform: record_bytes(&first_frame(aspect)),
                rects: Seq::new(MAX_WINDOWS as nat, |i: int| empty_rect()),
                windows: Map::empty(),
            }),
    {
        let frame_data = UniformBuffer::new(
            FrameData {
                dt: ZERO,
                time: ZERO,
                gravity: [GRAVITY_X, GRAVITY_Y],
                aspect,
                max_age: MAX_AGE,
            },
        );
        let mut window_buffer: Vec<RectInstance> = Vec::new();
        let mut i: usize = 0;
        while i < MAX_WINDOWS
            invariant
                i <= MAX_WINDOWS,
                window_buffer@ == Seq::new(i as nat, |i: int| empty_rect()),
            decreases MAX_WINDOWS - i,
        {
            window_buffer.push(RectInstance { pos: [ZERO, ZERO], dim: [ZERO, ZERO] });
            assert(window_buffer@ =~= Seq::new((i + 1) as nat, |i: int| empty_rect()));
            i += 1;
        }
        SnowState {
            running: true,
            particle_count,
            vertex_count: QUAD_VERTICES,
            frame_data,
            window_buffer,
            windows: HashMap::new(),
            max_windows: MAX_WINDOWS,
            window,
            size,
            creation: now,
            last_draw: now,
        }
    }

    /// Reads the frame clock at `now`: gives the nanoseconds since the
    /// engine's creation and since the reading before, and starts the frame
    /// clock anew.
    pub fn clock(&mut self, now: u64) -> (passed: (u64, u64))
        requires
            old(self).wf(),
        ensures
            final(self).wf(),
            final(self)@ == old(self)@.clock(now),
            passed.0 == old(self)@.elapsed(now),
            passed.1 == old(self)@.delta(now),
    {
        let elapsed = if now >= self.creation {
            now - self.creation
        } else {
            0
        };
        let dt = if now >= self.last_draw {
            now - self.last_draw
        } else {
            0
        };
        self.last_draw = now;
        (elapsed, dt)
    }

    /// The host's identity of the overlay window.
    pub fn window_id(&self) -> (id: u64)
        ensures
            id == self@.window,
    {
        self.window
    }

    /// Pauses or resumes the engine. Says whether a redraw is to be asked
    /// for at once: on every resume, on no pause.
    pub fn set_running(&mut self, v: bool) -> (redraw: bool)
        requires
            old(self).wf(),
        ensures
            final(self).wf(),
            final(self)@ == old(self)@.set_running(v),
            redraw == v,
    {
        self.running = v;
        self.redraw()
    }

    /// Takes what the host reports of the overlay window: the engine runs
    /// exactly while the window is not fully hidden. Says whether a redraw is
    /// to be asked for at once.
    pub fn event(&mut self, event: WindowEvent) -> (redraw: bool)
        requires
            old(self).wf(),
        ensures
            final(self).wf(),
            final(self)@ == old(self)@.event(event),
            redraw == SnowView::redraw_on(event),
    {
        match event {
            WindowEvent::Occluded(occluded) => self.set_running(!occluded),
            WindowEvent::Other => false,
        }
    }

    /// Whether a redraw is to be asked for: only while the engine runs.
    pub fn redraw(&self) -> (redraw: bool)
        ensures
            redraw == self@.redraw(),
    {
        self.running
    }

    /// Takes a snapshot of the host's windows. The rectangles of those in
    /// layer 0 go to the start of the window buffer, in the snapshot's order
    /// and as far as there is room; the windows in layer 0 replace the ones
    /// known before. Gives the bytes to write at the start of the GPU's
    /// window buffer.
    pub fn update_windows(&mut self, windows: &Vec<PlacedWindow>) -> (bytes: Vec<u8>)
        requires
            old(self).wf(),
        ensures
            final(self).wf(),
            final(self)@ == old(self)@.update_windows(windows@),
            bytes@ == records_bytes(
                base_rects(windows@).take(
                    taken(base_rects(windows@).len() as int, MAX_WINDOWS as int),
                ),
            ),
            bytes@.len() == 16 * taken(base_rects(windows@).len() as int, MAX_WINDOWS as int),
    {
        let ghost before = self.window_buffer@;
        let mut known: HashMap<i64, AppWindow> = HashMap::new();
        let mut chosen: Vec<RectInstance> = Vec::new();
        let mut i: usize = 0;
        while i < windows.len()
            invariant
                i <= windows@.len(),
                self.wf(),
                before.len() == MAX_WINDOWS,
                self.running == old(self).running,
                self.window == old(self).window,
                self.size == old(self).size,
                self.particle_count == old(self).particle_count,
                self.creation == old(self).creation,
                self.last_draw == old(self).last_draw,
                self.frame_data == old(self).frame_data,
                known@ == base_map(windows@.take(i as int)),
                chosen@ == base_rects(windows@.take(i as int)).take(
                    taken(base_rects(windows@.take(i as int)).len() as int, MAX_WINDOWS as int),
                ),
                self.window_buffer@ == overwritten(before, base_rects(windows@.take(i as int))),
            decreases windows@.len() - i,
        {
            let w = &windows[i];
            proof {
                let next = windows@.take(i + 1);
                assert(next.drop_last() =~= windows@.take(i as int));
                assert(next.last() == windows@[i as int]);
            }
            let ghost found = base_rects(windows@.take(i as int));
            if w.window.layer == 0 {
                let at = chosen.len();
                if at < self.max_windows {
                    self.window_buffer[at] = w.rect;
                    chosen.push(w.rect);
                    assert(chosen@ =~= found.push(w.rect).take(at + 1));
                    assert(self.window_buffer@ =~= overwritten(before, found.push(w.rect)));
                } else {
                    assert(chosen@ =~= found.push(w.rect).take(MAX_WINDOWS as int));
                    assert(self.window_buffer@ =~= overwritten(before, found.push(w.rect)));
                }
                known.insert(w.window.number, duplicate(&w.window));
            }
            i += 1;
        }
        assert(windows@.take(windows@.len() as int) =~= windows@);
        self.windows = known;
        encode_all(&chosen)
    }

    /// One tick, `time` seconds after the engine's creation and `dt` seconds
    /// after the tick before: the host's uniform takes both, the GPU's stays
    /// as it is until the next frame, and the snapshot is taken as by
    /// `update_windows`, whose bytes this gives.
    pub fn update(&mut self, time: u32, dt: u32, windows: &Vec<PlacedWindow>) -> (bytes: Vec<u8>)
        requires
            old(self).wf(),
        ensures
            final(self).wf(),
            final(self)@ == old(self)@.update(time, dt, windows@),
            bytes@ == records_bytes(
                base_rects(windows@).take(
                    taken(base_rects(windows@).len() as int, MAX_WINDOWS as int),
                ),
            ),
    {
        let mut frame = *self.frame_data.get();
        frame.time = time;
        frame.dt = dt;
        self.frame_data.set(frame);
        self.update_windows(windows)
    }

    /// One frame. The uniform is pushed to the GPU, whatever `acquired` is;
    /// where the surface's image could not be had the error is handed on,
    /// else the frame's dispatch and draw are given.
    pub fn render(&mut self, acquired: Result<(), SurfaceError>) -> (plan: Result<
        FramePlan,
        SurfaceError,
    >)
        requires
            old(self).wf(),
        ensures
            final(self).wf(),
            final(self)@ == old(self)@.render(),
            plan == old(self)@.frame(acquired),
    {
        self.frame_data.write();
        match acquired {
            Err(e) => Err(e),
            Ok(_) => {
                let whole: usize = self.particle_count / WORKGROUP_SIZE;
                let groups: usize = if self.particle_count % WORKGROUP_SIZE == 0 {
                    whole
                } else {
                    whole + 1
                };
                assert(groups == workgroups(self.particle_count as int));
                Ok(
                    FramePlan {
                        workgroups: #[verifier::truncate]
                        (groups as u32),
                        vertices: #[verifier::truncate]
                        (self.vertex_count as u32),
                        instances: #[verifier::truncate]
                        (self.particle_count as u32),
                        clear: [0, TINT_GREEN, TINT_BLUE, 0],
                    },
                )
            },
        }
    }

    /// Whether the engine runs.
    pub fn is_running(&self) -> (running: bool)
        ensures
            running == self@.running,
    {
        self.running
    }

    /// The number of snowflakes.
    pub fn particle_count(&self) -> (count: usize)
        ensures
            count == self@.particle_count,
    {
        self.particle_count
    }

    /// Width and height of the overlay window in pixels.
    pub fn size(&self) -> (size: (u32, u32))
        ensures
            size == self@.size,
    {
        self.size
    }

    /// The uniform as the host holds it.
    pub fn frame_data(&self) -> (frame: FrameData)
        ensures
            frame == self@.frame,
    {
        *self.frame_data.get()
    }

    /// The window buffer as the GPU is to hold it.
    pub fn window_rects(&self) -> (rects: &Vec<RectInstance>)
        ensures
            rects@ == self@.rects,
    {
        &self.window_buffer
    }

    /// The window of the last snapshot with the given number, if there is one.
    pub fn window(&self, number: i64) -> (found: Option<&AppWindow>)
        ensures
            found.is_some() <==> self@.windows.contains_key(number),
            found matches Some(w) ==> *w == self@.windows[number],
    {
        self.windows.get(&number)
    }

    /// The number of windows of the last snapshot.
    pub fn window_count(&self) -> (count: usize)
        ensures
            count == self@.windows.len(),
    {
        self.windows.len()
    }

    /// The binding of the uniform: a uniform buffer of exactly its 24 bytes.
    pub fn binding_ty(&self) -> (binding: BindingType)
        ensures
            binding.ty == BufferBindingType::Uniform,
            !binding.has_dynamic_offset,
            binding.min_binding_size == Some(24u64),
    {
        self.frame_data.binding_ty()
    }

    /// The uniform's bytes as the GPU is to hold them.
    pub fn uniform_bytes(&self) -> (bytes: &Vec<u8>)
        ensures
            bytes@ == self@.uniform,
    {
        self.frame_data.buffer()
    }
}

} // verus!
