use vstd::prelude::*;
use crate::desktop::{slide_at, workspace_index, Desktop};
use crate::workspace::slide_index;
use crate::seat::{same_bindings};
use crate::effect::Effect;
use crate::geometry::Position;
use crate::ipc::IpcState;
use crate::lookup::{find_output, find_window, lemma_first_where, output_has_id, output_index, window_has_id, window_index};
use crate::manage::{output_ids_unique, seat_ids_unique, window_ids_unique};
use crate::manager::WindowManager;
use crate::seat::{LayerFocus, Seat};
use crate::slide::{Slide, SlideModel};
use crate::task::Task;
use crate::window::{
    is_fresh_window, BindingId, DeviceId, Edges, LibinputDevice, Output, OutputId, SeatId, Window,
    WindowId,
};
use crate::workspace::{slide_views, Workspace, WorkspaceModel};

verus! {

/// Whether seat `i` of `ss` has id `id`.
pub open spec fn seat_has_id(ss: Seq<Seat>, id: SeatId) -> spec_fn(int) -> bool {
    |i: int| ss[i].id == id
}

/// The index of the first seat with id `id`.
pub open spec fn seat_index(ss: Seq<Seat>, id: SeatId) -> Option<usize> {
    crate::lookup::first_where(ss.len(), seat_has_id(ss, id))
}

/// The index of the first seat with id `id`.
pub fn find_seat(seats: &Vec<Seat>, id: SeatId) -> (r: Option<usize>)
    ensures
        r == seat_index(seats@, id),
        r matches Some(i) ==> i < seats@.len(),
{
    let n = seats.len();
    let mut i: usize = 0;
    while i < n && seats[i].id != id
        invariant
            0 <= i <= n,
            n == seats@.len(),
            forall|j: int| 0 <= j < i ==> seats@[j].id != id,
        decreases n - i,
    {
        i += 1;
    }
    proof {
        let p = seat_has_id(seats@, id);
        crate::lookup::lemma_first_where(seats@.len(), p);
        assert(forall|j: int| #[trigger] p(j) == (seats@[j].id == id));
        match seat_index(seats@, id) {
            Some(j) => {
                assert(p(j as int));
                if (j as int) < (i as int) {
                    assert(seats@[j as int].id == id);
                }
                if (i as int) < (j as int) {
                    assert(!p(i as int));
                }
            },
            None => {
                if i < n {
                    assert(!p(i as int));
                }
            },
        }
    }
    if i < n {
        Some(i)
    } else {
        None
    }
}

/// Every workspace and slide sized to an output's new dimensions.
pub open spec fn resized_workspace(w: WorkspaceModel, d: (i32, i32)) -> WorkspaceModel {
    WorkspaceModel {
        dimensions: d,
        slides: w.slides.map_values(|s: SlideModel| SlideModel { dimensions: d, ..s }),
        ..w
    }
}

impl WindowManager {
    /// A window manager with the default desktop and nothing announced yet.
    pub fn new() -> (wm: WindowManager)
        ensures
            wm.desktop.workspaces@.len() == 1,
            wm.desktop.workspaces@[0]@ == crate::desktop::default_workspace_model(),
            wm.desktop.active_workspace@ == "default"@,
            wm.windows@.len() == 0,
            wm.outputs@.len() == 0,
            wm.seats@.len() == 0,
            wm.libinput_devices@.len() == 0,
            wm.queue@.len() == 0,
            wm.camera_pos == (Position { x: 0, y: 0 }),
            wm.render_camera_pos is None,
            wm.target_camera_pos == (Position { x: 0, y: 0 }),
            wm.camera_offset == (Position { x: 0, y: 0 }),
            wm.ipc@ == Set::<(Seq<char>, u64)>::empty(),
    {
        WindowManager {
            desktop: Desktop::new(),
            windows: Vec::new(),
            outputs: Vec::new(),
            seats: Vec::new(),
            libinput_devices: Vec::new(),
            queue: Vec::new(),
            camera_pos: Position { x: 0, y: 0 },
            render_camera_pos: None,
            target_camera_pos: Position { x: 0, y: 0 },
            camera_offset: Position { x: 0, y: 0 },
            ipc: IpcState::new(),
        }
    }

    /// River announced a window: it is recorded (replacing one with the same id).
    pub fn add_window(&mut self, id: WindowId, name: String)
        ensures
            *final(self) == (WindowManager { windows: final(self).windows, ..*old(self) }),
            match window_index(old(self).windows@, id) {
                Some(i) => {
                    &&& final(self).windows@.len() == old(self).windows@.len()
                    &&& forall|j: int|
                        0 <= j < old(self).windows@.len() && j != i ==> final(self).windows@[j]
                            == old(self).windows@[j]
                    &&& is_fresh_window(final(self).windows@[i as int], id, name)
                },
                None => {
                    &&& final(self).windows@.len() == old(self).windows@.len() + 1
                    &&& forall|j: int|
                        0 <= j < old(self).windows@.len() ==> final(self).windows@[j]
                            == old(self).windows@[j]
                    &&& is_fresh_window(final(self).windows@.last(), id, name)
                },
            },
            window_ids_unique(old(self).windows@) ==> window_ids_unique(final(self).windows@),
    {
        let w = Window::new(id, name);
        let ghost ws = self.windows@;
        match find_window(&self.windows, id) {
            Some(i) => {
                self.windows.set(i, w);
                proof {
                    let r = self.windows@;
                    assert forall|a: int, b: int| 0 <= a < b < r.len() && window_ids_unique(ws) implies (#[trigger] r[a]).id != (#[trigger] r[b]).id by {
                        assert(r[a].id == ws[a].id && r[b].id == ws[b].id);
                    }
                }
            },
            None => {
                self.windows.push(w);
                proof {
                    assert(self.windows@.len() == self.windows.len());
                    lemma_first_where(ws.len(), window_has_id(ws, id));
                    let r = self.windows@;
                    assert forall|a: int, b: int| 0 <= a < b < r.len() && window_ids_unique(ws) implies (#[trigger] r[a]).id != (#[trigger] r[b]).id by {
                        if b == ws.len() {
                            assert(r[a] == ws[a]);
                            assert(!window_has_id(ws, id)(a));
                        } else {
                            assert(r[a] == ws[a] && r[b] == ws[b]);
                        }
                    }
                }
            },
        }
    }

    /// River announced an output (with its layer-shell object, if any).
    pub fn add_output(&mut self, id: OutputId, layer: Option<u32>)
        ensures
            *final(self) == (WindowManager { outputs: final(self).outputs, ..*old(self) }),
            ({
                let o = Output {
                    id,
                    removed: false,
                    layer,
                    background: false,
                    position: None,
                    dimensions: None,
                    usable: None,
                };
                match output_index(old(self).outputs@, id) {
                    Some(i) => final(self).outputs@ == old(self).outputs@.update(i as int, o),
                    None => final(self).outputs@ == old(self).outputs@.push(o),
                }
            }),
            output_ids_unique(old(self).outputs@) ==> output_ids_unique(final(self).outputs@),
    {
        let mut o = Output::new(id);
        o.layer = layer;
        let ghost xs = self.outputs@;
        match find_output(&self.outputs, id) {
            Some(i) => {
                self.outputs.set(i, o);
                proof {
                    let r = self.outputs@;
                    assert forall|a: int, b: int| 0 <= a < b < r.len() && output_ids_unique(xs) implies (#[trigger] r[a]).id != (#[trigger] r[b]).id by {
                        assert(r[a].id == xs[a].id && r[b].id == xs[b].id);
                    }
                }
            },
            None => {
                self.outputs.push(o);
                proof {
                    assert(self.outputs@.len() == self.outputs.len());
                    lemma_first_where(xs.len(), output_has_id(xs, id));
                    let r = self.outputs@;
                    assert forall|a: int, b: int| 0 <= a < b < r.len() && output_ids_unique(xs) implies (#[trigger] r[a]).id != (#[trigger] r[b]).id by {
                        if b == xs.len() {
                            assert(r[a] == xs[a]);
                            assert(!output_has_id(xs, id)(a));
                        } else {
                            assert(r[a] == xs[a] && r[b] == xs[b]);
                        }
                    }
                }
            },
        }
    }

    /// River announced a seat (with its layer-shell object, if any).
    pub fn add_seat(&mut self, id: SeatId, layer: Option<u32>)
        ensures
            *final(self) == (WindowManager { seats: final(self).seats, ..*old(self) }),
            match seat_index(old(self).seats@, id) {
                Some(i) => final(self).seats@.len() == old(self).seats@.len() && forall|j: int|
                    0 <= j < old(self).seats@.len() && j != i ==> final(self).seats@[j]
                        == old(self).seats@[j],
                None => final(self).seats@.len() == old(self).seats@.len() + 1 && forall|j: int|
                    0 <= j < old(self).seats@.len() ==> final(self).seats@[j] == old(self).seats@[j],
            },
            ({
                let i = match seat_index(old(self).seats@, id) {
                    Some(i) => i as int,
                    None => old(self).seats@.len() as int,
                };
                let s = final(self).seats@[i];
                &&& s.id == id && s.new && !s.removed && s.layer == layer
                &&& s.focused is None && s.hovered is None && s.interacted is None
                &&& s.xkb_bindings@.len() == 0 && s.pointer_bindings@.len() == 0
                &&& s.layer_focus == LayerFocus::Unfocused
            }),
            seat_ids_unique(old(self).seats@) ==> seat_ids_unique(final(self).seats@),
    {
        let mut s = Seat::new(id);
        s.layer = layer;
        let ghost xs = self.seats@;
        match find_seat(&self.seats, id) {
            Some(i) => {
                self.seats.set(i, s);
                proof {
                    assert(xs.len() == self.seats.len());
                    lemma_first_where(xs.len(), seat_has_id(xs, id));
                    let r = self.seats@;
                    assert forall|a: int, b: int| 0 <= a < b < r.len() && seat_ids_unique(xs) implies (#[trigger] r[a]).id != (#[trigger] r[b]).id by {
                        assert(r[a].id == xs[a].id && r[b].id == xs[b].id);
                    }
                }
            },
            None => {
                self.seats.push(s);
                proof {
                    assert(self.seats@.len() == self.seats.len());
                    lemma_first_where(xs.len(), seat_has_id(xs, id));
                    let r = self.seats@;
                    assert forall|a: int, b: int| 0 <= a < b < r.len() && seat_ids_unique(xs) implies (#[trigger] r[a]).id != (#[trigger] r[b]).id by {
                        if b == xs.len() {
                            assert(r[a] == xs[a]);
                            assert(!seat_has_id(xs, id)(a));
                        } else {
                            assert(r[a] == xs[a] && r[b] == xs[b]);
                        }
                    }
                }
            },
        }
    }
}


/// Whether device `i` of `ds` has id `id`.
pub open spec fn device_has_id(ds: Seq<LibinputDevice>, id: DeviceId) -> spec_fn(int) -> bool {
    |i: int| ds[i].id == id
}

/// The index of the first libinput device with id `id`.
pub open spec fn device_index(ds: Seq<LibinputDevice>, id: DeviceId) -> Option<usize> {
    crate::lookup::first_where(ds.len(), device_has_id(ds, id))
}

/// The index of the first libinput device with id `id`.
pub fn find_device(ds: &Vec<LibinputDevice>, id: DeviceId) -> (r: Option<usize>)
    ensures
        r == device_index(ds@, id),
        r matches Some(i) ==> i < ds@.len() && ds@[i as int].id == id,
{
    let n = ds.len();
    let mut i: usize = 0;
    while i < n && ds[i].id != id
        invariant
            0 <= i <= n,
            n == ds@.len(),
            forall|j: int| 0 <= j < i ==> ds@[j].id != id,
        decreases n - i,
    {
        i += 1;
    }
    proof {
        let p = device_has_id(ds@, id);
        crate::lookup::lemma_first_where(ds@.len(), p);
        assert(forall|j: int| #[trigger] p(j) == (ds@[j].id == id));
        match device_index(ds@, id) {
            Some(j) => {
                assert(p(j as int));
                if (j as int) < (i as int) {
                    assert(ds@[j as int].id == id);
                }
                if (i as int) < (j as int) {
                    assert(!p(i as int));
                }
            },
            None => {
                if i < n {
                    assert(!p(i as int));
                }
            },
        }
    }
    if i < n {
        Some(i)
    } else {
        None
    }
}

impl WindowManager {
    /// The window was closed by its client; it is dropped at the next manage cycle.
    pub fn window_closed(&mut self, id: WindowId)
        ensures
            *final(self) == (WindowManager { windows: final(self).windows, ..*old(self) }),
            match window_index(old(self).windows@, id) {
                Some(i) => final(self).windows@ == old(self).windows@.update(
                    i as int,
                    Window { closed: true, ..old(self).windows@[i as int] },
                ),
                None => final(self).windows@ == old(self).windows@,
            },
    {
        if let Some(i) = find_window(&self.windows, id) {
            self.windows[i].closed = true;
            assert(self.windows@ =~= old(self).windows@.update(
                i as int,
                Window { closed: true, ..old(self).windows@[i as int] },
            ));
        }
    }

    /// The window's client set a title.
    pub fn window_title(&mut self, id: WindowId, title: Option<String>)
        ensures
            *final(self) == (WindowManager { windows: final(self).windows, ..*old(self) }),
            match (window_index(old(self).windows@, id), title) {
                (Some(i), Some(t)) => final(self).windows@ == old(self).windows@.update(
                    i as int,
                    Window { title: t, ..old(self).windows@[i as int] },
                ),
                _ => final(self).windows@ == old(self).windows@,
            },
    {
        if let Some(i) = find_window(&self.windows, id) {
            if let Some(t) = title {
                self.windows[i].title = t;
                assert(self.windows@ =~= old(self).windows@.update(
                    i as int,
                    Window { title: t, ..old(self).windows@[i as int] },
                ));
            }
        }
    }

    /// River reported the window's size: it is recorded and the window's slide is
    /// marked for layout. `false` when the window has no location, or its workspace
    /// or slide is gone.
    pub fn window_dimensions(&mut self, id: WindowId, width: i32, height: i32) -> (ok: bool)
        ensures
            final(self).outputs == old(self).outputs && final(self).seats == old(self).seats
                && final(self).queue == old(self).queue,
            match window_index(old(self).windows@, id) {
                Some(i) => {
                    let w = old(self).windows@[i as int];
                    &&& final(self).windows@ == old(self).windows@.update(
                        i as int,
                        Window { width, height, ..w },
                    )
                    &&& ok == (w.location is Some && slide_at(&old(self).desktop, w.location->0)
                        is Some)
                    &&& ok ==> {
                        let (wi, si) = slide_at(&old(self).desktop, w.location->0)->0;
                        let ws = old(self).desktop.workspaces@[wi as int]@;
                        crate::desktop::desktop_at(
                            &old(self).desktop,
                            &final(self).desktop,
                            wi,
                            crate::desktop::with_slide_at(
                                ws,
                                si as int,
                                SlideModel { rearrange_required: true, ..ws.slides[si as int] },
                            ),
                        )
                    }
                    &&& !ok ==> final(self).desktop == old(self).desktop
                },
                None => ok && *final(self) == *old(self),
            },
    {
        let i = match find_window(&self.windows, id) {
            Some(i) => i,
            None => {
                return true;
            },
        };
        self.windows[i].width = width;
        self.windows[i].height = height;
        assert(self.windows@ =~= old(self).windows@.update(
            i as int,
            Window { width, height, ..old(self).windows@[i as int] },
        ));
        let loc = match &self.windows[i].location {
            Some(loc) => loc,
            None => {
                return false;
            },
        };
        let wi = match self.desktop.workspace_pos(&loc.workspace_id) {
            Some(wi) => wi,
            None => {
                return false;
            },
        };
        let si = match self.desktop.workspaces[wi].find_slide(loc.slide_id) {
            Some(si) => si,
            None => {
                return false;
            },
        };
        let ghost ws = self.desktop.workspaces@[wi as int]@;
        assert(ws.slides[si as int] == self.desktop.workspaces@[wi as int].slides@[si as int]@);
        self.desktop.workspaces[wi].slides[si].rearrange_required = true;
        assert(self.desktop.workspaces@[wi as int]@.slides =~= ws.slides.update(
            si as int,
            SlideModel { rearrange_required: true, ..ws.slides[si as int] },
        ));
        true
    }

    /// The window's client asked to be moved with the pointer of seat `seat`.
    pub fn pointer_move_requested(&mut self, id: WindowId, seat: SeatId)
        ensures
            *final(self) == (WindowManager { windows: final(self).windows, ..*old(self) }),
            match window_index(old(self).windows@, id) {
                Some(i) => final(self).windows@ == old(self).windows@.update(
                    i as int,
                    Window { pointer_move_requested: Some(seat), ..old(self).windows@[i as int] },
                ),
                None => final(self).windows@ == old(self).windows@,
            },
    {
        if let Some(i) = find_window(&self.windows, id) {
            self.windows[i].pointer_move_requested = Some(seat);
            assert(self.windows@ =~= old(self).windows@.update(
                i as int,
                Window { pointer_move_requested: Some(seat), ..old(self).windows@[i as int] },
            ));
        }
    }

    /// The window's client asked to be resized from `edges` with the pointer of seat
    /// `seat`.
    pub fn pointer_resize_requested(&mut self, id: WindowId, seat: SeatId, edges: Edges)
        ensures
            *final(self) == (WindowManager { windows: final(self).windows, ..*old(self) }),
            match window_index(old(self).windows@, id) {
                Some(i) => final(self).windows@ == old(self).windows@.update(
                    i as int,
                    Window {
                        pointer_resize_requested: Some(seat),
                        pointer_resize_requested_edges: edges,
                        ..old(self).windows@[i as int]
                    },
                ),
                None => final(self).windows@ == old(self).windows@,
            },
    {
        if let Some(i) = find_window(&self.windows, id) {
            self.windows[i].pointer_resize_requested = Some(seat);
            self.windows[i].pointer_resize_requested_edges = edges;
            assert(self.windows@ =~= old(self).windows@.update(
                i as int,
                Window {
                    pointer_resize_requested: Some(seat),
                    pointer_resize_requested_edges: edges,
                    ..old(self).windows@[i as int]
                },
            ));
        }
    }

    /// The window's client asked to be maximized or unmaximized: a toggle is queued.
    pub fn maximize_requested(&mut self, id: WindowId)
        ensures
            *final(self) == (WindowManager { queue: final(self).queue, ..*old(self) }),
            final(self).queue@ == if window_index(old(self).windows@, id) is Some {
                old(self).queue@.push(Task::MaximizeWindow { window_id: id })
            } else {
                old(self).queue@
            },
    {
        if find_window(&self.windows, id).is_some() {
            self.queue.push(Task::MaximizeWindow { window_id: id });
        }
    }
}


/// The output `o` after a change to it; `None` when no output has id `id`.
pub open spec fn output_changed(
    os0: Seq<Output>,
    os1: Seq<Output>,
    id: OutputId,
    f: spec_fn(Output) -> Output,
) -> bool {
    match output_index(os0, id) {
        Some(i) => os1 == os0.update(i as int, f(os0[i as int])),
        None => os1 == os0,
    }
}

/// The seats after a change to seat `id`.
pub open spec fn seat_changed(
    ss0: Seq<Seat>,
    ss1: Seq<Seat>,
    id: SeatId,
    f: spec_fn(Seat) -> Seat,
) -> bool {
    match seat_index(ss0, id) {
        Some(i) => ss1 == ss0.update(i as int, f(ss0[i as int])),
        None => ss1 == ss0,
    }
}

impl WindowManager {
    /// The output is going away; it is dropped at the next manage cycle. `false`
    /// when no output has id `id`.
    pub fn output_removed(&mut self, id: OutputId) -> (ok: bool)
        ensures
            ok == output_index(old(self).outputs@, id) is Some,
            *final(self) == (WindowManager { outputs: final(self).outputs, ..*old(self) }),
            output_changed(
                old(self).outputs@,
                final(self).outputs@,
                id,
                |o: Output| Output { removed: true, ..o },
            ),
    {
        match find_output(&self.outputs, id) {
            Some(i) => {
                self.outputs[i].removed = true;
                assert(self.outputs@ =~= old(self).outputs@.update(
                    i as int,
                    Output { removed: true, ..old(self).outputs@[i as int] },
                ));
                true
            },
            None => false,
        }
    }

    /// River reported the output's position. `false` when no output has id `id`.
    pub fn output_position(&mut self, id: OutputId, x: i32, y: i32) -> (ok: bool)
        ensures
            ok == output_index(old(self).outputs@, id) is Some,
            *final(self) == (WindowManager { outputs: final(self).outputs, ..*old(self) }),
            output_changed(
                old(self).outputs@,
                final(self).outputs@,
                id,
                |o: Output| Output { position: Some((x, y)), ..o },
            ),
    {
        match find_output(&self.outputs, id) {
            Some(i) => {
                self.outputs[i].position = Some((x, y));
                assert(self.outputs@ =~= old(self).outputs@.update(
                    i as int,
                    Output { position: Some((x, y)), ..old(self).outputs@[i as int] },
                ));
                true
            },
            None => false,
        }
    }

    /// River reported the output's size: it is recorded, and every workspace and
    /// slide takes it. `false` (and nothing changes) when no output has id `id`.
    pub fn output_dimensions(&mut self, id: OutputId, width: i32, height: i32) -> (ok: bool)
        ensures
            ok == output_index(old(self).outputs@, id) is Some,
            !ok ==> *final(self) == *old(self),
            ok ==> {
                &&& *final(self) == (WindowManager {
                    outputs: final(self).outputs,
                    desktop: final(self).desktop,
                    ..*old(self)
                })
                &&& output_changed(
                    old(self).outputs@,
                    final(self).outputs@,
                    id,
                    |o: Output| Output { dimensions: Some((width, height)), ..o },
                )
                &&& final(self).desktop.active_workspace == old(self).desktop.active_workspace
                &&& final(self).desktop.workspaces@.len() == old(self).desktop.workspaces@.len()
                &&& forall|j: int|
                    0 <= j < old(self).desktop.workspaces@.len() ==> #[trigger] final(self).desktop.workspaces@[j]@
                        == resized_workspace(
                        old(self).desktop.workspaces@[j]@,
                        (width, height),
                    )
            },
    {
        let i = match find_output(&self.outputs, id) {
            Some(i) => i,
            None => {
                return false;
            },
        };
        self.outputs[i].dimensions = Some((width, height));
        assert(self.outputs@ =~= old(self).outputs@.update(
            i as int,
            Output { dimensions: Some((width, height)), ..old(self).outputs@[i as int] },
        ));
        let n = self.desktop.workspaces.len();
        let mut j: usize = 0;
        let ghost mid = *self;
        while j < n
            invariant
                0 <= j <= n,
                *self == (WindowManager { desktop: self.desktop, ..mid }),
                n == self.desktop.workspaces@.len(),
                n == old(self).desktop.workspaces@.len(),
                self.desktop.active_workspace == old(self).desktop.active_workspace,
                forall|k: int|
                    0 <= k < j ==> #[trigger] self.desktop.workspaces@[k]@ == resized_workspace(
                        old(self).desktop.workspaces@[k]@,
                        (width, height),
                    ),
                forall|k: int| j <= k < n ==> self.desktop.workspaces@[k] == old(self).desktop.workspaces@[k],
            decreases n - j,
        {
            let ghost w0 = self.desktop.workspaces@[j as int]@;
            self.desktop.workspaces[j].dimensions = (width, height);
            let m = self.desktop.workspaces[j].slides.len();
            let mut k: usize = 0;
            while k < m
                invariant
                    0 <= k <= m,
                    j < n,
                    *self == (WindowManager { desktop: self.desktop, ..mid }),
                    n == self.desktop.workspaces@.len(),
                    m == self.desktop.workspaces@[j as int].slides@.len(),
                    m == w0.slides.len(),
                    self.desktop.active_workspace == old(self).desktop.active_workspace,
                    self.desktop.workspaces@[j as int]@ == (WorkspaceModel {
                        dimensions: (width, height),
                        slides: self.desktop.workspaces@[j as int]@.slides,
                        ..w0
                    }),
                    forall|t: int|
                        0 <= t < k ==> #[trigger] self.desktop.workspaces@[j as int].slides@[t]@
                            == (SlideModel { dimensions: (width, height), ..w0.slides[t] }),
                    forall|t: int|
                        k <= t < m ==> self.desktop.workspaces@[j as int].slides@[t]@
                            == w0.slides[t],
                    forall|t: int|
                        0 <= t < j ==> #[trigger] self.desktop.workspaces@[t]@ == resized_workspace(
                            old(self).desktop.workspaces@[t]@,
                            (width, height),
                        ),
                    forall|t: int| j < t < n ==> self.desktop.workspaces@[t] == old(self).desktop.workspaces@[t],
                    w0 == old(self).desktop.workspaces@[j as int]@,
                decreases m - k,
            {
                self.desktop.workspaces[j].slides[k].dimensions = (width, height);
                k += 1;
            }
            assert(self.desktop.workspaces@[j as int]@.slides =~= resized_workspace(
                w0,
                (width, height),
            ).slides);
            j += 1;
        }
        true
    }

    /// The seat is going away; it is dropped at the next manage cycle. `false` when
    /// no seat has id `id`.
    pub fn seat_removed(&mut self, id: SeatId) -> (ok: bool)
        ensures
            ok == seat_index(old(self).seats@, id) is Some,
            *final(self) == (WindowManager { seats: final(self).seats, ..*old(self) }),
            seat_changed(old(self).seats@, final(self).seats@, id, |s: Seat| Seat { removed: true, ..s }),
    {
        match find_seat(&self.seats, id) {
            Some(i) => {
                self.seats[i].removed = true;
                assert(self.seats@ =~= old(self).seats@.update(
                    i as int,
                    Seat { removed: true, ..old(self).seats@[i as int] },
                ));
                true
            },
            None => false,
        }
    }

    /// The seat's pointer entered window `window` (`None`: it left every window).
    /// `false` when no seat has id `id`.
    pub fn pointer_hover(&mut self, id: SeatId, window: Option<WindowId>) -> (ok: bool)
        ensures
            ok == seat_index(old(self).seats@, id) is Some,
            *final(self) == (WindowManager { seats: final(self).seats, ..*old(self) }),
            seat_changed(old(self).seats@, final(self).seats@, id, |s: Seat| Seat { hovered: window, ..s }),
    {
        match find_seat(&self.seats, id) {
            Some(i) => {
                self.seats[i].hovered = window;
                assert(self.seats@ =~= old(self).seats@.update(
                    i as int,
                    Seat { hovered: window, ..old(self).seats@[i as int] },
                ));
                true
            },
            None => false,
        }
    }

    /// The user interacted with window `window` through the seat. `false` when no
    /// seat has id `id`.
    pub fn window_interaction(&mut self, id: SeatId, window: WindowId) -> (ok: bool)
        ensures
            ok == seat_index(old(self).seats@, id) is Some,
            *final(self) == (WindowManager { seats: final(self).seats, ..*old(self) }),
            seat_changed(
                old(self).seats@,
                final(self).seats@,
                id,
                |s: Seat| Seat { interacted: Some(window), ..s },
            ),
    {
        match find_seat(&self.seats, id) {
            Some(i) => {
                self.seats[i].interacted = Some(window);
                assert(self.seats@ =~= old(self).seats@.update(
                    i as int,
                    Seat { interacted: Some(window), ..old(self).seats@[i as int] },
                ));
                true
            },
            None => false,
        }
    }

    /// The pointer moved by (`dx`, `dy`) since the seat's operation started. `false`
    /// when no seat has id `id`.
    pub fn op_delta(&mut self, id: SeatId, dx: i32, dy: i32) -> (ok: bool)
        ensures
            ok == seat_index(old(self).seats@, id) is Some,
            *final(self) == (WindowManager { seats: final(self).seats, ..*old(self) }),
            seat_changed(
                old(self).seats@,
                final(self).seats@,
                id,
                |s: Seat| Seat { op_diff: Position { x: dx, y: dy }, ..s },
            ),
    {
        match find_seat(&self.seats, id) {
            Some(i) => {
                self.seats[i].op_diff = Position { x: dx, y: dy };
                assert(self.seats@ =~= old(self).seats@.update(
                    i as int,
                    Seat { op_diff: Position { x: dx, y: dy }, ..old(self).seats@[i as int] },
                ));
                true
            },
            None => false,
        }
    }

    /// The pointer button that drives the seat's operation was released. `false`
    /// when no seat has id `id`.
    pub fn op_release(&mut self, id: SeatId) -> (ok: bool)
        ensures
            ok == seat_index(old(self).seats@, id) is Some,
            *final(self) == (WindowManager { seats: final(self).seats, ..*old(self) }),
            seat_changed(
                old(self).seats@,
                final(self).seats@,
                id,
                |s: Seat| Seat { op_release: true, ..s },
            ),
    {
        match find_seat(&self.seats, id) {
            Some(i) => {
                self.seats[i].op_release = true;
                assert(self.seats@ =~= old(self).seats@.update(
                    i as int,
                    Seat { op_release: true, ..old(self).seats@[i as int] },
                ));
                true
            },
            None => false,
        }
    }

    /// A layer surface took or gave up the seat's keyboard focus. `false` when no
    /// seat has id `id`.
    pub fn layer_focus(&mut self, id: SeatId, focus: LayerFocus) -> (ok: bool)
        ensures
            ok == seat_index(old(self).seats@, id) is Some,
            *final(self) == (WindowManager { seats: final(self).seats, ..*old(self) }),
            seat_changed(
                old(self).seats@,
                final(self).seats@,
                id,
                |s: Seat| Seat { layer_focus: focus, ..s },
            ),
    {
        match find_seat(&self.seats, id) {
            Some(i) => {
                self.seats[i].layer_focus = focus;
                assert(self.seats@ =~= old(self).seats@.update(
                    i as int,
                    Seat { layer_focus: focus, ..old(self).seats@[i as int] },
                ));
                true
            },
            None => false,
        }
    }

    /// A key binding of the seat was pressed: its action becomes pending. `false`
    /// when the seat or the binding is unknown.
    pub fn xkb_binding_pressed(&mut self, id: SeatId, binding: BindingId) -> (ok: bool)
        ensures
            *final(self) == (WindowManager { seats: final(self).seats, ..*old(self) }),
            match seat_index(old(self).seats@, id) {
                Some(i) => {
                    let s0 = old(self).seats@[i as int];
                    let s1 = final(self).seats@[i as int];
                    &&& final(self).seats@.len() == old(self).seats@.len()
                    &&& forall|j: int|
                        0 <= j < old(self).seats@.len() && j != i ==> final(self).seats@[j]
                            == old(self).seats@[j]
                    &&& ok == exists|k: int|
                        0 <= k < s0.xkb_bindings@.len() && (#[trigger] s0.xkb_bindings@[k]).id
                            == binding
                    &&& ok ==> exists|k: int|
                        0 <= k < s0.xkb_bindings@.len() && (#[trigger] s0.xkb_bindings@[k]).id
                            == binding && s1.pending_action@ == s0.xkb_bindings@[k].action@
                    &&& !ok ==> s1.pending_action == s0.pending_action
                    &&& s1.op == s0.op && s1.focused == s0.focused && same_bindings(&s1, &s0)
                },
                None => !ok && final(self).seats == old(self).seats,
            },
    {
        match find_seat(&self.seats, id) {
            Some(i) => self.seats[i].xkb_pressed(binding),
            None => false,
        }
    }

    /// A pointer binding of the seat was pressed: its action becomes pending. `false`
    /// when the seat or the binding is unknown.
    pub fn pointer_binding_pressed(&mut self, id: SeatId, binding: BindingId) -> (ok: bool)
        ensures
            *final(self) == (WindowManager { seats: final(self).seats, ..*old(self) }),
            match seat_index(old(self).seats@, id) {
                Some(i) => {
                    let s0 = old(self).seats@[i as int];
                    let s1 = final(self).seats@[i as int];
                    &&& final(self).seats@.len() == old(self).seats@.len()
                    &&& forall|j: int|
                        0 <= j < old(self).seats@.len() && j != i ==> final(self).seats@[j]
                            == old(self).seats@[j]
                    &&& ok == exists|k: int|
                        0 <= k < s0.pointer_bindings@.len() && (
                        #[trigger] s0.pointer_bindings@[k]).id == binding
                    &&& ok ==> exists|k: int|
                        0 <= k < s0.pointer_bindings@.len() && (
                        #[trigger] s0.pointer_bindings@[k]).id == binding
                            && s1.pending_action@ == s0.pointer_bindings@[k].action@
                    &&& !ok ==> s1.pending_action == s0.pending_action
                    &&& s1.op == s0.op && s1.focused == s0.focused && same_bindings(&s1, &s0)
                },
                None => !ok && final(self).seats == old(self).seats,
            },
    {
        match find_seat(&self.seats, id) {
            Some(i) => self.seats[i].pointer_pressed(binding),
            None => false,
        }
    }

    /// River announced a libinput device (replacing one with the same id).
    pub fn add_libinput_device(&mut self, id: DeviceId)
        ensures
            *final(self) == (WindowManager {
                libinput_devices: final(self).libinput_devices,
                ..*old(self)
            }),
            match device_index(old(self).libinput_devices@, id) {
                Some(i) => final(self).libinput_devices@ == old(self).libinput_devices@.update(
                    i as int,
                    LibinputDevice { id, tap_support: None },
                ),
                None => final(self).libinput_devices@ == old(self).libinput_devices@.push(
                    LibinputDevice { id, tap_support: None },
                ),
            },
    {
        let d = LibinputDevice::new(id);
        match find_device(&self.libinput_devices, id) {
            Some(i) => {
                self.libinput_devices.set(i, d);
            },
            None => {
                self.libinput_devices.push(d);
            },
        }
    }

    /// The device reported how many fingers it can tap with; a device that can tap
    /// gets tapping, tap-and-drag and natural scrolling turned on. An unknown device
    /// is recorded first.
    pub fn tap_support(&mut self, id: DeviceId, finger_count: i32, effects: &mut Vec<Effect>)
        ensures
            *final(self) == (WindowManager {
                libinput_devices: final(self).libinput_devices,
                ..*old(self)
            }),
            match device_index(old(self).libinput_devices@, id) {
                Some(i) => final(self).libinput_devices@ == old(self).libinput_devices@.update(
                    i as int,
                    LibinputDevice { id, tap_support: Some(finger_count) },
                ),
                None => final(self).libinput_devices@ == old(self).libinput_devices@.push(
                    LibinputDevice { id, tap_support: Some(finger_count) },
                ),
            },
            final(effects)@ == if finger_count > 0 {
                old(effects)@.push(Effect::EnableTapping { device: id })
            } else {
                old(effects)@
            },
    {
        match find_device(&self.libinput_devices, id) {
            Some(i) => {
                self.libinput_devices[i].tap_support = Some(finger_count);
                assert(self.libinput_devices@ =~= old(self).libinput_devices@.update(
                    i as int,
                    LibinputDevice { id, tap_support: Some(finger_count) },
                ));
            },
            None => {
                self.libinput_devices.push(LibinputDevice { id, tap_support: Some(finger_count) });
            },
        }
        if finger_count > 0 {
            effects.push(Effect::EnableTapping { device: id });
        }
    }

    /// The device went away.
    pub fn libinput_removed(&mut self, id: DeviceId)
        ensures
            *final(self) == (WindowManager {
                libinput_devices: final(self).libinput_devices,
                ..*old(self)
            }),
            match device_index(old(self).libinput_devices@, id) {
                Some(i) => final(self).libinput_devices@ == old(self).libinput_devices@.remove(
                    i as int,
                ),
                None => final(self).libinput_devices@ == old(self).libinput_devices@,
            },
    {
        if let Some(i) = find_device(&self.libinput_devices, id) {
            self.libinput_devices.remove(i);
        }
    }
}

}
