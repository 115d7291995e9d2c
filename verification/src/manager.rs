use vstd::prelude::*;
use crate::desktop::{desktop_at, focus_model, focus_ok, focus_tasks, slide_at, slot_at, with_slide_at, workspace_index, Desktop};
use crate::effect::Effect;
use crate::geometry::{fits_i32, wrap_add, wrap_sub, Dimension, Position};
use crate::ipc::IpcState;
use crate::lookup::{find_window, first_where, first_window, has_window, id_index, lemma_first_where, lemma_window_index, window_index};
use crate::seat::{end_effects, focus_effects, focus_result, Seat, SeatOp};
use crate::task::Task;
use crate::window::{LibinputDevice, Output, Window, WindowId};
use crate::manage::window_ids_unique;
use crate::workspace::{close_ok, close_target, close_tasks, closed_in, slide_index};
use crate::slide::{clamp_active, layout_fits, layout_tasks};
use crate::checks::{layout_fits_check, stack_fits_check};
use crate::lookup::{find_id, lemma_first_where_ext, window_has_id};
use crate::desktop::{activated, focused_slide};

verus! {

/// The window manager's state: the desktop, what river has announced, the task
/// queue and the camera.
#[derive(Debug)]
pub struct WindowManager {
    pub desktop: Desktop,
    pub windows: Vec<Window>,
    pub outputs: Vec<Output>,
    pub seats: Vec<Seat>,
    pub libinput_devices: Vec<LibinputDevice>,
    pub queue: Vec<Task>,
    pub camera_pos: Position,
    pub render_camera_pos: Option<Position>,
    pub target_camera_pos: Position,
    pub camera_offset: Position,
    pub ipc: IpcState,
}

/// Whether a pointer operation moves or resizes window `id`.
pub open spec fn op_targets(op: SeatOp, id: WindowId) -> bool {
    match op {
        SeatOp::Move { window_id, .. } => window_id == id,
        SeatOp::Resize { window_id, .. } => window_id == id,
        _ => false,
    }
}

/// A seat whose pointer operation has ended.
pub open spec fn op_ended(s: Seat) -> Seat {
    Seat { op: SeatOp::Idle, ..s }
}

/// What ending, in seat order, every pointer operation on window `id` asks of river.
pub open spec fn end_ops_effects(seats: Seq<Seat>, id: WindowId, windows: Seq<Window>) -> Seq<
    Effect,
>
    decreases seats.len(),
{
    if seats.len() == 0 {
        Seq::empty()
    } else {
        end_ops_effects(seats.drop_last(), id, windows) + if op_targets(seats.last().op, id) {
            end_effects(&seats.last(), windows)
        } else {
            Seq::empty()
        }
    }
}

/// The seats once every pointer operation on window `id` has ended.
pub open spec fn ops_ended_on(seats: Seq<Seat>, id: WindowId) -> Seq<Seat> {
    seats.map_values(|s: Seat| if op_targets(s.op, id) { op_ended(s) } else { s })
}

/// A seat that has focused window `t`.
pub open spec fn focused_seat(s: Seat, t: WindowId) -> Seat {
    Seat { focused: focus_result(s.layer_focus, t), ..s }
}

/// The seats once each has focused window `t`.
pub open spec fn all_focused(seats: Seq<Seat>, t: WindowId) -> Seq<Seat> {
    seats.map_values(|s: Seat| focused_seat(s, t))
}

/// What focusing window `t` from every seat, in seat order, asks of river.
pub open spec fn focus_all_effects(seats: Seq<Seat>, t: WindowId, windows: Seq<Window>) -> Seq<
    Effect,
>
    decreases seats.len(),
{
    if seats.len() == 0 {
        Seq::empty()
    } else {
        focus_all_effects(seats.drop_last(), t, windows) + focus_effects(
            seats.last().id,
            seats.last().layer_focus,
            t,
            has_window(windows, t),
        )
    }
}

/// Ends every seat's pointer operation on window `id`.
pub fn end_ops_on(seats: &mut Vec<Seat>, id: WindowId, windows: &Vec<Window>, effects: &mut Vec<
    Effect,
>)
    ensures
        final(seats)@ == ops_ended_on(old(seats)@, id),
        final(effects)@ == old(effects)@ + end_ops_effects(old(seats)@, id, windows@),
{
    let ghost s0 = seats@;
    let mut i: usize = 0;
    assert(s0.take(0) =~= Seq::<Seat>::empty());
    while i < seats.len()
        invariant
            0 <= i <= seats.len(),
            seats@.len() == s0.len(),
            s0 == old(seats)@,
            forall|j: int| 0 <= j < i ==> seats@[j] == ops_ended_on(s0, id)[j],
            forall|j: int| i <= j < s0.len() ==> seats@[j] == s0[j],
            effects@ == old(effects)@ + end_ops_effects(s0.take(i as int), id, windows@),
        decreases seats.len() - i,
    {
        let ghost before = effects@;
        let targets = match seats[i].op {
            SeatOp::Move { window_id, .. } => window_id == id,
            SeatOp::Resize { window_id, .. } => window_id == id,
            _ => false,
        };
        assert(s0.take(i + 1).drop_last() =~= s0.take(i as int));
        assert(s0.take(i + 1).last() == s0[i as int]);
        if targets {
            seats[i].op_end(windows, effects);
            assert(seats@[i as int] == op_ended(s0[i as int]));
        } else {
            assert(effects@ =~= before + Seq::<Effect>::empty());
        }
        i += 1;
    }
    assert(s0.take(s0.len() as int) =~= s0);
    assert(seats@ =~= ops_ended_on(s0, id));
}

/// Gives keyboard focus to window `t` from every seat.
pub fn focus_all(seats: &mut Vec<Seat>, t: WindowId, windows: &Vec<Window>, effects: &mut Vec<
    Effect,
>)
    ensures
        final(seats)@ == all_focused(old(seats)@, t),
        final(effects)@ == old(effects)@ + focus_all_effects(old(seats)@, t, windows@),
{
    let ghost s0 = seats@;
    let mut i: usize = 0;
    assert(s0.take(0) =~= Seq::<Seat>::empty());
    while i < seats.len()
        invariant
            0 <= i <= seats.len(),
            seats@.len() == s0.len(),
            s0 == old(seats)@,
            forall|j: int| 0 <= j < i ==> seats@[j] == all_focused(s0, t)[j],
            forall|j: int| i <= j < s0.len() ==> seats@[j] == s0[j],
            effects@ == old(effects)@ + focus_all_effects(s0.take(i as int), t, windows@),
        decreases seats.len() - i,
    {
        assert(s0.take(i + 1).drop_last() =~= s0.take(i as int));
        assert(s0.take(i + 1).last() == s0[i as int]);
        seats[i].focus_window(t, windows, effects);
        assert(seats@[i as int] == focused_seat(s0[i as int], t));
        i += 1;
    }
    assert(s0.take(s0.len() as int) =~= s0);
    assert(seats@ =~= all_focused(s0, t));
}


/// The parts of the state that no task step touches are kept.
pub open spec fn keeps_devices(a: &WindowManager, b: &WindowManager) -> bool {
    &&& b.outputs == a.outputs
    &&& b.libinput_devices == a.libinput_devices
    &&& b.ipc == a.ipc
}

/// The camera is kept.
pub open spec fn keeps_camera(a: &WindowManager, b: &WindowManager) -> bool {
    &&& b.camera_pos == a.camera_pos
    &&& b.render_camera_pos == a.render_camera_pos
    &&& b.target_camera_pos == a.target_camera_pos
    &&& b.camera_offset == a.camera_offset
}

/// The slot of the window that closing window `id` takes out of its slide: found
/// through the first window with that id and its location.
pub open spec fn closing_slot(wm: &WindowManager, id: WindowId) -> Option<(usize, usize, usize)> {
    match window_index(wm.windows@, id) {
        Some(i) => match wm.windows@[i as int].location {
            Some(loc) => slot_at(&wm.desktop, loc, id),
            None => None,
        },
        None => None,
    }
}

/// Closing window `id` neither panics nor overflows: the window exists, and taking
/// it out of its slide is safe.
pub open spec fn close_window_ok(wm: &WindowManager, id: WindowId) -> bool {
    &&& has_window(wm.windows@, id)
    &&& match closing_slot(wm, id) {
        Some((wi, si, k)) => close_ok(wm.desktop.workspaces@[wi as int]@, si as int, k as int),
        None => true,
    }
}

/// The window that the seats focus once window `id` has closed.
pub open spec fn closing_target(wm: &WindowManager, id: WindowId) -> Option<WindowId> {
    match closing_slot(wm, id) {
        Some((wi, si, k)) => close_target(wm.desktop.workspaces@[wi as int]@, si as int, k as int),
        None => None,
    }
}

/// What closing window `id` does: pointer operations on it end, it leaves its slide
/// (which is laid out again, or dropped when emptied), the seats focus the window
/// that takes its place, river is told to close it, and it is forgotten.
pub open spec fn closed_window(
    w0: &WindowManager,
    w1: &WindowManager,
    id: WindowId,
    now: u64,
    e0: Seq<Effect>,
    e1: Seq<Effect>,
) -> bool {
    let seats = ops_ended_on(w0.seats@, id);
    let ended = e0 + end_ops_effects(w0.seats@, id, w0.windows@);
    &&& match closing_slot(w0, id) {
        Some((wi, si, k)) => {
            let w = w0.desktop.workspaces@[wi as int]@;
            &&& crate::desktop::desktop_at(
                &w0.desktop,
                &w1.desktop,
                wi,
                closed_in(w, si as int, k as int),
            )
            &&& w1.queue@ == w0.queue@ + close_tasks(w, si as int, k as int, now)
        },
        None => w1.desktop == w0.desktop && w1.queue@ == w0.queue@,
    }
    &&& match closing_target(w0, id) {
        Some(t) => w1.seats@ == all_focused(seats, t) && e1 == ended + focus_all_effects(
            seats,
            t,
            w0.windows@,
        ) + seq![Effect::CloseWindow { window: id }],
        None => w1.seats@ == seats && e1 == ended + seq![Effect::CloseWindow { window: id }],
    }
    &&& w1.windows@ == w0.windows@.remove(window_index(w0.windows@, id)->0 as int)
    &&& keeps_devices(w0, w1)
    &&& keeps_camera(w0, w1)
}

impl WindowManager {
    /// Closes window `id`.
    pub fn close_window(&mut self, id: WindowId, now: u64, effects: &mut Vec<Effect>)
        requires
            close_window_ok(old(self), id),
        ensures
            closed_window(old(self), final(self), id, now, old(effects)@, final(effects)@),
            window_ids_unique(old(self).windows@) ==> window_ids_unique(final(self).windows@)
                && !has_window(final(self).windows@, id),
    {
        let ghost w0 = *self;
        end_ops_on(&mut self.seats, id, &self.windows, effects);
        let i = match find_window(&self.windows, id) {
            Some(i) => i,
            None => {
                assert(false);
                0
            },
        };
        let target = match &self.windows[i].location {
            Some(loc) => self.desktop.close_window(loc, id, now, &mut self.queue),
            None => None,
        };
        assert(target == closing_target(&w0, id));
        let ghost e1 = effects@;
        match target {
            Some(t) => {
                focus_all(&mut self.seats, t, &self.windows, effects);
            },
            None => {},
        }
        let ghost e2 = effects@;
        effects.push(Effect::CloseWindow { window: id });
        assert(effects@ =~= e2 + seq![Effect::CloseWindow { window: id }]);
        self.windows.remove(i);
        proof {
            let ws = w0.windows@;
            let r = self.windows@;
            assert(r == ws.remove(i as int));
            assert(ws[i as int].id == id);
            if window_ids_unique(ws) {
                assert forall|a: int, b: int| 0 <= a < b < r.len() implies (#[trigger] r[a]).id != (#[trigger] r[b]).id by {
                    let a0 = if a < i { a } else { a + 1 };
                    let b0 = if b < i { b } else { b + 1 };
                    assert(r[a] == ws[a0] && r[b] == ws[b0]);
                }
                if has_window(r, id) {
                    let a = choose|a: int| 0 <= a < r.len() && r[a].id == id;
                    let a0 = if a < i { a } else { a + 1 };
                    assert(r[a] == ws[a0]);
                    if a0 < i {
                        assert(ws[a0].id != ws[i as int].id);
                    } else {
                        assert(ws[i as int].id != ws[a0].id);
                    }
                }
            }
        }
    }
}


/// Time since `timer`, or zero when `timer` lies ahead of `now` (milliseconds).
pub open spec fn elapsed(now: u64, timer: u64) -> u64 {
    if now >= timer {
        (now - timer) as u64
    } else {
        0
    }
}

/// The squared length of a move, computed as `i32` arithmetic does in a release
/// build; the animation speed formula starts from it.
pub open spec fn sq_len(d: Position) -> i32 {
    d.x.wrapping_mul(d.x).wrapping_add(d.y.wrapping_mul(d.y))
}

fn sq_len_of(d: Position) -> (r: i32)
    ensures
        r == sq_len(d),
{
    d.x.wrapping_mul(d.x).wrapping_add(d.y.wrapping_mul(d.y))
}

/// Time since `timer`, or zero when `timer` lies ahead of `now`.
pub fn elapsed_since(now: u64, timer: u64) -> (r: u64)
    ensures
        r == elapsed(now, timer),
{
    if now >= timer {
        now - timer
    } else {
        0
    }
}

/// The animated move that a new target position asks for, if it differs.
pub open spec fn move_tasks(id: WindowId, diff: Position, timer: u64, duration: u64) -> Seq<Task> {
    if diff != (Position { x: 0, y: 0 }) {
        seq![Task::MoveWindow { window_id: id, diff_pos: diff, timer, duration }]
    } else {
        Seq::empty()
    }
}

/// The resize that a new size asks for, if it differs from the window's.
pub open spec fn resize_tasks(id: WindowId, dim: Dimension, w: Window, timer: u64) -> Seq<Task> {
    if dim.width != w.width || dim.height != w.height {
        seq![Task::ResizeWindow { window_id: id, dim, timer, duration: 0 }]
    } else {
        Seq::empty()
    }
}

/// What giving window `id` a new geometry does: the first window with that id gets
/// `pos` as its target, and the move (animated for a duration that `anim` gives for
/// its squared length) and the resize that it needs are queued.
pub open spec fn geometry_set<A: Fn(i32) -> u64>(
    w0: &WindowManager,
    w1: &WindowManager,
    id: WindowId,
    pos: Position,
    dim: Dimension,
    timer: u64,
    anim: A,
) -> bool {
    &&& keeps_devices(w0, w1)
    &&& keeps_camera(w0, w1)
    &&& w1.desktop == w0.desktop
    &&& w1.seats == w0.seats
    &&& match window_index(w0.windows@, id) {
        Some(i) => {
            let w = w0.windows@[i as int];
            let diff = wrap_sub(pos, w.target_position);
            exists|d: u64|
                #[trigger] call_ensures(anim, (sq_len(diff),), d) && w1.windows@ == w0.windows@.update(
                    i as int,
                    Window { target_position: pos, ..w },
                ) && w1.queue@ == w0.queue@ + move_tasks(id, diff, timer, d) + resize_tasks(
                    id,
                    dim,
                    w,
                    timer,
                )
        },
        None => w1.windows == w0.windows && w1.queue == w0.queue,
    }
}

/// What one animation frame of moving window `id` by `diff` does: past the
/// duration the window lands (`done`); before, it is drawn `ease`'s share of the
/// way along. Positions add as `i32` does in a release build.
pub open spec fn window_moved<E: Fn(Position, u64, u64) -> Position>(
    w0: &WindowManager,
    w1: &WindowManager,
    id: WindowId,
    diff: Position,
    timer: u64,
    duration: u64,
    now: u64,
    ease: E,
    done: bool,
) -> bool {
    &&& keeps_devices(w0, w1)
    &&& keeps_camera(w0, w1)
    &&& w1.desktop == w0.desktop
    &&& w1.seats == w0.seats
    &&& w1.queue == w0.queue
    &&& match window_index(w0.windows@, id) {
        Some(i) => {
            let w = w0.windows@[i as int];
            let el = elapsed(now, timer);
            if el > duration {
                let p = wrap_add(w.original_position, diff);
                &&& done
                &&& w1.windows@ == w0.windows@.update(
                    i as int,
                    Window { original_position: p, render_position: Some(p), ..w },
                )
            } else {
                &&& !done
                &&& exists|part: Position|
                    #[trigger] call_ensures(ease, (diff, el, duration), part) && w1.windows@
                        == w0.windows@.update(
                        i as int,
                        Window {
                            render_position: Some(wrap_add(w.original_position, part)),
                            ..w
                        },
                    )
            }
        },
        None => done && w1.windows == w0.windows,
    }
}

impl WindowManager {
    /// Gives window `id` a new target geometry.
    pub fn set_window_geometry<A: Fn(i32) -> u64>(
        &mut self,
        id: WindowId,
        pos: Position,
        dim: Dimension,
        timer: u64,
        anim: &A,
    )
        requires
            forall|v: i32| call_requires(*anim, (v,)),
        ensures
            geometry_set(old(self), final(self), id, pos, dim, timer, *anim),
    {
        match find_window(&self.windows, id) {
            Some(i) => {
                let diff = pos.wrapping_sub(self.windows[i].target_position);
                let duration = anim(sq_len_of(diff));
                self.windows[i].target_position = pos;
                let ghost q0 = self.queue@;
                if diff != (Position { x: 0, y: 0 }) {
                    self.queue.push(
                        Task::MoveWindow { window_id: id, diff_pos: diff, timer, duration },
                    );
                } else {
                    assert(self.queue@ =~= q0 + move_tasks(id, diff, timer, duration));
                }
                let ghost q1 = self.queue@;
                if dim.width != self.windows[i].width || dim.height != self.windows[i].height {
                    self.queue.push(
                        Task::ResizeWindow { window_id: id, dim, timer, duration: 0 },
                    );
                } else {
                    assert(self.queue@ =~= q1 + Seq::<Task>::empty());
                }
                let ghost w = old(self).windows@[i as int];
                assert(self.windows@ =~= old(self).windows@.update(
                    i as int,
                    Window { target_position: pos, ..w },
                ));
                assert(call_ensures(*anim, (sq_len(diff),), duration) && self.windows@
                    == old(self).windows@.update(i as int, Window { target_position: pos, ..w })
                    && self.queue@ == old(self).queue@ + move_tasks(id, diff, timer, duration)
                    + resize_tasks(id, dim, w, timer));
            },
            None => {},
        }
    }

    /// Runs one frame of the animation that moves window `id` by `diff`; `true` once
    /// it has landed (or when there is no such window).
    pub fn move_window<E: Fn(Position, u64, u64) -> Position>(
        &mut self,
        id: WindowId,
        diff: Position,
        timer: u64,
        duration: u64,
        now: u64,
        ease: &E,
    ) -> (done: bool)
        requires
            forall|d: Position, e: u64, t: u64| call_requires(*ease, (d, e, t)),
        ensures
            window_moved(old(self), final(self), id, diff, timer, duration, now, *ease, done),
    {
        match find_window(&self.windows, id) {
            Some(i) => {
                let el = elapsed_since(now, timer);
                let ghost w = old(self).windows@[i as int];
                if el > duration {
                    let p = self.windows[i].original_position.wrapping_add(diff);
                    self.windows[i].original_position = p;
                    self.windows[i].render_position = Some(p);
                    assert(self.windows@ =~= old(self).windows@.update(
                        i as int,
                        Window { original_position: p, render_position: Some(p), ..w },
                    ));
                    true
                } else {
                    let part = ease(diff, el, duration);
                    let p = self.windows[i].original_position.wrapping_add(part);
                    self.windows[i].render_position = Some(p);
                    assert(self.windows@ =~= old(self).windows@.update(
                        i as int,
                        Window { render_position: Some(p), ..w },
                    ));
                    assert(call_ensures(*ease, (diff, el, duration), part));
                    false
                }
            },
            None => true,
        }
    }
}


/// What the due resize of window `id` to `dim` does, once its delay is over: the
/// window takes the size, and river is asked for it unless a side is zero (then
/// the task stays queued, `done` is false).
pub open spec fn window_resized(
    w0: &WindowManager,
    w1: &WindowManager,
    id: WindowId,
    dim: Dimension,
    e0: Seq<Effect>,
    e1: Seq<Effect>,
    done: bool,
) -> bool {
    &&& keeps_devices(w0, w1)
    &&& keeps_camera(w0, w1)
    &&& w1.desktop == w0.desktop
    &&& w1.seats == w0.seats
    &&& w1.queue == w0.queue
    &&& match window_index(w0.windows@, id) {
        Some(i) => {
            let w = w0.windows@[i as int];
            &&& w1.windows@ == w0.windows@.update(
                i as int,
                Window { width: dim.width, height: dim.height, ..w },
            )
            &&& if dim.width == 0 || dim.height == 0 {
                !done && e1 == e0
            } else {
                done && e1 == e0.push(
                    Effect::ProposeDimensions { window: id, width: dim.width, height: dim.height },
                )
            }
        },
        None => done && w1.windows == w0.windows && e1 == e0,
    }
}

/// Toggling the maximized state of window `id` neither panics nor overflows: a
/// maximized window's slide can be laid out, and when there are outputs the last
/// one knows its size.
pub open spec fn maximize_ok(wm: &WindowManager, id: WindowId) -> bool {
    match window_index(wm.windows@, id) {
        Some(i) => {
            let w = wm.windows@[i as int];
            if w.maximized {
                match w.location {
                    Some(loc) => match slide_at(&wm.desktop, loc) {
                        Some((wi, si)) => {
                            let s = wm.desktop.workspaces@[wi as int]@.slides[si as int];
                            layout_fits(clamp_active(s))
                        },
                        None => true,
                    },
                    None => true,
                }
            } else {
                wm.outputs@.len() > 0 ==> wm.outputs@.last().dimensions is Some
            }
        },
        None => true,
    }
}

/// What toggling the maximized state of window `id` does: a maximized window leaves
/// fullscreen and its slide is laid out again; another one goes fullscreen on the
/// last output and takes its size.
pub open spec fn maximize_toggled(
    w0: &WindowManager,
    w1: &WindowManager,
    id: WindowId,
    now: u64,
    e0: Seq<Effect>,
    e1: Seq<Effect>,
) -> bool {
    &&& keeps_devices(w0, w1)
    &&& keeps_camera(w0, w1)
    &&& w1.seats == w0.seats
    &&& match window_index(w0.windows@, id) {
        Some(i) => {
            let w = w0.windows@[i as int];
            if w.maximized {
                &&& match w.location {
                    Some(loc) => match slide_at(&w0.desktop, loc) {
                        Some((wi, si)) => {
                            let ws = w0.desktop.workspaces@[wi as int]@;
                            &&& desktop_at(
                                &w0.desktop,
                                &w1.desktop,
                                wi,
                                with_slide_at(ws, si as int, clamp_active(ws.slides[si as int])),
                            )
                            &&& w1.queue@ == w0.queue@ + layout_tasks(
                                clamp_active(ws.slides[si as int]),
                                now,
                            )
                        },
                        None => w1.desktop == w0.desktop && w1.queue@ == w0.queue@,
                    },
                    None => w1.desktop == w0.desktop && w1.queue@ == w0.queue@,
                }
                &&& w1.windows@ == w0.windows@.update(i as int, Window { maximized: false, ..w })
                &&& e1 == e0.push(Effect::ExitFullscreen { window: id })
            } else {
                &&& w1.desktop == w0.desktop
                &&& w1.queue == w0.queue
                &&& if w0.outputs@.len() > 0 {
                    let o = w0.outputs@.last();
                    &&& w1.windows@ == w0.windows@.update(
                        i as int,
                        Window {
                            maximized: true,
                            width: o.dimensions.unwrap().0,
                            height: o.dimensions.unwrap().1,
                            ..w
                        },
                    )
                    &&& e1 == e0.push(Effect::Fullscreen { window: id, output: o.id })
                } else {
                    w1.windows == w0.windows && e1 == e0
                }
            }
        },
        None => w1.desktop == w0.desktop && w1.queue == w0.queue && w1.windows == w0.windows
            && e1 == e0,
    }
}

impl WindowManager {
    /// Applies the size `dim` to window `id` and asks river for it; `false` when a
    /// side is zero.
    pub fn resize_window(&mut self, id: WindowId, dim: Dimension, effects: &mut Vec<Effect>) -> (done:
        bool)
        ensures
            window_resized(old(self), final(self), id, dim, old(effects)@, final(effects)@, done),
    {
        match find_window(&self.windows, id) {
            Some(i) => {
                let ghost w = old(self).windows@[i as int];
                self.windows[i].width = dim.width;
                self.windows[i].height = dim.height;
                assert(self.windows@ =~= old(self).windows@.update(
                    i as int,
                    Window { width: dim.width, height: dim.height, ..w },
                ));
                if dim.width == 0 || dim.height == 0 {
                    return false;
                }
                effects.push(
                    Effect::ProposeDimensions { window: id, width: dim.width, height: dim.height },
                );
                true
            },
            None => true,
        }
    }

    /// Toggles the maximized (fullscreen) state of window `id`.
    pub fn toggle_maximize(&mut self, id: WindowId, now: u64, effects: &mut Vec<Effect>)
        requires
            maximize_ok(old(self), id),
        ensures
            maximize_toggled(old(self), final(self), id, now, old(effects)@, final(effects)@),
    {
        let i = match find_window(&self.windows, id) {
            Some(i) => i,
            None => {
                return;
            },
        };
        let ghost w = old(self).windows@[i as int];
        if self.windows[i].maximized {
            match &self.windows[i].location {
                Some(loc) => {
                    self.desktop.relayout_at(loc, now, &mut self.queue);
                },
                None => {},
            }
            effects.push(Effect::ExitFullscreen { window: id });
            self.windows[i].maximized = false;
            assert(self.windows@ =~= old(self).windows@.update(
                i as int,
                Window { maximized: false, ..w },
            ));
        } else {
            let n = self.outputs.len();
            if n > 0 {
                let oid = self.outputs[n - 1].id;
                let (width, height) = match self.outputs[n - 1].dimensions {
                    Some(d) => d,
                    None => {
                        assert(false);
                        (0, 0)
                    },
                };
                effects.push(Effect::Fullscreen { window: id, output: oid });
                self.windows[i].maximized = true;
                self.windows[i].width = width;
                self.windows[i].height = height;
                assert(self.windows@ =~= old(self).windows@.update(
                    i as int,
                    Window { maximized: true, width, height, ..w },
                ));
            }
        }
    }
}


/// What asking the camera to go to `pos` does: it becomes the target, and the move
/// there is queued, animated for a duration that `anim` gives for its squared
/// length.
pub open spec fn camera_set<A: Fn(i32) -> u64>(
    w0: &WindowManager,
    w1: &WindowManager,
    pos: Position,
    timer: u64,
    anim: A,
) -> bool {
    let diff = wrap_sub(pos, w0.target_camera_pos);
    &&& keeps_devices(w0, w1)
    &&& w1.desktop == w0.desktop
    &&& w1.seats == w0.seats
    &&& w1.windows == w0.windows
    &&& w1.camera_pos == w0.camera_pos
    &&& w1.render_camera_pos == w0.render_camera_pos
    &&& w1.camera_offset == w0.camera_offset
    &&& w1.target_camera_pos == pos
    &&& exists|d: u64|
        #[trigger] call_ensures(anim, (sq_len(diff),), d) && w1.queue@ == w0.queue@ + if diff != (Position {
            x: 0,
            y: 0,
        }) {
            seq![Task::MoveCamera { diff_pos: diff, timer, duration: d }]
        } else {
            Seq::empty()
        }
}

/// What one frame of moving the camera by `diff` does: past the duration it lands
/// (`done`); before, it is drawn `ease`'s share of the way along.
pub open spec fn camera_moved<E: Fn(Position, u64, u64) -> Position>(
    w0: &WindowManager,
    w1: &WindowManager,
    diff: Position,
    timer: u64,
    duration: u64,
    now: u64,
    ease: E,
    done: bool,
) -> bool {
    let el = elapsed(now, timer);
    &&& keeps_devices(w0, w1)
    &&& w1.desktop == w0.desktop
    &&& w1.seats == w0.seats
    &&& w1.windows == w0.windows
    &&& w1.queue == w0.queue
    &&& w1.target_camera_pos == w0.target_camera_pos
    &&& w1.camera_offset == w0.camera_offset
    &&& if el > duration {
        &&& done
        &&& w1.camera_pos == wrap_add(w0.camera_pos, diff)
        &&& w1.render_camera_pos == Some(wrap_add(w0.camera_pos, diff))
    } else {
        &&& !done
        &&& w1.camera_pos == w0.camera_pos
        &&& exists|part: Position|
            #[trigger] call_ensures(ease, (diff, el, duration), part) && w1.render_camera_pos == Some(
                wrap_add(w0.camera_pos, part),
            )
    }
}

/// An `i32`'s absolute value as a release build computes it (`i32::MIN` stays).
pub open spec fn wrap_abs(v: i32) -> i32 {
    if v < 0 {
        0i32.wrapping_sub(v)
    } else {
        v
    }
}

/// The pointer's offset from where seat `s` last saw it.
pub open spec fn pointer_diff(s: Seat, pos: Position) -> Position {
    wrap_sub(pos, s.pointer_position)
}

/// An offset too short for a pointer warp (under 100 pixels, taxicab).
pub open spec fn near(d: Position) -> bool {
    wrap_abs(d.x).wrapping_add(wrap_abs(d.y)) < 100
}

/// A seat after its pointer is warped to `pos`: a pan in progress shifts its start by
/// `r` (twice the offset, as the caller's scaling computes it).
pub open spec fn warped(s: Seat, pos: Position, r: Position) -> Seat {
    match s.op {
        SeatOp::Pan { start_camera_pos } => Seat {
            op: SeatOp::Pan { start_camera_pos: wrap_add(start_camera_pos, r) },
            op_diff: pointer_diff(s, pos),
            ..s
        },
        _ => s,
    }
}

/// What warping the pointer to `pos` does: seats are taken in order until one whose
/// pointer is already near; each one before it has its pointer warped and its pan
/// shifted.
pub open spec fn pointer_set<D: Fn(Position) -> Position>(
    s0: Seq<Seat>,
    s1: Seq<Seat>,
    pos: Position,
    double: D,
    e0: Seq<Effect>,
    e1: Seq<Effect>,
) -> bool {
    exists|k: int, rs: Seq<Position>|
        {
            &&& 0 <= k <= s0.len()
            &&& rs.len() == k
            &&& s1.len() == s0.len()
            &&& k < s0.len() ==> near(pointer_diff(s0[k], pos))
            &&& forall|i: int|
                0 <= i < k ==> {
                    &&& !near(pointer_diff(#[trigger] s0[i], pos))
                    &&& s0[i].op is Pan ==> call_ensures(double, (pointer_diff(s0[i], pos),), rs[i])
                    &&& s1[i] == warped(s0[i], pos, rs[i])
                }
            &&& forall|i: int| k <= i < s0.len() ==> #[trigger] s1[i] == s0[i]
            &&& e1 == e0 + Seq::new(
                k as nat,
                |i: int| Effect::PointerWarp { seat: s0[i].id, x: pos.x, y: pos.y },
            )
        }
}

impl WindowManager {
    /// Sends the camera towards `pos`.
    pub fn set_camera<A: Fn(i32) -> u64>(&mut self, pos: Position, timer: u64, anim: &A)
        requires
            forall|v: i32| call_requires(*anim, (v,)),
        ensures
            camera_set(old(self), final(self), pos, timer, *anim),
    {
        let diff = pos.wrapping_sub(self.target_camera_pos);
        let duration = anim(sq_len_of(diff));
        self.target_camera_pos = pos;
        if diff != (Position { x: 0, y: 0 }) {
            self.queue.push(Task::MoveCamera { diff_pos: diff, timer, duration });
        } else {
            assert(self.queue@ =~= old(self).queue@ + Seq::<Task>::empty());
        }
        assert(call_ensures(*anim, (sq_len(diff),), duration) && self.queue@ == old(self).queue@
            + if diff != (Position { x: 0, y: 0 }) {
            seq![Task::MoveCamera { diff_pos: diff, timer, duration }]
        } else {
            Seq::empty()
        });
    }

    /// Runs one frame of the camera move by `diff`; `true` once it has landed.
    pub fn move_camera<E: Fn(Position, u64, u64) -> Position>(
        &mut self,
        diff: Position,
        timer: u64,
        duration: u64,
        now: u64,
        ease: &E,
    ) -> (done: bool)
        requires
            forall|d: Position, e: u64, t: u64| call_requires(*ease, (d, e, t)),
        ensures
            camera_moved(old(self), final(self), diff, timer, duration, now, *ease, done),
    {
        let el = elapsed_since(now, timer);
        if el > duration {
            self.camera_pos = self.camera_pos.wrapping_add(diff);
            self.render_camera_pos = Some(self.camera_pos);
            true
        } else {
            let part = ease(diff, el, duration);
            self.render_camera_pos = Some(self.camera_pos.wrapping_add(part));
            assert(call_ensures(*ease, (diff, el, duration), part));
            false
        }
    }

    /// Warps every seat's pointer to `pos`, shifting pans in progress by `double` of
    /// the offset; stops at the first seat whose pointer is already near.
    pub fn set_pointer<D: Fn(Position) -> Position>(
        &mut self,
        pos: Position,
        double: &D,
        effects: &mut Vec<Effect>,
    )
        requires
            forall|d: Position| call_requires(*double, (d,)),
        ensures
            pointer_set(old(self).seats@, final(self).seats@, pos, *double, old(effects)@, final(effects)@),
            keeps_devices(old(self), final(self)),
            keeps_camera(old(self), final(self)),
            final(self).desktop == old(self).desktop,
            final(self).windows == old(self).windows,
            final(self).queue == old(self).queue,
    {
        let ghost s0 = self.seats@;
        let ghost mut rs: Seq<Position> = Seq::empty();
        let n = self.seats.len();
        let mut i: usize = 0;
        while i < n
            invariant_except_break
                0 <= i <= n,
                n == s0.len(),
                s0 == old(self).seats@,
                forall|d: Position| call_requires(*double, (d,)),
                keeps_devices(old(self), self),
                keeps_camera(old(self), self),
                self.desktop == old(self).desktop,
                self.windows == old(self).windows,
                self.queue == old(self).queue,
                rs.len() == i,
                self.seats@.len() == n,
                forall|j: int|
                    0 <= j < i ==> {
                        &&& !near(pointer_diff(#[trigger] s0[j], pos))
                        &&& s0[j].op is Pan ==> call_ensures(
                            *double,
                            (pointer_diff(s0[j], pos),),
                            rs[j],
                        )
                        &&& self.seats@[j] == warped(s0[j], pos, rs[j])
                    },
                forall|j: int| i <= j < n ==> #[trigger] self.seats@[j] == s0[j],
                effects@ == old(effects)@ + Seq::new(
                    i as nat,
                    |j: int| Effect::PointerWarp { seat: s0[j].id, x: pos.x, y: pos.y },
                ),
            ensures
                pointer_set(s0, self.seats@, pos, *double, old(effects)@, effects@),
                keeps_devices(old(self), self),
                keeps_camera(old(self), self),
                self.desktop == old(self).desktop,
                self.windows == old(self).windows,
                self.queue == old(self).queue,
            decreases n - i,
        {
            let d = pos.wrapping_sub(self.seats[i].pointer_position);
            let ax = if d.x < 0 { 0i32.wrapping_sub(d.x) } else { d.x };
            let ay = if d.y < 0 { 0i32.wrapping_sub(d.y) } else { d.y };
            if ax.wrapping_add(ay) < 100 {
                assert(pointer_set(s0, self.seats@, pos, *double, old(effects)@, effects@)) by {
                    assert(near(pointer_diff(s0[i as int], pos)));
                }
                break;
            }
            let ghost e_before = effects@;
            effects.push(Effect::PointerWarp { seat: self.seats[i].id, x: pos.x, y: pos.y });
            assert(effects@ =~= old(effects)@ + Seq::new(
                (i + 1) as nat,
                |j: int| Effect::PointerWarp { seat: s0[j].id, x: pos.x, y: pos.y },
            ));
            match self.seats[i].op {
                SeatOp::Pan { start_camera_pos } => {
                    let r = double(d);
                    self.seats[i].op = SeatOp::Pan { start_camera_pos: start_camera_pos.wrapping_add(r) };
                    self.seats[i].op_diff = d;
                    proof {
                        rs = rs.push(r);
                    }
                },
                _ => {
                    proof {
                        rs = rs.push(pos);
                    }
                },
            }
            assert(self.seats@[i as int] == warped(s0[i as int], pos, rs[i as int]));
            i += 1;
        }
    }
}


/// Whether window `i` of `ws` has the name `name`.
pub open spec fn window_has_name(ws: Seq<Window>, name: Seq<char>) -> spec_fn(int) -> bool {
    |i: int| ws[i].name@ == name
}

/// The index of the first window named `name`.
pub open spec fn window_named(ws: Seq<Window>, name: Seq<char>) -> Option<usize> {
    first_where(ws.len(), window_has_name(ws, name))
}

/// The index of the first window named `name`.
pub fn find_named(windows: &Vec<Window>, name: &String) -> (r: Option<usize>)
    ensures
        r == window_named(windows@, name@),
        r matches Some(i) ==> i < windows@.len(),
{
    let n = windows.len();
    let mut i: usize = 0;
    while i < n && windows[i].name != *name
        invariant
            0 <= i <= n,
            n == windows@.len(),
            forall|j: int| 0 <= j < i ==> windows@[j].name@ != name@,
        decreases n - i,
    {
        i += 1;
    }
    proof {
        let p = window_has_name(windows@, name@);
        lemma_first_where(windows@.len(), p);
        assert(forall|j: int| #[trigger] p(j) == (windows@[j].name@ == name@));
        match window_named(windows@, name@) {
            Some(j) => {
                assert(p(j as int));
                if (j as int) < (i as int) {
                    assert(windows@[j as int].name@ == name@);
                }
                if (i as int) < (j as int) {
                    assert(!p(i as int));
                }
            },
            None => {
                if i < n {
                    assert(!p(i as int));
                }
            },
        }
    }
    if i < n {
        Some(i)
    } else {
        None
    }
}

/// Focusing the window named `name` neither panics nor overflows.
pub open spec fn focus_named_ok(wm: &WindowManager, name: Seq<char>) -> bool {
    match window_named(wm.windows@, name) {
        Some(i) => match wm.windows@[i as int].location {
            Some(loc) => focus_ok(&wm.desktop, loc, wm.windows@[i as int].id),
            None => true,
        },
        None => true,
    }
}

/// What focusing the window named `name` (an IPC request) does: when it has a
/// location in an existing workspace, its slide and it become active, the camera
/// moves there, the slide is laid out and every seat focuses it.
pub open spec fn focused_named(
    w0: &WindowManager,
    w1: &WindowManager,
    name: Seq<char>,
    now: u64,
    e0: Seq<Effect>,
    e1: Seq<Effect>,
) -> bool {
    let unchanged = w1.desktop == w0.desktop && w1.queue@ == w0.queue@ && w1.seats == w0.seats && e1
        == e0;
    &&& keeps_devices(w0, w1)
    &&& keeps_camera(w0, w1)
    &&& w1.windows == w0.windows
    &&& match window_named(w0.windows@, name) {
        Some(i) => {
            let w = w0.windows@[i as int];
            match w.location {
                Some(loc) => match workspace_index(w0.desktop.workspaces@, loc.workspace_id@) {
                    Some(wi) => {
                        let ws = w0.desktop.workspaces@[wi as int]@;
                        let si = slide_index(ws.slides, loc.slide_id)->0 as int;
                        let k = id_index(ws.slides[si].windows, w.id)->0 as int;
                        &&& desktop_at(&w0.desktop, &w1.desktop, wi, focus_model(ws, si, k))
                        &&& w1.queue@ == w0.queue@ + focus_tasks(ws, si, k, now)
                        &&& w1.seats@ == all_focused(w0.seats@, w.id)
                        &&& e1 == e0 + focus_all_effects(w0.seats@, w.id, w0.windows@)
                    },
                    None => unchanged,
                },
                None => unchanged,
            }
        },
        None => unchanged,
    }
}

impl WindowManager {
    /// Focuses the window named `name`, moving to its slide.
    pub fn focus_named(&mut self, name: &String, now: u64, effects: &mut Vec<Effect>)
        requires
            focus_named_ok(old(self), name@),
        ensures
            focused_named(old(self), final(self), name@, now, old(effects)@, final(effects)@),
    {
        let i = match find_named(&self.windows, name) {
            Some(i) => i,
            None => {
                return;
            },
        };
        let id = self.windows[i].id;
        let found = match &self.windows[i].location {
            Some(loc) => self.desktop.focus_at(loc, id, now, &mut self.queue),
            None => false,
        };
        if found {
            focus_all(&mut self.seats, id, &self.windows, effects);
        }
    }
}


impl WindowManager {
    /// Whether closing window `id` is safe (`close_window_ok`).
    pub fn close_window_check(&self, id: WindowId) -> (r: bool)
        ensures
            r == close_window_ok(self, id),
    {
        let i = match find_window(&self.windows, id) {
            Some(i) => i,
            None => {
                return false;
            },
        };
        let loc = match &self.windows[i].location {
            Some(loc) => loc,
            None => {
                return true;
            },
        };
        let wi = match self.desktop.workspace_pos(&loc.workspace_id) {
            Some(wi) => wi,
            None => {
                return true;
            },
        };
        let si = match self.desktop.workspaces[wi].find_slide(loc.slide_id) {
            Some(si) => si,
            None => {
                return true;
            },
        };
        assert(self.desktop.workspaces@[wi as int]@.slides[si as int]
            == self.desktop.workspaces@[wi as int].slides@[si as int]@);
        let k = match find_id(&self.desktop.workspaces[wi].slides[si].windows, id) {
            Some(k) => k,
            None => {
                return true;
            },
        };
        self.desktop.workspaces[wi].close_check(si, k)
    }

    /// Whether toggling the maximized state of window `id` is safe (`maximize_ok`).
    pub fn maximize_check(&self, id: WindowId) -> (r: bool)
        ensures
            r == maximize_ok(self, id),
    {
        let i = match find_window(&self.windows, id) {
            Some(i) => i,
            None => {
                return true;
            },
        };
        if self.windows[i].maximized {
            let loc = match &self.windows[i].location {
                Some(loc) => loc,
                None => {
                    return true;
                },
            };
            let wi = match self.desktop.workspace_pos(&loc.workspace_id) {
                Some(wi) => wi,
                None => {
                    return true;
                },
            };
            let si = match self.desktop.workspaces[wi].find_slide(loc.slide_id) {
                Some(si) => si,
                None => {
                    return true;
                },
            };
            let s = &self.desktop.workspaces[wi].slides[si];
            assert(self.desktop.workspaces@[wi as int]@.slides[si as int] == s@);
            let n = s.windows.len();
            let aw = if s.active_window >= n {
                if n == 0 {
                    usize::MAX
                } else {
                    n - 1
                }
            } else {
                s.active_window
            };
            let r = layout_fits_check(s.slide_type, s.position, s.dimensions, n, aw);
            assert(r == layout_fits(clamp_active(s@)));
            r
        } else {
            let n = self.outputs.len();
            n == 0 || self.outputs[n - 1].dimensions.is_some()
        }
    }

    /// Whether focusing the window named `name` is safe (`focus_named_ok`).
    pub fn focus_named_check(&self, name: &String) -> (r: bool)
        ensures
            r == focus_named_ok(self, name@),
    {
        let i = match find_named(&self.windows, name) {
            Some(i) => i,
            None => {
                return true;
            },
        };
        let id = self.windows[i].id;
        let loc = match &self.windows[i].location {
            Some(loc) => loc,
            None => {
                return true;
            },
        };
        let wi = match self.desktop.workspace_pos(&loc.workspace_id) {
            Some(wi) => wi,
            None => {
                return true;
            },
        };
        let ws = &self.desktop.workspaces[wi];
        let ghost w = ws@;
        let si = match ws.find_slide(loc.slide_id) {
            Some(si) => si,
            None => {
                return false;
            },
        };
        assert(w.slides[si as int] == ws.slides@[si as int]@);
        let k = match find_id(&ws.slides[si].windows, id) {
            Some(k) => k,
            None => {
                return false;
            },
        };
        if !stack_fits_check(ws.coord, ws.dimensions, ws.slides.len()) {
            return false;
        }
        assert(fits_i32(si * ws.dimensions.1) && fits_i32(ws.coord.1 + si * ws.dimensions.1));
        let y = ws.coord.1 + (si as i32) * ws.dimensions.1;
        let s = &ws.slides[si];
        assert(focused_slide(w, si as int, k as int).position == (ws.coord.0, y));
        let r = layout_fits_check(s.slide_type, (ws.coord.0, y), s.dimensions, s.windows.len(), k);
        assert(r == layout_fits(focused_slide(w, si as int, k as int)));
        r
    }
}


/// Going by the wrapped difference from `a` to `b`, starting at `a`, ends at `b`.
pub proof fn lemma_wrap_diff(a: Position, b: Position)
    ensures
        wrap_add(a, wrap_sub(b, a)) == b,
{
    let (ax, ay, bx, by) = (a.x, a.y, b.x, b.y);
    assert(ax.wrapping_add(bx.wrapping_sub(ax)) == bx);
    assert(ay.wrapping_add(by.wrapping_sub(ay)) == by);
}

/// A camera at rest that is sent towards `pos` is at `pos` once its move has
/// landed: the rendered camera too, and the target stays `pos`.
pub proof fn lemma_camera_lands_on_target<A: Fn(i32) -> u64, E: Fn(Position, u64, u64) -> Position>(
    w0: &WindowManager,
    w1: &WindowManager,
    w2: &WindowManager,
    pos: Position,
    timer: u64,
    duration: u64,
    now: u64,
    anim: A,
    ease: E,
)
    requires
        w0.camera_pos == w0.target_camera_pos,
        camera_set(w0, w1, pos, timer, anim),
        camera_moved(w1, w2, wrap_sub(pos, w0.target_camera_pos), timer, duration, now, ease, true),
    ensures
        w2.camera_pos == pos,
        w2.render_camera_pos == Some(pos),
        w2.target_camera_pos == pos,
{
    lemma_wrap_diff(w0.camera_pos, pos);
}

/// A window at rest (its position is its target) that is given the target `pos`
/// is at `pos` once its move has landed, and is drawn there.
pub proof fn lemma_window_lands_on_target<A: Fn(i32) -> u64, E: Fn(Position, u64, u64) -> Position>(
    w0: &WindowManager,
    w1: &WindowManager,
    w2: &WindowManager,
    id: WindowId,
    pos: Position,
    dim: Dimension,
    timer: u64,
    duration: u64,
    now: u64,
    anim: A,
    ease: E,
)
    requires
        w0.windows@.len() <= usize::MAX,
        window_index(w0.windows@, id) is Some,
        ({
            let w = w0.windows@[window_index(w0.windows@, id)->0 as int];
            &&& w.original_position == w.target_position
            &&& geometry_set(w0, w1, id, pos, dim, timer, anim)
            &&& window_moved(w1, w2, id, wrap_sub(pos, w.target_position), timer, duration, now, ease, true)
        }),
    ensures
        ({
            let i = window_index(w0.windows@, id)->0 as int;
            &&& window_index(w2.windows@, id) == Some(i as usize)
            &&& w2.windows@[i].original_position == pos
            &&& w2.windows@[i].render_position == Some(pos)
            &&& w2.windows@[i].target_position == pos
        }),
{
    let i = window_index(w0.windows@, id)->0 as int;
    let w = w0.windows@[i];
    lemma_first_where(w0.windows@.len(), window_has_id(w0.windows@, id));
    lemma_wrap_diff(w.original_position, pos);
    assert(w1.windows@ == w0.windows@.update(i, Window { target_position: pos, ..w }));
    assert forall|j: int| 0 <= j < w0.windows@.len() implies #[trigger] window_has_id(w0.windows@, id)(j)
        == window_has_id(w1.windows@, id)(j) by {}
    lemma_first_where_ext(w0.windows@.len(), window_has_id(w0.windows@, id), window_has_id(w1.windows@, id));
    assert(window_index(w1.windows@, id) == Some(i as usize));
    let w1i = w1.windows@[i];
    let p = wrap_add(w1i.original_position, wrap_sub(pos, w.target_position));
    assert(p == pos);
    assert(w2.windows@ == w1.windows@.update(i, Window { original_position: p, render_position: Some(p), ..w1i }));
    assert forall|j: int| 0 <= j < w1.windows@.len() implies #[trigger] window_has_id(w1.windows@, id)(j)
        == window_has_id(w2.windows@, id)(j) by {}
    lemma_first_where_ext(w1.windows@.len(), window_has_id(w1.windows@, id), window_has_id(w2.windows@, id));
}

/// Giving window `id` a new geometry queues a resize to exactly the new size,
/// after any move, whenever either side differs from the window's size, and
/// queues no resize when both sides match.
pub proof fn lemma_geometry_queues_resize<A: Fn(i32) -> u64>(
    w0: &WindowManager,
    w1: &WindowManager,
    id: WindowId,
    pos: Position,
    dim: Dimension,
    timer: u64,
    anim: A,
)
    requires
        geometry_set(w0, w1, id, pos, dim, timer, anim),
        window_index(w0.windows@, id) is Some,
    ensures
        ({
            let w = w0.windows@[window_index(w0.windows@, id)->0 as int];
            &&& (dim.width != w.width || dim.height != w.height) ==> {
                &&& w1.queue@.len() > w0.queue@.len()
                &&& w1.queue@.last() == Task::ResizeWindow { window_id: id, dim, timer, duration: 0 }
            }
            &&& (dim.width == w.width && dim.height == w.height) ==> forall|k: int|
                w0.queue@.len() <= k < w1.queue@.len() ==> !(#[trigger] w1.queue@[k] is ResizeWindow)
        }),
{
    let i = window_index(w0.windows@, id)->0 as int;
    let w = w0.windows@[i];
    let diff = wrap_sub(pos, w.target_position);
    let d = choose|d: u64|
        #[trigger] call_ensures(anim, (sq_len(diff),), d) && w1.windows@ == w0.windows@.update(
            i,
            Window { target_position: pos, ..w },
        ) && w1.queue@ == w0.queue@ + move_tasks(id, diff, timer, d) + resize_tasks(
            id,
            dim,
            w,
            timer,
        );
    if dim.width == w.width && dim.height == w.height {
        assert forall|k: int| w0.queue@.len() <= k < w1.queue@.len() implies !(
        #[trigger] w1.queue@[k] is ResizeWindow) by {
            assert(w1.queue@[k] == move_tasks(id, diff, timer, d)[k - w0.queue@.len()]);
        }
    }
}

/// Once a resize of window `id` has run, the window has exactly the size asked for.
pub proof fn lemma_resize_applies(
    w0: &WindowManager,
    w1: &WindowManager,
    id: WindowId,
    dim: Dimension,
    e0: Seq<Effect>,
    e1: Seq<Effect>,
    done: bool,
)
    requires
        window_resized(w0, w1, id, dim, e0, e1, done),
        w0.windows@.len() <= usize::MAX,
        window_index(w0.windows@, id) is Some,
    ensures
        ({
            let i = window_index(w0.windows@, id)->0 as int;
            &&& w1.windows@[i].width == dim.width
            &&& w1.windows@[i].height == dim.height
            &&& w1.windows@[i].id == w0.windows@[i].id
        }),
{
    let i = window_index(w0.windows@, id)->0 as int;
    lemma_first_where(w0.windows@.len(), window_has_id(w0.windows@, id));
    assert(w1.windows@[i] == Window { width: dim.width, height: dim.height, ..w0.windows@[i] });
}

}
