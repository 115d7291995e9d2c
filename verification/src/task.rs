use vstd::prelude::*;
use crate::effect::Effect;
use crate::geometry::{lemma_wrap_add_laws, wrap_add, wrap_sub, Dimension, Position};
use crate::lookup::{find_output, output_index};
use crate::manager::{
    camera_moved, camera_set, close_window_ok, closed_window, elapsed, focus_named_ok,
    focused_named, geometry_set, maximize_ok, maximize_toggled, pointer_set, window_moved,
    window_resized, WindowManager,
};
use crate::manager::{lemma_wrap_diff, sq_len};
use crate::window::{ClientId, OutputId, WindowId};

verus! {

/// Which half of a river frame the window manager is in.
#[derive(Debug, Clone, Copy, PartialEq, Eq, Structural)]
pub enum Phase {
    Render,
    Manage,
}

/// A unit of deferred work. Times (`timer`, `duration`) are milliseconds on the
/// clock that the caller supplies.
#[derive(Debug, Clone, PartialEq, Eq)]
pub enum Task {
    CloseWindow { window_id: WindowId },
    SetWindowGeometry { window_id: WindowId, pos: Position, dim: Dimension, timer: u64 },
    MoveWindow { window_id: WindowId, diff_pos: Position, timer: u64, duration: u64 },
    ResizeWindow { window_id: WindowId, dim: Dimension, timer: u64, duration: u64 },
    MaximizeWindow { window_id: WindowId },
    SetCamera { pos: Position, timer: u64 },
    SetCameraOffset { pos: Position },
    MoveCamera { diff_pos: Position, timer: u64, duration: u64 },
    SetPointer { pos: Position },
    UnWatchRequest { app_id: String },
    WatchRequest { app_id: String, client_id: ClientId },
    FocusWindow { window_id: String },
    InitNewOutput { id: OutputId },
    InitNewBackground { id: OutputId },
}

/// Where the wallpaper is drawn from: the rendered camera (or the camera, when no
/// frame has been rendered) shifted by the camera offset.
pub open spec fn background_camera(wm: &WindowManager) -> Position {
    wrap_add(
        match wm.render_camera_pos {
            Some(p) => p,
            None => wm.camera_pos,
        },
        wm.camera_offset,
    )
}

/// Whether output `id` exists and has a wallpaper surface.
pub open spec fn has_background(wm: &WindowManager, id: OutputId) -> bool {
    match output_index(wm.outputs@, id) {
        Some(j) => wm.outputs@[j as int].background,
        None => false,
    }
}

/// Running task `t` neither panics nor overflows.
pub open spec fn step_ok(t: Task, wm: &WindowManager, phase: Phase) -> bool {
    match t {
        Task::CloseWindow { window_id } => phase == Phase::Manage ==> close_window_ok(wm, window_id),
        Task::MaximizeWindow { window_id } => phase == Phase::Manage ==> maximize_ok(wm, window_id),
        Task::FocusWindow { window_id } => focus_named_ok(wm, window_id@),
        _ => true,
    }
}

/// What running task `t` once, in phase `phase` at time `now`, does: the window
/// manager goes from `w0` to `w1`, the effects from `e0` to `e1`, and `done` says
/// whether the task is finished (else it is queued again). `anim` gives an
/// animation's duration for a squared distance, `ease` the share of a move covered
/// after some time, and `double` scales a pointer offset for panning.
pub open spec fn stepped<
    A: Fn(i32) -> u64,
    E: Fn(Position, u64, u64) -> Position,
    D: Fn(Position) -> Position,
>(
    t: Task,
    w0: &WindowManager,
    w1: &WindowManager,
    phase: Phase,
    now: u64,
    anim: A,
    ease: E,
    double: D,
    e0: Seq<Effect>,
    e1: Seq<Effect>,
    done: bool,
) -> bool {
    let unchanged = *w1 == *w0 && e1 == e0;
    match t {
        Task::CloseWindow { window_id } => if phase == Phase::Manage {
            done && closed_window(w0, w1, window_id, now, e0, e1)
        } else {
            !done && unchanged
        },
        Task::SetWindowGeometry { window_id, pos, dim, timer } => done && e1 == e0 && geometry_set(
            w0,
            w1,
            window_id,
            pos,
            dim,
            timer,
            anim,
        ),
        Task::MoveWindow { window_id, diff_pos, timer, duration } => e1 == e0 && window_moved(
            w0,
            w1,
            window_id,
            diff_pos,
            timer,
            duration,
            now,
            ease,
            done,
        ),
        Task::ResizeWindow { window_id, dim, timer, duration } => if phase == Phase::Manage
            && elapsed(now, timer) > duration {
            window_resized(w0, w1, window_id, dim, e0, e1, done)
        } else {
            !done && unchanged
        },
        Task::MaximizeWindow { window_id } => if phase == Phase::Manage {
            done && maximize_toggled(w0, w1, window_id, now, e0, e1)
        } else {
            !done && unchanged
        },
        Task::SetCamera { pos, timer } => done && e1 == e0 && camera_set(w0, w1, pos, timer, anim),
        Task::SetCameraOffset { pos } => done && e1 == e0 && *w1 == WindowManager {
            camera_offset: pos,
            render_camera_pos: Some(Position { x: -1i32, y: -1i32 }),
            ..*w0
        },
        Task::MoveCamera { diff_pos, timer, duration } => e1 == e0 && camera_moved(
            w0,
            w1,
            diff_pos,
            timer,
            duration,
            now,
            ease,
            done,
        ),
        Task::SetPointer { pos } => done && pointer_set(w0.seats@, w1.seats@, pos, double, e0, e1)
            && *w1 == WindowManager { seats: w1.seats, ..*w0 },
        Task::UnWatchRequest { .. } => done && unchanged,
        Task::WatchRequest { .. } => done && unchanged,
        Task::FocusWindow { window_id } => done && focused_named(
            w0,
            w1,
            window_id@,
            now,
            e0,
            e1,
        ),
        Task::InitNewOutput { id } => done && *w1 == *w0 && e1 == e0 + match output_index(
            w0.outputs@,
            id,
        ) {
            Some(j) => if w0.outputs@[j as int].layer is Some {
                seq![Effect::SetDefaultLayer { output: id }]
            } else {
                Seq::empty()
            },
            None => Seq::empty(),
        },
        Task::InitNewBackground { id } => if phase == Phase::Render && has_background(w0, id) {
            done && *w1 == *w0 && e1 == e0.push(
                Effect::RenderBackground { output: id, camera: background_camera(w0) },
            )
        } else {
            !done && unchanged
        },
    }
}

impl Task {
    /// Runs the task once; `true` when it is finished, `false` when it must run
    /// again later.
    pub fn step<
        A: Fn(i32) -> u64,
        E: Fn(Position, u64, u64) -> Position,
        D: Fn(Position) -> Position,
    >(
        &mut self,
        wm: &mut WindowManager,
        phase: Phase,
        now: u64,
        anim: &A,
        ease: &E,
        double: &D,
        effects: &mut Vec<Effect>,
    ) -> (done: bool)
        requires
            step_ok(*old(self), old(wm), phase),
            forall|v: i32| call_requires(*anim, (v,)),
            forall|d: Position, e: u64, t: u64| call_requires(*ease, (d, e, t)),
            forall|d: Position| call_requires(*double, (d,)),
        ensures
            *final(self) == *old(self),
            stepped(
                *old(self),
                old(wm),
                final(wm),
                phase,
                now,
                *anim,
                *ease,
                *double,
                old(effects)@,
                final(effects)@,
                done,
            ),
    {
        match self {
            Task::CloseWindow { window_id } => {
                if phase == Phase::Manage {
                    wm.close_window(*window_id, now, effects);
                    true
                } else {
                    false
                }
            },
            Task::SetWindowGeometry { window_id, pos, dim, timer } => {
                wm.set_window_geometry(*window_id, *pos, *dim, *timer, anim);
                true
            },
            Task::MoveWindow { window_id, diff_pos, timer, duration } => {
                wm.move_window(*window_id, *diff_pos, *timer, *duration, now, ease)
            },
            Task::ResizeWindow { window_id, dim, timer, duration } => {
                if phase == Phase::Manage && crate::manager::elapsed_since(now, *timer) > *duration {
                    wm.resize_window(*window_id, *dim, effects)
                } else {
                    false
                }
            },
            Task::MaximizeWindow { window_id } => {
                if phase != Phase::Manage {
                    return false;
                }
                wm.toggle_maximize(*window_id, now, effects);
                true
            },
            Task::SetCameraOffset { pos } => {
                wm.camera_offset = *pos;
                wm.render_camera_pos = Some(Position { x: -1, y: -1 });
                true
            },
            Task::SetCamera { pos, timer } => {
                wm.set_camera(*pos, *timer, anim);
                true
            },
            Task::MoveCamera { diff_pos, timer, duration } => {
                wm.move_camera(*diff_pos, *timer, *duration, now, ease)
            },
            Task::SetPointer { pos } => {
                wm.set_pointer(*pos, double, effects);
                true
            },
            Task::UnWatchRequest { .. } => true,
            Task::WatchRequest { .. } => true,
            Task::FocusWindow { window_id } => {
                wm.focus_named(window_id, now, effects);
                true
            },
            Task::InitNewOutput { id } => {
                match find_output(&wm.outputs, *id) {
                    Some(j) => {
                        if wm.outputs[j].layer.is_some() {
                            effects.push(Effect::SetDefaultLayer { output: *id });
                            assert(effects@ =~= old(effects)@ + seq![
                                Effect::SetDefaultLayer { output: *id },
                            ]);
                        } else {
                            assert(effects@ =~= old(effects)@ + Seq::<Effect>::empty());
                        }
                    },
                    None => {
                        assert(effects@ =~= old(effects)@ + Seq::<Effect>::empty());
                    },
                }
                true
            },
            Task::InitNewBackground { id } => {
                let has = match find_output(&wm.outputs, *id) {
                    Some(j) => wm.outputs[j].background,
                    None => false,
                };
                if has && phase == Phase::Render {
                    let base = match wm.render_camera_pos {
                        Some(p) => p,
                        None => wm.camera_pos,
                    };
                    effects.push(
                        Effect::RenderBackground {
                            output: *id,
                            camera: base.wrapping_add(wm.camera_offset),
                        },
                    );
                    true
                } else {
                    false
                }
            },
        }
    }
}


impl Task {
    /// Whether running the task is safe (`step_ok`).
    pub fn can_step(&self, wm: &WindowManager, phase: Phase) -> (r: bool)
        ensures
            r == step_ok(*self, wm, phase),
    {
        match self {
            Task::CloseWindow { window_id } => phase != Phase::Manage || wm.close_window_check(
                *window_id,
            ),
            Task::MaximizeWindow { window_id } => phase != Phase::Manage || wm.maximize_check(
                *window_id,
            ),
            Task::FocusWindow { window_id } => wm.focus_named_check(window_id),
            _ => true,
        }
    }
}

/// One tick of task `t`: it runs from `w0`, and is queued again when unfinished.
pub open spec fn tick_step<
    A: Fn(i32) -> u64,
    E: Fn(Position, u64, u64) -> Position,
    D: Fn(Position) -> Position,
>(
    t: Task,
    w0: &WindowManager,
    w1: &WindowManager,
    phase: Phase,
    now: u64,
    anim: A,
    ease: E,
    double: D,
    e0: Seq<Effect>,
    e1: Seq<Effect>,
) -> bool {
    exists|mid: WindowManager, done: bool|
        {
            &&& #[trigger] stepped(t, w0, &mid, phase, now, anim, ease, double, e0, e1, done)
            &&& *w1 == WindowManager { queue: w1.queue, ..mid }
            &&& w1.queue@ == if done {
                mid.queue@
            } else {
                mid.queue@.push(t)
            }
        }
}

/// Running `tasks` in order, each once, takes the window manager through `states`
/// and the effects through `effs`.
pub open spec fn ticked<
    A: Fn(i32) -> u64,
    E: Fn(Position, u64, u64) -> Position,
    D: Fn(Position) -> Position,
>(
    tasks: Seq<Task>,
    states: Seq<WindowManager>,
    effs: Seq<Seq<Effect>>,
    phase: Phase,
    now: u64,
    anim: A,
    ease: E,
    double: D,
) -> bool {
    &&& states.len() == tasks.len() + 1
    &&& effs.len() == tasks.len() + 1
    &&& forall|i: int|
        0 <= i < tasks.len() ==> step_ok(tasks[i], &states[i], phase) && #[trigger] tick_step(
            tasks[i],
            &states[i],
            &states[i + 1],
            phase,
            now,
            anim,
            ease,
            double,
            effs[i],
            effs[i + 1],
        )
}

/// The window manager with its queue emptied.
pub open spec fn drained(w: &WindowManager, q: Vec<Task>) -> WindowManager {
    WindowManager { queue: q, ..*w }
}

/// What a tick of the task queue did, with result `r` (see `tick_tasks`).
pub open spec fn ticks_ran<
    A: Fn(i32) -> u64,
    E: Fn(Position, u64, u64) -> Position,
    D: Fn(Position) -> Position,
>(
    w0: &WindowManager,
    w1: &WindowManager,
    r: Result<usize, usize>,
    phase: Phase,
    now: u64,
    anim: A,
    ease: E,
    double: D,
    e0: Seq<Effect>,
    e1: Seq<Effect>,
) -> bool {
    exists|states: Seq<WindowManager>, effs: Seq<Seq<Effect>>, k: int|
        {
            &&& 0 <= k <= w0.queue@.len()
            &&& #[trigger] ticked(w0.queue@.take(k), states, effs, phase, now, anim, ease, double)
            &&& states[0].queue@ == Seq::<Task>::empty()
            &&& states[0] == drained(w0, states[0].queue)
            &&& effs[0] == e0
            &&& effs[k] == e1
            &&& match r {
                Ok(n) => {
                    &&& n == w0.queue@.len()
                    &&& k == n
                    &&& *w1 == states[k]
                },
                Err(j) => {
                    &&& j == k
                    &&& k < w0.queue@.len()
                    &&& !step_ok(w0.queue@[k], &states[k], phase)
                    &&& *w1 == drained(&states[k], w1.queue)
                    &&& w1.queue@ == states[k].queue@ + w0.queue@.skip(k)
                },
            }
        }
}

impl WindowManager {
    /// Runs every queued task once, in order; unfinished tasks, and tasks that the
    /// run queues, wait for the next tick. Returns how many tasks there were, or,
    /// at a task that cannot run without a panic or an overflow, `Err` with its
    /// index; that task and those after it are then queued again, untouched.
    pub fn tick_tasks<
        A: Fn(i32) -> u64,
        E: Fn(Position, u64, u64) -> Position,
        D: Fn(Position) -> Position,
    >(
        &mut self,
        phase: Phase,
        now: u64,
        anim: &A,
        ease: &E,
        double: &D,
        effects: &mut Vec<Effect>,
    ) -> (r: Result<usize, usize>)
        requires
            forall|v: i32| call_requires(*anim, (v,)),
            forall|d: Position, e: u64, t: u64| call_requires(*ease, (d, e, t)),
            forall|d: Position| call_requires(*double, (d,)),
        ensures
            ticks_ran(old(self), final(self), r, phase, now, *anim, *ease, *double, old(effects)@, final(effects)@),
    {
        let mut pending: Vec<Task> = Vec::new();
        std::mem::swap(&mut pending, &mut self.queue);
        let ghost tasks = pending@;
        let ghost mut states: Seq<WindowManager> = seq![*self];
        let ghost mut effs: Seq<Seq<Effect>> = seq![effects@];
        let n = pending.len();
        let mut i: usize = 0;
        while i < n
            invariant
                0 <= i <= n,
                n == tasks.len(),
                tasks == old(self).queue@,
                pending@ == tasks.skip(i as int),
                forall|v: i32| call_requires(*anim, (v,)),
                forall|d: Position, e: u64, t: u64| call_requires(*ease, (d, e, t)),
                forall|d: Position| call_requires(*double, (d,)),
                ticked(tasks.take(i as int), states, effs, phase, now, *anim, *ease, *double),
                states[0].queue@ == Seq::<Task>::empty(),
                states[0] == drained(old(self), states[0].queue),
                effs[0] == old(effects)@,
                states[i as int] == *self,
                effs[i as int] == effects@,
            decreases n - i,
        {
            let mut task = pending.remove(0);
            assert(task == tasks[i as int]);
            if !task.can_step(self, phase) {
                let ghost k = i as int;
                self.queue.push(task);
                let mut j: usize = 0;
                let m = pending.len();
                assert(tasks.skip(k).take(1) =~= seq![tasks[k]]);
                while j < m
                    invariant
                        0 <= j <= m,
                        0 <= k < tasks.len(),
                        m == tasks.len() - (k + 1),
                        pending@ == tasks.skip(k + 1 + j),
                        self.queue@ == states[k].queue@ + tasks.skip(k).take(j + 1),
                        *self == drained(&states[k], self.queue),
                    decreases m - j,
                {
                    let t = pending.remove(0);
                    assert(t == tasks[k + 1 + j]);
                    self.queue.push(t);
                    assert(tasks.skip(k).take(j + 2) =~= tasks.skip(k).take(j + 1).push(tasks[k + 1 + j]));
                    assert(pending@ =~= tasks.skip(k + 1 + j + 1));
                    j += 1;
                }
                assert(tasks.skip(k).take(m + 1) =~= tasks.skip(k));
                return Err(i);
            }
            let ghost before = *self;
            let ghost e_before = effects@;
            let done = task.step(self, phase, now, anim, ease, double, effects);
            let ghost mid = *self;
            if !done {
                self.queue.push(task);
            }
            proof {
                assert(tick_step(tasks[i as int], &before, self, phase, now, *anim, *ease, *double, e_before, effects@));
                states = states.push(*self);
                effs = effs.push(effects@);
                assert(tasks.take(i + 1).drop_last() =~= tasks.take(i as int));
            }
            i += 1;
        }
        Ok(n)
    }
}


/// The camera moves that the tasks `q` still have to make, added up as `i32`
/// arithmetic does in a release build.
pub open spec fn pending_camera(q: Seq<Task>) -> Position
    decreases q.len(),
{
    if q.len() == 0 {
        Position { x: 0, y: 0 }
    } else {
        wrap_add(
            pending_camera(q.drop_last()),
            match q.last() {
                Task::MoveCamera { diff_pos, .. } => diff_pos,
                _ => Position { x: 0, y: 0 },
            },
        )
    }
}

/// The camera, moved by every camera move still to run in `q`, ends at `target`.
pub open spec fn camera_on_course(camera: Position, target: Position, q: Seq<Task>) -> bool {
    wrap_add(camera, pending_camera(q)) == target
}

/// Running a camera task keeps the camera on course: if the camera, moved by the
/// pending camera moves (the task itself included), reaches the target before the
/// step, it does after the step too (the task counted only while unfinished).
/// Setting the camera makes its position the target; an unfinished move leaves the
/// camera where it was.
pub proof fn lemma_camera_tasks_keep_course<
    A: Fn(i32) -> u64,
    E: Fn(Position, u64, u64) -> Position,
    D: Fn(Position) -> Position,
>(
    t: Task,
    w0: &WindowManager,
    w1: &WindowManager,
    phase: Phase,
    now: u64,
    anim: A,
    ease: E,
    double: D,
    e0: Seq<Effect>,
    e1: Seq<Effect>,
    done: bool,
)
    requires
        t is SetCamera || t is MoveCamera,
        stepped(t, w0, w1, phase, now, anim, ease, double, e0, e1, done),
        camera_on_course(w0.camera_pos, w0.target_camera_pos, w0.queue@.push(t)),
    ensures
        camera_on_course(
            w1.camera_pos,
            w1.target_camera_pos,
            if done {
                w1.queue@
            } else {
                w1.queue@.push(t)
            },
        ),
        t matches Task::SetCamera { pos, .. } ==> w1.target_camera_pos == pos,
        t is MoveCamera && !done ==> w1.camera_pos == w0.camera_pos,
{
    let q0 = w0.queue@;
    let p0 = pending_camera(q0);
    let zero = Position { x: 0, y: 0 };
    assert(q0.push(t).drop_last() == q0);
    match t {
        Task::SetCamera { pos, timer } => {
            let old_t = w0.target_camera_pos;
            let diff = wrap_sub(pos, old_t);
            let cam = w0.camera_pos;
            lemma_wrap_add_laws(p0, zero, zero);
            assert(wrap_add(cam, p0) == old_t);
            lemma_wrap_diff(old_t, pos);
            if diff != zero {
                let d = choose|d: u64| #[trigger] call_ensures(anim, (sq_len(diff),), d) && w1.queue@
                    == q0 + seq![Task::MoveCamera { diff_pos: diff, timer, duration: d }];
                let q1 = w1.queue@;
                assert(q1.drop_last() == q0);
                lemma_wrap_add_laws(cam, p0, diff);
            } else {
                assert(w1.queue@ == q0 + Seq::<Task>::empty());
                assert(w1.queue@ == q0);
                assert(pos == old_t);
            }
        },
        Task::MoveCamera { diff_pos, timer, duration } => {
            let cam = w0.camera_pos;
            assert(pending_camera(q0.push(t)) == wrap_add(p0, diff_pos));
            if done {
                lemma_wrap_add_laws(cam, p0, diff_pos);
                lemma_wrap_add_laws(cam, diff_pos, p0);
                lemma_wrap_add_laws(p0, diff_pos, zero);
            }
        },
        _ => {},
    }
}

}
