use vstd::prelude::*;
use crate::config::Config;
use crate::effect::Effect;
use crate::frame::nodes_placed;
use crate::geometry::Position;
use crate::interact::seats_managed;
use crate::manage::{
    keysyms_fit, keysyms_resolved, resolve_keysyms, outputs_removed, requests_started, seats_inited, seats_removed, windows_inited,
    windows_removed,
};
use crate::manager::{all_focused, focus_all, focus_all_effects, WindowManager};
use crate::seat::Seat;
use crate::task::{ticks_ran, Phase};
use crate::window::Window;
use crate::workspace::WorkspaceModel;

verus! {

/// Where a manage cycle stopped because the next step would panic or overflow, with
/// the index of the item at fault.
#[derive(Debug, Clone, Copy, PartialEq, Eq, Structural)]
pub enum ManageFault {
    /// A queued task.
    Task(usize),
    /// A closed window (in the window list).
    ClosedWindow(usize),
    /// A seat.
    Seat(usize),
    /// A new window (among the new windows).
    NewWindow(usize),
    /// A window's pointer request (in the window list).
    WindowRequest(usize),
    /// A workspace that asked for its active slide to be focused.
    Workspace(usize),
}

/// A workspace once its request to focus its active slide is handled.
pub open spec fn focus_handled(w: WorkspaceModel) -> WorkspaceModel {
    WorkspaceModel { focus_active_requested: false, child_rearrange_required: true, ..w }
}

/// Handling, workspace after workspace, the requests to focus the active slide: the
/// camera goes to that slide and every seat focuses its active window (when it has
/// windows). The camera, seats and effects that result, or `None` at a workspace
/// whose active slide or active window is out of range.
pub open spec fn focus_requests(
    ws: Seq<WorkspaceModel>,
    cam: Position,
    seats: Seq<Seat>,
    windows: Seq<Window>,
) -> Option<(Position, Seq<Seat>, Seq<Effect>)>
    decreases ws.len(),
{
    if ws.len() == 0 {
        Some((cam, seats, Seq::empty()))
    } else {
        match focus_requests(ws.drop_last(), cam, seats, windows) {
            Some((c, ss, e)) => {
                let w = ws.last();
                if !w.focus_active_requested {
                    Some((c, ss, e))
                } else if w.active_slide >= w.slides.len() {
                    None
                } else {
                    let s = w.slides[w.active_slide as int];
                    let c2 = Position { x: s.position.0, y: s.position.1 };
                    if s.windows.len() == 0 {
                        Some((c2, ss, e))
                    } else if s.active_window >= s.windows.len() {
                        None
                    } else {
                        let t = s.windows[s.active_window as int];
                        Some((c2, all_focused(ss, t), e + focus_all_effects(ss, t, windows)))
                    }
                }
            },
            None => None,
        }
    }
}

/// What handling the workspaces' focus requests does, with result `r`.
pub open spec fn focus_requests_done(
    w0: &WindowManager,
    w1: &WindowManager,
    r: Result<(), usize>,
    e0: Seq<Effect>,
    e1: Seq<Effect>,
) -> bool {
    match focus_requests(
        w0.desktop.workspaces@.map_values(|w: crate::workspace::Workspace| w@),
        w0.camera_pos,
        w0.seats@,
        w0.windows@,
    ) {
        Some((cam, seats, e)) => {
            &&& r is Ok
            &&& w1.camera_pos == cam
            &&& w1.seats@ == seats
            &&& e1 == e0 + e
            &&& w1.desktop.active_workspace == w0.desktop.active_workspace
            &&& w1.desktop.workspaces@.len() == w0.desktop.workspaces@.len()
            &&& forall|j: int|
                0 <= j < w0.desktop.workspaces@.len() ==> #[trigger] w1.desktop.workspaces@[j]@
                    == if w0.desktop.workspaces@[j]@.focus_active_requested {
                    focus_handled(w0.desktop.workspaces@[j]@)
                } else {
                    w0.desktop.workspaces@[j]@
                }
            &&& *w1 == WindowManager {
                camera_pos: w1.camera_pos,
                seats: w1.seats,
                desktop: w1.desktop,
                ..*w0
            }
        },
        None => r is Err,
    }
}


/// Once a prefix of the workspaces fails, so do all of them.
proof fn lemma_focus_fails_on(
    ws: Seq<WorkspaceModel>,
    cam: Position,
    seats: Seq<Seat>,
    windows: Seq<Window>,
    k: int,
)
    requires
        0 <= k <= ws.len(),
        focus_requests(ws.take(k), cam, seats, windows) is None,
    ensures
        focus_requests(ws, cam, seats, windows) is None,
    decreases ws.len(),
{
    if k == ws.len() {
        assert(ws.take(k) =~= ws);
    } else {
        assert(ws.drop_last().take(k) =~= ws.take(k));
        lemma_focus_fails_on(ws.drop_last(), cam, seats, windows, k);
    }
}

impl WindowManager {
    /// Handles the workspaces' requests to focus their active slide. `Err` with the
    /// index of a workspace whose active slide, or whose slide's active window, is
    /// out of range.
    pub fn focus_requested_slides(&mut self, effects: &mut Vec<Effect>) -> (r: Result<(), usize>)
        ensures
            focus_requests_done(old(self), final(self), r, old(effects)@, final(effects)@),
    {
        let ghost views = self.desktop.workspaces@.map_values(|w: crate::workspace::Workspace| w@);
        let ghost windows = self.windows@;
        let n = self.desktop.workspaces.len();
        let mut j: usize = 0;
        assert(views.take(0) =~= Seq::<WorkspaceModel>::empty());
        assert(old(effects)@ + Seq::<Effect>::empty() =~= old(effects)@);
        while j < n
            invariant
                0 <= j <= n,
                n == old(self).desktop.workspaces@.len(),
                views == old(self).desktop.workspaces@.map_values(|w: crate::workspace::Workspace| w@),
                windows == old(self).windows@,
                self.desktop.workspaces@.len() == n,
                self.desktop.active_workspace == old(self).desktop.active_workspace,
                *self == (WindowManager {
                    camera_pos: self.camera_pos,
                    seats: self.seats,
                    desktop: self.desktop,
                    ..*old(self)
                }),
                forall|t: int|
                    0 <= t < j ==> #[trigger] self.desktop.workspaces@[t]@ == if views[t].focus_active_requested {
                        focus_handled(views[t])
                    } else {
                        views[t]
                    },
                forall|t: int| j <= t < n ==> self.desktop.workspaces@[t] == old(self).desktop.workspaces@[t],
                focus_requests(views.take(j as int), old(self).camera_pos, old(self).seats@, windows)
                    matches Some((c, ss, e)) && c == self.camera_pos && ss == self.seats@ && effects@
                    == old(effects)@ + e,
            decreases n - j,
        {
            assert(views.take(j + 1).drop_last() =~= views.take(j as int));
            assert(views.take(j + 1).last() == views[j as int]);
            assert(views[j as int] == self.desktop.workspaces@[j as int]@);
            let ghost e_prev = effects@;
            if self.desktop.workspaces[j].focus_active_requested {
                let a = self.desktop.workspaces[j].active_slide;
                if a >= self.desktop.workspaces[j].slides.len() {
                    proof {
                        lemma_focus_fails_on(views, old(self).camera_pos, old(self).seats@, windows, j + 1);
                    }
                    return Err(j);
                }
                assert(views[j as int].slides[a as int] == self.desktop.workspaces@[j as int].slides@[a as int]@);
                let p = self.desktop.workspaces[j].slides[a].position;
                self.camera_pos = Position { x: p.0, y: p.1 };
                let len = self.desktop.workspaces[j].slides[a].windows.len();
                if len > 0 {
                    let aw = self.desktop.workspaces[j].slides[a].active_window;
                    if aw >= len {
                        proof {
                            lemma_focus_fails_on(views, old(self).camera_pos, old(self).seats@, windows, j + 1);
                        }
                        return Err(j);
                    }
                    let t = self.desktop.workspaces[j].slides[a].windows[aw];
                    focus_all(&mut self.seats, t, &self.windows, effects);
                }
                self.desktop.workspaces[j].focus_active_requested = false;
                self.desktop.workspaces[j].child_rearrange_required = true;
                assert(self.desktop.workspaces@[j as int]@ =~= focus_handled(views[j as int]));
            }
            proof {
                let (c, ss, e) = focus_requests(views.take(j as int), old(self).camera_pos, old(self).seats@, windows)->0;
                assert(effects@ =~= old(effects)@ + focus_requests(views.take(j + 1), old(self).camera_pos, old(self).seats@, windows).unwrap().2);
            }
            j += 1;
        }
        assert(views.take(n as int) =~= views);
        Ok(())
    }
}


/// What the rest of a manage cycle does once the workspaces' focus requests are
/// handled: the windows' nodes are placed.
pub open spec fn cycle_tail(
    m8: &WindowManager,
    w: &WindowManager,
    r: Result<(), ManageFault>,
    e8: Seq<Effect>,
    e: Seq<Effect>,
) -> bool {
    exists|m9: WindowManager, e9: Seq<Effect>, rf: Result<(), usize>|
        {
            &&& #[trigger] focus_requests_done(m8, &m9, rf, e8, e9)
            &&& match rf {
                Err(k) => r == Err::<(), ManageFault>(ManageFault::Workspace(k)) && *w == m9 && e == e9,
                Ok(()) => r is Ok && nodes_placed(&m9, w, e9, e),
            }
        }
}

/// What a manage cycle does once the seats are managed: new windows are set up,
/// windows' pointer requests are started, then the tail runs.
pub open spec fn cycle_after_seats(
    m6: &WindowManager,
    w: &WindowManager,
    r: Result<(), ManageFault>,
    force_ssd: bool,
    e6: Seq<Effect>,
    e: Seq<Effect>,
) -> bool {
    exists|m7: WindowManager, e7: Seq<Effect>, ri: Result<(), usize>|
        {
            &&& #[trigger] windows_inited(m6, &m7, ri, force_ssd, e6, e7)
            &&& match ri {
                Err(k) => r == Err::<(), ManageFault>(ManageFault::NewWindow(k)) && *w == m7 && e == e7,
                Ok(()) => exists|m8: WindowManager, e8: Seq<Effect>, rq: Result<(), usize>|
                    {
                        &&& #[trigger] requests_started(&m7, &m8, rq, e7, e8)
                        &&& match rq {
                            Err(k) => r == Err::<(), ManageFault>(ManageFault::WindowRequest(k)) && *w
                                == m8 && e == e8,
                            Ok(()) => cycle_tail(&m8, w, r, e8, e),
                        }
                    },
            }
        }
}

/// What a manage cycle does once closed things are dropped: new seats get their
/// bindings, the seats are managed, then the rest runs.
pub open spec fn cycle_after_removal(
    m4: &WindowManager,
    w: &WindowManager,
    r: Result<(), ManageFault>,
    config: &Config,
    keysyms: &Vec<Vec<Option<u32>>>,
    debug: bool,
    now: u64,
    e4: Seq<Effect>,
    e: Seq<Effect>,
) -> bool {
    exists|m5: WindowManager, e5: Seq<Effect>, m6: WindowManager, e6: Seq<Effect>, rs: Result<(), usize>|
        {
            &&& #[trigger] seats_inited(m4, &m5, config, keysyms, debug, e4, e5)
            &&& #[trigger] seats_managed(&m5, &m6, rs, now, e5, e6)
            &&& match rs {
                Err(k) => r == Err::<(), ManageFault>(ManageFault::Seat(k)) && *w == m6 && e == e6,
                Ok(()) => cycle_after_seats(&m6, w, r, config.window.force_ssd, e6, e),
            }
        }
}

/// What a manage cycle does once the task queue has run: removed outputs, seats and
/// closed windows are dropped, then the rest runs.
pub open spec fn cycle_after_tick(
    m1: &WindowManager,
    w: &WindowManager,
    r: Result<(), ManageFault>,
    config: &Config,
    keysyms: &Vec<Vec<Option<u32>>>,
    debug: bool,
    now: u64,
    e1: Seq<Effect>,
    e: Seq<Effect>,
) -> bool {
    exists|
        m2: WindowManager,
        e2: Seq<Effect>,
        m3: WindowManager,
        e3: Seq<Effect>,
        m4: WindowManager,
        e4: Seq<Effect>,
        rw: Result<(), usize>,
    |
        {
            &&& #[trigger] outputs_removed(m1, &m2, e1, e2)
            &&& #[trigger] seats_removed(&m2, &m3, e2, e3)
            &&& #[trigger] windows_removed(&m3, &m4, rw, now, e3, e4)
            &&& match rw {
                Err(k) => r == Err::<(), ManageFault>(ManageFault::ClosedWindow(k)) && *w == m4 && e
                    == e4,
                Ok(()) => cycle_after_removal(&m4, w, r, config, keysyms, debug, now, e4, e),
            }
        }
}

/// What a whole manage cycle does, with result `r` (see `handle_manage_start`).
pub open spec fn manage_cycle<
    A: Fn(i32) -> u64,
    E: Fn(Position, u64, u64) -> Position,
    D: Fn(Position) -> Position,
>(
    w0: &WindowManager,
    w: &WindowManager,
    r: Result<(), ManageFault>,
    config: &Config,
    keysyms: &Vec<Vec<Option<u32>>>,
    debug: bool,
    now: u64,
    anim: A,
    ease: E,
    double: D,
    e0: Seq<Effect>,
    e: Seq<Effect>,
) -> bool {
    exists|m1: WindowManager, e1: Seq<Effect>, t: Result<usize, usize>|
        {
            &&& #[trigger] ticks_ran(w0, &m1, t, Phase::Manage, now, anim, ease, double, e0, e1)
            &&& match t {
                Err(k) => r == Err::<(), ManageFault>(ManageFault::Task(k)) && *w == m1 && e == e1,
                Ok(_) => cycle_after_tick(&m1, w, r, config, keysyms, debug, now, e1, e),
            }
        }
}

impl WindowManager {
    /// River starts a manage cycle: the task queue runs (manage half), removed
    /// outputs and seats and closed windows are dropped, new seats get their
    /// bindings (each key name looked up through `lookup`), seats handle their interactions and actions, new windows are set up,
    /// windows' pointer requests start, workspaces' focus requests are handled and
    /// the windows' nodes are placed; then the cycle is finished. `Err` says which step would have panicked or
    /// overflowed, and at which item; the cycle stops there.
    pub fn handle_manage_start<
        A: Fn(i32) -> u64,
        E: Fn(Position, u64, u64) -> Position,
        D: Fn(Position) -> Position,
        K: Fn(&str) -> u32,
    >(
        &mut self,
        config: &Config,
        lookup: &K,
        debug: bool,
        now: u64,
        anim: &A,
        ease: &E,
        double: &D,
        effects: &mut Vec<Effect>,
    ) -> (r: Result<(), ManageFault>)
        requires
            forall|n: &str| call_requires(*lookup, (n,)),
            forall|v: i32| call_requires(*anim, (v,)),
            forall|d: Position, e: u64, t: u64| call_requires(*ease, (d, e, t)),
            forall|d: Position| call_requires(*double, (d,)),
        ensures
            exists|keysyms: Vec<Vec<Option<u32>>>|
                #![trigger keysyms_resolved(config.bindings@, keysyms@, *lookup)]
                keysyms_resolved(config.bindings@, keysyms@, *lookup) && manage_cycle(
                old(self),
                final(self),
                r,
                config,
                &keysyms,
                debug,
                now,
                *anim,
                *ease,
                *double,
                old(effects)@,
                if r is Ok {
                    final(effects)@.drop_last()
                } else {
                    final(effects)@
                },
            ),
            r is Ok ==> final(effects)@.len() > 0 && final(effects)@.last() == Effect::ManageFinish,
    {
        let keysyms = resolve_keysyms(&config.bindings, lookup);
        let t = self.tick_tasks(Phase::Manage, now, anim, ease, double, effects);
        let ghost m1 = *self;
        let ghost e1 = effects@;
        assert(ticks_ran(old(self), &m1, t, Phase::Manage, now, *anim, *ease, *double, old(effects)@, e1));
        if let Err(k) = t {
            return Err(ManageFault::Task(k));
        }
        self.remove_outputs(effects);
        let ghost m2 = *self;
        let ghost e2 = effects@;
        self.remove_seats(effects);
        let ghost m3 = *self;
        let ghost e3 = effects@;
        assert(outputs_removed(&m1, &m2, e1, e2));
        assert(seats_removed(&m2, &m3, e2, e3));
        let rw = self.remove_windows(now, effects);
        let ghost m4 = *self;
        let ghost e4 = effects@;
        assert(windows_removed(&m3, &m4, rw, now, e3, e4));
        if let Err(k) = rw {
            return Err(ManageFault::ClosedWindow(k));
        }
        self.init_new_seats(config, &keysyms, debug, effects);
        let ghost m5 = *self;
        let ghost e5 = effects@;
        assert(seats_inited(&m4, &m5, config, &keysyms, debug, e4, e5));
        let rs = self.manage_seats(now, effects);
        let ghost m6 = *self;
        let ghost e6 = effects@;
        assert(seats_managed(&m5, &m6, rs, now, e5, e6));
        if let Err(k) = rs {
            assert(cycle_after_removal(&m4, self, Err(ManageFault::Seat(k)), config, &keysyms, debug, now, e4, effects@));
            return Err(ManageFault::Seat(k));
        }
        let ri = self.init_new_windows(config.window.force_ssd, effects);
        let ghost m7 = *self;
        let ghost e7 = effects@;
        assert(windows_inited(&m6, &m7, ri, config.window.force_ssd, e6, e7));
        if let Err(k) = ri {
            assert(cycle_after_seats(&m6, self, Err(ManageFault::NewWindow(k)), config.window.force_ssd, e6, effects@));
            assert(cycle_after_removal(&m4, self, Err(ManageFault::NewWindow(k)), config, &keysyms, debug, now, e4, effects@));
            return Err(ManageFault::NewWindow(k));
        }
        let rq = self.manage_windows(effects);
        let ghost m8 = *self;
        let ghost e8 = effects@;
        assert(requests_started(&m7, &m8, rq, e7, e8));
        if let Err(k) = rq {
            assert(cycle_after_seats(&m6, self, Err(ManageFault::WindowRequest(k)), config.window.force_ssd, e6, effects@));
            assert(cycle_after_removal(&m4, self, Err(ManageFault::WindowRequest(k)), config, &keysyms, debug, now, e4, effects@));
            return Err(ManageFault::WindowRequest(k));
        }
        let rf = self.focus_requested_slides(effects);
        let ghost m9 = *self;
        let ghost e9 = effects@;
        assert(focus_requests_done(&m8, &m9, rf, e8, e9));
        if let Err(k) = rf {
            assert(cycle_tail(&m8, self, Err(ManageFault::Workspace(k)), e8, effects@));
            assert(cycle_after_seats(&m6, self, Err(ManageFault::Workspace(k)), config.window.force_ssd, e6, effects@));
            assert(cycle_after_removal(&m4, self, Err(ManageFault::Workspace(k)), config, &keysyms, debug, now, e4, effects@));
            return Err(ManageFault::Workspace(k));
        }
        self.set_window_node_positions(effects);
        assert(cycle_tail(&m8, self, Ok(()), e8, effects@));
        assert(cycle_after_seats(&m6, self, Ok(()), config.window.force_ssd, e6, effects@));
        assert(cycle_after_removal(&m4, self, Ok(()), config, &keysyms, debug, now, e4, effects@));
        let ghost placed = effects@;
        effects.push(Effect::ManageFinish);
        assert(effects@.drop_last() =~= placed);
        Ok(())
    }
}

}
