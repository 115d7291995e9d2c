use vstd::prelude::*;
use crate::checks::layout_fits_check;
use crate::desktop::{workspace_index, Desktop};
use crate::effect::Effect;
use crate::geometry::Position;
use crate::lookup::{find_id, find_window, has_window, id_index, window_index};
use crate::manager::WindowManager;
use crate::seat::{action_ok, focus_effects, focus_result, op_finished, op_fits, ran_action, Seat};
use crate::guards::op_fits_check;
use crate::slide::{clamp_active, layout_fits, layout_tasks, SlideModel, SlideType};
use crate::task::Task;
use crate::window::{WindowId, WindowLocation};
use crate::workspace::{slide_index, WorkspaceModel};

verus! {

/// Slide `si` of `w` with window `k` active.
pub open spec fn picked_slide(w: WorkspaceModel, si: int, k: int) -> SlideModel {
    SlideModel { active_window: k as usize, ..w.slides[si] }
}

/// Activating window `id` at location `loc` neither panics nor overflows: the
/// workspace, the slide in it and the window in that slide exist, and the slide can
/// be laid out.
pub open spec fn activate_ok(d: &Desktop, loc: WindowLocation, id: WindowId) -> bool {
    match workspace_index(d.workspaces@, loc.workspace_id@) {
        Some(wi) => {
            let w = d.workspaces@[wi as int]@;
            match slide_index(w.slides, loc.slide_id) {
                Some(si) => match id_index(w.slides[si as int].windows, id) {
                    Some(k) => layout_fits(picked_slide(w, si as int, k as int)),
                    None => false,
                },
                None => false,
            }
        },
        None => false,
    }
}

/// What activating window `id` at `loc` does (with `activate_ok`): its workspace
/// becomes the active one, its slide the active slide and it the slide's active
/// window, and the slide is laid out; unless the slide floats, the camera moves to
/// it and river is asked for a manage cycle.
pub open spec fn window_activated(
    d0: &Desktop,
    d1: &Desktop,
    loc: WindowLocation,
    id: WindowId,
    now: u64,
    q0: Seq<Task>,
    q1: Seq<Task>,
    e0: Seq<Effect>,
    e1: Seq<Effect>,
) -> bool {
    let wi = workspace_index(d0.workspaces@, loc.workspace_id@)->0 as int;
    let w = d0.workspaces@[wi]@;
    let si = slide_index(w.slides, loc.slide_id)->0 as int;
    let k = id_index(w.slides[si].windows, id)->0 as int;
    let s = picked_slide(w, si, k);
    &&& d1.active_workspace@ == loc.workspace_id@
    &&& d1.workspaces@.len() == d0.workspaces@.len()
    &&& d1.workspaces@[wi]@ == (WorkspaceModel {
        active_slide: si as usize,
        slides: w.slides.update(si, clamp_active(s)),
        ..w
    })
    &&& forall|j: int| 0 <= j < d0.workspaces@.len() && j != wi ==> #[trigger] d1.workspaces@[j] == d0.workspaces@[j]
    &&& if s.slide_type != SlideType::Floating {
        &&& q1 == q0.push(Task::SetCamera { pos: Position { x: s.position.0, y: s.position.1 }, timer: now }) + layout_tasks(clamp_active(s), now)
        &&& e1 == e0.push(Effect::ManageDirty)
    } else {
        q1 == q0 + layout_tasks(clamp_active(s), now) && e1 == e0
    }
}

impl Desktop {
    /// Whether activating window `id` at `loc` is safe (`activate_ok`).
    pub fn activate_check(&self, loc: &WindowLocation, id: WindowId) -> (r: bool)
        ensures
            r == activate_ok(self, *loc, id),
    {
        let wi = match self.workspace_pos(&loc.workspace_id) {
            Some(wi) => wi,
            None => {
                return false;
            },
        };
        let ws = &self.workspaces[wi];
        let si = match ws.find_slide(loc.slide_id) {
            Some(si) => si,
            None => {
                return false;
            },
        };
        assert(ws@.slides[si as int] == ws.slides@[si as int]@);
        let s = &ws.slides[si];
        let k = match find_id(&s.windows, id) {
            Some(k) => k,
            None => {
                return false;
            },
        };
        layout_fits_check(s.slide_type, s.position, s.dimensions, s.windows.len(), k)
    }

    /// Makes window `id` (at `loc`) the active window of its slide, that slide the
    /// active slide, and its workspace the active workspace.
    pub fn activate_window(
        &mut self,
        loc: &WindowLocation,
        id: WindowId,
        now: u64,
        queue: &mut Vec<Task>,
        effects: &mut Vec<Effect>,
    )
        requires
            activate_ok(old(self), *loc, id),
        ensures
            window_activated(
                old(self),
                final(self),
                *loc,
                id,
                now,
                old(queue)@,
                final(queue)@,
                old(effects)@,
                final(effects)@,
            ),
    {
        let wi = match self.workspace_pos(&loc.workspace_id) {
            Some(wi) => wi,
            None => {
                return;
            },
        };
        let ghost w = self.workspaces@[wi as int]@;
        let si = match self.workspaces[wi].find_slide(loc.slide_id) {
            Some(si) => si,
            None => {
                return;
            },
        };
        assert(w.slides[si as int] == self.workspaces@[wi as int].slides@[si as int]@);
        let k = match find_id(&self.workspaces[wi].slides[si].windows, id) {
            Some(k) => k,
            None => {
                return;
            },
        };
        self.active_workspace = loc.workspace_id.clone();
        self.workspaces[wi].active_slide = si;
        if self.workspaces[wi].slides[si].slide_type != SlideType::Floating {
            let p = self.workspaces[wi].slides[si].position;
            queue.push(Task::SetCamera { pos: Position { x: p.0, y: p.1 }, timer: now });
            effects.push(Effect::ManageDirty);
        }
        self.workspaces[wi].slides[si].active_window = k;
        assert(self.workspaces@[wi as int].slides@[si as int]@ == picked_slide(w, si as int, k as int));
        self.workspaces[wi].slides[si].rearrange(now, queue);
        assert(self.workspaces@[wi as int]@.slides =~= w.slides.update(
            si as int,
            clamp_active(picked_slide(w, si as int, k as int)),
        ));
    }
}

/// The seat once it has focused window `id` after an interaction.
pub open spec fn interacted_seat(s: Seat, id: WindowId) -> Seat {
    Seat { interacted: None, focused: focus_result(s.layer_focus, id), ..s }
}

/// Handling seat `i`'s interaction is safe: when the window it touched has a
/// location, activating it there is.
pub open spec fn interaction_ok(m: &WindowManager, i: int) -> bool {
    match m.seats@[i].interacted {
        Some(id) => match window_index(m.windows@, id) {
            Some(j) => match m.windows@[j as int].location {
                Some(loc) => activate_ok(&m.desktop, loc, id),
                None => true,
            },
            None => true,
        },
        None => true,
    }
}

/// What handling the interaction of seat `i` (with window `id`, if any) does: the
/// seat focuses the window; the window is put on top, and activated where it lives.
pub open spec fn interaction_handled(
    i: int,
    m0: &WindowManager,
    m1: &WindowManager,
    now: u64,
    e0: Seq<Effect>,
    e1: Seq<Effect>,
) -> bool {
    let s = m0.seats@[i];
    match s.interacted {
        None => *m1 == *m0 && e1 == e0,
        Some(id) => {
            let ef = e0 + focus_effects(s.id, s.layer_focus, id, has_window(m0.windows@, id));
            &&& m1.seats@ == m0.seats@.update(i, interacted_seat(s, id))
            &&& *m1 == WindowManager {
                seats: m1.seats,
                desktop: m1.desktop,
                queue: m1.queue,
                ..*m0
            }
            &&& match window_index(m0.windows@, id) {
                None => m1.desktop == m0.desktop && m1.queue == m0.queue && e1 == ef,
                Some(j) => match m0.windows@[j as int].location {
                    None => m1.desktop == m0.desktop && m1.queue == m0.queue && e1 == ef.push(
                        Effect::PlaceTop { window: id },
                    ),
                    Some(loc) => window_activated(
                        &m0.desktop,
                        &m1.desktop,
                        loc,
                        id,
                        now,
                        m0.queue@,
                        m1.queue@,
                        ef.push(Effect::PlaceTop { window: id }),
                        e1,
                    ),
                },
            }
        },
    }
}

impl WindowManager {
    /// Whether handling seat `i`'s interaction is safe (`interaction_ok`).
    pub fn interaction_check(&self, i: usize) -> (r: bool)
        requires
            i < self.seats@.len(),
        ensures
            r == interaction_ok(self, i as int),
    {
        match self.seats[i].interacted {
            Some(id) => match find_window(&self.windows, id) {
                Some(j) => match &self.windows[j].location {
                    Some(loc) => self.desktop.activate_check(loc, id),
                    None => true,
                },
                None => true,
            },
            None => true,
        }
    }

    /// Handles the interaction of seat `i` with a window, if there was one.
    pub fn handle_interaction(&mut self, i: usize, now: u64, effects: &mut Vec<Effect>)
        requires
            i < old(self).seats@.len(),
            interaction_ok(old(self), i as int),
        ensures
            interaction_handled(i as int, old(self), final(self), now, old(effects)@, final(effects)@),
    {
        let id = match self.seats[i].interacted {
            Some(id) => id,
            None => {
                return;
            },
        };
        self.seats[i].interacted = None;
        self.seats[i].focus_window(id, &self.windows, effects);
        assert(self.seats@ =~= old(self).seats@.update(i as int, interacted_seat(old(self).seats@[i as int], id)));
        match find_window(&self.windows, id) {
            Some(j) => {
                effects.push(Effect::PlaceTop { window: id });
                match &self.windows[j].location {
                    Some(loc) => {
                        self.desktop.activate_window(loc, id, now, &mut self.queue, effects);
                    },
                    None => {},
                }
            },
            None => {},
        }
    }
}


/// What seat `i` does in a manage cycle, from `m0` to `m1`: it handles its
/// interaction (giving `mid`), then runs its pending action and ends or follows its
/// pointer operation.
pub open spec fn seat_managed(
    i: int,
    m0: &WindowManager,
    mid: &WindowManager,
    m1: &WindowManager,
    now: u64,
    e0: Seq<Effect>,
    em: Seq<Effect>,
    e1: Seq<Effect>,
) -> bool {
    let s0 = mid.seats@[i];
    &&& interaction_ok(m0, i)
    &&& interaction_handled(i, m0, mid, now, e0, em)
    &&& action_ok(s0.pending_action@, &s0, &mid.desktop, mid.windows@, mid.outputs@)
    &&& op_fits(&s0)
    &&& exists|s: Seat, ea: Seq<Effect>|
        #[trigger] ran_action(
            s0.pending_action@,
            &s0,
            &s,
            &mid.desktop,
            &m1.desktop,
            mid.windows@,
            m1.windows@,
            mid.outputs@,
            mid.camera_pos,
            m1.camera_pos,
            mid.queue@,
            m1.queue@,
            now,
            em,
            ea,
        ) && op_finished(&s, &m1.seats@[i], m1.windows@, ea, e1)
    &&& m1.seats@[i].pending_action@ == crate::actions::ActionModel::Noop
    &&& m1.seats@.len() == mid.seats@.len()
    &&& forall|j: int| 0 <= j < mid.seats@.len() && j != i ==> #[trigger] m1.seats@[j] == mid.seats@[j]
    &&& *m1 == WindowManager {
        seats: m1.seats,
        desktop: m1.desktop,
        windows: m1.windows,
        camera_pos: m1.camera_pos,
        queue: m1.queue,
        ..*mid
    }
}

/// Seats `0..n` managed in order take the state through `states` (with `mids` after
/// each interaction).
pub open spec fn seats_ran(
    n: int,
    states: Seq<WindowManager>,
    mids: Seq<WindowManager>,
    effs: Seq<Seq<Effect>>,
    emids: Seq<Seq<Effect>>,
    now: u64,
) -> bool {
    &&& states.len() == n + 1
    &&& effs.len() == n + 1
    &&& mids.len() == n
    &&& emids.len() == n
    &&& forall|k: int|
        0 <= k < n ==> #[trigger] managed_at(k, states, mids, effs, emids, now)
}

/// Step `k` of managing the seats.
pub open spec fn managed_at(
    k: int,
    states: Seq<WindowManager>,
    mids: Seq<WindowManager>,
    effs: Seq<Seq<Effect>>,
    emids: Seq<Seq<Effect>>,
    now: u64,
) -> bool {
    seat_managed(k, &states[k], &mids[k], &states[k + 1], now, effs[k], emids[k], effs[k + 1])
}

/// What managing the seats does, with result `r` (see `manage_seats`).
pub open spec fn seats_managed(w0: &WindowManager, w1: &WindowManager, r: Result<(), usize>, now: u64, e0: Seq<Effect>, e1: Seq<Effect>) -> bool {
    &&& exists|states: Seq<WindowManager>, mids: Seq<WindowManager>, effs: Seq<Seq<Effect>>,
            emids: Seq<Seq<Effect>>, k: int|
            {
                &&& 0 <= k <= w0.seats@.len()
                &&& #[trigger] seats_ran(k, states, mids, effs, emids, now)
                &&& states[0] == *w0
                &&& effs[0] == e0
                &&& match r {
                    Ok(()) => k == w0.seats@.len() && states[k] == *w1 && effs[k]
                        == e1,
                    Err(j) => j == k && k < w0.seats@.len() && (!interaction_ok(&states[k], k)
                        || exists|mid: WindowManager, em: Seq<Effect>|
                        #[trigger] interaction_handled(k, &states[k], &mid, now, effs[k], em) && !(
                        action_ok(
                            mid.seats@[k].pending_action@,
                            &mid.seats@[k],
                            &mid.desktop,
                            mid.windows@,
                            mid.outputs@,
                        ) && op_fits(&mid.seats@[k]))),
                }
            }
}

impl WindowManager {
    /// Lets every seat, in order, handle the window it interacted with and run its
    /// pending action. `Err` with the index of a seat whose interaction or action
    /// cannot run without a panic or an overflow.
    pub fn manage_seats(&mut self, now: u64, effects: &mut Vec<Effect>) -> (r: Result<(), usize>)
        ensures
            seats_managed(old(self), final(self), r, now, old(effects)@, final(effects)@),
    {
        let ghost mut states: Seq<WindowManager> = seq![*self];
        let ghost mut mids: Seq<WindowManager> = Seq::empty();
        let ghost mut effs: Seq<Seq<Effect>> = seq![effects@];
        let ghost mut emids: Seq<Seq<Effect>> = Seq::empty();
        let n = self.seats.len();
        let mut i: usize = 0;
        while i < n
            invariant
                0 <= i <= n,
                n == old(self).seats@.len(),
                self.seats@.len() == n,
                seats_ran(i as int, states, mids, effs, emids, now),
                states[0] == *old(self),
                effs[0] == old(effects)@,
                states[i as int] == *self,
                effs[i as int] == effects@,
            decreases n - i,
        {
            if !self.interaction_check(i) {
                return Err(i);
            }
            let ghost before = *self;
            let ghost e_before = effects@;
            self.handle_interaction(i, now, effects);
            let ghost mid = *self;
            let ghost em = effects@;
            if !self.seats[i].action_check(
                &self.seats[i].pending_action,
                &self.desktop,
                &self.windows,
                &self.outputs,
            ) || !op_fits_check(&self.seats[i]) {
                return Err(i);
            }
            self.seats[i].do_action(
                &mut self.desktop,
                &mut self.windows,
                &self.outputs,
                &mut self.camera_pos,
                &mut self.queue,
                now,
                effects,
            );
            proof {
                assert(seat_managed(i as int, &before, &mid, self, now, e_before, em, effects@));
                let os = states;
                let om = mids;
                let oe = effs;
                let oem = emids;
                states = states.push(*self);
                mids = mids.push(mid);
                effs = effs.push(effects@);
                emids = emids.push(em);
                assert forall|k: int| 0 <= k < i + 1 implies #[trigger] managed_at(
                    k,
                    states,
                    mids,
                    effs,
                    emids,
                    now,
                ) by {
                    if k < i {
                        assert(managed_at(k, os, om, oe, oem, now));
                    }
                }
            }
            i += 1;
        }
        Ok(())
    }
}

}
